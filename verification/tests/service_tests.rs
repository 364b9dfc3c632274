use joycast::service::{NoHomeDirectory, ServiceCommand, ServiceManager};
use joycast::surroundings::Surroundings;

fn around() -> Surroundings {
    Surroundings {
        user: Some("ann".into()),
        sudo_user: None,
        systemd_exec_pid: false,
        journal_stream: false,
        config_dir: None,
        home_dir: Some("/home/ann".into()),
    }
}

fn root() -> Surroundings {
    Surroundings { user: Some("root".into()), ..around() }
}

fn line(c: &ServiceCommand) -> String {
    format!("{} {}", c.program, c.args().join(" "))
}

#[test]
fn only_an_administrator_manages_the_system_service() {
    let home = Some("/home/ann".to_owned());
    let path = |user: bool, s: &Surroundings| ServiceManager::new(user, s).unit_path(&home).unwrap();
    let of_user = "/home/ann/.config/systemd/user/joycast.service";
    let of_system = "/etc/systemd/system/joycast.service";
    assert_eq!(path(false, &around()), of_user);
    assert_eq!(path(true, &root()), of_user);
    assert_eq!(path(false, &root()), of_system);
    assert_eq!(path(false, &Surroundings { sudo_user: Some("".into()), ..around() }), of_system);
    assert_eq!(path(false, &Surroundings { journal_stream: true, ..around() }), of_system);
    assert_eq!(path(false, &Surroundings { systemd_exec_pid: true, ..around() }), of_user);
    assert_eq!(ServiceManager::new(true, &root()).unit_path(&None), Err(NoHomeDirectory));
    assert_eq!(ServiceManager::new(false, &root()).unit_path(&None).unwrap(), of_system);
}

#[test]
fn unit_files_start_the_server() {
    assert_eq!(
        ServiceManager::new(true, &root()).generate_unit_content("/usr/bin/joycast"),
        r#"[Unit]
Description=Joycast Gamepad Server Daemon
After=network.target

[Service]
Type=simple
ExecStart=/usr/bin/joycast server
Restart=on-failure
RestartSec=5

[Install]
WantedBy=default.target
"#
    );
    assert_eq!(
        ServiceManager::new(false, &root()).generate_unit_content("/usr/bin/joycast"),
        r#"[Unit]
Description=Joycast Gamepad Server Daemon
After=network.target

[Service]
Type=simple
ExecStart=/usr/bin/joycast server
Restart=on-failure
RestartSec=5
User=root
SupplementaryGroups=input

[Install]
WantedBy=multi-user.target
"#
    );
}

#[test]
fn the_service_is_installed_and_uninstalled() {
    let home = Some("/home/ann".to_owned());
    let manager = ServiceManager::new(true, &around());
    let plan = manager.install("/bin/joycast", &home).unwrap();
    assert_eq!(plan.unit_path, "/home/ann/.config/systemd/user/joycast.service");
    assert_eq!(plan.unit_content, manager.generate_unit_content("/bin/joycast"));
    let lines: Vec<String> = plan.commands.iter().map(line).collect();
    assert_eq!(
        lines,
        vec!["systemctl --user daemon-reload", "systemctl --user enable joycast"]
    );
    let removal = manager.uninstall(&home).unwrap();
    assert_eq!(removal.unit_path, plan.unit_path);
    let lines: Vec<String> = removal.commands.iter().map(line).collect();
    assert_eq!(
        lines,
        vec!["systemctl --user stop joycast", "systemctl --user disable joycast"]
    );
    let lines: Vec<String> = removal.final_commands.iter().map(line).collect();
    assert_eq!(lines, vec!["systemctl --user daemon-reload"]);
    assert!(manager.install("/bin/joycast", &None).is_err());
    assert!(manager.uninstall(&None).is_err());
}

#[test]
fn the_service_is_managed_by_commands() {
    let manager = ServiceManager::new(false, &root());
    assert_eq!(line(&manager.start()), "systemctl start joycast");
    assert_eq!(line(&manager.stop()), "systemctl stop joycast");
    assert_eq!(line(&manager.restart()), "systemctl restart joycast");
    assert_eq!(line(&manager.status()), "systemctl status joycast");
    assert_eq!(line(&manager.logs()), "journalctl -u joycast -f");
    let manager = ServiceManager::new(true, &root());
    assert_eq!(line(&manager.logs()), "journalctl --user -u joycast -f");
    assert_eq!(manager.start().words, vec!["start", "joycast"]);
}
