//! The server as a systemd service: its unit file, and the commands that manage it.

use vstd::prelude::*;

use crate::surroundings::{text_in, Surroundings};
use crate::text::{has_part, join_path, joined3, path_below};

verus! {

/// The user's home directory, where the unit file of a user's service lies, is not known.
#[derive(Debug, Clone, Copy, PartialEq, Eq)]
pub struct NoHomeDirectory;

/// A command of systemd.
#[derive(Debug)]
pub struct ServiceCommand {
    pub program: String,
    pub user: bool,
    pub words: Vec<String>,
}

/// What the texts hold.
pub open spec fn texts(words: Seq<String>) -> Seq<Seq<char>> {
    words.map_values(|w: String| w@)
}

impl ServiceCommand {
    /// The command is `program` with `words`, for a user's service or the system's.
    pub open spec fn is(&self, program: Seq<char>, user: bool, words: Seq<Seq<char>>) -> bool {
        self.program@ == program && self.user == user && texts(self.words@) == words
    }

    /// The arguments of the program.
    pub open spec fn arguments(&self) -> Seq<Seq<char>> {
        if self.user {
            seq!["--user"@] + texts(self.words@)
        } else {
            texts(self.words@)
        }
    }

    /// The arguments of the program: a user's service is asked for first.
    pub fn args(&self) -> (r: Vec<String>)
        ensures
            texts(r@) == self.arguments(),
    {
        let mut args: Vec<String> = Vec::new();
        if self.user {
            args.push("--user".to_owned());
        }
        let ghost flag = args@;
        let n: usize = self.words.len();
        for i in 0..n
            invariant
                n == self.words@.len(),
                args@ == flag + self.words@.take(i as int),
        {
            args.push(self.words[i].clone());
            assert(args@ =~= flag + self.words@.take(i + 1));
        }
        assert(self.words@.take(n as int) =~= self.words@);
        assert(texts(args@) =~= self.arguments());
        args
    }

    /// A command with one word behind the program.
    fn of_one(program: &str, user: bool, word: &str) -> (r: Self)
        ensures
            r.is(program@, user, seq![word@]),
    {
        let r = ServiceCommand { program: program.to_owned(), user, words: vec![word.to_owned()] };
        assert(texts(r.words@) =~= seq![word@]);
        r
    }

    /// A command with two words behind the program.
    fn of_two(program: &str, user: bool, first: &str, second: &str) -> (r: Self)
        ensures
            r.is(program@, user, seq![first@, second@]),
    {
        let r = ServiceCommand {
            program: program.to_owned(),
            user,
            words: vec![first.to_owned(), second.to_owned()],
        };
        assert(texts(r.words@) =~= seq![first@, second@]);
        r
    }

    /// A command with three words behind the program.
    fn of_three(program: &str, user: bool, first: &str, second: &str, third: &str) -> (r: Self)
        ensures
            r.is(program@, user, seq![first@, second@, third@]),
    {
        let r = ServiceCommand {
            program: program.to_owned(),
            user,
            words: vec![first.to_owned(), second.to_owned(), third.to_owned()],
        };
        assert(texts(r.words@) =~= seq![first@, second@, third@]);
        r
    }
}

/// How the service is installed: the unit file is written, and the commands are run. That a
/// command fails has no consequence.
#[derive(Debug)]
pub struct Installation {
    pub unit_path: String,
    pub unit_content: String,
    pub commands: Vec<ServiceCommand>,
}

/// How the service is uninstalled: commands are run, the unit file is removed if it is there,
/// and more commands are run. That a command fails has no consequence.
#[derive(Debug)]
pub struct Removal {
    pub commands: Vec<ServiceCommand>,
    pub unit_path: String,
    pub final_commands: Vec<ServiceCommand>,
}

/// Where the unit file lies.
pub open spec fn unit_location(user: bool, home: Option<Seq<char>>) -> Option<Seq<char>> {
    if user {
        match home {
            Some(home) => Some(path_below(home, ".config/systemd/user/joycast.service"@)),
            None => None,
        }
    } else {
        Some("/etc/systemd/system/joycast.service"@)
    }
}

/// The unit file for the program at `exec`.
pub open spec fn unit_text(user: bool, exec: Seq<char>) -> Seq<char> {
    "[Unit]\nDescription=Joycast Gamepad Server Daemon\nAfter=network.target\n\n[Service]\nType=simple\nExecStart="@
        + exec + if user {
        " server\nRestart=on-failure\nRestartSec=5\n\n[Install]\nWantedBy=default.target\n"@
    } else {
        " server\nRestart=on-failure\nRestartSec=5\nUser=root\nSupplementaryGroups=input\n\n[Install]\nWantedBy=multi-user.target\n"@
    }
}

/// The process has the rights of the system's administrator.
pub open spec fn is_administrator(s: &Surroundings) -> bool {
    s.user_is_root() || s.sudo_user is Some || s.journal_stream
}

/// Manages the service of a user or of the system.
#[derive(Debug)]
pub struct ServiceManager {
    is_user: bool,
}

impl ServiceManager {
    /// The service is a user's.
    pub closed spec fn user(&self) -> bool {
        self.is_user
    }

    /// The manager of the user's service where that is asked for or where the process has not
    /// the rights for the system's.
    pub fn new(user_mode: bool, s: &Surroundings) -> (r: Self)
        ensures
            r.user() == (user_mode || !is_administrator(s)),
    {
        let is_user = if user_mode {
            true
        } else {
            !ServiceManager::is_root(s)
        };
        ServiceManager { is_user }
    }

    /// Whether the process has the rights of the system's administrator.
    fn is_root(s: &Surroundings) -> (r: bool)
        ensures
            r == is_administrator(s),
    {
        s.is_root_user() || s.sudo_user.is_some() || s.journal_stream
    }

    /// Return path to systemd unit file
    pub fn unit_path(&self, home_dir: &Option<String>) -> (r: Result<String, NoHomeDirectory>)
        ensures
            match unit_location(self.user(), text_in(*home_dir)) {
                Some(path) => r matches Ok(p) && p@ == path,
                None => r is Err,
            },
    {
        if self.is_user {
            match home_dir {
                Some(home) => Ok(join_path(home, ".config/systemd/user/joycast.service")),
                None => Err(NoHomeDirectory),
            }
        } else {
            Ok("/etc/systemd/system/joycast.service".to_owned())
        }
    }

    /// Generate systemd unit file content
    pub fn generate_unit_content(&self, exec_path: &str) -> (r: String)
        ensures
            r@ == unit_text(self.user(), exec_path@),
    {
        if self.is_user {
            joined3(
                "[Unit]\nDescription=Joycast Gamepad Server Daemon\nAfter=network.target\n\n[Service]\nType=simple\nExecStart=",
                exec_path,
                " server\nRestart=on-failure\nRestartSec=5\n\n[Install]\nWantedBy=default.target\n",
            )
        } else {
            joined3(
                "[Unit]\nDescription=Joycast Gamepad Server Daemon\nAfter=network.target\n\n[Service]\nType=simple\nExecStart=",
                exec_path,
                " server\nRestart=on-failure\nRestartSec=5\nUser=root\nSupplementaryGroups=input\n\n[Install]\nWantedBy=multi-user.target\n",
            )
        }
    }

    /// How the service of the program at `exec_path` is installed.
    pub fn install(&self, exec_path: &str, home_dir: &Option<String>) -> (r: Result<
        Installation,
        NoHomeDirectory,
    >)
        ensures
            match unit_location(self.user(), text_in(*home_dir)) {
                Some(path) => {
                    &&& r is Ok
                    &&& r->Ok_0.unit_path@ == path
                    &&& r->Ok_0.unit_content@ == unit_text(self.user(), exec_path@)
                    &&& r->Ok_0.commands@.len() == 2
                    &&& r->Ok_0.commands@[0].is(
                        "systemctl"@,
                        self.user(),
                        seq!["daemon-reload"@],
                    )
                    &&& r->Ok_0.commands@[1].is(
                        "systemctl"@,
                        self.user(),
                        seq!["enable"@, "joycast"@],
                    )
                },
                None => r is Err,
            },
    {
        match self.unit_path(home_dir) {
            Ok(unit_path) => Ok(
                Installation {
                    unit_path,
                    unit_content: self.generate_unit_content(exec_path),
                    commands: vec![
                        ServiceCommand::of_one("systemctl", self.is_user, "daemon-reload"),
                        ServiceCommand::of_two("systemctl", self.is_user, "enable", "joycast"),
                    ],
                },
            ),
            Err(e) => Err(e),
        }
    }

    /// How the service is uninstalled.
    pub fn uninstall(&self, home_dir: &Option<String>) -> (r: Result<Removal, NoHomeDirectory>)
        ensures
            match unit_location(self.user(), text_in(*home_dir)) {
                Some(path) => {
                    &&& r is Ok
                    &&& r->Ok_0.commands@.len() == 2
                    &&& r->Ok_0.commands@[0].is(
                        "systemctl"@,
                        self.user(),
                        seq!["stop"@, "joycast"@],
                    )
                    &&& r->Ok_0.commands@[1].is(
                        "systemctl"@,
                        self.user(),
                        seq!["disable"@, "joycast"@],
                    )
                    &&& r->Ok_0.unit_path@ == path
                    &&& r->Ok_0.final_commands@.len() == 1
                    &&& r->Ok_0.final_commands@[0].is(
                        "systemctl"@,
                        self.user(),
                        seq!["daemon-reload"@],
                    )
                },
                None => r is Err,
            },
    {
        match self.unit_path(home_dir) {
            Ok(unit_path) => Ok(
                Removal {
                    commands: vec![
                        ServiceCommand::of_two("systemctl", self.is_user, "stop", "joycast"),
                        ServiceCommand::of_two("systemctl", self.is_user, "disable", "joycast"),
                    ],
                    unit_path,
                    final_commands: vec![
                        ServiceCommand::of_one("systemctl", self.is_user, "daemon-reload"),
                    ],
                },
            ),
            Err(e) => Err(e),
        }
    }

    /// The command that starts the service.
    pub fn start(&self) -> (r: ServiceCommand)
        ensures
            r.is("systemctl"@, self.user(), seq!["start"@, "joycast"@]),
    {
        ServiceCommand::of_two("systemctl", self.is_user, "start", "joycast")
    }

    /// The command that stops the service.
    pub fn stop(&self) -> (r: ServiceCommand)
        ensures
            r.is("systemctl"@, self.user(), seq!["stop"@, "joycast"@]),
    {
        ServiceCommand::of_two("systemctl", self.is_user, "stop", "joycast")
    }

    /// The command that restarts the service.
    pub fn restart(&self) -> (r: ServiceCommand)
        ensures
            r.is("systemctl"@, self.user(), seq!["restart"@, "joycast"@]),
    {
        ServiceCommand::of_two("systemctl", self.is_user, "restart", "joycast")
    }

    /// The command that shows the status of the service.
    pub fn status(&self) -> (r: ServiceCommand)
        ensures
            r.is("systemctl"@, self.user(), seq!["status"@, "joycast"@]),
    {
        ServiceCommand::of_two("systemctl", self.is_user, "status", "joycast")
    }

    /// The command that follows the logs of the service.
    pub fn logs(&self) -> (r: ServiceCommand)
        ensures
            r.is("journalctl"@, self.user(), seq!["-u"@, "joycast"@, "-f"@]),
    {
        ServiceCommand::of_three("journalctl", self.is_user, "-u", "joycast", "-f")
    }
}

/// Exactly the commands for a user's service ask for it.
pub proof fn law_user_commands_say_so(c: ServiceCommand)
    requires
        c.words@.len() > 0,
        c.words@[0]@ != "--user"@,
    ensures
        c.user <==> c.arguments()[0] == "--user"@,
{
}

/// A user's unit file lies in the user's home and needs one; the system's lies in one place.
pub proof fn law_where_unit_files_lie(home: Option<Seq<char>>)
    ensures
        unit_location(true, home) is Some <==> home is Some,
        home matches Some(h) ==> unit_location(true, home) == Some(
            path_below(h, ".config/systemd/user/joycast.service"@),
        ),
        unit_location(false, home) == Some("/etc/systemd/system/joycast.service"@),
{
}

/// The unit file starts the server at the given path, and depends on the path in nothing else; the
/// system's differs from a user's.
pub proof fn law_unit_file_starts_the_program(user: bool, exec: Seq<char>, other: Seq<char>) -> (r: (
    Seq<char>,
    Seq<char>,
))
    ensures
        unit_text(user, exec) == r.0 + exec + r.1,
        unit_text(user, other) == r.0 + other + r.1,
        has_part(unit_text(user, exec), "ExecStart="@ + exec + " server"@),
{
    reveal_strlit("[Unit]\nDescription=Joycast Gamepad Server Daemon\nAfter=network.target\n\n[Service]\nType=simple\nExecStart=");
    reveal_strlit("ExecStart=");
    reveal_strlit(" server");
    reveal_strlit(" server\nRestart=on-failure\nRestartSec=5\n\n[Install]\nWantedBy=default.target\n");
    reveal_strlit(" server\nRestart=on-failure\nRestartSec=5\nUser=root\nSupplementaryGroups=input\n\n[Install]\nWantedBy=multi-user.target\n");
    let head = "[Unit]\nDescription=Joycast Gamepad Server Daemon\nAfter=network.target\n\n[Service]\nType=simple\nExecStart="@;
    let tail = if user {
        " server\nRestart=on-failure\nRestartSec=5\n\n[Install]\nWantedBy=default.target\n"@
    } else {
        " server\nRestart=on-failure\nRestartSec=5\nUser=root\nSupplementaryGroups=input\n\n[Install]\nWantedBy=multi-user.target\n"@
    };
    let part = "ExecStart="@ + exec + " server"@;
    let at = head.len() - "ExecStart="@.len();
    assert(unit_text(user, exec).subrange(at, at + part.len()) =~= part);
    (head, tail)
}

/// The process has the rights of the administrator as `root`, under `sudo`, and as a service that
/// writes to the journal.
pub proof fn law_who_is_administrator(s: Surroundings)
    ensures
        is_administrator(&s) <==> text_in(s.user) == Some("root"@) || s.sudo_user is Some
            || s.journal_stream,
{
}

/// The arguments of a command are its words, behind the mark of a user's service where it is one.
pub proof fn law_arguments_are_the_words(c: ServiceCommand, i: int)
    requires
        0 <= i < c.words@.len(),
    ensures
        !c.user ==> c.arguments().len() == c.words@.len() && c.arguments()[i] == c.words@[i]@,
        c.user ==> c.arguments().len() == c.words@.len() + 1 && c.arguments()[i + 1]
            == c.words@[i]@ && c.arguments()[0] == "--user"@,
{
}

} // verus!
