//! What a process finds around it: the variables and directories that decide where files go.

use vstd::prelude::*;

use crate::text::same;

verus! {

/// The environment of the process, as far as the crate looks at it.
#[derive(Debug)]
pub struct Surroundings {
    /// The value of `USER`.
    pub user: Option<String>,
    /// The value of `SUDO_USER`.
    pub sudo_user: Option<String>,
    /// `SYSTEMD_EXEC_PID` is set.
    pub systemd_exec_pid: bool,
    /// `JOURNAL_STREAM` is set.
    pub journal_stream: bool,
    /// The user's configuration directory.
    pub config_dir: Option<String>,
    /// The user's home directory.
    pub home_dir: Option<String>,
}

/// The characters of a text that may be missing.
pub open spec fn text_in(o: Option<String>) -> Option<Seq<char>> {
    match o {
        Some(s) => Some(s@),
        None => None,
    }
}

impl Surroundings {
    /// The ordinary account on whose behalf `sudo` runs the process.
    pub open spec fn account(&self) -> Option<Seq<char>> {
        match text_in(self.sudo_user) {
            Some(u) => if u.len() > 0 && u != "root"@ {
                Some(u)
            } else {
                None
            },
            None => None,
        }
    }

    /// The process belongs to `root`.
    pub open spec fn user_is_root(&self) -> bool {
        text_in(self.user) == Some("root"@)
    }

    /// The ordinary account on whose behalf `sudo` runs the process.
    pub fn sudo_account(&self) -> (r: Option<&String>)
        ensures
            match r {
                Some(u) => self.account() == Some(u@),
                None => self.account() is None,
            },
    {
        match &self.sudo_user {
            Some(u) => if !u.as_str().is_empty() && !same(u, "root") {
                Some(u)
            } else {
                None
            },
            None => None,
        }
    }

    /// Whether the process belongs to `root`.
    pub fn is_root_user(&self) -> (r: bool)
        ensures
            r == self.user_is_root(),
    {
        match &self.user {
            Some(u) => same(u, "root"),
            None => false,
        }
    }
}

/// An account that uses `sudo` counts where it has a name that is not `root`.
pub proof fn law_which_account_counts(s: Surroundings)
    ensures
        s.account() is Some <==> s.sudo_user is Some && s.sudo_user->0@.len() > 0
            && s.sudo_user->0@ != "root"@,
        s.account() matches Some(u) ==> u == s.sudo_user->0@,
        s.user_is_root() <==> s.user is Some && s.user->0@ == "root"@,
{
}

} // verus!
