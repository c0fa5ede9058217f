//! The passwd side of the name service: users as passwd entries.

use vstd::prelude::*;
use vstd::string::*;
use crate::error::Error;
use crate::interop::Response;
use crate::keycloak::users::{KeycloakUser, UserView};

verus! {

/// An entry of the passwd database.
#[derive(Debug, Clone, PartialEq, Eq)]
pub struct Passwd {
    pub name: String,
    pub passwd: String,
    pub uid: u32,
    pub gid: u32,
    pub gecos: String,
    pub dir: String,
    pub shell: String,
}

/// [`Passwd`] with texts as character sequences.
pub struct PasswdView {
    pub name: Seq<char>,
    pub passwd: Seq<char>,
    pub uid: u32,
    pub gid: u32,
    pub gecos: Seq<char>,
    pub dir: Seq<char>,
    pub shell: Seq<char>,
}

impl View for Passwd {
    type V = PasswdView;

    open spec fn view(&self) -> PasswdView {
        PasswdView {
            name: self.name@,
            passwd: self.passwd@,
            uid: self.uid,
            gid: self.gid,
            gecos: self.gecos@,
            dir: self.dir@,
            shell: self.shell@,
        }
    }
}

impl DeepView for Passwd {
    type V = PasswdView;

    open spec fn deep_view(&self) -> PasswdView {
        self@
    }
}

/// The passwd entry of a user. The password field holds the marker `x`: the
/// password is kept elsewhere.
pub open spec fn passwd_of(user: UserView) -> PasswdView {
    PasswdView {
        name: user.username,
        passwd: "x"@,
        uid: user.uid,
        gid: user.gid,
        gecos: user.gecos,
        dir: user.homedir,
        shell: user.loginshell,
    }
}

/// The passwd entries of a list of users, one for each and in their order.
pub open spec fn passwds_of(users: Seq<UserView>) -> Seq<PasswdView> {
    Seq::new(users.len(), |i: int| passwd_of(users[i]))
}

impl Passwd {
    /// The passwd entry of `user`.
    pub fn from(user: KeycloakUser) -> (entry: Passwd)
        ensures
            entry@ == passwd_of(user@),
    {
        Passwd {
            name: user.username,
            passwd: "x".to_owned(),
            uid: user.uid,
            gid: user.gid,
            gecos: user.gecos,
            dir: user.homedir,
            shell: user.loginshell,
        }
    }
}

/// The answers of the passwd database, from the outcome of a lookup.
///
/// A lookup that failed, for want of a token or of a reply, is answered by
/// [`Response::TryAgain`]: such failures pass.
pub struct KeycloakNssPasswd;

impl KeycloakNssPasswd {
    /// The answer to a request for all entries, from the outcome of the
    /// listing of users.
    pub fn get_all_entries(outcome: Result<Vec<KeycloakUser>, Error>) -> (response: Response<
        Vec<Passwd>,
    >)
        ensures
            match outcome {
                Ok(users) => response matches Response::Success(entries) && entries.deep_view()
                    == passwds_of(users.deep_view()),
                Err(_) => response is TryAgain,
            },
    {
        match outcome {
            Ok(users) => {
                let ghost all = users@;
                let mut entries: Vec<Passwd> = Vec::new();
                for user in it: users
                    invariant
                        it.seq() == all,
                        entries.len() == it.index(),
                        forall|j: int|
                            0 <= j < it.index() ==> (#[trigger] entries@[j])@ == passwd_of(
                                all[j]@,
                            ),
                {
                    entries.push(Passwd::from(user));
                }
                assert(entries.deep_view() =~= passwds_of(users.deep_view()));
                Response::Success(entries)
            },
            Err(_) => Response::TryAgain,
        }
    }

    /// The answer to a request for the entry with a given uid, from the
    /// outcome of the lookup of that user.
    pub fn get_entry_by_uid(outcome: Result<Option<KeycloakUser>, Error>) -> (response: Response<
        Passwd,
    >)
        ensures
            match outcome {
                Ok(Some(user)) => response matches Response::Success(entry) && entry@
                    == passwd_of(user@),
                Ok(None) => response is NotFound,
                Err(_) => response is TryAgain,
            },
    {
        match outcome {
            Ok(Some(user)) => Response::Success(Passwd::from(user)),
            Ok(None) => Response::NotFound,
            Err(_) => Response::TryAgain,
        }
    }

    /// The answer to a request for the entry with a given name, from the
    /// outcome of the lookup of that user.
    pub fn get_entry_by_name(outcome: Result<Option<KeycloakUser>, Error>) -> (response: Response<
        Passwd,
    >)
        ensures
            match outcome {
                Ok(Some(user)) => response matches Response::Success(entry) && entry@
                    == passwd_of(user@),
                Ok(None) => response is NotFound,
                Err(_) => response is TryAgain,
            },
    {
        match outcome {
            Ok(Some(user)) => Response::Success(Passwd::from(user)),
            Ok(None) => Response::NotFound,
            Err(_) => Response::TryAgain,
        }
    }
}

} // verus!
