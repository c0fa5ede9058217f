//! The group side of the name service: groups as group entries.

use vstd::prelude::*;
use vstd::string::*;
use crate::error::Error;
use crate::interop::Response;
use crate::keycloak::groups::{GroupView, KeycloakGroup};

verus! {

/// An entry of the group database.
#[derive(Debug, Clone, PartialEq, Eq)]
pub struct Group {
    pub name: String,
    pub passwd: String,
    pub gid: u32,
    pub members: Vec<String>,
}

/// [`Group`] with texts as character sequences.
pub struct GroupEntryView {
    pub name: Seq<char>,
    pub passwd: Seq<char>,
    pub gid: u32,
    pub members: Seq<Seq<char>>,
}

impl View for Group {
    type V = GroupEntryView;

    open spec fn view(&self) -> GroupEntryView {
        GroupEntryView {
            name: self.name@,
            passwd: self.passwd@,
            gid: self.gid,
            members: self.members.deep_view(),
        }
    }
}

impl DeepView for Group {
    type V = GroupEntryView;

    open spec fn deep_view(&self) -> GroupEntryView {
        self@
    }
}

/// The group entry of a group. The password field holds the marker `x`.
pub open spec fn entry_of(group: GroupView) -> GroupEntryView {
    GroupEntryView { name: group.name, passwd: "x"@, gid: group.gid, members: group.members }
}

/// The group entries of a list of groups, one for each and in their order.
pub open spec fn entries_of(groups: Seq<GroupView>) -> Seq<GroupEntryView> {
    Seq::new(groups.len(), |i: int| entry_of(groups[i]))
}

impl Group {
    /// The group entry of `group`.
    pub fn from(group: KeycloakGroup) -> (entry: Group)
        ensures
            entry@ == entry_of(group@),
    {
        Group { name: group.name, passwd: "x".to_owned(), gid: group.gid, members: group.members }
    }
}

/// The answers of the group database, from the outcome of a lookup.
///
/// A lookup that failed, for want of a token or of a reply, is answered by
/// [`Response::TryAgain`]: such failures pass.
pub struct KeycloakNssGroup;

impl KeycloakNssGroup {
    /// The answer to a request for all entries, from the outcome of the
    /// listing of groups.
    pub fn get_all_entries(outcome: Result<Vec<KeycloakGroup>, Error>) -> (response: Response<
        Vec<Group>,
    >)
        ensures
            match outcome {
                Ok(groups) => response matches Response::Success(entries) && entries.deep_view()
                    == entries_of(groups.deep_view()),
                Err(_) => response is TryAgain,
            },
    {
        match outcome {
            Ok(groups) => {
                let ghost all = groups@;
                let mut entries: Vec<Group> = Vec::new();
                for group in it: groups
                    invariant
                        it.seq() == all,
                        entries.len() == it.index(),
                        forall|j: int|
                            0 <= j < it.index() ==> (#[trigger] entries@[j])@ == entry_of(all[j]@),
                {
                    entries.push(Group::from(group));
                }
                assert(entries.deep_view() =~= entries_of(groups.deep_view()));
                Response::Success(entries)
            },
            Err(_) => Response::TryAgain,
        }
    }

    /// The answer to a request for the entry with a given gid, from the
    /// outcome of the lookup of that group.
    pub fn get_entry_by_gid(outcome: Result<Option<KeycloakGroup>, Error>) -> (response: Response<
        Group,
    >)
        ensures
            match outcome {
                Ok(Some(group)) => response matches Response::Success(entry) && entry@
                    == entry_of(group@),
                Ok(None) => response is NotFound,
                Err(_) => response is TryAgain,
            },
    {
        match outcome {
            Ok(None) => Response::NotFound,
            Ok(Some(group)) => Response::Success(Group::from(group)),
            Err(_) => Response::TryAgain,
        }
    }

    /// The answer to a request for the entry with a given name, from the
    /// outcome of the lookup of that group.
    pub fn get_entry_by_name(outcome: Result<Option<KeycloakGroup>, Error>) -> (response: Response<
        Group,
    >)
        ensures
            match outcome {
                Ok(Some(group)) => response matches Response::Success(entry) && entry@
                    == entry_of(group@),
                Ok(None) => response is NotFound,
                Err(_) => response is TryAgain,
            },
    {
        match outcome {
            Err(_) => Response::TryAgain,
            Ok(None) => Response::NotFound,
            Ok(Some(group)) => Response::Success(Group::from(group)),
        }
    }
}

} // verus!
