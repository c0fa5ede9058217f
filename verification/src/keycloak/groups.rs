//! Groups: from the provider's records to group-style identity records.
//!
//! The provider lists groups without their members. The members of each
//! group take a request of their own, so a lookup of groups is a
//! [`GroupListing`]: a list of candidates that is worked off one request at a
//! time. A group that cannot be mapped is left out; a request that fails
//! fails the lookup.

use vstd::prelude::*;
use vstd::string::*;
use crate::config::{KeycloakConfig, MappingConfig};
use crate::decimal::{decimal, lemma_parse_decimal, parse_number, parse_u32};
use crate::error::{Error, ErrorView, MappingErrorView, RequestError, RequestErrorView};
use crate::keycloak::model::{
    get_single_attribute, number_of, required_number, single_attribute, KeycloakGroupResponse,
    KeycloakUserResponse,
};
use crate::keycloak::request::{Method, Request, RequestView};

verus! {

/// A group of the provider as an identity record.
#[derive(Debug, Clone, PartialEq, Eq)]
pub struct KeycloakGroup {
    pub name: String,
    pub gid: u32,
    pub members: Vec<String>,
}

/// [`KeycloakGroup`] with texts as character sequences.
pub struct GroupView {
    pub name: Seq<char>,
    pub gid: u32,
    pub members: Seq<Seq<char>>,
}

impl View for KeycloakGroup {
    type V = GroupView;

    open spec fn view(&self) -> GroupView {
        GroupView { name: self.name@, gid: self.gid, members: self.members.deep_view() }
    }
}

impl DeepView for KeycloakGroup {
    type V = GroupView;

    open spec fn deep_view(&self) -> GroupView {
        self@
    }
}

/// Address under which the realm's groups are listed.
pub open spec fn groups_url(config: KeycloakConfig) -> Seq<char> {
    config.url@ + "/admin/realms/"@ + config.realm@ + "/groups"@
}

/// Address under which the members of the group with the id `group_id` are
/// listed.
pub open spec fn group_members_url(config: KeycloakConfig, group_id: Seq<char>) -> Seq<char> {
    config.url@ + "/admin/realms/"@ + config.realm@ + "/groups/"@ + group_id + "/members"@
}

/// The address under which the realm's groups are listed.
pub fn get_groups_url(config: &KeycloakConfig) -> (url: String)
    ensures
        url@ == groups_url(*config),
{
    let mut url = config.url.clone();
    url.append("/admin/realms/");
    url.append(config.realm.as_str());
    url.append("/groups");
    url
}

/// The address under which the members of one group are listed.
pub fn get_group_members_url(config: &KeycloakConfig, group_id: &str) -> (url: String)
    ensures
        url@ == group_members_url(*config, group_id@),
{
    let mut url = config.url.clone();
    url.append("/admin/realms/");
    url.append(config.realm.as_str());
    url.append("/groups/");
    url.append(group_id);
    url.append("/members");
    url
}

/// The request for the members of the group with the id `group_id`.
pub open spec fn members_request(
    config: KeycloakConfig,
    access_token: Seq<char>,
    group_id: Seq<char>,
) -> RequestView {
    RequestView {
        method: Method::Get,
        url: group_members_url(config, group_id),
        bearer: Some(access_token),
        params: Seq::empty(),
    }
}

/// Describes the request for the members of one group.
pub fn group_member_request(config: &KeycloakConfig, access_token: &str, group_id: &str) -> (request:
    Request)
    ensures
        request@ == members_request(*config, access_token@, group_id@),
{
    let params: Vec<(String, String)> = Vec::new();
    assert(params.deep_view() =~= Seq::empty());
    Request {
        method: Method::Get,
        url: get_group_members_url(config, group_id),
        bearer: Some(access_token.to_owned()),
        params,
    }
}

/// Describes a query for groups: a `GET` of the groups' address with the
/// given query and `access_token` as bearer token.
pub fn groups_request(
    config: &KeycloakConfig,
    access_token: &str,
    params: Vec<(String, String)>,
) -> (request: Request)
    ensures
        request@ == (RequestView {
            method: Method::Get,
            url: groups_url(*config),
            bearer: Some(access_token@),
            params: params.deep_view(),
        }),
{
    Request {
        method: Method::Get,
        url: get_groups_url(config),
        bearer: Some(access_token.to_owned()),
        params,
    }
}

/// The query that lists all groups.
pub open spec fn all_groups_query() -> Seq<(Seq<char>, Seq<char>)> {
    seq![("briefRepresentation"@, "false"@)]
}

/// The query that searches groups by name.
pub open spec fn group_by_name_query(name: Seq<char>) -> Seq<(Seq<char>, Seq<char>)> {
    seq![("search"@, name), ("briefRepresentation"@, "false"@)]
}

/// Describes the request that lists all groups of the realm. Its reply
/// starts [`list_groups`] and [`get_group_by_gid`].
pub fn all_groups_request(config: &KeycloakConfig, access_token: &str) -> (request: Request)
    ensures
        request@ == (RequestView {
            method: Method::Get,
            url: groups_url(*config),
            bearer: Some(access_token@),
            params: all_groups_query(),
        }),
{
    let mut params: Vec<(String, String)> = Vec::new();
    params.push(("briefRepresentation".to_owned(), "false".to_owned()));
    assert(params.deep_view() =~= all_groups_query());
    groups_request(config, access_token, params)
}

/// Describes the request that searches groups by name. Its reply starts
/// [`get_group_by_name`].
pub fn group_by_name_request(config: &KeycloakConfig, access_token: &str, name: &str) -> (request:
    Request)
    ensures
        request@ == (RequestView {
            method: Method::Get,
            url: groups_url(*config),
            bearer: Some(access_token@),
            params: group_by_name_query(name@),
        }),
{
    let mut params: Vec<(String, String)> = Vec::new();
    params.push(("search".to_owned(), name.to_owned()));
    params.push(("briefRepresentation".to_owned(), "false".to_owned()));
    assert(params.deep_view() =~= group_by_name_query(name@));
    groups_request(config, access_token, params)
}

/// The names of the users in a reply, in its order and as the provider
/// wrote them.
pub open spec fn usernames(records: Seq<KeycloakUserResponse>) -> Seq<Seq<char>> {
    Seq::new(records.len(), |i: int| records[i].username@)
}

/// What came back for a request for the members of a group.
pub type MembersReply = Result<Vec<KeycloakUserResponse>, RequestError>;

/// The identity record of a group, given the reply to the request for its
/// members.
///
/// A request that failed fails the group, whatever its attributes hold: such
/// a failure is not the record's fault. Then the gid attribute decides: it
/// must have exactly one value, and that value must be a number. The members
/// are taken by name as they are, without mapping.
pub open spec fn group_of(
    group: KeycloakGroupResponse,
    mapping: MappingConfig,
    members: MembersReply,
) -> Result<GroupView, ErrorView> {
    match members {
        Err(cause) => Err(ErrorView::Request(cause@)),
        Ok(records) => match single_attribute(group.attributes, mapping.group_gid@) {
            Err(e) => Err(ErrorView::Mapping(e)),
            Ok(value) => match required_number(value, mapping.group_gid@) {
                Err(e) => Err(ErrorView::Mapping(e)),
                Ok(gid) => Ok(GroupView { name: group.name@, gid, members: usernames(records@) }),
            },
        },
    }
}

/// [`Result`] of resolving a group, with texts as character sequences.
pub open spec fn group_view(r: Result<KeycloakGroup, Error>) -> Result<GroupView, ErrorView> {
    match r {
        Ok(group) => Ok(group@),
        Err(e) => Err(e@),
    }
}

fn member_names(records: &Vec<KeycloakUserResponse>) -> (names: Vec<String>)
    ensures
        names.deep_view() == usernames(records@),
{
    let mut names: Vec<String> = Vec::new();
    let mut i: usize = 0;
    while i < records.len()
        invariant
            i <= records.len(),
            names.len() == i,
            forall|j: int| 0 <= j < i ==> (#[trigger] names@[j])@ == records@[j].username@,
        decreases records.len() - i,
    {
        names.push(records[i].username.clone());
        i += 1;
    }
    assert(names.deep_view() =~= usernames(records@));
    names
}

/// Resolves a group from its record and the reply to the request for its
/// members, as [`group_of`] defines it.
pub fn add_group_members(
    attribute_mapping: &MappingConfig,
    group: &KeycloakGroupResponse,
    members: MembersReply,
) -> (r: Result<KeycloakGroup, Error>)
    ensures
        group_view(r) == group_of(*group, *attribute_mapping, members),
{
    let records = match members {
        Ok(records) => records,
        Err(cause) => {
            return Err(Error::Request(cause));
        },
    };
    let value = match get_single_attribute(
        &group.attributes,
        attribute_mapping.group_gid.as_str(),
    ) {
        Ok(value) => value,
        Err(e) => {
            return Err(Error::Mapping(e));
        },
    };
    let gid = match number_of(value, &attribute_mapping.group_gid) {
        Ok(gid) => gid,
        Err(e) => {
            return Err(Error::Mapping(e));
        },
    };
    Ok(KeycloakGroup { name: group.name.clone(), gid, members: member_names(&records) })
}

/// Whether a group is a candidate in a lookup by gid: its gid attribute has
/// exactly one value, and that value maps to `gid`. The number counts, not
/// the way it is written: `0501` maps to 501.
pub open spec fn has_gid(group: KeycloakGroupResponse, mapping: MappingConfig, gid: u32) -> bool {
    match single_attribute(group.attributes, mapping.group_gid@) {
        Ok(Some(text)) => parse_u32(text) == Some(gid),
        _ => false,
    }
}

/// Those of `records` that are candidates in a lookup by gid, in their order.
pub open spec fn groups_with_gid(
    records: Seq<KeycloakGroupResponse>,
    mapping: MappingConfig,
    gid: u32,
) -> Seq<KeycloakGroupResponse>
    decreases records.len(),
{
    if records.len() == 0 {
        Seq::empty()
    } else {
        let before = groups_with_gid(records.drop_last(), mapping, gid);
        if has_gid(records.last(), mapping, gid) {
            before.push(records.last())
        } else {
            before
        }
    }
}

/// A group is a candidate of a lookup by gid exactly if it resolves to that
/// gid once its members have come. So a candidate that resolves has the gid
/// that was looked for, and no group with that gid is left out.
pub proof fn lemma_candidate_has_gid(
    group: KeycloakGroupResponse,
    mapping: MappingConfig,
    gid: u32,
    records: Vec<KeycloakUserResponse>,
)
    ensures
        has_gid(group, mapping, gid) <==> (group_of(group, mapping, Ok(records)) matches Ok(
            resolved,
        ) && resolved.gid == gid),
{
}

/// The shortest numeral of a gid is one of the ways to write it: a group
/// whose gid attribute holds it is a candidate.
pub proof fn lemma_shortest_numeral_has_gid(
    group: KeycloakGroupResponse,
    mapping: MappingConfig,
    gid: u32,
)
    requires
        single_attribute(group.attributes, mapping.group_gid@) == Ok::<
            Option<Seq<char>>,
            MappingErrorView,
        >(Some(decimal(gid as nat))),
    ensures
        has_gid(group, mapping, gid),
{
    lemma_parse_decimal(gid);
}

/// Every candidate of a lookup by gid is one of the groups of the reply, in
/// the order of the reply, and is admitted by [`has_gid`].
pub proof fn lemma_groups_with_gid(
    records: Seq<KeycloakGroupResponse>,
    mapping: MappingConfig,
    gid: u32,
)
    ensures
        groups_with_gid(records, mapping, gid).len() <= records.len(),
        forall|i: int|
            0 <= i < groups_with_gid(records, mapping, gid).len() ==> has_gid(
                #[trigger] groups_with_gid(records, mapping, gid)[i],
                mapping,
                gid,
            ) && records.contains(groups_with_gid(records, mapping, gid)[i]),
        (forall|i: int| 0 <= i < records.len() ==> !has_gid(#[trigger] records[i], mapping, gid))
            ==> groups_with_gid(records, mapping, gid).len() == 0,
    decreases records.len(),
{
    if records.len() > 0 {
        let before = records.drop_last();
        lemma_groups_with_gid(before, mapping, gid);
        let candidates = groups_with_gid(records, mapping, gid);
        assert forall|i: int| 0 <= i < candidates.len() implies has_gid(
            #[trigger] candidates[i],
            mapping,
            gid,
        ) && records.contains(candidates[i]) by {
            if i < groups_with_gid(before, mapping, gid).len() {
                let candidate = groups_with_gid(before, mapping, gid)[i];
                assert(before.contains(candidate));
                let j = choose|j: int| 0 <= j < before.len() && before[j] == candidate;
                assert(records[j] == candidate);
            } else {
                assert(candidates[i] == records[records.len() - 1]);
            }
        }
        if forall|i: int| 0 <= i < records.len() ==> !has_gid(#[trigger] records[i], mapping, gid) {
            assert forall|i: int| 0 <= i < before.len() implies !has_gid(
                #[trigger] before[i],
                mapping,
                gid,
            ) by {
                assert(before[i] == records[i]);
            }
            assert(!has_gid(records[records.len() - 1], mapping, gid));
        }
    }
}

/// Where a lookup of groups stands: the candidates, how many of them have
/// been dealt with, the groups resolved so far, whether one resolved group
/// is enough, and the first request that failed.
pub struct GroupRun {
    pub candidates: Seq<KeycloakGroupResponse>,
    pub position: nat,
    pub groups: Seq<GroupView>,
    pub first_only: bool,
    pub failure: Option<RequestErrorView>,
}

/// Whether a lookup has come to its end: a request failed, no candidate is
/// left, or one group was asked for and has been resolved.
pub open spec fn run_is_complete(run: GroupRun) -> bool {
    run.failure is Some || run.position >= run.candidates.len() || (run.first_only
        && run.groups.len() > 0)
}

/// Where a lookup stands after the reply to its next request has been taken
/// in. If the request failed, the lookup holds the failure. Otherwise the
/// candidate joins the resolved groups if [`group_of`] gives a group, and is
/// passed over if its gid attribute cannot be mapped. A lookup that is
/// complete stays as it is.
pub open spec fn run_members(run: GroupRun, mapping: MappingConfig, members: MembersReply) -> GroupRun {
    if run_is_complete(run) {
        run
    } else {
        GroupRun {
            candidates: run.candidates,
            position: run.position + 1,
            groups: match group_of(run.candidates[run.position as int], mapping, members) {
                Ok(group) => run.groups.push(group),
                Err(_) => run.groups,
            },
            first_only: run.first_only,
            failure: match members {
                Ok(_) => None,
                Err(cause) => Some(cause@),
            },
        }
    }
}

/// Where a lookup stands after a series of replies has been taken in, one
/// after the other.
pub open spec fn run_replies(run: GroupRun, mapping: MappingConfig, replies: Seq<MembersReply>) -> GroupRun
    decreases replies.len(),
{
    if replies.len() == 0 {
        run
    } else {
        run_replies(run_members(run, mapping, replies[0]), mapping, replies.drop_first())
    }
}

/// The groups that resolve, when the candidates are taken one by one with
/// the replies to their requests: those for which [`group_of`] gives a
/// group, in the order of the candidates.
pub open spec fn resolved_groups(
    candidates: Seq<KeycloakGroupResponse>,
    mapping: MappingConfig,
    replies: Seq<MembersReply>,
) -> Seq<GroupView>
    decreases candidates.len(),
{
    if candidates.len() == 0 || replies.len() == 0 {
        Seq::empty()
    } else {
        (match group_of(candidates[0], mapping, replies[0]) {
            Ok(group) => seq![group],
            Err(_) => Seq::empty(),
        }) + resolved_groups(candidates.drop_first(), mapping, replies.drop_first())
    }
}

/// A lookup of groups, under way.
///
/// It holds the candidates, the groups resolved so far, whether one resolved
/// group is enough, and the first request that failed.
/// [`GroupListing::next_request`] describes the request for the members of
/// the next candidate, and [`GroupListing::add_members`] takes the reply in.
///
/// A candidate whose gid attribute cannot be mapped is passed over. A
/// request that fails ends the lookup: what it would have answered is not
/// known, so the lookup as a whole fails.
#[derive(Debug)]
pub struct GroupListing {
    candidates: Vec<KeycloakGroupResponse>,
    next: usize,
    groups: Vec<KeycloakGroup>,
    first_only: bool,
    failure: Option<RequestError>,
}

impl GroupListing {
    /// The groups that the lookup considers, in the provider's order.
    pub closed spec fn candidates(&self) -> Seq<KeycloakGroupResponse> {
        self.candidates@
    }

    /// How many candidates have been dealt with.
    pub closed spec fn position(&self) -> nat {
        self.next as nat
    }

    /// The groups resolved so far, in the order of their candidates.
    pub closed spec fn groups(&self) -> Seq<GroupView> {
        self.groups.deep_view()
    }

    /// Whether the lookup ends with the first group that resolves.
    pub closed spec fn first_only(&self) -> bool {
        self.first_only
    }

    /// The first request of the lookup that failed, if one did.
    pub closed spec fn failure(&self) -> Option<RequestErrorView> {
        match self.failure {
            Some(cause) => Some(cause@),
            None => None,
        }
    }

    /// Where the lookup stands.
    pub open spec fn run(&self) -> GroupRun {
        GroupRun {
            candidates: self.candidates(),
            position: self.position(),
            groups: self.groups(),
            first_only: self.first_only(),
            failure: self.failure(),
        }
    }

    /// Whether the lookup has come to its end: a request failed, no
    /// candidate is left, or one group was asked for and has been resolved.
    pub open spec fn is_complete(&self) -> bool {
        run_is_complete(self.run())
    }

    /// A lookup that stands at its beginning.
    pub open spec fn begins(&self, candidates: Seq<KeycloakGroupResponse>, first_only: bool) -> bool {
        &&& self.candidates() == candidates
        &&& self.position() == 0
        &&& self.groups() == Seq::<GroupView>::empty()
        &&& self.first_only() == first_only
        &&& self.failure() is None
    }

    /// A lookup that failed before it began: the request for the groups
    /// failed.
    pub open spec fn failed_with(&self, cause: RequestErrorView) -> bool {
        &&& self.candidates() == Seq::<KeycloakGroupResponse>::empty()
        &&& self.position() == 0
        &&& self.groups() == Seq::<GroupView>::empty()
        &&& self.failure() == Some(cause)
    }

    fn begin(candidates: Vec<KeycloakGroupResponse>, first_only: bool) -> (listing: GroupListing)
        ensures
            listing.begins(candidates@, first_only),
    {
        let groups: Vec<KeycloakGroup> = Vec::new();
        assert(groups.deep_view() =~= Seq::<GroupView>::empty());
        GroupListing { candidates, next: 0, groups, first_only, failure: None }
    }

    fn failed(cause: RequestError, first_only: bool) -> (listing: GroupListing)
        ensures
            listing.failed_with(cause@),
            listing.first_only() == first_only,
    {
        let groups: Vec<KeycloakGroup> = Vec::new();
        assert(groups.deep_view() =~= Seq::<GroupView>::empty());
        GroupListing { candidates: Vec::new(), next: 0, groups, first_only, failure: Some(cause) }
    }

    fn complete(&self) -> (complete: bool)
        ensures
            complete == self.is_complete(),
    {
        self.failure.is_some() || self.next >= self.candidates.len() || (self.first_only
            && self.groups.len() > 0)
    }

    /// The request for the members of the next candidate, or `None` when the
    /// lookup is complete.
    pub fn next_request(&self, config: &KeycloakConfig, access_token: &str) -> (request: Option<
        Request,
    >)
        ensures
            request.deep_view() == if self.is_complete() {
                None
            } else {
                Some(
                    members_request(
                        *config,
                        access_token@,
                        self.candidates()[self.position() as int].id@,
                    ),
                )
            },
    {
        if self.complete() {
            None
        } else {
            Some(group_member_request(config, access_token, self.candidates[self.next].id.as_str()))
        }
    }

    /// Takes in the reply to the request that [`Self::next_request`] asked
    /// for. If the request failed, the lookup holds the failure and is
    /// complete. Otherwise the candidate joins the resolved groups if
    /// [`group_of`] gives a group, and is passed over if its gid attribute
    /// cannot be mapped. A reply that comes when the lookup is complete is
    /// ignored.
    pub fn add_members(&mut self, attribute_mapping: &MappingConfig, members: MembersReply)
        ensures
            final(self).run() == run_members(old(self).run(), *attribute_mapping, members),
    {
        if self.complete() {
            return ;
        }
        let ghost before = self.groups.deep_view();
        let next: usize = self.next;
        assert(next < self.candidates.len());
        match add_group_members(attribute_mapping, &self.candidates[next], members) {
            Ok(group) => {
                self.groups.push(group);
                assert(self.groups.deep_view() =~= before.push(group@));
            },
            Err(Error::Request(cause)) => {
                self.failure = Some(cause);
            },
            Err(_) => {},
        }
        self.next = next + 1;
    }

    /// The groups that the lookup resolved, or the failure that ended it.
    pub fn into_groups(self) -> (groups: Result<Vec<KeycloakGroup>, Error>)
        ensures
            match groups {
                Ok(groups) => self.failure() is None && groups.deep_view() == self.groups(),
                Err(error) => self.failure() matches Some(cause) && error@ == ErrorView::Request(
                    cause,
                ),
            },
    {
        match self.failure {
            Some(cause) => Err(Error::Request(cause)),
            None => Ok(self.groups),
        }
    }

    /// The first group that the lookup resolved, or the failure that ended
    /// it. `Ok(None)` means that no such group was found.
    pub fn into_first(self) -> (group: Result<Option<KeycloakGroup>, Error>)
        ensures
            match group {
                Ok(group) => self.failure() is None && group.deep_view() == (if self.groups().len()
                    > 0 {
                    Some(self.groups()[0])
                } else {
                    None
                }),
                Err(error) => self.failure() matches Some(cause) && error@ == ErrorView::Request(
                    cause,
                ),
            },
    {
        match self.failure {
            Some(cause) => Err(Error::Request(cause)),
            None => {
                let mut groups = self.groups;
                if groups.len() > 0 {
                    Ok(Some(groups.swap_remove(0)))
                } else {
                    Ok(None)
                }
            },
        }
    }
}

/// A lookup that is complete takes nothing in any more.
pub proof fn lemma_complete_run_stays(
    run: GroupRun,
    mapping: MappingConfig,
    replies: Seq<MembersReply>,
)
    requires
        run_is_complete(run),
    ensures
        run_replies(run, mapping, replies) == run,
    decreases replies.len(),
{
    if replies.len() > 0 {
        lemma_complete_run_stays(run, mapping, replies.drop_first());
    }
}

/// A whole listing. A listing of groups that gets a reply for every
/// candidate that is left, none of them a failure, asks for the members of
/// each of these candidates in turn and ends, without a failure, with the
/// groups that resolve, in the order of the candidates.
pub proof fn lemma_group_listing_run(
    run: GroupRun,
    mapping: MappingConfig,
    replies: Seq<MembersReply>,
)
    requires
        !run.first_only,
        run.failure is None,
        run.position <= run.candidates.len(),
        replies.len() <= run.candidates.len() - run.position,
        forall|i: int| 0 <= i < replies.len() ==> (#[trigger] replies[i]) is Ok,
    ensures
        run_replies(run, mapping, replies).failure is None,
        run_replies(run, mapping, replies).candidates == run.candidates,
        run_replies(run, mapping, replies).position == run.position + replies.len(),
        run_replies(run, mapping, replies).groups == run.groups + resolved_groups(
            run.candidates.skip(run.position as int),
            mapping,
            replies,
        ),
        run_is_complete(run_replies(run, mapping, replies)) <==> replies.len()
            == run.candidates.len() - run.position,
    decreases replies.len(),
{
    let left = run.candidates.skip(run.position as int);
    if replies.len() == 0 {
        assert(run.groups + resolved_groups(left, mapping, replies) =~= run.groups);
    } else {
        let rest = replies.drop_first();
        assert(replies[0] is Ok);
        assert forall|i: int| 0 <= i < rest.len() implies (#[trigger] rest[i]) is Ok by {
            assert(rest[i] == replies[i + 1]);
        }
        let step = run_members(run, mapping, replies[0]);
        lemma_group_listing_run(step, mapping, rest);
        assert(left[0] == run.candidates[run.position as int]);
        assert(left.drop_first() =~= run.candidates.skip(step.position as int));
        match group_of(left[0], mapping, replies[0]) {
            Ok(group) => {
                assert(run.groups.push(group) + resolved_groups(left.drop_first(), mapping, rest)
                    =~= run.groups + (seq![group] + resolved_groups(
                    left.drop_first(),
                    mapping,
                    rest,
                )));
            },
            Err(_) => {
                assert(run.groups + resolved_groups(left.drop_first(), mapping, rest)
                    =~= run.groups + (Seq::<GroupView>::empty() + resolved_groups(
                    left.drop_first(),
                    mapping,
                    rest,
                )));
            },
        }
    }
}

/// A failed request fails the lookup. If the replies before the reply `at`
/// came and the reply `at` was asked for and is a failure, the lookup ends
/// with that failure, whatever comes after it: it neither lists the other
/// groups nor tries the next candidate.
pub proof fn lemma_failed_members_fail_lookup(
    run: GroupRun,
    mapping: MappingConfig,
    replies: Seq<MembersReply>,
    at: int,
)
    requires
        0 <= at < replies.len(),
        forall|i: int| 0 <= i < at ==> (#[trigger] replies[i]) is Ok,
        replies[at] is Err,
        !run_is_complete(run_replies(run, mapping, replies.take(at))),
    ensures
        run_is_complete(run_replies(run, mapping, replies)),
        run_replies(run, mapping, replies).failure == Some(replies[at]->Err_0@),
    decreases at,
{
    let rest = replies.drop_first();
    if run_is_complete(run) {
        lemma_complete_run_stays(run, mapping, replies.take(at));
    } else if at == 0 {
        lemma_complete_run_stays(run_members(run, mapping, replies[0]), mapping, rest);
    } else {
        assert(replies[0] is Ok);
        assert(replies.take(at).drop_first() =~= rest.take(at - 1));
        assert(replies.take(at)[0] == replies[0]);
        assert forall|i: int| 0 <= i < at - 1 implies (#[trigger] rest[i]) is Ok by {
            assert(rest[i] == replies[i + 1]);
        }
        lemma_failed_members_fail_lookup(
            run_members(run, mapping, replies[0]),
            mapping,
            rest,
            at - 1,
        );
    }
}

/// A lookup of one group ends with the first candidate that resolves. If
/// the replies come without a failure, the candidates before `at` do not
/// resolve and the candidate `at` does, the lookup ends with that group and
/// asks for the members of no candidate after it.
pub proof fn lemma_first_group_ends_lookup(
    run: GroupRun,
    mapping: MappingConfig,
    replies: Seq<MembersReply>,
    at: int,
)
    requires
        run.first_only,
        run.failure is None,
        run.groups.len() == 0,
        0 <= at < replies.len(),
        run.position + at < run.candidates.len(),
        forall|i: int| 0 <= i <= at ==> (#[trigger] replies[i]) is Ok,
        forall|i: int|
            0 <= i < at ==> group_of(
                run.candidates[run.position + i],
                mapping,
                #[trigger] replies[i],
            ) is Err,
        group_of(run.candidates[run.position + at], mapping, replies[at]) is Ok,
    ensures
        run_is_complete(run_replies(run, mapping, replies)),
        run_replies(run, mapping, replies).failure is None,
        run_replies(run, mapping, replies).position == run.position + at + 1,
        run_replies(run, mapping, replies).groups == seq![
            group_of(run.candidates[run.position + at], mapping, replies[at])->Ok_0,
        ],
    decreases at,
{
    let rest = replies.drop_first();
    let step = run_members(run, mapping, replies[0]);
    assert(replies[0] is Ok);
    if at == 0 {
        assert(step.groups =~= seq![group_of(run.candidates[run.position as int], mapping, replies[0])->Ok_0]);
        lemma_complete_run_stays(step, mapping, rest);
    } else {
        assert(group_of(run.candidates[run.position + 0int], mapping, replies[0]) is Err);
        assert forall|i: int| 0 <= i <= at - 1 implies (#[trigger] rest[i]) is Ok by {
            assert(rest[i] == replies[i + 1]);
        }
        assert forall|i: int| 0 <= i < at - 1 implies group_of(
            step.candidates[step.position + i],
            mapping,
            #[trigger] rest[i],
        ) is Err by {
            assert(rest[i] == replies[i + 1]);
            assert(group_of(run.candidates[run.position + (i + 1)], mapping, replies[i + 1]) is Err);
        }
        assert(rest[at - 1] == replies[at]);
        lemma_first_group_ends_lookup(step, mapping, rest, at - 1);
    }
}

/// A lookup of one group in which no candidate resolves finds nothing: if
/// a reply comes for every candidate, none a failure, and no candidate
/// resolves, the lookup ends without a group and without a failure.
pub proof fn lemma_no_group_is_not_found(
    run: GroupRun,
    mapping: MappingConfig,
    replies: Seq<MembersReply>,
)
    requires
        run.failure is None,
        run.groups.len() == 0,
        run.position <= run.candidates.len(),
        replies.len() == run.candidates.len() - run.position,
        forall|i: int| 0 <= i < replies.len() ==> (#[trigger] replies[i]) is Ok,
        forall|i: int|
            0 <= i < replies.len() ==> group_of(
                run.candidates[run.position + i],
                mapping,
                #[trigger] replies[i],
            ) is Err,
    ensures
        run_is_complete(run_replies(run, mapping, replies)),
        run_replies(run, mapping, replies).failure is None,
        run_replies(run, mapping, replies).groups.len() == 0,
    decreases replies.len(),
{
    if replies.len() > 0 {
        let rest = replies.drop_first();
        let step = run_members(run, mapping, replies[0]);
        assert(replies[0] is Ok);
        assert(group_of(run.candidates[run.position + 0int], mapping, replies[0]) is Err);
        assert forall|i: int| 0 <= i < rest.len() implies (#[trigger] rest[i]) is Ok by {
            assert(rest[i] == replies[i + 1]);
        }
        assert forall|i: int| 0 <= i < rest.len() implies group_of(
            step.candidates[step.position + i],
            mapping,
            #[trigger] rest[i],
        ) is Err by {
            assert(rest[i] == replies[i + 1]);
            assert(group_of(run.candidates[run.position + (i + 1)], mapping, replies[i + 1]) is Err);
        }
        lemma_no_group_is_not_found(step, mapping, rest);
    }
}

/// Without candidates no group of the reply maps to the gid.
pub proof fn lemma_no_candidate(records: Seq<KeycloakGroupResponse>, mapping: MappingConfig, gid: u32)
    requires
        groups_with_gid(records, mapping, gid).len() == 0,
    ensures
        forall|i: int| 0 <= i < records.len() ==> !has_gid(#[trigger] records[i], mapping, gid),
    decreases records.len(),
{
    if records.len() > 0 {
        let before = records.drop_last();
        lemma_no_candidate(before, mapping, gid);
        assert forall|i: int| 0 <= i < records.len() implies !has_gid(
            #[trigger] records[i],
            mapping,
            gid,
        ) by {
            if i < before.len() {
                assert(before[i] == records[i]);
            }
        }
    }
}

/// The first candidate of a lookup by gid is the first group of the reply
/// that maps to the gid.
pub proof fn lemma_first_candidate(
    records: Seq<KeycloakGroupResponse>,
    mapping: MappingConfig,
    gid: u32,
    at: int,
)
    requires
        0 <= at < records.len(),
        has_gid(records[at], mapping, gid),
        forall|i: int| 0 <= i < at ==> !has_gid(#[trigger] records[i], mapping, gid),
    ensures
        groups_with_gid(records, mapping, gid).len() > 0,
        groups_with_gid(records, mapping, gid)[0] == records[at],
    decreases records.len(),
{
    let before = records.drop_last();
    if at == records.len() - 1 {
        assert forall|i: int| 0 <= i < before.len() implies !has_gid(
            #[trigger] before[i],
            mapping,
            gid,
        ) by {
            assert(before[i] == records[i]);
        }
        lemma_groups_with_gid(before, mapping, gid);
    } else {
        assert(before[at] == records[at]);
        assert forall|i: int| 0 <= i < at implies !has_gid(#[trigger] before[i], mapping, gid) by {
            assert(before[i] == records[i]);
        }
        lemma_first_candidate(before, mapping, gid, at);
    }
}

/// A whole lookup by gid, when every request is answered. If a group of
/// the reply maps to the gid, the lookup asks for the members of the first
/// such group and of no other, and ends with that group: its name, the gid
/// that was looked for, and the members that came. If no group of the reply
/// maps to the gid, the lookup asks for nothing and ends without a group.
pub proof fn lemma_lookup_by_gid(
    records: Seq<KeycloakGroupResponse>,
    mapping: MappingConfig,
    gid: u32,
    members: Vec<KeycloakUserResponse>,
    replies: Seq<MembersReply>,
)
    requires
        replies.len() > 0,
        replies[0] == Ok::<Vec<KeycloakUserResponse>, RequestError>(members),
    ensures
        ({
            let candidates = groups_with_gid(records, mapping, gid);
            let start = GroupRun {
                candidates,
                position: 0,
                groups: Seq::empty(),
                first_only: true,
                failure: None,
            };
            let end = run_replies(start, mapping, replies);
            &&& end.failure is None
            &&& run_is_complete(end)
            &&& candidates.len() == 0 ==> {
                &&& run_is_complete(start)
                &&& end.groups.len() == 0
                &&& forall|i: int|
                    0 <= i < records.len() ==> !has_gid(#[trigger] records[i], mapping, gid)
            }
            &&& candidates.len() > 0 ==> {
                &&& end.position == 1
                &&& end.groups == seq![
                    GroupView { name: candidates[0].name@, gid, members: usernames(members@) },
                ]
                &&& has_gid(candidates[0], mapping, gid)
            }
            &&& forall|at: int|
                0 <= at < records.len() && has_gid(#[trigger] records[at], mapping, gid) && (
                forall|i: int| 0 <= i < at ==> !has_gid(#[trigger] records[i], mapping, gid))
                    ==> candidates.len() > 0 && candidates[0] == records[at]
        }),
{
    let candidates = groups_with_gid(records, mapping, gid);
    let start = GroupRun {
        candidates,
        position: 0,
        groups: Seq::empty(),
        first_only: true,
        failure: None,
    };
    lemma_groups_with_gid(records, mapping, gid);
    if candidates.len() == 0 {
        lemma_no_candidate(records, mapping, gid);
        lemma_complete_run_stays(start, mapping, replies);
    } else {
        assert(has_gid(candidates[0], mapping, gid));
        lemma_candidate_has_gid(candidates[0], mapping, gid, members);
        lemma_first_group_ends_lookup(start, mapping, replies, 0);
    }
    assert forall|at: int|
        0 <= at < records.len() && has_gid(#[trigger] records[at], mapping, gid) && (forall|i: int|
            0 <= i < at ==> !has_gid(#[trigger] records[i], mapping, gid)) implies candidates.len()
        > 0 && candidates[0] == records[at] by {
        lemma_first_candidate(records, mapping, gid, at);
    }
}

/// What came back for a request for groups.
pub type GroupsReply = Result<Vec<KeycloakGroupResponse>, RequestError>;

/// Begins the listing of all groups, from the reply to
/// [`all_groups_request`]: every group of the reply is a candidate, and
/// every candidate that resolves is listed. If the request failed, so has
/// the listing.
pub fn list_groups(reply: GroupsReply) -> (listing: GroupListing)
    ensures
        match reply {
            Ok(records) => listing.begins(records@, false),
            Err(cause) => listing.failed_with(cause@),
        },
{
    match reply {
        Ok(records) => GroupListing::begin(records, false),
        Err(cause) => GroupListing::failed(cause, false),
    }
}

/// Begins the lookup of a group by name, from the reply to
/// [`group_by_name_request`]: every group of the reply is a candidate, and
/// the first that resolves is the group. If the request failed, so has the
/// lookup.
pub fn get_group_by_name(reply: GroupsReply) -> (listing: GroupListing)
    ensures
        match reply {
            Ok(records) => listing.begins(records@, true),
            Err(cause) => listing.failed_with(cause@),
        },
{
    match reply {
        Ok(records) => GroupListing::begin(records, true),
        Err(cause) => GroupListing::failed(cause, true),
    }
}

/// Begins the lookup of a group by gid, from the reply to
/// [`all_groups_request`]: the groups that [`has_gid`] admits are the
/// candidates, and the first that resolves is the group. No members are
/// asked for of any other group. If the request failed, so has the lookup.
pub fn get_group_by_gid(attribute_mapping: &MappingConfig, reply: GroupsReply, gid: u32) -> (listing:
    GroupListing)
    ensures
        match reply {
            Ok(records) => listing.begins(groups_with_gid(records@, *attribute_mapping, gid), true),
            Err(cause) => listing.failed_with(cause@),
        },
{
    let records = match reply {
        Ok(records) => records,
        Err(cause) => {
            return GroupListing::failed(cause, true);
        },
    };
    let ghost all = records@;
    let mut candidates: Vec<KeycloakGroupResponse> = Vec::new();
    for group in it: records
        invariant
            it.seq() == all,
            candidates@ == groups_with_gid(all.subrange(0, it.index() as int), *attribute_mapping, gid),
    {
        let ghost seen = all.subrange(0, it.index() + 1);
        assert(seen.drop_last() =~= all.subrange(0, it.index() as int));
        assert(seen.last() == group);
        let matches = match get_single_attribute(
            &group.attributes,
            attribute_mapping.group_gid.as_str(),
        ) {
            Ok(Some(value)) => match parse_number(value.as_str()) {
                Some(number) => number == gid,
                None => false,
            },
            _ => false,
        };
        if matches {
            candidates.push(group);
        }
    }
    assert(all.subrange(0, all.len() as int) =~= all);
    GroupListing::begin(candidates, true)
}

} // verus!
