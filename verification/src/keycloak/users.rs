//! Users: from the provider's records to passwd-style identity records.

use vstd::prelude::*;
use vstd::string::*;
use crate::config::{KeycloakConfig, MappingConfig};
use crate::decimal::{decimal, number_to_string, parse_number, parse_u32};
use crate::error::{
    Error, ErrorView, MappingError, MappingErrorView, RequestError, RequestErrorView,
};
use crate::keycloak::model::{
    attribute_view, get_single_attribute, number_of, required_number, single_attribute,
    KeycloakUserResponse,
};
use crate::keycloak::request::{Method, Request, RequestView};

verus! {

/// Number of users that one page of a listing asks for.
pub const BATCH_SIZE: u32 = 100;

/// A user of the provider as an identity record.
#[derive(Debug, Clone, PartialEq, Eq)]
pub struct KeycloakUser {
    pub username: String,
    pub uid: u32,
    pub gid: u32,
    pub homedir: String,
    pub loginshell: String,
    pub gecos: String,
}

/// [`KeycloakUser`] with texts as character sequences.
pub struct UserView {
    pub username: Seq<char>,
    pub uid: u32,
    pub gid: u32,
    pub homedir: Seq<char>,
    pub loginshell: Seq<char>,
    pub gecos: Seq<char>,
}

impl View for KeycloakUser {
    type V = UserView;

    open spec fn view(&self) -> UserView {
        UserView {
            username: self.username@,
            uid: self.uid,
            gid: self.gid,
            homedir: self.homedir@,
            loginshell: self.loginshell@,
            gecos: self.gecos@,
        }
    }
}

impl DeepView for KeycloakUser {
    type V = UserView;

    open spec fn deep_view(&self) -> UserView {
        self@
    }
}

/// A record of the provider, read through the attribute mapping.
pub struct MappedKeycloakUserResponse<'a> {
    pub response: &'a KeycloakUserResponse,
    pub mapping: &'a MappingConfig,
}

impl<'a> MappedKeycloakUserResponse<'a> {
    /// Reads `response` through `mapping`.
    pub fn new(response: &'a KeycloakUserResponse, mapping: &'a MappingConfig) -> (mapped:
        MappedKeycloakUserResponse<'a>)
        ensures
            mapped.response == response,
            mapped.mapping == mapping,
    {
        MappedKeycloakUserResponse { response, mapping }
    }

    /// The user's home directory.
    pub fn get_user_home(&self) -> (r: Result<Option<&'a String>, MappingError>)
        ensures
            attribute_view(r) == single_attribute(
                self.response.attributes,
                self.mapping.user_home@,
            ),
    {
        get_single_attribute(&self.response.attributes, self.mapping.user_home.as_str())
    }

    /// The user's login shell.
    pub fn get_user_shell(&self) -> (r: Result<Option<&'a String>, MappingError>)
        ensures
            attribute_view(r) == single_attribute(
                self.response.attributes,
                self.mapping.user_shell@,
            ),
    {
        get_single_attribute(&self.response.attributes, self.mapping.user_shell.as_str())
    }

    /// The user's gecos field.
    pub fn get_user_gecos(&self) -> (r: Result<Option<&'a String>, MappingError>)
        ensures
            attribute_view(r) == single_attribute(
                self.response.attributes,
                self.mapping.user_gecos@,
            ),
    {
        get_single_attribute(&self.response.attributes, self.mapping.user_gecos.as_str())
    }

    /// The user's uid, as the provider wrote it.
    pub fn get_user_uid(&self) -> (r: Result<Option<&'a String>, MappingError>)
        ensures
            attribute_view(r) == single_attribute(
                self.response.attributes,
                self.mapping.user_uid@,
            ),
    {
        get_single_attribute(&self.response.attributes, self.mapping.user_uid.as_str())
    }

    /// The user's gid, as the provider wrote it.
    pub fn get_user_gid(&self) -> (r: Result<Option<&'a String>, MappingError>)
        ensures
            attribute_view(r) == single_attribute(
                self.response.attributes,
                self.mapping.user_gid@,
            ),
    {
        get_single_attribute(&self.response.attributes, self.mapping.user_gid.as_str())
    }
}

/// The text of an optional attribute: its value, or the default without one.
pub open spec fn text_or(value: Option<Seq<char>>, default: Seq<char>) -> Seq<char> {
    match value {
        Some(text) => text,
        None => default,
    }
}

/// The identity record of a provider record under a mapping.
///
/// An attribute with several values fails the record, whichever field it
/// feeds; the five attributes are looked at in the order uid, gid, home,
/// shell, gecos. After that the uid and then the gid must be present and
/// numeric. Home directory, login shell and gecos have defaults: `/`,
/// `/sbin/nologin` and `,,,`.
pub open spec fn user_of(record: KeycloakUserResponse, mapping: MappingConfig) -> Result<
    UserView,
    MappingErrorView,
> {
    let uid = single_attribute(record.attributes, mapping.user_uid@);
    let gid = single_attribute(record.attributes, mapping.user_gid@);
    let home = single_attribute(record.attributes, mapping.user_home@);
    let shell = single_attribute(record.attributes, mapping.user_shell@);
    let gecos = single_attribute(record.attributes, mapping.user_gecos@);
    if uid is Err {
        Err(uid->Err_0)
    } else if gid is Err {
        Err(gid->Err_0)
    } else if home is Err {
        Err(home->Err_0)
    } else if shell is Err {
        Err(shell->Err_0)
    } else if gecos is Err {
        Err(gecos->Err_0)
    } else {
        match required_number(uid->Ok_0, mapping.user_uid@) {
            Err(e) => Err(e),
            Ok(uid) => match required_number(gid->Ok_0, mapping.user_gid@) {
                Err(e) => Err(e),
                Ok(gid) => Ok(
                    UserView {
                        username: record.username@,
                        uid,
                        gid,
                        homedir: text_or(home->Ok_0, "/"@),
                        loginshell: text_or(shell->Ok_0, "/sbin/nologin"@),
                        gecos: text_or(gecos->Ok_0, ",,,"@),
                    },
                ),
            },
        }
    }
}

/// [`Result`] of a mapping, with texts as character sequences.
pub open spec fn mapped_view(r: Result<KeycloakUser, MappingError>) -> Result<
    UserView,
    MappingErrorView,
> {
    match r {
        Ok(user) => Ok(user@),
        Err(e) => Err(e@),
    }
}

fn owned_or(value: Option<&String>, default: &str) -> (text: String)
    ensures
        text@ == text_or(value.deep_view(), default@),
{
    match value {
        Some(text) => text.clone(),
        None => default.to_owned(),
    }
}

impl KeycloakUser {
    /// Maps a record of the provider to an identity record, as [`user_of`]
    /// defines it.
    pub fn try_from(value: MappedKeycloakUserResponse) -> (r: Result<KeycloakUser, MappingError>)
        ensures
            mapped_view(r) == user_of(*value.response, *value.mapping),
    {
        let uid = value.get_user_uid()?;
        let gid = value.get_user_gid()?;
        let homedir = value.get_user_home()?;
        let loginshell = value.get_user_shell()?;
        let gecos = value.get_user_gecos()?;
        Ok(
            KeycloakUser {
                username: value.response.username.clone(),
                uid: number_of(uid, &value.mapping.user_uid)?,
                gid: number_of(gid, &value.mapping.user_gid)?,
                homedir: owned_or(homedir, "/"),
                loginshell: owned_or(loginshell, "/sbin/nologin"),
                gecos: owned_or(gecos, ",,,"),
            },
        )
    }
}

/// The identity records of those of `records` that can be mapped, in their
/// order. A record that cannot be mapped is left out; the records after it
/// are mapped all the same.
pub open spec fn resolved_users(records: Seq<KeycloakUserResponse>, mapping: MappingConfig) -> Seq<
    UserView,
>
    decreases records.len(),
{
    if records.len() == 0 {
        Seq::empty()
    } else {
        let before = resolved_users(records.drop_last(), mapping);
        match user_of(records.last(), mapping) {
            Ok(user) => before.push(user),
            Err(_) => before,
        }
    }
}

/// Mapping a list of records piece by piece gives the same as mapping it whole.
pub proof fn lemma_resolved_users_concat(
    first: Seq<KeycloakUserResponse>,
    second: Seq<KeycloakUserResponse>,
    mapping: MappingConfig,
)
    ensures
        resolved_users(first + second, mapping) == resolved_users(first, mapping) + resolved_users(
            second,
            mapping,
        ),
    decreases second.len(),
{
    if second.len() == 0 {
        assert(first + second =~= first);
        assert(resolved_users(first, mapping) + Seq::<UserView>::empty() =~= resolved_users(
            first,
            mapping,
        ));
    } else {
        let whole = first + second;
        assert(whole.drop_last() =~= first + second.drop_last());
        assert(whole.last() == second.last());
        lemma_resolved_users_concat(first, second.drop_last(), mapping);
        let head = resolved_users(first, mapping);
        let tail = resolved_users(second.drop_last(), mapping);
        match user_of(second.last(), mapping) {
            Ok(user) => {
                assert((head + tail).push(user) =~= head + tail.push(user));
            },
            Err(_) => {},
        }
    }
}

/// No record is listed twice and none is made up: there are at most as many
/// identity records as records, and exactly as many where every record can
/// be mapped.
pub proof fn lemma_resolved_users_len(records: Seq<KeycloakUserResponse>, mapping: MappingConfig)
    ensures
        resolved_users(records, mapping).len() <= records.len(),
        (forall|i: int| 0 <= i < records.len() ==> user_of(#[trigger] records[i], mapping) is Ok)
            ==> resolved_users(records, mapping).len() == records.len(),
    decreases records.len(),
{
    if records.len() > 0 {
        let before = records.drop_last();
        lemma_resolved_users_len(before, mapping);
        if forall|i: int| 0 <= i < records.len() ==> user_of(#[trigger] records[i], mapping) is Ok {
            assert forall|i: int| 0 <= i < before.len() implies user_of(
                #[trigger] before[i],
                mapping,
            ) is Ok by {
                assert(before[i] == records[i]);
            }
            assert(user_of(records[records.len() - 1], mapping) is Ok);
        }
    }
}

/// A record that cannot be mapped is left out, and the records around it
/// are listed as if it were not there.
pub proof fn lemma_unmappable_record_is_dropped(
    before: Seq<KeycloakUserResponse>,
    record: KeycloakUserResponse,
    after: Seq<KeycloakUserResponse>,
    mapping: MappingConfig,
)
    requires
        user_of(record, mapping) is Err,
    ensures
        resolved_users(before.push(record) + after, mapping) == resolved_users(
            before + after,
            mapping,
        ),
{
    lemma_resolved_users_concat(before.push(record), after, mapping);
    lemma_resolved_users_concat(before, after, mapping);
    assert(before.push(record).drop_last() =~= before);
}

/// Maps the records of one reply to identity records, leaving out those that
/// cannot be mapped.
pub fn resolve_users(mapping: &MappingConfig, records: &Vec<KeycloakUserResponse>) -> (users: Vec<
    KeycloakUser,
>)
    ensures
        users.deep_view() == resolved_users(records@, *mapping),
{
    let mut users: Vec<KeycloakUser> = Vec::new();
    let mut i: usize = 0;
    while i < records.len()
        invariant
            i <= records.len(),
            users.deep_view() == resolved_users(records@.subrange(0, i as int), *mapping),
        decreases records.len() - i,
    {
        let ghost before = users.deep_view();
        assert(records@.subrange(0, i + 1).drop_last() =~= records@.subrange(0, i as int));
        assert(records@.subrange(0, i + 1).last() == records@[i as int]);
        match KeycloakUser::try_from(MappedKeycloakUserResponse::new(&records[i], mapping)) {
            Ok(user) => {
                users.push(user);
                assert(users.deep_view() =~= before.push(user@));
            },
            Err(_) => {},
        }
        i += 1;
    }
    assert(records@.subrange(0, i as int) =~= records@);
    users
}

/// Address under which the realm's users are listed.
pub open spec fn users_api_url(config: KeycloakConfig) -> Seq<char> {
    config.url@ + "/admin/realms/"@ + config.realm@ + "/users"@
}

/// Address under which the realm's users are counted.
pub open spec fn user_count_api_url(config: KeycloakConfig) -> Seq<char> {
    config.url@ + "/admin/realms/"@ + config.realm@ + "/users/count"@
}

/// The address under which the realm's users are listed.
pub fn get_users_api_url(config: &KeycloakConfig) -> (url: String)
    ensures
        url@ == users_api_url(*config),
{
    let mut url = config.url.clone();
    url.append("/admin/realms/");
    url.append(config.realm.as_str());
    url.append("/users");
    url
}

/// The address under which the realm's users are counted.
pub fn get_user_count_api_url(config: &KeycloakConfig) -> (url: String)
    ensures
        url@ == user_count_api_url(*config),
{
    let mut url = config.url.clone();
    url.append("/admin/realms/");
    url.append(config.realm.as_str());
    url.append("/users/count");
    url
}

/// Describes the request that asks how many users the realm has.
pub fn user_count_request(config: &KeycloakConfig, access_token: &str) -> (request: Request)
    ensures
        request@ == (RequestView {
            method: Method::Get,
            url: user_count_api_url(*config),
            bearer: Some(access_token@),
            params: Seq::empty(),
        }),
{
    let params: Vec<(String, String)> = Vec::new();
    assert(params.deep_view() =~= Seq::empty());
    Request {
        method: Method::Get,
        url: get_user_count_api_url(config),
        bearer: Some(access_token.to_owned()),
        params,
    }
}

/// Reads the number of users from the body of the reply to
/// [`user_count_request`]: the body has to be a numeral and nothing else.
pub fn get_number_of_users(body: &str) -> (r: Result<u32, RequestError>)
    ensures
        match r {
            Ok(nusers) => parse_u32(body@) == Some(nusers),
            Err(e) => parse_u32(body@) is None && e@ == RequestErrorView::Malformed(body@),
        },
{
    match parse_number(body) {
        Some(nusers) => Ok(nusers),
        None => Err(RequestError::Malformed(body.to_owned())),
    }
}

/// Describes a query for users: a `GET` of the users' address with the given
/// query and `access_token` as bearer token.
pub fn users_request(
    config: &KeycloakConfig,
    access_token: &str,
    query_args: Vec<(String, String)>,
) -> (request: Request)
    ensures
        request@ == (RequestView {
            method: Method::Get,
            url: users_api_url(*config),
            bearer: Some(access_token@),
            params: query_args.deep_view(),
        }),
{
    Request {
        method: Method::Get,
        url: get_users_api_url(config),
        bearer: Some(access_token.to_owned()),
        params: query_args,
    }
}

/// The query of the page of a listing that starts at the user number `first`.
pub open spec fn page_query(first: nat) -> Seq<(Seq<char>, Seq<char>)> {
    seq![
        ("briefRepresentation"@, "false"@),
        ("first"@, decimal(first)),
        ("max"@, decimal(BATCH_SIZE as nat)),
    ]
}

/// The request for the page of a listing that starts at the user number `first`.
pub open spec fn page_request(
    config: KeycloakConfig,
    access_token: Seq<char>,
    first: nat,
) -> RequestView {
    RequestView {
        method: Method::Get,
        url: users_api_url(config),
        bearer: Some(access_token),
        params: page_query(first),
    }
}

/// Where the page after the one at `first` starts, in a realm of `nusers`
/// users; `nusers` itself when the page at `first` is the last.
pub open spec fn next_offset(nusers: nat, first: nat) -> nat {
    if first + BATCH_SIZE < nusers {
        first + BATCH_SIZE as nat
    } else {
        nusers
    }
}

/// What came back for a request for users.
pub type UsersReply = Result<Vec<KeycloakUserResponse>, RequestError>;

/// What came back for the request for the number of users: the body of the
/// reply.
pub type CountReply = Result<String, RequestError>;

/// Where a listing of users stands: the number of users that the realm
/// reported, where the next page starts, the identity records gathered so
/// far, and the first request that failed.
pub struct UserRun {
    pub nusers: nat,
    pub first: nat,
    pub users: Seq<UserView>,
    pub failure: Option<RequestErrorView>,
}

/// Whether a listing has come to its end: a request failed, or every page
/// has been taken in.
pub open spec fn run_is_complete(run: UserRun) -> bool {
    run.failure is Some || run.first >= run.nusers
}

/// Where a listing stands after the reply to its next request has been
/// taken in. The records of a page that can be mapped join the listing, and
/// the listing moves on to the next page. A failed request ends the listing
/// with that failure. A listing that is complete stays as it is.
pub open spec fn run_page(run: UserRun, mapping: MappingConfig, page: UsersReply) -> UserRun {
    if run_is_complete(run) {
        run
    } else {
        match page {
            Ok(records) => UserRun {
                nusers: run.nusers,
                first: next_offset(run.nusers, run.first),
                users: run.users + resolved_users(records@, mapping),
                failure: None,
            },
            Err(cause) => UserRun {
                nusers: run.nusers,
                first: run.first,
                users: run.users,
                failure: Some(cause@),
            },
        }
    }
}

/// Where a listing stands after a series of replies has been taken in, one
/// after the other.
pub open spec fn run_pages(run: UserRun, mapping: MappingConfig, pages: Seq<UsersReply>) -> UserRun
    decreases pages.len(),
{
    if pages.len() == 0 {
        run
    } else {
        run_pages(run_page(run, mapping, pages[0]), mapping, pages.drop_first())
    }
}

/// The records of a series of replies, in their order. A failed reply has
/// none.
pub open spec fn records_of(pages: Seq<UsersReply>) -> Seq<KeycloakUserResponse>
    decreases pages.len(),
{
    if pages.len() == 0 {
        Seq::empty()
    } else {
        (match pages[0] {
            Ok(records) => records@,
            Err(_) => Seq::empty(),
        }) + records_of(pages.drop_first())
    }
}

/// A listing of `nusers` users at its beginning.
pub open spec fn run_start(nusers: nat) -> UserRun {
    UserRun { nusers, first: 0, users: Seq::empty(), failure: None }
}

/// A listing of all users of the realm, under way.
///
/// The realm is read page by page: [`UserListing::next_request`] describes
/// the page to fetch, [`UserListing::add_page`] takes its records in.
///
/// A record that cannot be mapped is left out. A request that fails ends the
/// listing: what it would have answered is not known, so the listing as a
/// whole fails.
#[derive(Debug)]
pub struct UserListing {
    nusers: u32,
    first: u32,
    users: Vec<KeycloakUser>,
    failure: Option<RequestError>,
}

impl UserListing {
    /// The number of users that the realm reported.
    pub closed spec fn nusers(&self) -> nat {
        self.nusers as nat
    }

    /// Where the next page starts. No page is left when this has reached
    /// [`Self::nusers`].
    pub closed spec fn first(&self) -> nat {
        self.first as nat
    }

    /// The identity records gathered so far.
    pub closed spec fn users(&self) -> Seq<UserView> {
        self.users.deep_view()
    }

    /// The first request of the listing that failed, if one did.
    pub closed spec fn failure(&self) -> Option<RequestErrorView> {
        match self.failure {
            Some(cause) => Some(cause@),
            None => None,
        }
    }

    /// Where the listing stands.
    pub open spec fn run(&self) -> UserRun {
        UserRun {
            nusers: self.nusers(),
            first: self.first(),
            users: self.users(),
            failure: self.failure(),
        }
    }

    /// Whether the listing has come to its end: a request failed, or every
    /// page has been taken in.
    pub open spec fn is_complete(&self) -> bool {
        run_is_complete(self.run())
    }

    /// A listing of `nusers` users that stands at its beginning.
    pub open spec fn begins(&self, nusers: nat) -> bool {
        &&& self.nusers() == nusers
        &&& self.first() == 0
        &&& self.users() == Seq::<UserView>::empty()
        &&& self.failure() is None
    }

    /// A listing that failed before its first page: the number of users
    /// could not be had.
    pub open spec fn failed_with(&self, cause: RequestErrorView) -> bool {
        &&& self.nusers() == 0
        &&& self.first() == 0
        &&& self.users() == Seq::<UserView>::empty()
        &&& self.failure() == Some(cause)
    }

    fn begin(nusers: u32, failure: Option<RequestError>) -> (listing: UserListing)
        ensures
            listing.nusers() == nusers,
            listing.first() == 0,
            listing.users() == Seq::<UserView>::empty(),
            listing.failure() == (match failure {
                Some(cause) => Some(cause@),
                None => None,
            }),
    {
        let users: Vec<KeycloakUser> = Vec::new();
        assert(users.deep_view() =~= Seq::<UserView>::empty());
        UserListing { nusers, first: 0, users, failure }
    }

    fn complete(&self) -> (complete: bool)
        ensures
            complete == self.is_complete(),
    {
        self.failure.is_some() || self.first >= self.nusers
    }

    /// The request for the next page, or `None` when the listing is complete.
    pub fn next_request(&self, config: &KeycloakConfig, access_token: &str) -> (request: Option<
        Request,
    >)
        ensures
            request.deep_view() == if self.is_complete() {
                None
            } else {
                Some(page_request(*config, access_token@, self.first()))
            },
    {
        if self.complete() {
            None
        } else {
            let mut query_args: Vec<(String, String)> = Vec::new();
            query_args.push(("briefRepresentation".to_owned(), "false".to_owned()));
            query_args.push(("first".to_owned(), number_to_string(self.first)));
            query_args.push(("max".to_owned(), number_to_string(BATCH_SIZE)));
            assert(query_args.deep_view() =~= page_query(self.first()));
            Some(users_request(config, access_token, query_args))
        }
    }

    /// Takes in the reply to the request that [`Self::next_request`] asked
    /// for. The records of a page that can be mapped join the listing, and
    /// the listing moves on to the next page. If the request failed, the
    /// listing holds the failure and is complete. A reply that comes when
    /// the listing is complete is ignored.
    pub fn add_page(&mut self, mapping: &MappingConfig, page: UsersReply)
        ensures
            final(self).run() == run_page(old(self).run(), *mapping, page),
    {
        if self.complete() {
            return ;
        }
        match page {
            Ok(records) => {
                let ghost before = self.users.deep_view();
                let mut resolved = resolve_users(mapping, &records);
                let ghost added = resolved.deep_view();
                self.users.append(&mut resolved);
                assert(self.users.deep_view() =~= before + added);
                self.first = if self.nusers - self.first > BATCH_SIZE {
                    self.first + BATCH_SIZE
                } else {
                    self.nusers
                };
            },
            Err(cause) => {
                self.failure = Some(cause);
            },
        }
    }

    /// The identity records of the listing, or the failure that ended it.
    pub fn into_users(self) -> (users: Result<Vec<KeycloakUser>, Error>)
        ensures
            match users {
                Ok(users) => self.failure() is None && users.deep_view() == self.users(),
                Err(error) => self.failure() matches Some(cause) && error@ == ErrorView::Request(
                    cause,
                ),
            },
    {
        match self.failure {
            Some(cause) => Err(Error::Request(cause)),
            None => Ok(self.users),
        }
    }
}

/// Begins a listing of all users, from the reply to [`user_count_request`].
/// The body of the reply has to hold the number of users and nothing else.
/// If the request failed, or the body holds no number, so has the listing.
pub fn list_users(count: CountReply) -> (listing: UserListing)
    ensures
        match count {
            Ok(body) => match parse_u32(body@) {
                Some(nusers) => listing.begins(nusers as nat),
                None => listing.failed_with(RequestErrorView::Malformed(body@)),
            },
            Err(cause) => listing.failed_with(cause@),
        },
{
    match count {
        Ok(body) => match get_number_of_users(body.as_str()) {
            Ok(nusers) => UserListing::begin(nusers, None),
            Err(cause) => UserListing::begin(0, Some(cause)),
        },
        Err(cause) => UserListing::begin(0, Some(cause)),
    }
}

/// The number of pages that a realm of `nusers` users is read in.
pub open spec fn page_count(nusers: nat) -> nat {
    (nusers + BATCH_SIZE - 1) as nat / (BATCH_SIZE as nat)
}

/// A listing that is complete takes nothing in any more.
pub proof fn lemma_complete_run_stays(run: UserRun, mapping: MappingConfig, pages: Seq<UsersReply>)
    requires
        run_is_complete(run),
    ensures
        run_pages(run, mapping, pages) == run,
    decreases pages.len(),
{
    if pages.len() > 0 {
        lemma_complete_run_stays(run, mapping, pages.drop_first());
    }
}

/// A listing that is fed pages, from wherever it stands.
proof fn lemma_run_of_pages(run: UserRun, mapping: MappingConfig, pages: Seq<UsersReply>)
    requires
        run.failure is None,
        run.first <= run.nusers,
        forall|i: int| 0 <= i < pages.len() ==> (#[trigger] pages[i]) is Ok,
    ensures
        run_pages(run, mapping, pages).nusers == run.nusers,
        run_pages(run, mapping, pages).failure is None,
        run_pages(run, mapping, pages).first == if run.first + pages.len() * BATCH_SIZE
            < run.nusers {
            run.first + pages.len() * BATCH_SIZE
        } else {
            run.nusers as int
        },
        run.first + (pages.len() - 1) * BATCH_SIZE < run.nusers ==> run_pages(
            run,
            mapping,
            pages,
        ).users == run.users + resolved_users(records_of(pages), mapping),
    decreases pages.len(),
{
    if pages.len() == 0 {
        assert(run.users + resolved_users(records_of(pages), mapping) =~= run.users);
    } else {
        let rest = pages.drop_first();
        assert(pages[0] is Ok);
        assert forall|i: int| 0 <= i < rest.len() implies (#[trigger] rest[i]) is Ok by {
            assert(rest[i] == pages[i + 1]);
        }
        if run_is_complete(run) {
            lemma_complete_run_stays(run, mapping, pages);
            if pages.len() == 1 {
            }
        } else {
            let step = run_page(run, mapping, pages[0]);
            lemma_run_of_pages(step, mapping, rest);
            if run.first + (pages.len() - 1) * BATCH_SIZE < run.nusers {
                let head = pages[0]->Ok_0@;
                lemma_resolved_users_concat(head, records_of(rest), mapping);
                assert(run.users + resolved_users(head, mapping) + resolved_users(
                    records_of(rest),
                    mapping,
                ) =~= run.users + (resolved_users(head, mapping) + resolved_users(
                    records_of(rest),
                    mapping,
                )));
            }
        }
    }
}

/// A whole listing. Fed page after page, a listing of `nusers` users asks
/// for its next page at the offset 100 times the number of pages taken in,
/// is complete exactly when as many pages have come as it takes to cover the
/// users, and then holds the identity records of all records of all pages,
/// in their order: for 250 users the pages start at 0, 100 and 200, and
/// there is no fourth.
pub proof fn lemma_listing_run(nusers: nat, mapping: MappingConfig, pages: Seq<UsersReply>)
    requires
        forall|i: int| 0 <= i < pages.len() ==> (#[trigger] pages[i]) is Ok,
    ensures
        run_pages(run_start(nusers), mapping, pages).failure is None,
        run_is_complete(run_pages(run_start(nusers), mapping, pages)) <==> pages.len()
            >= page_count(nusers),
        pages.len() < page_count(nusers) ==> run_pages(run_start(nusers), mapping, pages).first
            == pages.len() * BATCH_SIZE,
        pages.len() <= page_count(nusers) ==> run_pages(run_start(nusers), mapping, pages).users
            == resolved_users(records_of(pages), mapping),
{
    let run = run_start(nusers);
    lemma_run_of_pages(run, mapping, pages);
    assert(run.users + resolved_users(records_of(pages), mapping) =~= resolved_users(
        records_of(pages),
        mapping,
    ));
}

/// A failed page fails the listing. If the pages before the page `at` came
/// and the page `at` was asked for and failed, the listing ends with that
/// failure, whatever comes after it.
pub proof fn lemma_failed_page_fails_listing(
    run: UserRun,
    mapping: MappingConfig,
    pages: Seq<UsersReply>,
    at: int,
)
    requires
        0 <= at < pages.len(),
        forall|i: int| 0 <= i < at ==> (#[trigger] pages[i]) is Ok,
        pages[at] is Err,
        !run_is_complete(run_pages(run, mapping, pages.take(at))),
    ensures
        run_is_complete(run_pages(run, mapping, pages)),
        run_pages(run, mapping, pages).failure == Some(pages[at]->Err_0@),
    decreases at,
{
    let rest = pages.drop_first();
    if run_is_complete(run) {
        lemma_complete_run_stays(run, mapping, pages.take(at));
    } else if at == 0 {
        lemma_complete_run_stays(run_page(run, mapping, pages[0]), mapping, rest);
    } else {
        assert(pages[0] is Ok);
        assert(pages.take(at).drop_first() =~= rest.take(at - 1));
        assert(pages.take(at)[0] == pages[0]);
        assert forall|i: int| 0 <= i < at - 1 implies (#[trigger] rest[i]) is Ok by {
            assert(rest[i] == pages[i + 1]);
        }
        lemma_failed_page_fails_listing(run_page(run, mapping, pages[0]), mapping, rest, at - 1);
    }
}

/// The first of `users`, if there is one.
pub open spec fn first_user(users: Seq<UserView>) -> Option<UserView> {
    if users.len() > 0 {
        Some(users[0])
    } else {
        None
    }
}

/// The first of `users` with the given uid, if there is one.
pub open spec fn first_user_with_uid(users: Seq<UserView>, uid: u32) -> Option<UserView>
    decreases users.len(),
{
    if users.len() == 0 {
        None
    } else if users[0].uid == uid {
        Some(users[0])
    } else {
        first_user_with_uid(users.drop_first(), uid)
    }
}

/// The query that searches users by name.
pub open spec fn user_by_name_query(name: Seq<char>) -> Seq<(Seq<char>, Seq<char>)> {
    seq![("username"@, name), ("briefRepresentation"@, "false"@)]
}

/// The query that lists users without a filter.
pub open spec fn user_by_uid_query() -> Seq<(Seq<char>, Seq<char>)> {
    seq![("briefRepresentation"@, "false"@)]
}

/// Describes the request that looks a user up by name: the provider searches.
pub fn user_by_name_request(config: &KeycloakConfig, access_token: &str, name: &str) -> (request:
    Request)
    ensures
        request@ == (RequestView {
            method: Method::Get,
            url: users_api_url(*config),
            bearer: Some(access_token@),
            params: user_by_name_query(name@),
        }),
{
    let mut query_args: Vec<(String, String)> = Vec::new();
    query_args.push(("username".to_owned(), name.to_owned()));
    query_args.push(("briefRepresentation".to_owned(), "false".to_owned()));
    assert(query_args.deep_view() =~= user_by_name_query(name@));
    users_request(config, access_token, query_args)
}

/// Describes the request that looks a user up by uid: the provider lists,
/// and [`get_user_by_uid`] picks.
pub fn user_by_uid_request(config: &KeycloakConfig, access_token: &str) -> (request: Request)
    ensures
        request@ == (RequestView {
            method: Method::Get,
            url: users_api_url(*config),
            bearer: Some(access_token@),
            params: user_by_uid_query(),
        }),
{
    let mut query_args: Vec<(String, String)> = Vec::new();
    query_args.push(("briefRepresentation".to_owned(), "false".to_owned()));
    assert(query_args.deep_view() =~= user_by_uid_query());
    users_request(config, access_token, query_args)
}

/// The outcome of a lookup of one user, with texts as character sequences.
pub open spec fn lookup_view(r: Result<Option<KeycloakUser>, Error>) -> Result<
    Option<UserView>,
    ErrorView,
> {
    match r {
        Ok(user) => Ok(user.deep_view()),
        Err(error) => Err(error@),
    }
}

/// The user that a lookup by name finds in a reply: the first record that
/// can be mapped. A failed request fails the lookup.
pub open spec fn user_by_name(reply: UsersReply, mapping: MappingConfig) -> Result<
    Option<UserView>,
    ErrorView,
> {
    match reply {
        Ok(records) => Ok(first_user(resolved_users(records@, mapping))),
        Err(cause) => Err(ErrorView::Request(cause@)),
    }
}

/// The user that a lookup by uid finds in a reply: the first record that can
/// be mapped and maps to that uid. A failed request fails the lookup.
pub open spec fn user_by_uid(reply: UsersReply, mapping: MappingConfig, uid: u32) -> Result<
    Option<UserView>,
    ErrorView,
> {
    match reply {
        Ok(records) => Ok(first_user_with_uid(resolved_users(records@, mapping), uid)),
        Err(cause) => Err(ErrorView::Request(cause@)),
    }
}

/// Picks the user out of the reply to [`user_by_name_request`], as
/// [`user_by_name`] defines it. `Ok(None)` means that no such user was found.
pub fn get_user_by_name(mapping: &MappingConfig, reply: UsersReply) -> (user: Result<
    Option<KeycloakUser>,
    Error,
>)
    ensures
        lookup_view(user) == user_by_name(reply, *mapping),
{
    let records = match reply {
        Ok(records) => records,
        Err(cause) => {
            return Err(Error::Request(cause));
        },
    };
    let mut users = resolve_users(mapping, &records);
    if users.len() > 0 {
        Ok(Some(users.swap_remove(0)))
    } else {
        Ok(None)
    }
}

/// Picks the user with the given uid out of the reply to
/// [`user_by_uid_request`], as [`user_by_uid`] defines it. `Ok(None)` means
/// that no such user was found.
pub fn get_user_by_uid(mapping: &MappingConfig, reply: UsersReply, uid: u32) -> (user: Result<
    Option<KeycloakUser>,
    Error,
>)
    ensures
        lookup_view(user) == user_by_uid(reply, *mapping, uid),
{
    let records = match reply {
        Ok(records) => records,
        Err(cause) => {
            return Err(Error::Request(cause));
        },
    };
    let mut users = resolve_users(mapping, &records);
    let ghost all = users.deep_view();
    assert(all.subrange(0, all.len() as int) =~= all);
    let mut i: usize = 0;
    while i < users.len()
        invariant
            i <= users.len(),
            users.deep_view() == all,
            reply == Ok::<Vec<KeycloakUserResponse>, RequestError>(records),
            all == resolved_users(records@, *mapping),
            first_user_with_uid(all, uid) == first_user_with_uid(
                all.subrange(i as int, all.len() as int),
                uid,
            ),
        decreases users.len() - i,
    {
        let ghost rest = all.subrange(i as int, all.len() as int);
        assert(rest[0] == users@[i as int]@);
        if users[i].uid == uid {
            return Ok(Some(users.swap_remove(i)));
        }
        assert(rest.drop_first() =~= all.subrange(i + 1, all.len() as int));
        i += 1;
    }
    Ok(None)
}

} // verus!
