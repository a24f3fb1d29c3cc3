//! The permission registry: which kinds of access are granted, and for each
//! kind the resources it is granted on.

use std::collections::BTreeMap;
use vstd::prelude::*;

pub mod env;
pub mod events;
pub mod fs;

use crate::errors::{agrees, failure, Error, ErrorKind, ErrorView, Reason};
use crate::pattern::{accepts, anchored, glob_to_regex, pattern_accepts, regex_compiles, regex_valid};
use crate::permissions::env::Env;
use crate::permissions::events::event_http::{http_check, HttpEvent};
use crate::permissions::fs::{canonical, fs_check, fs_entry_fault, fs_normalized, Fs, FsRoot};

verus! {

/// Identifies a permission: the kind it belongs to and its level in that kind.
#[derive(Clone, Copy, Debug, PartialEq, Eq, Structural)]
pub struct PermissionTypeKey {
    pub type_id: u32,
    pub variant: i32,
}

impl PermissionTypeKey {
    /// The key as one number. Different keys have different numbers.
    pub open spec fn spec_code(self) -> int {
        self.type_id as int * 0x1_0000_0000 + (self.variant as int + 0x8000_0000)
    }

    /// The key as one number.
    pub fn code(&self) -> (c: u64)
        ensures
            c == self.spec_code(),
    {
        let high: u64 = self.type_id as u64 * 0x1_0000_0000u64;
        let low: i64 = self.variant as i64 + 0x8000_0000i64;
        high + low as u64
    }
}

/// A permission of one of the supported kinds.
#[derive(Clone, Copy, Debug, PartialEq, Eq, Structural)]
pub enum PermissionType {
    Fs(Fs),
    HttpEvent(HttpEvent),
    Env(Env),
}

impl From<Fs> for PermissionType {
    fn from(level: Fs) -> (permission: PermissionType) {
        PermissionType::Fs(level)
    }
}

impl vstd::std_specs::convert::FromSpecImpl<Fs> for PermissionType {
    open spec fn obeys_from_spec() -> bool {
        true
    }

    open spec fn from_spec(level: Fs) -> PermissionType {
        PermissionType::Fs(level)
    }
}

impl From<HttpEvent> for PermissionType {
    fn from(level: HttpEvent) -> (permission: PermissionType) {
        PermissionType::HttpEvent(level)
    }
}

impl vstd::std_specs::convert::FromSpecImpl<HttpEvent> for PermissionType {
    open spec fn obeys_from_spec() -> bool {
        true
    }

    open spec fn from_spec(level: HttpEvent) -> PermissionType {
        PermissionType::HttpEvent(level)
    }
}

impl From<Env> for PermissionType {
    fn from(level: Env) -> (permission: PermissionType) {
        PermissionType::Env(level)
    }
}

impl vstd::std_specs::convert::FromSpecImpl<Env> for PermissionType {
    open spec fn obeys_from_spec() -> bool {
        true
    }

    open spec fn from_spec(level: Env) -> PermissionType {
        PermissionType::Env(level)
    }
}

/// A resource descriptor: a path, and once it has been normalized into an
/// allow-list entry, the regular expression that its pattern stands for.
#[derive(Debug)]
pub struct Resource {
    pub path: String,
    pub pattern: Option<String>,
}

/// The mathematical value of a [`Resource`].
pub struct ResourceView {
    pub path: Seq<char>,
    pub pattern: Option<Seq<char>>,
}

impl View for Resource {
    type V = ResourceView;

    open spec fn view(&self) -> ResourceView {
        ResourceView {
            path: self.path@,
            pattern: match self.pattern {
                Some(p) => Some(p@),
                None => None,
            },
        }
    }
}

/// The values of a list of resources.
pub open spec fn views(list: Seq<Resource>) -> Seq<ResourceView> {
    list.map_values(|r: Resource| r@)
}

impl Resource {
    /// The resource at `path`, not yet normalized.
    pub fn new(path: &str) -> (r: Resource)
        ensures
            r@ == (ResourceView { path: path@, pattern: None }),
    {
        Resource { path: path.to_owned(), pattern: None }
    }

    /// A copy of this resource.
    pub fn duplicate(&self) -> (r: Resource)
        ensures
            r@ == self@,
    {
        let pattern = match &self.pattern {
            Some(p) => Some(p.clone()),
            None => None,
        };
        Resource { path: self.path.clone(), pattern }
    }
}

/// The entry accepts `text`: it has been normalized, and its regular
/// expression compiles and matches.
pub open spec fn entry_accepts(entry: ResourceView, text: Seq<char>) -> bool {
    entry.pattern is Some && accepts(entry.pattern.unwrap(), text)
}

/// Some entry of the allow-list accepts `text`.
pub open spec fn allowed(list: Seq<ResourceView>, text: Seq<char>) -> bool {
    exists|i: int| 0 <= i < list.len() && #[trigger] entry_accepts(list[i], text)
}

/// The allow-list entry for the pattern `path`.
pub open spec fn compiled(path: Seq<char>) -> ResourceView {
    ResourceView { path, pattern: Some(anchored(path)) }
}

/// Turns the pattern `path` into an allow-list entry, unless its regular
/// expression does not compile.
pub fn compile_entry(path: String) -> (r: Result<Resource, Error>)
    ensures
        match r {
            Ok(entry) => regex_valid(anchored(path@)) && entry@ == compiled(path@),
            Err(e) => !regex_valid(anchored(path@)) && e@ == failure(
                ErrorKind::Startup,
                Reason::InvalidPattern,
                path@,
            ),
        },
{
    let pattern = glob_to_regex(path.as_str());
    if regex_compiles(pattern.as_str()) {
        Ok(Resource { path, pattern: Some(pattern) })
    } else {
        Err(Error::new(ErrorKind::Startup, Reason::InvalidPattern, path.as_str()))
    }
}

/// Whether some entry of the allow-list accepts `text`. The first entry that
/// does settles it.
pub fn any_accepts(list: &Vec<Resource>, text: &str) -> (b: bool)
    ensures
        b == allowed(views(list@), text@),
{
    let mut i: usize = 0;
    while i < list.len()
        invariant
            i <= list.len(),
            forall|j: int| 0 <= j < i ==> !entry_accepts(#[trigger] views(list@)[j], text@),
        decreases list.len() - i,
    {
        let found = match &list[i].pattern {
            Some(p) => pattern_accepts(p.as_str(), text),
            None => false,
        };
        assert(views(list@)[i as int] == list@[i as int]@);
        if found {
            assert(entry_accepts(views(list@)[i as int], text@));
            return true;
        }
        i += 1;
    }
    false
}

/// The extra configuration that a kind of permission needs.
#[derive(Debug)]
pub enum State {
    /// The root directory of the filesystem permissions.
    FsRoot(FsRoot),
}

impl From<FsRoot> for State {
    fn from(root: FsRoot) -> (state: State) {
        State::FsRoot(root)
    }
}

impl vstd::std_specs::convert::FromSpecImpl<FsRoot> for State {
    open spec fn obeys_from_spec() -> bool {
        true
    }

    open spec fn from_spec(root: FsRoot) -> State {
        State::FsRoot(root)
    }
}

/// The root directory that `state` holds, if any.
pub open spec fn root_of(state: Option<State>) -> Option<Seq<char>> {
    match state {
        Some(State::FsRoot(root)) => Some(root@),
        None => None,
    }
}

/// Why the pattern `entry` cannot become an entry of the allow-list of a
/// permission of kind `kind`, if anything stands against it.
pub open spec fn entry_fault(kind: PermissionType, entry: Seq<char>, root: Option<Seq<char>>) -> Option<
    Reason,
> {
    match kind {
        PermissionType::Fs(_) => fs_entry_fault(entry, root),
        PermissionType::HttpEvent(_) => if regex_valid(anchored(entry)) {
            None
        } else {
            Some(Reason::InvalidPattern)
        },
        PermissionType::Env(_) => None,
    }
}

/// The allow-list entry that `entry` becomes for a permission of kind `kind`.
pub open spec fn normalized(kind: PermissionType, entry: ResourceView, root: Option<Seq<char>>) -> ResourceView {
    match kind {
        PermissionType::Fs(_) => fs_normalized(entry.path, root.unwrap()),
        PermissionType::HttpEvent(_) => compiled(entry.path),
        PermissionType::Env(_) => entry,
    }
}

/// Nothing stands against any pattern of `list`.
pub open spec fn fault_free(kind: PermissionType, list: Seq<ResourceView>, root: Option<Seq<char>>) -> bool {
    forall|i: int| 0 <= i < list.len() ==> entry_fault(kind, #[trigger] list[i].path, root) is None
}

/// The pattern at `i` is the first of `list` that cannot be normalized.
pub open spec fn first_fault_at(
    kind: PermissionType,
    list: Seq<ResourceView>,
    root: Option<Seq<char>>,
    i: int,
) -> bool {
    &&& 0 <= i < list.len()
    &&& forall|j: int| 0 <= j < i ==> entry_fault(kind, #[trigger] list[j].path, root) is None
    &&& entry_fault(kind, list[i].path, root) is Some
}

/// The error that the faulty pattern at `i` gives.
pub open spec fn fault_error(
    kind: PermissionType,
    list: Seq<ResourceView>,
    root: Option<Seq<char>>,
    i: int,
) -> ErrorView {
    failure(ErrorKind::Startup, entry_fault(kind, list[i].path, root).unwrap(), list[i].path)
}

/// The normalized allow-list: each pattern of `list` normalized, in order.
pub open spec fn normalize_all(kind: PermissionType, list: Seq<ResourceView>, root: Option<Seq<char>>) -> Seq<
    ResourceView,
> {
    list.map_values(|entry: ResourceView| normalized(kind, entry, root))
}

/// The text that the patterns of a permission of kind `kind` are matched
/// against when `path` is requested.
pub open spec fn normalize_path(kind: PermissionType, path: Seq<char>, root: Option<Seq<char>>) -> Seq<char> {
    match kind {
        PermissionType::Fs(_) => canonical(root.unwrap(), path),
        _ => path,
    }
}

/// What a check of `path` answers for a permission of kind `kind`, against
/// its allow-list `list` and the root `root`. A permission without resources
/// grants none.
pub open spec fn kind_check(
    kind: PermissionType,
    path: Seq<char>,
    list: Seq<ResourceView>,
    root: Option<Seq<char>>,
) -> Result<(), ErrorView> {
    match kind {
        PermissionType::Fs(level) => fs_check(level, path, list, root),
        PermissionType::HttpEvent(level) => http_check(level, path, list),
        PermissionType::Env(_) => Err(
            failure(ErrorKind::Permission, Reason::PermissionDenied(kind), path),
        ),
    }
}

/// A check that succeeds has found an entry of the allow-list whose pattern
/// matches the normalized resource, whatever the kind and the allow-list.
pub proof fn lemma_check_needs_match(
    kind: PermissionType,
    path: Seq<char>,
    list: Seq<ResourceView>,
    root: Option<Seq<char>>,
)
    requires
        kind_check(kind, path, list, root) is Ok,
    ensures
        exists|i: int|
            0 <= i < list.len() && #[trigger] entry_accepts(
                list[i],
                normalize_path(kind, path, root),
            ),
{
    let text = normalize_path(kind, path, root);
    assert(allowed(list, text));
    let i = choose|i: int| 0 <= i < list.len() && #[trigger] entry_accepts(list[i], text);
    assert(entry_accepts(list[i], text));
}

/// A filesystem path that still holds a parent-directory component after it
/// has been resolved against the root is refused at every level, whatever
/// the allow-list.
pub proof fn lemma_parent_dir_refused(
    level: Fs,
    path: Seq<char>,
    list: Seq<ResourceView>,
    root: Seq<char>,
)
    requires
        crate::permissions::fs::has_parent_component(canonical(root, path)),
    ensures
        kind_check(PermissionType::Fs(level), path, list, Some(root)) is Err,
{
}

/// The full name of a permission.
pub open spec fn spec_type_name(permission: PermissionType) -> Seq<char> {
    match permission {
        PermissionType::Fs(Fs::Open) => "tera::permissions::fs::Fs::Open"@,
        PermissionType::Fs(Fs::Create) => "tera::permissions::fs::Fs::Create"@,
        PermissionType::Fs(Fs::Read) => "tera::permissions::fs::Fs::Read"@,
        PermissionType::Fs(Fs::Write) => "tera::permissions::fs::Fs::Write"@,
        PermissionType::Fs(Fs::Execute) => "tera::permissions::fs::Fs::Execute"@,
        PermissionType::Fs(Fs::Info) => "tera::permissions::fs::Fs::Info"@,
        PermissionType::HttpEvent(HttpEvent::ReadRequest) =>
            "tera::permissions::events::event_http::HttpEvent::ReadRequest"@,
        PermissionType::HttpEvent(HttpEvent::ModifyRequest) =>
            "tera::permissions::events::event_http::HttpEvent::ModifyRequest"@,
        PermissionType::HttpEvent(HttpEvent::WriteResponse) =>
            "tera::permissions::events::event_http::HttpEvent::WriteResponse"@,
        PermissionType::HttpEvent(HttpEvent::SendResponse) =>
            "tera::permissions::events::event_http::HttpEvent::SendResponse"@,
        PermissionType::Env(Env::Read) => "tera::permissions::env::Env::Read"@,
    }
}

/// Grants where a pattern has matched, and refuses `permission` on `text`
/// where none has.
pub fn grant_or_refuse(permission: PermissionType, matched: bool, text: &str) -> (r: Result<
    (),
    Error,
>)
    ensures
        matched ==> r is Ok,
        !matched ==> (r matches Err(e) && e@ == failure(
            ErrorKind::Permission,
            Reason::PermissionDenied(permission),
            text@,
        )),
{
    if matched {
        Ok(())
    } else {
        Err(Error::new(ErrorKind::Permission, Reason::PermissionDenied(permission), text))
    }
}

impl PermissionType {
    /// The full name of this permission, as an error shows it.
    pub fn get_type(&self) -> (name: String)
        ensures
            name@ == spec_type_name(*self),
    {
        let name: &str = match self {
            PermissionType::Fs(Fs::Open) => "tera::permissions::fs::Fs::Open",
            PermissionType::Fs(Fs::Create) => "tera::permissions::fs::Fs::Create",
            PermissionType::Fs(Fs::Read) => "tera::permissions::fs::Fs::Read",
            PermissionType::Fs(Fs::Write) => "tera::permissions::fs::Fs::Write",
            PermissionType::Fs(Fs::Execute) => "tera::permissions::fs::Fs::Execute",
            PermissionType::Fs(Fs::Info) => "tera::permissions::fs::Fs::Info",
            PermissionType::HttpEvent(HttpEvent::ReadRequest) =>
                "tera::permissions::events::event_http::HttpEvent::ReadRequest",
            PermissionType::HttpEvent(HttpEvent::ModifyRequest) =>
                "tera::permissions::events::event_http::HttpEvent::ModifyRequest",
            PermissionType::HttpEvent(HttpEvent::WriteResponse) =>
                "tera::permissions::events::event_http::HttpEvent::WriteResponse",
            PermissionType::HttpEvent(HttpEvent::SendResponse) =>
                "tera::permissions::events::event_http::HttpEvent::SendResponse",
            PermissionType::Env(Env::Read) => "tera::permissions::env::Env::Read",
        };
        name.to_owned()
    }

    /// The key of this permission.
    pub open spec fn spec_key(self) -> PermissionTypeKey {
        match self {
            PermissionType::Fs(level) => level.spec_key(),
            PermissionType::HttpEvent(level) => level.spec_key(),
            PermissionType::Env(level) => level.spec_key(),
        }
    }

    /// The key under which this permission is registered.
    pub fn get_key(&self) -> (key: PermissionTypeKey)
        ensures
            key == self.spec_key(),
    {
        match self {
            PermissionType::Fs(level) => level.get_key(),
            PermissionType::HttpEvent(level) => level.get_key(),
            PermissionType::Env(level) => level.get_key(),
        }
    }

    /// Normalizes the allow-list of this permission. The first pattern that
    /// cannot be normalized, in list order, fails the whole list.
    pub fn map(&self, allow_list: Vec<Resource>, state: &Option<State>) -> (r: Result<
        Vec<Resource>,
        Error,
    >)
        ensures
            match r {
                Ok(list) => {
                    &&& fault_free(*self, views(allow_list@), root_of(*state))
                    &&& views(list@) == normalize_all(
                        *self,
                        views(allow_list@),
                        root_of(*state),
                    )
                },
                Err(e) => exists|i: int|
                    {
                        &&& #[trigger] first_fault_at(
                            *self,
                            views(allow_list@),
                            root_of(*state),
                            i,
                        )
                        &&& e@ == fault_error(*self, views(allow_list@), root_of(*state), i)
                    },
            },
    {
        let ghost before = views(allow_list@);
        let ghost root = root_of(*state);
        match self {
            PermissionType::Fs(level) => {
                let r = level.map(allow_list, state);
                proof {
                    let ghost outcome = r;
                    match outcome {
                        Ok(list) => {
                            assert(views(list@) =~= normalize_all(*self, before, root));
                        },
                        Err(e) => {
                            let i = choose|i: int|
                                {
                                    &&& 0 <= i < allow_list.len()
                                    &&& forall|j: int|
                                        0 <= j < i ==> fs_entry_fault(
                                            #[trigger] allow_list[j]@.path,
                                            root,
                                        ) is None
                                    &&& fs_entry_fault(#[trigger] allow_list[i]@.path, root)
                                        is Some
                                    &&& e@ == failure(
                                        ErrorKind::Startup,
                                        fs_entry_fault(allow_list[i]@.path, root).unwrap(),
                                        allow_list[i]@.path,
                                    )
                                };
                            assert(first_fault_at(*self, before, root, i));
                        },
                    }
                }
                r
            },
            PermissionType::HttpEvent(level) => {
                let r = level.map(allow_list);
                proof {
                    let ghost outcome = r;
                    match outcome {
                        Ok(list) => {
                            assert(views(list@) =~= normalize_all(*self, before, root));
                        },
                        Err(e) => {
                            let i = choose|i: int|
                                {
                                    &&& 0 <= i < allow_list.len()
                                    &&& forall|j: int|
                                        0 <= j < i ==> regex_valid(
                                            anchored(#[trigger] allow_list[j]@.path),
                                        )
                                    &&& !regex_valid(anchored(#[trigger] allow_list[i]@.path))
                                    &&& e@ == failure(
                                        ErrorKind::Startup,
                                        Reason::InvalidPattern,
                                        allow_list[i]@.path,
                                    )
                                };
                            assert(first_fault_at(*self, before, root, i));
                        },
                    }
                }
                r
            },
            PermissionType::Env(_) => {
                proof {
                    assert(before =~= normalize_all(*self, before, root));
                }
                Ok(allow_list)
            },
        }
    }

    /// Checks `resource` against the normalized allow-list of this
    /// permission.
    pub fn check(&self, resource: &Resource, allow_list: &Vec<Resource>, state: &Option<State>) -> (r:
        Result<(), Error>)
        ensures
            agrees(r, kind_check(*self, resource@.path, views(allow_list@), root_of(*state))),
            r is Ok ==> allowed(
                views(allow_list@),
                normalize_path(*self, resource@.path, root_of(*state)),
            ),
    {
        match self {
            PermissionType::Fs(level) => level.check(resource, allow_list, state),
            PermissionType::HttpEvent(level) => level.check(resource, allow_list),
            PermissionType::Env(_) => Err(
                Error::new(
                    ErrorKind::Permission,
                    Reason::PermissionDenied(*self),
                    resource.path.as_str(),
                ),
            ),
        }
    }
}

/// The permissions that have been granted: each registered permission with
/// its normalized allow-list, and the state that the kinds share.
#[derive(Debug)]
pub struct Permissions {
    pub map: BTreeMap<u64, Vec<Resource>>,
    pub state: Option<State>,
}

/// Collects permissions, normalizing each allow-list as it is added.
pub struct PermissionsBuilder {
    pub(crate) map: BTreeMap<u64, Vec<Resource>>,
    pub(crate) state: Option<State>,
}

/// The mathematical value of a set of permissions: the allow-list of each
/// registered permission, and the root directory if one was given.
pub struct PermissionsView {
    pub map: Map<PermissionTypeKey, Seq<ResourceView>>,
    pub root: Option<Seq<char>>,
}

/// The allow-lists by permission, read off the map that holds them by the
/// number of the permission's key.
pub open spec fn registry(map: Map<u64, Vec<Resource>>) -> Map<
    PermissionTypeKey,
    Seq<ResourceView>,
> {
    Map::new(
        |key: PermissionTypeKey| map.contains_key(key.spec_code() as u64),
        |key: PermissionTypeKey| views(map[key.spec_code() as u64]@),
    )
}

impl View for Permissions {
    type V = PermissionsView;

    open spec fn view(&self) -> PermissionsView {
        PermissionsView { map: registry(self.map@), root: root_of(self.state) }
    }
}

impl View for PermissionsBuilder {
    type V = PermissionsView;

    closed spec fn view(&self) -> PermissionsView {
        PermissionsView { map: registry(self.map@), root: root_of(self.state) }
    }
}

/// A permission together with the patterns it is to be granted on.
pub type Grant = (PermissionType, Seq<ResourceView>);

/// The allow-lists after the grants have been registered in order on top of
/// `base`: a later grant of a permission replaces an earlier one.
pub open spec fn register(
    base: Map<PermissionTypeKey, Seq<ResourceView>>,
    grants: Seq<Grant>,
    root: Option<Seq<char>>,
) -> Map<PermissionTypeKey, Seq<ResourceView>>
    decreases grants.len(),
{
    if grants.len() == 0 {
        base
    } else {
        register(base, grants.drop_last(), root).insert(
            grants.last().0.spec_key(),
            normalize_all(grants.last().0, grants.last().1, root),
        )
    }
}

/// Every allow-list of `grants` can be normalized.
pub open spec fn grants_fault_free(grants: Seq<Grant>, root: Option<Seq<char>>) -> bool {
    forall|k: int|
        0 <= k < grants.len() ==> fault_free((#[trigger] grants[k]).0, grants[k].1, root)
}

/// The grant at `k` is the first whose allow-list cannot be normalized, and
/// the pattern at `i` is the first of that list that cannot be.
pub open spec fn first_faulty_grant(grants: Seq<Grant>, root: Option<Seq<char>>, k: int, i: int) -> bool {
    &&& 0 <= k < grants.len()
    &&& grants_fault_free(grants.take(k), root)
    &&& first_fault_at(grants[k].0, grants[k].1, root, i)
}

/// The grants that a list of permissions with owned allow-lists stands for.
pub open spec fn grants_of(list: Seq<(PermissionType, Vec<Resource>)>) -> Seq<Grant> {
    list.map_values(|g: (PermissionType, Vec<Resource>)| (g.0, views(g.1@)))
}

/// The grants that a list of permissions with borrowed allow-lists stands
/// for.
pub open spec fn grants_of_slices(list: Seq<(PermissionType, &[Resource])>) -> Seq<Grant> {
    list.map_values(|g: (PermissionType, &[Resource])| (g.0, views(g.1@)))
}

/// The grants that a list of permissions without resources stands for: each
/// with an empty allow-list.
pub open spec fn bare_grants(list: Seq<PermissionType>) -> Seq<Grant> {
    list.map_values(|p: PermissionType| (p, Seq::<ResourceView>::empty()))
}

/// What adding `grants` to the permissions `before` gives: the builder
/// `after` holds them all, or the error is that of the first pattern, in
/// order, that cannot be normalized.
pub open spec fn added(
    before: PermissionsView,
    grants: Seq<Grant>,
    r: Result<PermissionsBuilder, Error>,
) -> bool {
    match r {
        Ok(after) => {
            &&& grants_fault_free(grants, before.root)
            &&& after@.root == before.root
            &&& after@.map == register(before.map, grants, before.root)
        },
        Err(e) => exists|k: int, i: int|
            {
                &&& #[trigger] first_faulty_grant(grants, before.root, k, i)
                &&& e@ == fault_error(grants[k].0, grants[k].1, before.root, i)
            },
    }
}

/// What a check of `path` for `permission` answers on the permissions
/// `granted`: the permission has to be registered, and its kind has to accept
/// the path against the registered allow-list.
pub open spec fn spec_check(granted: PermissionsView, permission: PermissionType, path: Seq<char>) -> Result<
    (),
    ErrorView,
> {
    if !granted.map.contains_key(permission.spec_key()) {
        Err(failure(ErrorKind::Permission, Reason::PermissionDenied(permission), path))
    } else {
        kind_check(permission, path, granted.map[permission.spec_key()], granted.root)
    }
}

/// What `check_exists` answers: whether the permission is registered.
pub open spec fn spec_check_exists(granted: PermissionsView, permission: PermissionType) -> Result<
    (),
    ErrorView,
> {
    if granted.map.contains_key(permission.spec_key()) {
        Ok(())
    } else {
        Err(failure(ErrorKind::Permission, Reason::PermissionDenied(permission), Seq::empty()))
    }
}

/// Under permissions with a root, a filesystem path that still holds a
/// parent-directory component after it has been resolved against the root is
/// refused at every level, whatever has been registered.
pub proof fn lemma_parent_dir_never_granted(granted: PermissionsView, level: Fs, path: Seq<char>)
    requires
        granted.root is Some,
        crate::permissions::fs::has_parent_component(canonical(granted.root.unwrap(), path)),
    ensures
        spec_check(granted, PermissionType::Fs(level), path) is Err,
{
}

/// A check that the registry grants has found the permission registered and
/// an entry of its allow-list whose pattern matches the normalized resource.
pub proof fn lemma_granted_needs_match(
    granted: PermissionsView,
    permission: PermissionType,
    path: Seq<char>,
)
    requires
        spec_check(granted, permission, path) is Ok,
    ensures
        granted.map.contains_key(permission.spec_key()),
        exists|i: int|
            0 <= i < granted.map[permission.spec_key()].len() && #[trigger] entry_accepts(
                granted.map[permission.spec_key()][i],
                normalize_path(permission, path, granted.root),
            ),
{
    lemma_check_needs_match(permission, path, granted.map[permission.spec_key()], granted.root);
}

/// Two keys with the same number are the same key.
pub proof fn lemma_code_injective(a: PermissionTypeKey, b: PermissionTypeKey)
    requires
        a.spec_code() == b.spec_code(),
    ensures
        a == b,
{
}

proof fn lemma_registry_insert(map: Map<u64, Vec<Resource>>, key: PermissionTypeKey, list: Vec<Resource>)
    ensures
        registry(map.insert(key.spec_code() as u64, list)) == registry(map).insert(
            key,
            views(list@),
        ),
{
    let code = key.spec_code() as u64;
    let after = registry(map.insert(code, list));
    let expected = registry(map).insert(key, views(list@));
    assert forall|k: PermissionTypeKey| after.contains_key(k) == expected.contains_key(k) by {
        if k.spec_code() as u64 == code {
            lemma_code_injective(k, key);
        }
    }
    assert forall|k: PermissionTypeKey| after.contains_key(k) implies after[k] == expected[k] by {
        if k.spec_code() as u64 == code {
            lemma_code_injective(k, key);
        }
    }
    assert(after =~= expected);
}

proof fn lemma_register_step(
    base: Map<PermissionTypeKey, Seq<ResourceView>>,
    grants: Seq<Grant>,
    root: Option<Seq<char>>,
    k: int,
)
    requires
        0 <= k < grants.len(),
    ensures
        register(base, grants.take(k + 1), root) == register(base, grants.take(k), root).insert(
            grants[k].0.spec_key(),
            normalize_all(grants[k].0, grants[k].1, root),
        ),
{
    assert(grants.take(k + 1).drop_last() =~= grants.take(k));
}

/// A list without patterns has none that cannot be normalized, and
/// normalizes to the empty list.
proof fn lemma_empty_list(permission: PermissionType, root: Option<Seq<char>>)
    ensures
        fault_free(permission, Seq::<ResourceView>::empty(), root),
        normalize_all(permission, Seq::<ResourceView>::empty(), root) == Seq::<
            ResourceView,
        >::empty(),
{
    assert(normalize_all(permission, Seq::<ResourceView>::empty(), root) =~= Seq::<
        ResourceView,
    >::empty());
}

/// A copy of a list of resources.
pub fn copy_resources(list: &[Resource]) -> (out: Vec<Resource>)
    ensures
        views(out@) == views(list@),
{
    let mut out: Vec<Resource> = Vec::new();
    let mut i: usize = 0;
    while i < list.len()
        invariant
            i <= list.len(),
            out.len() == i,
            forall|j: int| 0 <= j < i ==> out[j]@ == list[j]@,
        decreases list.len() - i,
    {
        out.push(list[i].duplicate());
        i += 1;
    }
    assert(views(out@) =~= views(list@));
    out
}

impl Default for Permissions {
    /// Permissions that grant nothing.
    fn default() -> (p: Permissions)
        ensures
            p@.map == Map::<PermissionTypeKey, Seq<ResourceView>>::empty(),
            p@.root is None,
    {
        let p = Permissions { map: BTreeMap::new(), state: None };
        assert(p@.map =~= Map::<PermissionTypeKey, Seq<ResourceView>>::empty());
        p
    }
}

impl Permissions {
    /// A builder with nothing registered.
    pub fn builder() -> (b: PermissionsBuilder)
        ensures
            b@.map == Map::<PermissionTypeKey, Seq<ResourceView>>::empty(),
            b@.root is None,
    {
        PermissionsBuilder::new()
    }

    /// Grants `resource` for `permission` if the permission is registered
    /// and its kind accepts the resource against the registered allow-list
    /// and the state; refuses with a permission error otherwise.
    pub fn check(&self, permission: PermissionType, resource: &Resource) -> (r: Result<(), Error>)
        ensures
            agrees(r, spec_check(self@, permission, resource@.path)),
            r matches Err(e) ==> e@.kind == ErrorKind::Permission,
            r is Ok ==> self@.map.contains_key(permission.spec_key()) && allowed(
                self@.map[permission.spec_key()],
                normalize_path(permission, resource@.path, self@.root),
            ),
    {
        let code = permission.get_key().code();
        match self.map.get(&code) {
            None => Err(
                Error::new(
                    ErrorKind::Permission,
                    Reason::PermissionDenied(permission),
                    resource.path.as_str(),
                ),
            ),
            Some(allow_list) => permission.check(resource, allow_list, &self.state),
        }
    }

    /// Succeeds exactly when `permission` is registered.
    pub fn check_exists(&self, permission: PermissionType) -> (r: Result<(), Error>)
        ensures
            agrees(r, spec_check_exists(self@, permission)),
    {
        let code = permission.get_key().code();
        if self.map.contains_key(&code) {
            Ok(())
        } else {
            proof {
                reveal_strlit("");
                assert(""@ =~= Seq::<char>::empty());
            }
            Err(Error::new(ErrorKind::Permission, Reason::PermissionDenied(permission), ""))
        }
    }
}

impl PermissionsBuilder {
    /// A builder with nothing registered and no state.
    pub fn new() -> (b: PermissionsBuilder)
        ensures
            b@.map == Map::<PermissionTypeKey, Seq<ResourceView>>::empty(),
            b@.root is None,
    {
        let b = PermissionsBuilder { map: BTreeMap::new(), state: None };
        assert(b@.map =~= Map::<PermissionTypeKey, Seq<ResourceView>>::empty());
        b
    }

    /// Sets the state. Allow-lists added from here on are normalized against
    /// it; those added before stay as they are.
    pub fn add_state(self, state: State) -> (b: PermissionsBuilder)
        ensures
            b@.map == self@.map,
            b@.root == root_of(Some(state)),
    {
        PermissionsBuilder { map: self.map, state: Some(state) }
    }

    /// Registers `permission` with the allow-list `allow_list`, normalized
    /// against the state. A permission that was registered before gets the new
    /// list.
    pub fn add_permission_with_allow_list(self, permission: PermissionType, allow_list: Vec<Resource>) -> (r:
        Result<PermissionsBuilder, Error>)
        ensures
            match r {
                Ok(b) => {
                    &&& fault_free(permission, views(allow_list@), self@.root)
                    &&& b@.root == self@.root
                    &&& b@.map == self@.map.insert(
                        permission.spec_key(),
                        normalize_all(permission, views(allow_list@), self@.root),
                    )
                },
                Err(e) => exists|i: int|
                    {
                        &&& #[trigger] first_fault_at(
                            permission,
                            views(allow_list@),
                            self@.root,
                            i,
                        )
                        &&& e@ == fault_error(permission, views(allow_list@), self@.root, i)
                    },
            },
    {
        let key = permission.get_key();
        let code = key.code();
        let list = permission.map(allow_list, &self.state)?;
        let mut map = self.map;
        let state = self.state;
        proof {
            lemma_registry_insert(map@, key, list);
        }
        map.insert(code, list);
        Ok(PermissionsBuilder { map, state })
    }

    /// Registers each permission of `permissions` with its allow-list, in
    /// order. The builder is lost at the first list that cannot be normalized.
    pub fn add_permissions_with_allow_lists(self, permissions: &[(PermissionType, &[Resource])]) -> (r:
        Result<PermissionsBuilder, Error>)
        ensures
            added(self@, grants_of_slices(permissions@), r),
    {
        let ghost before = self@;
        let ghost grants = grants_of_slices(permissions@);
        let mut builder = self;
        let mut k: usize = 0;
        proof {
            assert(grants.take(0) =~= Seq::<Grant>::empty());
        }
        while k < permissions.len()
            invariant
                k <= permissions.len(),
                before == self@,
                grants == grants_of_slices(permissions@),
                builder@.root == before.root,
                builder@.map == register(before.map, grants.take(k as int), before.root),
                grants_fault_free(grants.take(k as int), before.root),
            decreases permissions.len() - k,
        {
            let permission = permissions[k].0;
            let allow_list = copy_resources(permissions[k].1);
            assert(grants[k as int] == (permission, views(allow_list@)));
            match builder.add_permission_with_allow_list(permission, allow_list) {
                Ok(next) => {
                    builder = next;
                },
                Err(e) => {
                    proof {
                        let i = choose|i: int|
                            {
                                &&& #[trigger] first_fault_at(
                                    permission,
                                    views(allow_list@),
                                    before.root,
                                    i,
                                )
                                &&& e@ == fault_error(
                                    permission,
                                    views(allow_list@),
                                    before.root,
                                    i,
                                )
                            };
                        assert(first_faulty_grant(grants, before.root, k as int, i));
                    }
                    return Err(e);
                },
            }
            proof {
                lemma_register_step(before.map, grants, before.root, k as int);
                assert forall|j: int| 0 <= j < k + 1 implies fault_free(
                    (#[trigger] grants.take(k + 1)[j]).0,
                    grants.take(k + 1)[j].1,
                    before.root,
                ) by {
                    if j < k {
                        assert(grants.take(k + 1)[j] == grants.take(k as int)[j]);
                    }
                }
            }
            k += 1;
        }
        proof {
            assert(grants.take(k as int) =~= grants);
        }
        Ok(builder)
    }

    /// Registers each permission of `permissions` with its allow-list, in
    /// order. The builder is lost at the first list that cannot be normalized.
    pub fn add_owned_permissions_with_allow_lists(
        self,
        permissions: Vec<(PermissionType, Vec<Resource>)>,
    ) -> (r: Result<PermissionsBuilder, Error>)
        ensures
            added(self@, grants_of(permissions@), r),
    {
        let mut borrowed: Vec<(PermissionType, &[Resource])> = Vec::new();
        let mut k: usize = 0;
        while k < permissions.len()
            invariant
                k <= permissions.len(),
                borrowed.len() == k,
                forall|j: int|
                    0 <= j < k ==> (#[trigger] borrowed[j]).0 == permissions[j].0 && borrowed[j].1@
                        == permissions[j].1@,
            decreases permissions.len() - k,
        {
            borrowed.push((permissions[k].0, permissions[k].1.as_slice()));
            k += 1;
        }
        assert(grants_of_slices(borrowed@) =~= grants_of(permissions@));
        self.add_permissions_with_allow_lists(borrowed.as_slice())
    }

    /// Registers each permission of `permissions` with an empty allow-list.
    /// This never fails.
    pub fn add_permissions(self, permissions: &[PermissionType]) -> (r: Result<
        PermissionsBuilder,
        Error,
    >)
        ensures
            r is Ok,
            added(self@, bare_grants(permissions@), r),
    {
        let empty: Vec<Resource> = Vec::new();
        let mut grants: Vec<(PermissionType, &[Resource])> = Vec::new();
        let mut k: usize = 0;
        while k < permissions.len()
            invariant
                k <= permissions.len(),
                grants.len() == k,
                empty@.len() == 0,
                forall|j: int|
                    0 <= j < k ==> (#[trigger] grants[j]).0 == permissions[j] && grants[j].1@
                        == empty@,
            decreases permissions.len() - k,
        {
            grants.push((permissions[k], empty.as_slice()));
            k += 1;
        }
        proof {
            assert(views(empty@) =~= Seq::<ResourceView>::empty());
            assert(grants_of_slices(grants@) =~= bare_grants(permissions@));
            assert forall|j: int| 0 <= j < bare_grants(permissions@).len() implies fault_free(
                (#[trigger] bare_grants(permissions@)[j]).0,
                bare_grants(permissions@)[j].1,
                self@.root,
            ) by {
                lemma_empty_list(permissions[j], self@.root);
            }
        }
        let r = self.add_permissions_with_allow_lists(grants.as_slice());
        proof {
            if r is Err {
                let (k, i) = choose|k: int, i: int| #[trigger]
                    first_faulty_grant(bare_grants(permissions@), self@.root, k, i);
                assert(fault_free(
                    bare_grants(permissions@)[k].0,
                    bare_grants(permissions@)[k].1,
                    self@.root,
                ));
            }
        }
        r
    }

    /// Registers each permission of `permissions` with an empty allow-list.
    /// This never fails.
    pub fn add_owned_permissions(self, permissions: Vec<PermissionType>) -> (r: Result<
        PermissionsBuilder,
        Error,
    >)
        ensures
            r is Ok,
            added(self@, bare_grants(permissions@), r),
    {
        self.add_permissions(permissions.as_slice())
    }

    /// The permissions that have been collected.
    pub fn build(self) -> (p: Permissions)
        ensures
            p@ == self@,
    {
        Permissions { map: self.map, state: self.state }
    }
}

} // verus!
