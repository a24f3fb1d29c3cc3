//! The filesystem permission. Its resources are absolute paths, taken relative
//! to a root directory; its allow-list holds patterns over such paths.

use vstd::prelude::*;
use crate::errors::{agrees, failure, Error, ErrorKind, ErrorView, Reason};
use crate::pattern::{anchored, regex_valid};
use crate::permissions::{
    allowed, any_accepts, compile_entry, compiled, grant_or_refuse, root_of, views, PermissionType,
    PermissionTypeKey, Resource, ResourceView, State,
};
use crate::text::{chars_of, string_of};

verus! {

/// The number of the filesystem kind in a permission's key.
pub const FS_TYPE_ID: u32 = 0;

/// The access levels of the filesystem permission.
#[derive(Clone, Copy, Debug, PartialEq, Eq, Structural)]
pub enum Fs {
    Open,
    Create,
    Read,
    Write,
    Execute,
    Info,
}

/// A path below the root, or a pattern for such paths. It starts with the
/// separator and is resolved against the root, never against the working
/// directory.
pub type FsPath = Resource;

/// The root directory of the filesystem permissions: a canonical absolute
/// path.
#[derive(Debug)]
pub struct FsRoot(pub String);

impl View for FsRoot {
    type V = Seq<char>;

    open spec fn view(&self) -> Seq<char> {
        self.0@
    }
}

impl FsRoot {
    /// The root at `canonical`, which the caller has resolved to a canonical
    /// absolute path.
    pub fn new(canonical: &str) -> (root: FsRoot)
        ensures
            root@ == canonical@,
    {
        FsRoot(canonical.to_owned())
    }

    /// The root's path.
    pub fn as_str(&self) -> (s: &str)
        ensures
            s@ == self@,
    {
        self.0.as_str()
    }
}

/// A path is absolute when it starts with the separator.
pub open spec fn is_absolute(p: Seq<char>) -> bool {
    p.len() > 0 && p[0] == '/'
}

/// A parent-directory component starts at `i`: two dots, with a separator or
/// the path's end on either side.
pub open spec fn parent_at(p: Seq<char>, i: int) -> bool {
    &&& 0 <= i
    &&& i + 2 <= p.len()
    &&& p[i] == '.'
    &&& p[i + 1] == '.'
    &&& (i == 0 || p[i - 1] == '/')
    &&& (i + 2 == p.len() || p[i + 2] == '/')
}

/// Some component of the path is `..`.
pub open spec fn has_parent_component(p: Seq<char>) -> bool {
    exists|i: int| parent_at(p, i)
}

/// The number of separators that the path starts with.
pub open spec fn leading_separators(p: Seq<char>) -> nat
    decreases p.len(),
{
    if p.len() > 0 && p[0] == '/' {
        1 + leading_separators(p.skip(1))
    } else {
        0
    }
}

/// The path without the separators it starts with.
pub open spec fn strip_root(p: Seq<char>) -> Seq<char> {
    p.skip(leading_separators(p) as int)
}

/// `relative` appended to `root`, with one separator between them unless
/// `root` is empty or ends in one. An absolute `relative` replaces `root`.
pub open spec fn join(root: Seq<char>, relative: Seq<char>) -> Seq<char> {
    if is_absolute(relative) {
        relative
    } else if root.len() == 0 || root.last() == '/' {
        root + relative
    } else {
        root + seq!['/'] + relative
    }
}

/// What `path_clean::clean` makes of a path: the same path with `.`
/// components, doubled separators and resolvable `..` components removed.
pub uninterp spec fn cleaned(path: Seq<char>) -> Seq<char>;

/// The path under `root` that `path` names: `path` is cleaned, loses its
/// leading separators, is appended to `root`, and the whole is cleaned again.
pub open spec fn canonical(root: Seq<char>, path: Seq<char>) -> Seq<char> {
    cleaned(join(root, strip_root(cleaned(path))))
}

/// Calls `path_clean::clean`, which works on the text of the path alone and
/// never touches the filesystem. Its result has the name `cleaned`.
#[verifier::external_body]
pub(crate) fn clean(path: &str) -> (out: String)
    ensures
        out@ == cleaned(path@),
{
    path_clean::clean(path).to_string_lossy().into_owned()
}

/// Whether the path starts with the separator.
pub fn starts_with_separator(path: &str) -> (b: bool)
    ensures
        b == is_absolute(path@),
{
    let p = chars_of(path);
    p.len() > 0 && p[0] == '/'
}

/// Whether some component of the path is `..`.
pub fn contains_parent_component(path: &str) -> (b: bool)
    ensures
        b == has_parent_component(path@),
{
    let p = chars_of(path);
    let n = p.len();
    let mut i: usize = 0;
    while i < n
        invariant
            i <= n,
            n == p@.len(),
            p@ == path@,
            forall|j: int| 0 <= j < i ==> !parent_at(p@, j),
        decreases n - i,
    {
        if p[i] == '.' && n - i >= 2 && p[i + 1] == '.' && (i == 0 || p[i - 1] == '/') && (n - i
            == 2 || p[i + 2] == '/') {
            assert(parent_at(p@, i as int));
            return true;
        }
        i += 1;
    }
    false
}

/// The path without the separators it starts with.
pub fn without_root(path: &str) -> (out: String)
    ensures
        out@ == strip_root(path@),
{
    let p = chars_of(path);
    let mut k: usize = 0;
    proof {
        assert(p@.skip(0) =~= p@);
    }
    while k < p.len() && p[k] == '/'
        invariant
            k <= p.len(),
            leading_separators(p@) == k + leading_separators(p@.skip(k as int)),
        decreases p.len() - k,
    {
        proof {
            assert(p@.skip(k as int).skip(1) =~= p@.skip(k + 1));
        }
        k += 1;
    }
    let mut out: Vec<char> = Vec::new();
    let mut i: usize = k;
    while i < p.len()
        invariant
            k <= i <= p.len(),
            out@ == p@.subrange(k as int, i as int),
        decreases p.len() - i,
    {
        out.push(p[i]);
        i += 1;
    }
    proof {
        assert(p@.subrange(k as int, p.len() as int) =~= p@.skip(k as int));
    }
    string_of(&out)
}

/// `relative` appended to `root`, as [`join`] says.
pub fn join_paths(root: &str, relative: &str) -> (out: String)
    ensures
        out@ == join(root@, relative@),
{
    let a = chars_of(root);
    let b = chars_of(relative);
    if b.len() > 0 && b[0] == '/' {
        return string_of(&b);
    }
    let mut out: Vec<char> = Vec::new();
    let mut i: usize = 0;
    while i < a.len()
        invariant
            i <= a.len(),
            out@ == a@.take(i as int),
        decreases a.len() - i,
    {
        out.push(a[i]);
        i += 1;
    }
    if a.len() > 0 && a[a.len() - 1] != '/' {
        out.push('/');
    }
    let ghost head = out@;
    let mut j: usize = 0;
    while j < b.len()
        invariant
            j <= b.len(),
            out@ == head + b@.take(j as int),
        decreases b.len() - j,
    {
        out.push(b[j]);
        j += 1;
    }
    string_of(&out)
}

/// Why the pattern `entry` cannot become an allow-list entry under `root`, if
/// anything stands against it: there is no root, the pattern is not absolute,
/// it holds a parent-directory component before or after it is resolved
/// against the root, or its regular expression does not compile.
pub open spec fn fs_entry_fault(entry: Seq<char>, root: Option<Seq<char>>) -> Option<Reason> {
    if root is None {
        Some(Reason::RootNotSpecified)
    } else if !is_absolute(entry) {
        Some(Reason::NotAbsolute)
    } else if has_parent_component(entry) {
        Some(Reason::ParentDir)
    } else if has_parent_component(canonical(root.unwrap(), entry)) {
        Some(Reason::ParentDir)
    } else if !regex_valid(anchored(canonical(root.unwrap(), entry))) {
        Some(Reason::InvalidPattern)
    } else {
        None
    }
}

/// The allow-list entry that the pattern `entry` becomes under `root`.
pub open spec fn fs_normalized(entry: Seq<char>, root: Seq<char>) -> ResourceView {
    compiled(canonical(root, entry))
}

/// What a check of `path` at level `level` answers, against the allow-list
/// `list` and the root `root`.
pub open spec fn fs_check(
    level: Fs,
    path: Seq<char>,
    list: Seq<ResourceView>,
    root: Option<Seq<char>>,
) -> Result<(), ErrorView> {
    if root is None {
        Err(failure(ErrorKind::Permission, Reason::RootNotSpecified, Seq::empty()))
    } else if !is_absolute(path) {
        Err(failure(ErrorKind::Permission, Reason::NotAbsolute, path))
    } else if has_parent_component(canonical(root.unwrap(), path)) {
        Err(failure(ErrorKind::Permission, Reason::ParentDir, path))
    } else if allowed(list, canonical(root.unwrap(), path)) {
        Ok(())
    } else {
        Err(
            failure(
                ErrorKind::Permission,
                Reason::PermissionDenied(PermissionType::Fs(level)),
                canonical(root.unwrap(), path),
            ),
        )
    }
}

impl Fs {
    /// The key of this level: the kind's number and the level's place.
    pub open spec fn spec_key(self) -> PermissionTypeKey {
        PermissionTypeKey {
            type_id: FS_TYPE_ID,
            variant: match self {
                Fs::Open => 0,
                Fs::Create => 1,
                Fs::Read => 2,
                Fs::Write => 3,
                Fs::Execute => 4,
                Fs::Info => 5,
            },
        }
    }

    /// The key under which this level is registered.
    pub fn get_key(&self) -> (key: PermissionTypeKey)
        ensures
            key == self.spec_key(),
    {
        let variant: i32 = match self {
            Fs::Open => 0,
            Fs::Create => 1,
            Fs::Read => 2,
            Fs::Write => 3,
            Fs::Execute => 4,
            Fs::Info => 5,
        };
        PermissionTypeKey { type_id: FS_TYPE_ID, variant }
    }

    /// Hands `resolved` back unless it still holds a parent-directory
    /// component; `path` is the path it was resolved from, named in the error.
    pub fn reject_parent_dir(resolved: String, path: &str) -> (r: Result<String, Error>)
        ensures
            match r {
                Ok(p) => !has_parent_component(resolved@) && p@ == resolved@,
                Err(e) => has_parent_component(resolved@) && e@ == failure(
                    ErrorKind::Permission,
                    Reason::ParentDir,
                    path@,
                ),
            },
    {
        if contains_parent_component(resolved.as_str()) {
            Err(Error::new(ErrorKind::Permission, Reason::ParentDir, path))
        } else {
            Ok(resolved)
        }
    }

    /// Resolves `path` against `root`: the result is [`canonical`], and it is an
    /// error if that still holds a parent-directory component.
    pub fn clean_path(root: &str, path: &str) -> (r: Result<String, Error>)
        ensures
            match r {
                Ok(p) => !has_parent_component(p@) && p@ == canonical(root@, path@),
                Err(e) => has_parent_component(canonical(root@, path@)) && e@ == failure(
                    ErrorKind::Permission,
                    Reason::ParentDir,
                    path@,
                ),
            },
    {
        let first = clean(path);
        let relative = without_root(first.as_str());
        let full = join_paths(root, relative.as_str());
        let resolved = clean(full.as_str());
        Fs::reject_parent_dir(resolved, path)
    }

    /// Normalizes one pattern of an allow-list: it is resolved against the
    /// root and compiled, unless [`fs_entry_fault`] names a fault.
    pub fn normalize_entry(entry: &str, state: &Option<State>) -> (r: Result<Resource, Error>)
        ensures
            match r {
                Ok(normalized) => {
                    &&& fs_entry_fault(entry@, root_of(*state)) is None
                    &&& normalized@ == fs_normalized(entry@, root_of(*state).unwrap())
                },
                Err(e) => {
                    &&& fs_entry_fault(entry@, root_of(*state)) is Some
                    &&& e@ == failure(
                        ErrorKind::Startup,
                        fs_entry_fault(entry@, root_of(*state)).unwrap(),
                        entry@,
                    )
                },
            },
    {
        let root: &str = match state {
            Some(State::FsRoot(root)) => root.as_str(),
            None => {
                return Err(Error::new(ErrorKind::Startup, Reason::RootNotSpecified, entry));
            },
        };
        if !starts_with_separator(entry) {
            return Err(Error::new(ErrorKind::Startup, Reason::NotAbsolute, entry));
        }
        if contains_parent_component(entry) {
            return Err(Error::new(ErrorKind::Startup, Reason::ParentDir, entry));
        }
        let full = match Fs::clean_path(root, entry) {
            Ok(full) => full,
            Err(e) => {
                return Err(e.with_kind(ErrorKind::Startup));
            },
        };
        match compile_entry(full) {
            Ok(normalized) => Ok(normalized),
            Err(_) => Err(Error::new(ErrorKind::Startup, Reason::InvalidPattern, entry)),
        }
    }

    /// Normalizes an allow-list: every pattern is resolved against the root
    /// and compiled. The first pattern that cannot be, in list order, fails
    /// the whole list.
    pub fn map(&self, allow_list: Vec<Resource>, state: &Option<State>) -> (r: Result<
        Vec<Resource>,
        Error,
    >)
        ensures
            match r {
                Ok(list) => {
                    &&& list.len() == allow_list.len()
                    &&& forall|i: int|
                        0 <= i < list.len() ==> {
                            &&& fs_entry_fault(#[trigger] allow_list[i]@.path, root_of(*state))
                                is None
                            &&& list[i]@ == fs_normalized(
                                allow_list[i]@.path,
                                root_of(*state).unwrap(),
                            )
                        }
                },
                Err(e) => exists|i: int|
                    {
                        &&& 0 <= i < allow_list.len()
                        &&& forall|j: int|
                            0 <= j < i ==> fs_entry_fault(
                                #[trigger] allow_list[j]@.path,
                                root_of(*state),
                            ) is None
                        &&& fs_entry_fault(#[trigger] allow_list[i]@.path, root_of(*state))
                            is Some
                        &&& e@ == failure(
                            ErrorKind::Startup,
                            fs_entry_fault(allow_list[i]@.path, root_of(*state)).unwrap(),
                            allow_list[i]@.path,
                        )
                    },
            },
    {
        let mut out: Vec<Resource> = Vec::new();
        let mut i: usize = 0;
        while i < allow_list.len()
            invariant
                i <= allow_list.len(),
                out.len() == i,
                forall|j: int|
                    0 <= j < i ==> {
                        &&& fs_entry_fault(#[trigger] allow_list[j]@.path, root_of(*state))
                            is None
                        &&& out[j]@ == fs_normalized(
                            allow_list[j]@.path,
                            root_of(*state).unwrap(),
                        )
                    },
            decreases allow_list.len() - i,
        {
            match Fs::normalize_entry(allow_list[i].path.as_str(), state) {
                Ok(normalized) => {
                    out.push(normalized);
                },
                Err(e) => {
                    assert(fs_entry_fault(allow_list[i as int]@.path, root_of(*state)) is Some);
                    return Err(e);
                },
            }
            i += 1;
        }
        Ok(out)
    }

    /// Checks `resource` against a normalized allow-list: its path is resolved
    /// against the root, and the first entry that matches the resolved path
    /// grants the access.
    pub fn check(&self, resource: &Resource, allow_list: &Vec<Resource>, state: &Option<State>) -> (r:
        Result<(), Error>)
        ensures
            agrees(r, fs_check(*self, resource@.path, views(allow_list@), root_of(*state))),
    {
        let root: &str = match state {
            Some(State::FsRoot(root)) => root.as_str(),
            None => {
                proof {
                    reveal_strlit("");
                    assert(""@ =~= Seq::<char>::empty());
                }
                return Err(Error::new(ErrorKind::Permission, Reason::RootNotSpecified, ""));
            },
        };
        let path: &str = resource.path.as_str();
        if !starts_with_separator(path) {
            return Err(Error::new(ErrorKind::Permission, Reason::NotAbsolute, path));
        }
        let resolved = Fs::clean_path(root, path)?;
        let matched = any_accepts(allow_list, resolved.as_str());
        grant_or_refuse(PermissionType::Fs(*self), matched, resolved.as_str())
    }
}

} // verus!
