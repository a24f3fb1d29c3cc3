//! The loader of ES modules. A module is read from the file that its URL
//! names, below the root, and only where the execute permission covers it.

use vstd::prelude::*;
use crate::errors::{failure, Error, ErrorKind, ErrorView, Reason};
use crate::permissions::fs::{canonical, Fs};
use crate::permissions::{spec_check, PermissionType, Permissions, PermissionsView, Resource, State};
use crate::text::{chars_of, has_prefix, same_text, starts_with, string_of, tail};

verus! {

/// Loads modules under a set of permissions.
#[derive(Debug)]
pub struct ESMLoader {
    pub permissions: Permissions,
}

/// A module as the engine takes it: its code, and its URL as it was asked
/// for and as it was found.
#[derive(Debug)]
pub struct ModuleSource {
    pub code: String,
    pub module_url_specified: String,
    pub module_url_found: String,
}

/// A loader that works under `permissions`.
pub fn esm(permissions: Permissions) -> (loader: ESMLoader)
    ensures
        loader.permissions == permissions,
{
    ESMLoader { permissions }
}

/// The number of characters before the first colon of `url`.
pub open spec fn scheme_len(url: Seq<char>) -> nat
    decreases url.len(),
{
    if url.len() == 0 || url[0] == ':' {
        0
    } else {
        1 + scheme_len(url.skip(1))
    }
}

/// The scheme of `url`: what stands before its first colon.
pub open spec fn scheme_of(url: Seq<char>) -> Seq<char> {
    url.take(scheme_len(url) as int)
}

/// The only scheme that can be loaded.
pub open spec fn file_scheme() -> Seq<char> {
    seq!['f', 'i', 'l', 'e']
}

/// What a file URL starts with; the path follows.
pub open spec fn file_prefix() -> Seq<char> {
    seq!['f', 'i', 'l', 'e', ':', '/', '/']
}

/// Where the module at `url` is read from under the permissions `granted`:
/// the URL has the scheme `file`, what follows `file://` is taken as the
/// path, the execute permission is checked on it, and the file is the path
/// resolved against the root.
pub open spec fn spec_locate(granted: PermissionsView, url: Seq<char>) -> Result<
    Seq<char>,
    ErrorView,
> {
    if scheme_of(url) != file_scheme() {
        Err(failure(ErrorKind::Type, Reason::UnsupportedScheme, scheme_of(url)))
    } else if !has_prefix(url, file_prefix()) {
        Err(failure(ErrorKind::Type, Reason::NoFilePath, url))
    } else {
        match spec_check(granted, PermissionType::Fs(Fs::Execute), url.skip(7)) {
            Err(e) => Err(e),
            Ok(_) => Ok(canonical(granted.root.unwrap(), url.skip(7))),
        }
    }
}

/// The scheme of `url`.
pub fn scheme(url: &str) -> (out: String)
    ensures
        out@ == scheme_of(url@),
{
    let u = chars_of(url);
    let mut out: Vec<char> = Vec::new();
    let mut i: usize = 0;
    proof {
        assert(u@.skip(0) =~= u@);
    }
    while i < u.len() && u[i] != ':'
        invariant
            i <= u.len(),
            out@ == u@.take(i as int),
            scheme_len(u@) == i + scheme_len(u@.skip(i as int)),
        decreases u.len() - i,
    {
        proof {
            assert(u@.skip(i as int).skip(1) =~= u@.skip(i + 1));
            assert(u@.take(i + 1) =~= u@.take(i as int).push(u@[i as int]));
        }
        out.push(u[i]);
        i += 1;
    }
    string_of(&out)
}

/// Decides where the module at `module_url` is read from, as
/// [`spec_locate`] says. Reading the file is left to the caller.
pub fn locate_module(permissions: &Permissions, module_url: &str) -> (r: Result<String, Error>)
    ensures
        match r {
            Ok(path) => spec_locate(permissions@, module_url@) == Ok::<Seq<char>, ErrorView>(
                path@,
            ),
            Err(e) => spec_locate(permissions@, module_url@) == Err::<Seq<char>, ErrorView>(e@),
        },
{
    proof {
        reveal_strlit("file");
        reveal_strlit("file://");
        assert("file"@ =~= file_scheme());
        assert("file://"@ =~= file_prefix());
    }
    let module_scheme = scheme(module_url);
    if !same_text(module_scheme.as_str(), "file") {
        return Err(Error::new(ErrorKind::Type, Reason::UnsupportedScheme, module_scheme.as_str()));
    }
    if !starts_with(module_url, "file://") {
        return Err(Error::new(ErrorKind::Type, Reason::NoFilePath, module_url));
    }
    let requested = tail(module_url, 7);
    let resource = Resource::new(requested.as_str());
    permissions.check(PermissionType::Fs(Fs::Execute), &resource)?;
    match &permissions.state {
        Some(State::FsRoot(root)) => Fs::clean_path(root.as_str(), requested.as_str()),
        None => Err(Error::new(ErrorKind::Permission, Reason::RootNotSpecified, "")),
    }
}

/// The module at `module_url` with the code `code`.
pub fn module_source(module_url: &str, code: String) -> (source: ModuleSource)
    ensures
        source.code == code,
        source.module_url_specified@ == module_url@,
        source.module_url_found@ == module_url@,
{
    ModuleSource {
        code,
        module_url_specified: module_url.to_owned(),
        module_url_found: module_url.to_owned(),
    }
}

impl ESMLoader {
    /// Decides where the module at `module_url` is read from under this
    /// loader's permissions.
    pub fn load(&self, module_url: &str) -> (r: Result<String, Error>)
        ensures
            match r {
                Ok(path) => spec_locate(self.permissions@, module_url@) == Ok::<
                    Seq<char>,
                    ErrorView,
                >(path@),
                Err(e) => spec_locate(self.permissions@, module_url@) == Err::<
                    Seq<char>,
                    ErrorView,
                >(e@),
            },
    {
        locate_module(&self.permissions, module_url)
    }
}

} // verus!
