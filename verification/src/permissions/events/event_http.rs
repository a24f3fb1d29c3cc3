//! The permission on an inbound HTTP event. Its resources are URL paths,
//! matched as a whole against the patterns of the allow-list.

use vstd::prelude::*;
use crate::errors::{agrees, failure, Error, ErrorKind, ErrorView, Reason};
use crate::pattern::{anchored, regex_valid};
use crate::permissions::{
    allowed, any_accepts, compile_entry, compiled, grant_or_refuse, views, PermissionType,
    PermissionTypeKey,
    Resource, ResourceView,
};

verus! {

/// The number of the HTTP event kind in a permission's key.
pub const HTTP_EVENT_TYPE_ID: u32 = 1;

/// The access levels of the HTTP event permission.
#[derive(Clone, Copy, Debug, PartialEq, Eq, Structural)]
pub enum HttpEvent {
    ReadRequest,
    ModifyRequest,
    WriteResponse,
    SendResponse,
}

/// The request's URL path, or a pattern for it.
pub type HttpEventPath = Resource;

impl HttpEvent {
    /// The key of this level: the kind's number and the level's place.
    pub open spec fn spec_key(self) -> PermissionTypeKey {
        PermissionTypeKey {
            type_id: HTTP_EVENT_TYPE_ID,
            variant: match self {
                HttpEvent::ReadRequest => 0,
                HttpEvent::ModifyRequest => 1,
                HttpEvent::WriteResponse => 2,
                HttpEvent::SendResponse => 3,
            },
        }
    }

    /// The key under which this level is registered.
    pub fn get_key(&self) -> (key: PermissionTypeKey)
        ensures
            key == self.spec_key(),
    {
        let variant: i32 = match self {
            HttpEvent::ReadRequest => 0,
            HttpEvent::ModifyRequest => 1,
            HttpEvent::WriteResponse => 2,
            HttpEvent::SendResponse => 3,
        };
        PermissionTypeKey { type_id: HTTP_EVENT_TYPE_ID, variant }
    }
}

/// What a check of the URL path `path` at level `level` answers, against the
/// allow-list `list`.
pub open spec fn http_check(level: HttpEvent, path: Seq<char>, list: Seq<ResourceView>) -> Result<
    (),
    ErrorView,
> {
    if allowed(list, path) {
        Ok(())
    } else {
        Err(
            failure(
                ErrorKind::Permission,
                Reason::PermissionDenied(PermissionType::HttpEvent(level)),
                path,
            ),
        )
    }
}

impl HttpEvent {
    /// Normalizes an allow-list: every pattern is compiled. The first pattern
    /// whose regular expression does not compile fails the whole list.
    pub fn map(&self, allow_list: Vec<Resource>) -> (r: Result<Vec<Resource>, Error>)
        ensures
            match r {
                Ok(list) => {
                    &&& list.len() == allow_list.len()
                    &&& forall|i: int|
                        0 <= i < list.len() ==> {
                            &&& regex_valid(anchored(#[trigger] allow_list[i]@.path))
                            &&& list[i]@ == compiled(allow_list[i]@.path)
                        }
                },
                Err(e) => exists|i: int|
                    {
                        &&& 0 <= i < allow_list.len()
                        &&& forall|j: int|
                            0 <= j < i ==> regex_valid(anchored(#[trigger] allow_list[j]@.path))
                        &&& !regex_valid(anchored(#[trigger] allow_list[i]@.path))
                        &&& e@ == failure(
                            ErrorKind::Startup,
                            Reason::InvalidPattern,
                            allow_list[i]@.path,
                        )
                    },
            },
    {
        let mut out: Vec<Resource> = Vec::new();
        let mut i: usize = 0;
        while i < allow_list.len()
            invariant
                i <= allow_list.len(),
                out.len() == i,
                forall|j: int|
                    0 <= j < i ==> {
                        &&& regex_valid(anchored(#[trigger] allow_list[j]@.path))
                        &&& out[j]@ == compiled(allow_list[j]@.path)
                    },
            decreases allow_list.len() - i,
        {
            match compile_entry(allow_list[i].path.clone()) {
                Ok(entry) => {
                    out.push(entry);
                },
                Err(e) => {
                    assert(!regex_valid(anchored(allow_list[i as int]@.path)));
                    return Err(e);
                },
            }
            i += 1;
        }
        Ok(out)
    }

    /// Checks the URL path of `resource` against a normalized allow-list: the
    /// first entry that matches the whole path grants the access.
    pub fn check(&self, resource: &Resource, allow_list: &Vec<Resource>) -> (r: Result<(), Error>)
        ensures
            agrees(r, http_check(*self, resource@.path, views(allow_list@))),
    {
        let path: &str = resource.path.as_str();
        let matched = any_accepts(allow_list, path);
        grant_or_refuse(PermissionType::HttpEvent(*self), matched, path)
    }
}

} // verus!
