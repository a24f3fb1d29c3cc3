//! The filesystem operations. Access is decided when a file is opened; reads,
//! writes and seeks on an open file are not checked again.

use vstd::prelude::*;
use crate::errors::{failure, Error, ErrorKind, ErrorView, Reason};
use crate::permissions::fs::{canonical, Fs};
use crate::permissions::{spec_check, PermissionType, Permissions, PermissionsView, Resource, State};

verus! {

/// How a file is to be opened.
#[derive(Clone, Copy, Debug, PartialEq, Eq, Structural)]
pub struct FileOptions {
    pub write: bool,
    pub read: bool,
    pub append: bool,
    pub create: bool,
    pub truncate: bool,
}

impl Default for FileOptions {
    fn default() -> (options: FileOptions)
        ensures
            options == (FileOptions {
                write: false,
                read: false,
                append: false,
                create: false,
                truncate: false,
            }),
    {
        FileOptions { write: false, read: false, append: false, create: false, truncate: false }
    }
}

/// Where a seek starts from and how far it goes.
#[derive(Clone, Copy, Debug, PartialEq, Eq, Structural)]
pub struct SeekArgs {
    pub offset: i64,
    pub whence: i32,
}

/// A position to seek to: from the start, from the current position, or
/// from the end of the file.
#[derive(Clone, Copy, Debug, PartialEq, Eq, Structural)]
pub enum SeekTarget {
    Start(u64),
    Current(i64),
    End(i64),
}

/// The level that opening itself needs: `Create` where the file may be
/// created, `Open` otherwise.
pub open spec fn opening_level(options: FileOptions) -> Fs {
    if options.create {
        Fs::Create
    } else {
        Fs::Open
    }
}

/// What opening `path` with `options` answers under the permissions
/// `granted`: the level for opening is checked, then `Read` if the file is
/// to be read, then `Write` if it is to be written. The first check that
/// fails gives the error; if none does, the file to open is `path` resolved
/// against the root.
pub open spec fn spec_open(granted: PermissionsView, path: Seq<char>, options: FileOptions) -> Result<
    Seq<char>,
    ErrorView,
> {
    let opening = spec_check(granted, PermissionType::Fs(opening_level(options)), path);
    let reading = spec_check(granted, PermissionType::Fs(Fs::Read), path);
    let writing = spec_check(granted, PermissionType::Fs(Fs::Write), path);
    if opening is Err {
        Err(opening->Err_0)
    } else if options.read && reading is Err {
        Err(reading->Err_0)
    } else if options.write && writing is Err {
        Err(writing->Err_0)
    } else {
        Ok(canonical(granted.root.unwrap(), path))
    }
}

/// Decides whether `path` may be opened with `options`, as [`spec_open`]
/// says, and names the file to open. Opening it is left to the caller.
pub fn authorize_open(permissions: &Permissions, path: &str, options: &FileOptions) -> (r: Result<
    String,
    Error,
>)
    ensures
        match r {
            Ok(file) => spec_open(permissions@, path@, *options) == Ok::<Seq<char>, ErrorView>(
                file@,
            ),
            Err(e) => spec_open(permissions@, path@, *options) == Err::<Seq<char>, ErrorView>(
                e@,
            ),
        },
{
    let resource = Resource::new(path);
    if options.create {
        permissions.check(PermissionType::Fs(Fs::Create), &resource)?;
    } else {
        permissions.check(PermissionType::Fs(Fs::Open), &resource)?;
    }
    if options.read {
        permissions.check(PermissionType::Fs(Fs::Read), &resource)?;
    }
    if options.write {
        permissions.check(PermissionType::Fs(Fs::Write), &resource)?;
    }
    match &permissions.state {
        Some(State::FsRoot(root)) => Fs::clean_path(root.as_str(), path),
        None => Err(Error::new(ErrorKind::Permission, Reason::RootNotSpecified, "")),
    }
}

/// The position that `args` asks for: `whence` 0 counts from the start, 1
/// from the current position and 2 from the end. A negative offset from the
/// start and any other `whence` are type errors.
pub open spec fn spec_seek(args: SeekArgs) -> Result<SeekTarget, ErrorView> {
    if args.whence == 0 {
        if args.offset >= 0 {
            Ok(SeekTarget::Start(args.offset as u64))
        } else {
            Err(failure(ErrorKind::Type, Reason::InvalidOffset, Seq::empty()))
        }
    } else if args.whence == 1 {
        Ok(SeekTarget::Current(args.offset))
    } else if args.whence == 2 {
        Ok(SeekTarget::End(args.offset))
    } else {
        Err(failure(ErrorKind::Type, Reason::InvalidWhence, Seq::empty()))
    }
}

/// The position that `args` asks for.
pub fn seek_target(args: &SeekArgs) -> (r: Result<SeekTarget, Error>)
    ensures
        match r {
            Ok(target) => spec_seek(*args) == Ok::<SeekTarget, ErrorView>(target),
            Err(e) => spec_seek(*args) == Err::<SeekTarget, ErrorView>(e@),
        },
{
    proof {
        reveal_strlit("");
        assert(""@ =~= Seq::<char>::empty());
    }
    if args.whence == 0 {
        if args.offset >= 0 {
            Ok(SeekTarget::Start(args.offset as u64))
        } else {
            Err(Error::new(ErrorKind::Type, Reason::InvalidOffset, ""))
        }
    } else if args.whence == 1 {
        Ok(SeekTarget::Current(args.offset))
    } else if args.whence == 2 {
        Ok(SeekTarget::End(args.offset))
    } else {
        Err(Error::new(ErrorKind::Type, Reason::InvalidWhence, ""))
    }
}

} // verus!
