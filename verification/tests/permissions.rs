use tera::errors::{ErrorKind, Reason};
use tera::pattern::{glob_to_regex, needs_escape, pattern_accepts};
use tera::permissions::env::Env;
use tera::permissions::events::event_http::{HttpEvent, HttpEventPath};
use tera::permissions::fs::{
    contains_parent_component, join_paths, starts_with_separator, without_root, Fs, FsPath,
    FsRoot,
};
use tera::permissions::{
    any_accepts, compile_entry, grant_or_refuse, PermissionType, PermissionTypeKey, Permissions,
    Resource, State,
};

fn work_permissions(levels: &[Fs], pattern: &str) -> Permissions {
    let mut builder = Permissions::builder().add_state(State::FsRoot(FsRoot::new("/work")));
    for level in levels {
        builder = builder
            .add_permission_with_allow_list(PermissionType::Fs(*level), vec![FsPath::new(pattern)])
            .unwrap();
    }
    builder.build()
}

#[test]
fn allowed_file_read() {
    let permissions = work_permissions(&[Fs::Open, Fs::Read], "/work/data/*.txt");
    let wanted = FsPath::new("/work/data/lorem.txt");
    assert!(permissions.check(PermissionType::Fs(Fs::Open), &wanted).is_ok());
    assert!(permissions.check(PermissionType::Fs(Fs::Read), &wanted).is_ok());
    let secret = FsPath::new("/work/secret/key.pem");
    let refused = permissions.check(PermissionType::Fs(Fs::Open), &secret).unwrap_err();
    assert_eq!(refused.kind, ErrorKind::Permission);
    assert_eq!(refused.reason, Reason::PermissionDenied(PermissionType::Fs(Fs::Open)));
}

#[test]
fn unregistered_level_is_refused() {
    let permissions = work_permissions(&[Fs::Open, Fs::Read], "/work/data/*.txt");
    let wanted = FsPath::new("/work/data/lorem.txt");
    let refused = permissions.check(PermissionType::Fs(Fs::Write), &wanted).unwrap_err();
    assert_eq!(refused.kind, ErrorKind::Permission);
    assert_eq!(refused.reason, Reason::PermissionDenied(PermissionType::Fs(Fs::Write)));
    assert_eq!(refused.subject, "/work/data/lorem.txt");
}

#[test]
fn traversal_attempt_is_refused() {
    let permissions = work_permissions(&[Fs::Open, Fs::Read], "/work/data/*.txt");
    let sneaky = FsPath::new("/work/data/../secret/key.pem");
    let refused = permissions.check(PermissionType::Fs(Fs::Open), &sneaky).unwrap_err();
    assert_eq!(refused.kind, ErrorKind::Permission);
    assert_eq!(refused.reason, Reason::PermissionDenied(PermissionType::Fs(Fs::Open)));
    assert_eq!(refused.subject, "/work/work/secret/key.pem");
}

#[test]
fn traversal_resolves_before_matching() {
    assert_eq!(
        Fs::clean_path("/work", "/data/../secret/key.pem").unwrap(),
        "/work/secret/key.pem"
    );
}

#[test]
fn double_star_crosses_separators() {
    let permissions = work_permissions(&[Fs::Open], "/work/**");
    let deep = FsPath::new("/work/a/b/c.txt");
    assert!(permissions.check(PermissionType::Fs(Fs::Open), &deep).is_ok());
    let elsewhere = FsPath::new("/elsewhere/x");
    assert!(permissions.check(PermissionType::Fs(Fs::Open), &elsewhere).is_err());
}

#[test]
fn wildcards_take_any_character() {
    let deep = work_permissions(&[Fs::Open], "/a/**");
    assert!(deep.check(PermissionType::Fs(Fs::Open), &FsPath::new("/a/b\nc/d e")).is_ok());
    assert!(deep.check(PermissionType::Fs(Fs::Open), &FsPath::new("/a/\n")).is_ok());
    assert!(deep.check(PermissionType::Fs(Fs::Open), &FsPath::new("/a/")).is_err());
    let flat = work_permissions(&[Fs::Open], "/a/*");
    assert!(flat.check(PermissionType::Fs(Fs::Open), &FsPath::new("/a/b\nc")).is_ok());
    assert!(flat.check(PermissionType::Fs(Fs::Open), &FsPath::new("/a/b\nc/d")).is_err());
    assert!(flat.check(PermissionType::Fs(Fs::Open), &FsPath::new("/a/b\n")).is_ok());
}

#[test]
fn single_star_stays_in_its_segment() {
    let permissions = work_permissions(&[Fs::Open], "/data/*.txt");
    assert!(permissions.check(PermissionType::Fs(Fs::Open), &FsPath::new("/data/a.txt")).is_ok());
    assert!(permissions
        .check(PermissionType::Fs(Fs::Open), &FsPath::new("/data/a/b.txt"))
        .is_err());
    assert!(permissions.check(PermissionType::Fs(Fs::Open), &FsPath::new("/data/.txt")).is_err());
}

#[test]
fn pattern_must_match_whole_path() {
    let permissions = work_permissions(&[Fs::Open], "/data/*.txt");
    assert!(permissions
        .check(PermissionType::Fs(Fs::Open), &FsPath::new("/data/a.txt.bak"))
        .is_err());
    assert!(permissions
        .check(PermissionType::Fs(Fs::Open), &FsPath::new("/x/data/a.txt"))
        .is_err());
}

#[test]
fn a_granted_check_has_a_matching_entry() {
    let permissions = work_permissions(&[Fs::Read], "/data/**");
    let wanted = FsPath::new("/data/x/../y");
    assert!(permissions.check(PermissionType::Fs(Fs::Read), &wanted).is_ok());
    let key = PermissionType::Fs(Fs::Read).get_key().code();
    let entries = permissions.map.get(&key).unwrap();
    let resolved = Fs::clean_path("/work", "/data/x/../y").unwrap();
    assert_eq!(resolved, "/work/data/y");
    assert!(entries
        .iter()
        .any(|e| pattern_accepts(e.pattern.as_ref().unwrap(), &resolved)));
}

#[test]
fn glob_translation_is_exact() {
    assert_eq!(glob_to_regex("/work/data/*.txt"), r"^/work/data/[^/]+\.txt$");
    assert_eq!(glob_to_regex("/work/**"), "^/work/(?s:.+)$");
    assert_eq!(glob_to_regex("***"), "^(?s:.+)[^/]+$");
    assert_eq!(glob_to_regex(""), "^$");
    assert_eq!(glob_to_regex("/a/*/b/**/c"), "^/a/[^/]+/b/(?s:.+)/c$");
    assert_eq!(glob_to_regex("a.b"), r"^a\.b$");
    assert_eq!(glob_to_regex("a(b"), r"^a\(b$");
    assert_eq!(
        glob_to_regex(r"\.+?()|[]{}^$#&-~"),
        r"^\\\.\+\?\(\)\|\[\]\{\}\^\$\#\&\-\~$"
    );
    assert_eq!(glob_to_regex("a b/%!\"e\u{e9}"), "^a b/%!\"e\u{e9}$");
}

#[test]
fn only_the_wildcards_are_wild() {
    let permissions = work_permissions(&[Fs::Open], "/data/*.txt");
    assert!(permissions.check(PermissionType::Fs(Fs::Open), &FsPath::new("/data/a.txt")).is_ok());
    assert!(permissions
        .check(PermissionType::Fs(Fs::Open), &FsPath::new("/data/aXtxt"))
        .is_err());
    let plus = work_permissions(&[Fs::Open], "/a+b");
    assert!(plus.check(PermissionType::Fs(Fs::Open), &FsPath::new("/a+b")).is_ok());
    assert!(plus.check(PermissionType::Fs(Fs::Open), &FsPath::new("/aab")).is_err());
    let bracket = work_permissions(&[Fs::Open], "/a(b/*");
    assert!(bracket.check(PermissionType::Fs(Fs::Open), &FsPath::new("/a(b/x")).is_ok());
    assert!(bracket.check(PermissionType::Fs(Fs::Open), &FsPath::new("/ab/x")).is_err());
    for c in r"\.+?()|[]{}^$#&-~".chars() {
        assert!(needs_escape(c));
        let name = format!("/x{}y", c);
        let one = work_permissions(&[Fs::Open], &name);
        assert!(one.check(PermissionType::Fs(Fs::Open), &FsPath::new(&name)).is_ok());
        assert!(one.check(PermissionType::Fs(Fs::Open), &FsPath::new("/xy")).is_err());
    }
    assert!(needs_escape('*'));
    for c in "/ %!\"e_9\u{e9}\n".chars() {
        assert!(!needs_escape(c));
    }
}

#[test]
fn pattern_accepts_runs_the_expression() {
    assert!(pattern_accepts("^/v1/[^/]+$", "/v1/hello"));
    assert!(!pattern_accepts("^/v1/[^/]+$", "/v1/hello/there"));
    assert!(!pattern_accepts("^/v1/[^/]+$", "^/v1/[^/]+$"));
    assert!(!pattern_accepts("^/v1/($", "/v1/("));
}

#[test]
fn entries_are_normalized_at_build() {
    let permissions = work_permissions(&[Fs::Open], "/data//./*.txt");
    let key = PermissionType::Fs(Fs::Open).get_key().code();
    let entries = permissions.map.get(&key).unwrap();
    assert_eq!(entries.len(), 1);
    assert_eq!(entries[0].path, "/work/data/*.txt");
    assert_eq!(entries[0].pattern.as_deref(), Some(r"^/work/data/[^/]+\.txt$"));
}

#[test]
fn relative_pattern_fails_the_build() {
    let builder = Permissions::builder().add_state(State::FsRoot(FsRoot::new("/work")));
    let e = builder
        .add_permission_with_allow_list(PermissionType::Fs(Fs::Open), vec![FsPath::new("data/*")])
        .err()
        .unwrap();
    assert_eq!(e.kind, ErrorKind::Startup);
    assert_eq!(e.reason, Reason::NotAbsolute);
    assert_eq!(e.subject, "data/*");
}

#[test]
fn parent_dir_in_pattern_fails_the_build() {
    let builder = Permissions::builder().add_state(State::FsRoot(FsRoot::new("/work")));
    let e = builder
        .add_permission_with_allow_list(
            PermissionType::Fs(Fs::Open),
            vec![FsPath::new("/ok/*"), FsPath::new("/data/../*")],
        )
        .err()
        .unwrap();
    assert_eq!(e.kind, ErrorKind::Startup);
    assert_eq!(e.reason, Reason::ParentDir);
    assert_eq!(e.subject, "/data/../*");
}

#[test]
fn missing_root_fails_the_build() {
    let e = Permissions::builder()
        .add_permission_with_allow_list(PermissionType::Fs(Fs::Open), vec![FsPath::new("/a")])
        .err()
        .unwrap();
    assert_eq!(e.kind, ErrorKind::Startup);
    assert_eq!(e.reason, Reason::RootNotSpecified);
}

#[test]
fn pattern_that_does_not_compile_fails_the_build() {
    let too_large = "/*".repeat(400_000);
    let builder = Permissions::builder().add_state(State::FsRoot(FsRoot::new("/work")));
    let e = builder
        .add_permission_with_allow_list(
            PermissionType::Fs(Fs::Open),
            vec![FsPath::new("/ok"), FsPath::new(&too_large)],
        )
        .err()
        .unwrap();
    assert_eq!(e.kind, ErrorKind::Startup);
    assert_eq!(e.reason, Reason::InvalidPattern);
    assert_eq!(e.subject, too_large);
    let e = compile_entry(too_large).err().unwrap();
    assert_eq!(e.reason, Reason::InvalidPattern);
}

#[test]
fn a_pattern_with_regex_operators_builds() {
    let entry = compile_entry(String::from("/a(b/*")).unwrap();
    assert_eq!(entry.path, "/a(b/*");
    assert_eq!(entry.pattern.as_deref(), Some(r"^/a\(b/[^/]+$"));
    let list = vec![entry];
    assert!(any_accepts(&list, "/a(b/x"));
    assert!(!any_accepts(&list, "/ab/x"));
}

#[test]
fn first_faulty_list_fails_the_batch() {
    let good = [FsPath::new("/a/*")];
    let bad = [FsPath::new("/b/*"), FsPath::new("c")];
    let worse = [FsPath::new("/d/..")];
    let e = Permissions::builder()
        .add_state(State::FsRoot(FsRoot::new("/work")))
        .add_permissions_with_allow_lists(&[
            (PermissionType::Fs(Fs::Open), &good[..]),
            (PermissionType::Fs(Fs::Read), &bad[..]),
            (PermissionType::Fs(Fs::Write), &worse[..]),
        ])
        .err()
        .unwrap();
    assert_eq!(e.reason, Reason::NotAbsolute);
    assert_eq!(e.subject, "c");
}

#[test]
fn later_grant_replaces_earlier() {
    let permissions = Permissions::builder()
        .add_state(State::FsRoot(FsRoot::new("/work")))
        .add_owned_permissions_with_allow_lists(vec![
            (PermissionType::Fs(Fs::Open), vec![FsPath::new("/a/*")]),
            (PermissionType::Fs(Fs::Read), vec![FsPath::new("/r/*")]),
            (PermissionType::Fs(Fs::Open), vec![FsPath::new("/b/*")]),
        ])
        .unwrap()
        .build();
    assert!(permissions.check(PermissionType::Fs(Fs::Open), &FsPath::new("/a/x")).is_err());
    assert!(permissions.check(PermissionType::Fs(Fs::Open), &FsPath::new("/b/x")).is_ok());
    assert!(permissions.check(PermissionType::Fs(Fs::Read), &FsPath::new("/r/x")).is_ok());
    assert_eq!(permissions.map.len(), 2);
}

#[test]
fn check_without_root_is_refused() {
    let permissions = Permissions::builder()
        .add_permissions(&[PermissionType::Fs(Fs::Open)])
        .unwrap()
        .build();
    let e = permissions.check(PermissionType::Fs(Fs::Open), &FsPath::new("/a")).unwrap_err();
    assert_eq!(e.kind, ErrorKind::Permission);
    assert_eq!(e.reason, Reason::RootNotSpecified);
}

#[test]
fn relative_resource_is_refused() {
    let permissions = work_permissions(&[Fs::Open], "/**");
    let e = permissions.check(PermissionType::Fs(Fs::Open), &FsPath::new("a/b")).unwrap_err();
    assert_eq!(e.kind, ErrorKind::Permission);
    assert_eq!(e.reason, Reason::NotAbsolute);
    assert_eq!(e.subject, "a/b");
}

#[test]
fn parent_dir_after_normalization_is_refused_at_every_level() {
    let levels = [Fs::Open, Fs::Create, Fs::Read, Fs::Write, Fs::Execute, Fs::Info];
    let mut permissions =
        Permissions::builder().add_state(State::FsRoot(FsRoot::new(".."))).build();
    for level in levels {
        permissions.map.insert(
            PermissionType::Fs(level).get_key().code(),
            vec![compile_entry(String::from("**")).unwrap()],
        );
    }
    for level in levels {
        let e = permissions.check(PermissionType::Fs(level), &FsPath::new("/a")).unwrap_err();
        assert_eq!(e.kind, ErrorKind::Permission);
        assert_eq!(e.reason, Reason::ParentDir);
    }
    let e = Fs::clean_path("..", "/a").unwrap_err();
    assert_eq!(e.reason, Reason::ParentDir);
    assert_eq!(e.subject, "/a");
    assert!(Fs::reject_parent_dir(String::from("/a/b"), "/x").is_ok());
    assert!(Fs::reject_parent_dir(String::from("../b"), "/x").is_err());
}

#[test]
fn check_exists_tells_registered_from_not() {
    let permissions = Permissions::builder()
        .add_owned_permissions(vec![PermissionType::Env(Env::Read)])
        .unwrap()
        .build();
    assert!(permissions.check_exists(PermissionType::Env(Env::Read)).is_ok());
    let e = permissions.check_exists(PermissionType::Fs(Fs::Open)).unwrap_err();
    assert_eq!(e.kind, ErrorKind::Permission);
    assert_eq!(e.reason, Reason::PermissionDenied(PermissionType::Fs(Fs::Open)));
    assert_eq!(
        e.message(),
        "permission type \"tera::permissions::fs::Fs::Open\" does not exist"
    );
}

#[test]
fn a_toggle_grants_no_resource() {
    let permissions = Permissions::builder()
        .add_permissions(&[PermissionType::Env(Env::Read)])
        .unwrap()
        .build();
    let e = permissions
        .check(PermissionType::Env(Env::Read), &Resource::new("HOME"))
        .unwrap_err();
    assert_eq!(e.reason, Reason::PermissionDenied(PermissionType::Env(Env::Read)));
}

#[test]
fn http_event_paths_match_whole() {
    let permissions = Permissions::builder()
        .add_permission_with_allow_list(
            PermissionType::HttpEvent(HttpEvent::ReadRequest),
            vec![HttpEventPath::new("/v1/*")],
        )
        .unwrap()
        .build();
    let level = PermissionType::HttpEvent(HttpEvent::ReadRequest);
    assert!(permissions.check(level, &HttpEventPath::new("/v1/hello")).is_ok());
    assert!(permissions.check(level, &HttpEventPath::new("/v1/hello/x")).is_err());
    assert!(permissions.check(level, &HttpEventPath::new("/v2/hello")).is_err());
    let other = PermissionType::HttpEvent(HttpEvent::SendResponse);
    assert!(permissions.check(other, &HttpEventPath::new("/v1/hello")).is_err());
    let dotted = Permissions::builder()
        .add_permission_with_allow_list(level, vec![HttpEventPath::new("/v1/a.b")])
        .unwrap()
        .build();
    assert!(dotted.check(level, &HttpEventPath::new("/v1/a.b")).is_ok());
    assert!(dotted.check(level, &HttpEventPath::new("/v1/aXb")).is_err());
}

#[test]
fn keys_are_distinct() {
    let all = [
        PermissionType::Fs(Fs::Open),
        PermissionType::Fs(Fs::Create),
        PermissionType::Fs(Fs::Read),
        PermissionType::Fs(Fs::Write),
        PermissionType::Fs(Fs::Execute),
        PermissionType::Fs(Fs::Info),
        PermissionType::HttpEvent(HttpEvent::ReadRequest),
        PermissionType::HttpEvent(HttpEvent::ModifyRequest),
        PermissionType::HttpEvent(HttpEvent::WriteResponse),
        PermissionType::HttpEvent(HttpEvent::SendResponse),
        PermissionType::Env(Env::Read),
    ];
    for (i, a) in all.iter().enumerate() {
        for (j, b) in all.iter().enumerate() {
            assert_eq!(i == j, a.get_key() == b.get_key());
            assert_eq!(i == j, a.get_key().code() == b.get_key().code());
        }
    }
    assert_eq!(Fs::Execute.get_key(), PermissionTypeKey { type_id: 0, variant: 4 });
    assert_eq!(PermissionTypeKey { type_id: 1, variant: -1 }.code(), 0x1_7fff_ffff);
    assert_eq!(PermissionTypeKey { type_id: 0, variant: 0 }.code(), 0x8000_0000);
}

#[test]
fn names_and_messages() {
    assert_eq!(PermissionType::Fs(Fs::Open).get_type(), "tera::permissions::fs::Fs::Open");
    assert_eq!(
        PermissionType::HttpEvent(HttpEvent::SendResponse).get_type(),
        "tera::permissions::events::event_http::HttpEvent::SendResponse"
    );
    let e = grant_or_refuse(PermissionType::Fs(Fs::Read), false, "/work/x").unwrap_err();
    assert_eq!(
        e.message(),
        "permission type \"tera::permissions::fs::Fs::Read\" does not exist for file \"/work/x\""
    );
    assert!(grant_or_refuse(PermissionType::Fs(Fs::Read), true, "/work/x").is_ok());
    let e = Fs::clean_path("..", "/a").unwrap_err();
    assert_eq!(e.message(), "no support for \"..\" paths, \"/a\"");
}

#[test]
fn path_helpers() {
    assert!(starts_with_separator("/a"));
    assert!(!starts_with_separator("a/"));
    assert!(!starts_with_separator(""));
    assert!(contains_parent_component(".."));
    assert!(contains_parent_component("../x"));
    assert!(contains_parent_component("/a/.."));
    assert!(contains_parent_component("/a/../b"));
    assert!(!contains_parent_component("/a/..b"));
    assert!(!contains_parent_component("/a../b"));
    assert!(!contains_parent_component("/a/.../b"));
    assert!(!contains_parent_component(""));
    assert_eq!(without_root("//a/b"), "a/b");
    assert_eq!(without_root("a/b"), "a/b");
    assert_eq!(without_root("///"), "");
    assert_eq!(join_paths("/work", "a"), "/work/a");
    assert_eq!(join_paths("/work/", "a"), "/work/a");
    assert_eq!(join_paths("/work", ""), "/work/");
    assert_eq!(join_paths("", "a"), "a");
    assert_eq!(join_paths("/work", "/a"), "/a");
}

#[test]
fn clean_path_formula() {
    assert_eq!(Fs::clean_path("/work", "/data//x/./y").unwrap(), "/work/data/x/y");
    assert_eq!(Fs::clean_path("/work", "/").unwrap(), "/work");
    assert_eq!(Fs::clean_path("/work", "/../../etc/passwd").unwrap(), "/work/etc/passwd");
    assert_eq!(Fs::clean_path("/", "/a").unwrap(), "/a");
}

#[test]
fn first_match_settles() {
    let list = vec![
        compile_entry(String::from("/a/*")).unwrap(),
        Resource::new("/b/x"),
        compile_entry(String::from("/b/*")).unwrap(),
    ];
    assert!(any_accepts(&list, "/b/x"));
    assert!(!any_accepts(&list, "/c/x"));
    assert!(!any_accepts(&Vec::new(), "/a/x"));
}

#[test]
fn copies_keep_the_value() {
    let entry = compile_entry(String::from("/a/*")).unwrap();
    let copy = entry.duplicate();
    assert_eq!(copy.path, "/a/*");
    assert_eq!(copy.pattern.as_deref(), Some("^/a/[^/]+$"));
    let root = FsRoot::new("/work");
    assert_eq!(root.as_str(), "/work");
}

#[test]
fn levels_convert_into_permissions() {
    let open: PermissionType = Fs::Open.into();
    assert_eq!(open, PermissionType::Fs(Fs::Open));
    let send: PermissionType = HttpEvent::SendResponse.into();
    assert_eq!(send, PermissionType::HttpEvent(HttpEvent::SendResponse));
    let env: PermissionType = Env::Read.into();
    assert_eq!(env, PermissionType::Env(Env::Read));
    let permissions = Permissions::builder()
        .add_state(FsRoot::new("/work").into())
        .add_permission_with_allow_list(Fs::Open.into(), vec![FsPath::new("/**")])
        .unwrap()
        .build();
    assert!(permissions.check(Fs::Open.into(), &FsPath::new("/a")).is_ok());
    assert!(Permissions::default().check_exists(Fs::Open.into()).is_err());
}
