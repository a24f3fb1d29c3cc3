use tera::postscripts::{name_le, order_postscripts, script_name};
use tera::runtime::{
    main_module_url, plan_startup, snapshot_script_path, step, Action, Blame, Completion, Phase,
    SnapshotStore, StartupPlan,
};
use tera::text::{chars_of, join_text, same_text, starts_with, string_of, tail};

fn strings(names: &[&str]) -> Vec<String> {
    names.iter().map(|s| s.to_string()).collect()
}

#[test]
fn postscripts_run_in_name_order() {
    let ordered = order_postscripts(&strings(&[
        "03_events.js",
        "01_common.js",
        "10_last.js",
        "02_fs.js",
        "01_common.js.map",
        "01",
    ]));
    assert_eq!(
        ordered,
        strings(&[
            "01",
            "01_common.js",
            "01_common.js.map",
            "02_fs.js",
            "03_events.js",
            "10_last.js"
        ])
    );
    for pair in ordered.windows(2) {
        assert!(pair[0] < pair[1]);
    }
}

#[test]
fn ordering_keeps_every_script() {
    let ordered = order_postscripts(&strings(&["b", "a", "b", "", "a"]));
    assert_eq!(ordered, strings(&["", "a", "a", "b", "b"]));
    assert!(order_postscripts(&Vec::new()).is_empty());
}

#[test]
fn ordering_agrees_with_the_standard_order() {
    let mut names =
        strings(&["z", "a/b", "a-b", "a", "\u{e9}", "e", "~", "A", "aa", "a\u{0}", "10", "9"]);
    let ordered = order_postscripts(&names);
    names.sort();
    assert_eq!(ordered, names);
}

#[test]
fn name_order() {
    assert!(name_le("", ""));
    assert!(name_le("", "a"));
    assert!(!name_le("a", ""));
    assert!(name_le("a", "a"));
    assert!(name_le("a", "ab"));
    assert!(!name_le("ab", "a"));
    assert!(name_le("ab", "b"));
    assert!(!name_le("b", "ab"));
}

#[test]
fn script_and_module_names() {
    assert_eq!(script_name("/p/01_common.js"), "(tera:postscripts) /p/01_common.js");
    assert_eq!(main_module_url("/examples/js/files.js"), "file:///examples/js/files.js");
    assert_eq!(main_module_url(""), "file://");
}

#[test]
fn snapshot_script_paths_lose_their_prefix() {
    assert_eq!(
        snapshot_script_path("(tera:extensions) lib/extensions/fs/01_fs.js", "/src/").as_deref(),
        Some("/src/lib/extensions/fs/01_fs.js")
    );
    assert_eq!(
        snapshot_script_path("lib/extensions/fs/01_fs.js", "/src/").as_deref(),
        Some("lib/extensions/fs/01_fs.js")
    );
    assert_eq!(snapshot_script_path("(a)(b)  x", "/r/").as_deref(), Some("/r/x"));
}

#[test]
fn startup_plans() {
    assert_eq!(
        plan_startup(true, false),
        StartupPlan { create_snapshot: true, from_snapshot: true, run_postscripts: false }
    );
    assert_eq!(
        plan_startup(true, true),
        StartupPlan { create_snapshot: false, from_snapshot: true, run_postscripts: false }
    );
    assert_eq!(
        plan_startup(false, false),
        StartupPlan { create_snapshot: false, from_snapshot: false, run_postscripts: true }
    );
    assert_eq!(
        plan_startup(false, true),
        StartupPlan { create_snapshot: false, from_snapshot: true, run_postscripts: true }
    );
}

#[test]
fn snapshot_store() {
    let mut store = SnapshotStore::new();
    assert!(!store.snapshot_exists());
    assert_eq!(store.startup_snapshot(true), None);
    store.create_snapshot(vec![1, 2, 3]);
    assert!(store.snapshot_exists());
    assert_eq!(store.get_snapshot(), vec![1, 2, 3]);
    assert_eq!(store.startup_snapshot(true), Some(vec![1, 2, 3]));
    assert_eq!(store.startup_snapshot(false), None);
    store.create_snapshot(Vec::new());
    assert!(!store.snapshot_exists());
}

#[test]
fn a_run_ends_when_both_have_ended() {
    assert_eq!(step(Phase::Loading, Completion::Load(true)), (Phase::Racing, Action::Race));
    assert_eq!(
        step(Phase::Racing, Completion::Evaluation(true)),
        (Phase::DrivingEventLoop, Action::DriveEventLoop)
    );
    assert_eq!(
        step(Phase::DrivingEventLoop, Completion::EventLoop(true)),
        (Phase::Finished, Action::Succeed)
    );
    assert_eq!(
        step(Phase::Racing, Completion::EventLoop(true)),
        (Phase::AwaitingEvaluation, Action::AwaitEvaluation)
    );
    assert_eq!(
        step(Phase::AwaitingEvaluation, Completion::Evaluation(true)),
        (Phase::Finished, Action::Succeed)
    );
}

#[test]
fn the_first_error_ends_the_run() {
    assert_eq!(
        step(Phase::Loading, Completion::Load(false)),
        (Phase::Finished, Action::Fail(Blame::LoadingMainModule))
    );
    for phase in [Phase::Racing, Phase::AwaitingEvaluation] {
        assert_eq!(
            step(phase, Completion::Evaluation(false)),
            (Phase::Finished, Action::Fail(Blame::RunningEventLoop))
        );
    }
    for phase in [Phase::Racing, Phase::DrivingEventLoop] {
        assert_eq!(
            step(phase, Completion::EventLoop(false)),
            (Phase::Finished, Action::Fail(Blame::RunningEventLoop))
        );
    }
}

#[test]
fn a_completion_out_of_place_is_ignored() {
    assert_eq!(step(Phase::Finished, Completion::Load(true)), (Phase::Finished, Action::Ignore));
    assert_eq!(
        step(Phase::Loading, Completion::EventLoop(true)),
        (Phase::Loading, Action::Ignore)
    );
    assert_eq!(
        step(Phase::DrivingEventLoop, Completion::Evaluation(false)),
        (Phase::DrivingEventLoop, Action::Ignore)
    );
    assert_eq!(
        step(Phase::AwaitingEvaluation, Completion::EventLoop(true)),
        (Phase::AwaitingEvaluation, Action::Ignore)
    );
}

#[test]
fn text_helpers() {
    assert_eq!(chars_of("a\u{e9}b"), vec!['a', '\u{e9}', 'b']);
    assert_eq!(string_of(&vec!['x', 'y']), "xy");
    assert!(same_text("abc", "abc"));
    assert!(!same_text("abc", "abd"));
    assert!(!same_text("abc", "ab"));
    assert!(starts_with("file://x", "file://"));
    assert!(!starts_with("file:/x", "file://"));
    assert!(!starts_with("fi", "file"));
    assert!(starts_with("x", ""));
    assert_eq!(tail("file:///a", 7), "/a");
    assert_eq!(tail("abc", 3), "");
    assert_eq!(tail("abc", 4), "");
    assert_eq!(tail("abc", 0), "abc");
    assert_eq!(join_text("ab", "cd"), "abcd");
}
