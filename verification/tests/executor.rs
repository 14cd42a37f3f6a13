use pipeshell::executor::{Directive, Executor, InputSource, OutputSink, SpawnPlan};
use pipeshell::pipeline::Segment;

fn seg(tokens: &[&str]) -> Segment {
    Segment::new(tokens.iter().map(|t| t.to_string()).collect())
}

fn expect_spawn(d: Directive) -> SpawnPlan {
    match d {
        Directive::Spawn(plan) => plan,
        Directive::ChangeDir { .. } => panic!("planned a directory change, expected a spawn"),
        Directive::Exit => panic!("planned an exit, expected a spawn"),
    }
}

#[test]
fn single_segment_uses_inherited_streams() {
    let exec = Executor::new();
    let plan = expect_spawn(exec.plan(&seg(&["echo", "hello"]), true));
    assert_eq!(plan.program, "echo");
    assert_eq!(plan.args, vec!["hello".to_string()]);
    assert!(matches!(plan.input, InputSource::Inherit));
    assert!(matches!(plan.output, OutputSink::Inherit));
}

#[test]
fn two_stage_pipeline_wires_a_pipe_between_stages() {
    let first = seg(&["echo", "hello"]);
    let second = seg(&["tr", "a-z", "A-Z"]);
    let mut exec = Executor::new();

    let plan = expect_spawn(exec.plan(&first, false));
    assert_eq!(plan.program, "echo");
    assert!(matches!(plan.input, InputSource::Inherit));
    assert!(matches!(plan.output, OutputSink::NewPipe));
    exec.record_spawn(&first, true);

    let plan = expect_spawn(exec.plan(&second, true));
    assert_eq!(plan.program, "tr");
    assert_eq!(plan.args, vec!["a-z".to_string(), "A-Z".to_string()]);
    assert!(matches!(plan.input, InputSource::PreviousPipe));
    assert!(matches!(plan.output, OutputSink::Inherit));
    exec.record_spawn(&second, true);

    assert!(exec.should_wait());
}

#[test]
fn clean_three_segment_pipeline_spawns_each_segment_once() {
    let segments = [seg(&["cat", "file"]), seg(&["sort"]), seg(&["uniq"])];
    let mut exec = Executor::new();
    let mut spawns = 0;
    for (i, s) in segments.iter().enumerate() {
        let is_last = i + 1 == segments.len();
        let plan = expect_spawn(exec.plan(s, is_last));
        if i == 0 {
            assert!(matches!(plan.input, InputSource::Inherit));
        } else {
            assert!(matches!(plan.input, InputSource::PreviousPipe));
        }
        if is_last {
            assert!(matches!(plan.output, OutputSink::Inherit));
        } else {
            assert!(matches!(plan.output, OutputSink::NewPipe));
        }
        exec.record_spawn(s, true);
        spawns += 1;
    }
    assert_eq!(spawns, 3);
    assert!(exec.should_wait());
}

#[test]
fn failed_spawn_breaks_the_chain() {
    let first = seg(&["nonexistent_cmd_xyz"]);
    let second = seg(&["echo", "fallback"]);
    let mut exec = Executor::new();

    let plan = expect_spawn(exec.plan(&first, false));
    assert_eq!(plan.program, "nonexistent_cmd_xyz");
    exec.record_spawn(&first, false);

    let plan = expect_spawn(exec.plan(&second, true));
    assert!(
        matches!(plan.input, InputSource::Inherit),
        "after a failed spawn the next segment must fall back to inherited input"
    );
    exec.record_spawn(&second, true);
    assert!(exec.should_wait());
}

#[test]
fn failed_last_spawn_leaves_nothing_to_wait_on() {
    let only = seg(&["nonexistent_cmd_xyz"]);
    let mut exec = Executor::new();
    let _ = expect_spawn(exec.plan(&only, true));
    exec.record_spawn(&only, false);
    assert!(!exec.should_wait());
}

#[test]
fn cd_with_target_changes_directory_without_spawning() {
    let cd = seg(&["cd", "/nonexistent/path"]);
    let mut exec = Executor::new();
    match exec.plan(&cd, true) {
        Directive::ChangeDir { target } => assert_eq!(target, "/nonexistent/path"),
        _ => panic!("the cd built-in must plan a directory change, never a spawn"),
    }
    exec.record_chdir(&cd);
    assert!(!exec.should_wait());
}

#[test]
fn cd_without_target_defaults_to_the_root() {
    let exec = Executor::new();
    match exec.plan(&seg(&["cd"]), true) {
        Directive::ChangeDir { target } => assert_eq!(target, "/"),
        _ => panic!("the cd built-in must plan a directory change"),
    }
}

#[test]
fn cd_mid_pipeline_severs_the_chain() {
    let first = seg(&["echo", "x"]);
    let cd = seg(&["cd", "/tmp"]);
    let last = seg(&["wc"]);
    let mut exec = Executor::new();

    let _ = expect_spawn(exec.plan(&first, false));
    exec.record_spawn(&first, true);
    match exec.plan(&cd, false) {
        Directive::ChangeDir { .. } => {}
        _ => panic!("the cd built-in must plan a directory change"),
    }
    exec.record_chdir(&cd);

    let plan = expect_spawn(exec.plan(&last, true));
    assert!(
        matches!(plan.input, InputSource::Inherit),
        "a built-in mid-pipeline must reset the chain"
    );
}

#[test]
fn exit_plans_termination_without_spawning() {
    let exec = Executor::new();
    assert!(matches!(exec.plan(&seg(&["exit"]), true), Directive::Exit));
}

#[test]
fn exit_mid_pipeline_still_plans_termination() {
    let first = seg(&["echo", "x"]);
    let mut exec = Executor::new();
    let _ = expect_spawn(exec.plan(&first, false));
    exec.record_spawn(&first, true);
    assert!(matches!(exec.plan(&seg(&["exit"]), false), Directive::Exit));
}

#[test]
fn empty_line_spawns_nothing_and_waits_on_nothing() {
    let exec = Executor::new();
    assert!(!exec.should_wait());
}

#[test]
fn replanning_the_same_pipeline_is_identical() {
    let mut results = Vec::new();
    for _ in 0..2 {
        let line = seg(&["echo", "x"]);
        let mut exec = Executor::new();
        let plan = expect_spawn(exec.plan(&line, true));
        exec.record_spawn(&line, true);
        results.push((plan.program, plan.args, exec.should_wait()));
    }
    assert_eq!(results[0], results[1]);
}
