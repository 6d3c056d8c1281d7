use std::cell::Cell;

use abar::{Producer, StatusBar, StatusBlock};

/// An output that makes the producer fail.
const FAIL: &str = "<fail>";

/// Returns its outputs in turn, repeating the last one, and counts calls.
#[derive(Default)]
struct Script {
    outputs: Vec<&'static str>,
    calls: Cell<usize>,
}

impl Script {
    fn new(outputs: Vec<&'static str>) -> Script {
        Script { outputs, calls: Cell::new(0) }
    }

    fn calls(&self) -> usize {
        self.calls.get()
    }
}

impl Producer for Script {
    fn produce(&self) -> Option<String> {
        let n = self.calls.get();
        self.calls.set(n + 1);
        if self.outputs.is_empty() {
            return Some(String::new());
        }
        let out = self.outputs[n.min(self.outputs.len() - 1)];
        if out == FAIL {
            None
        } else {
            Some(out.to_string())
        }
    }
}

fn block(outputs: Vec<&'static str>) -> StatusBlock<Script> {
    StatusBlock::new().command(Script::new(outputs))
}

#[test]
fn one_shot_sync_block_runs_once() {
    let mut bar = StatusBar::new().blocks(vec![block(vec!["a", "b"])]);
    for t in 0..20u64 {
        assert!(bar.update(t * 1000).is_empty());
    }
    assert_eq!(bar.get_blocks()[0].get_command().calls(), 1);
    assert_eq!(bar.get_blocks()[0].get_cache(), "a");
}

#[test]
fn one_shot_background_block_dispatched_once() {
    let mut bar = StatusBar::new().blocks(vec![block(vec!["x"]).update_in_background(true)]);
    assert_eq!(bar.update(0), vec![0]);
    assert!(bar.update(1000).is_empty());
    bar.apply_result(0, Some("x".to_string()));
    for t in 2..10u64 {
        assert!(bar.update(t * 1000).is_empty());
    }
    assert_eq!(bar.get_blocks()[0].get_cache(), "x");
}

#[test]
fn sync_block_updated_before_update_returns() {
    let mut bar = StatusBar::new().blocks(vec![block(vec!["now"]).poll_interval(0)]);
    let jobs = bar.update(7);
    assert!(jobs.is_empty());
    assert_eq!(bar.get_blocks()[0].get_cache(), "now");
    assert_eq!(bar.get_blocks()[0].get_command().calls(), 1);
}

#[test]
fn in_flight_block_is_not_dispatched_twice() {
    let mut bar = StatusBar::new()
        .blocks(vec![block(vec!["v"]).poll_interval(0).update_in_background(true)]);
    assert_eq!(bar.update(0), vec![0]);
    assert!(bar.update(0).is_empty());
    assert!(bar.update(500).is_empty());
    assert!(!bar.get_blocks()[0].needs_update(500));
    bar.apply_result(0, Some("v".to_string()));
    assert_eq!(bar.update(600), vec![0]);
}

#[test]
fn dispatch_list_is_ordered_and_only_background() {
    let mut bar = StatusBar::new().blocks(vec![
        block(vec!["a"]).update_in_background(true),
        block(vec!["b"]),
        block(vec!["c"]).update_in_background(true),
    ]);
    assert_eq!(bar.update(0), vec![0, 2]);
    assert_eq!(bar.get_blocks()[1].get_cache(), "b");
    assert_eq!(bar.get_blocks()[0].get_cache(), "");
}

#[test]
fn scenario_two_blocks_render_with_delimiter() {
    let mut bar = StatusBar::new()
        .delimiter(abar::delimiter())
        .blocks(vec![block(vec!["hello"]), block(vec!["world"])]);
    bar.update(0);
    assert_eq!(bar.render(), "hello | world");
}

#[test]
fn scenario_poll_interval_respected() {
    let mut bar = StatusBar::new().blocks(vec![block(vec!["A", "B"]).poll_interval(10_000)]);
    bar.update(0);
    assert_eq!(bar.get_blocks()[0].get_cache(), "A");
    bar.update(5_000);
    assert_eq!(bar.get_blocks()[0].get_cache(), "A");
    bar.update(11_000);
    assert_eq!(bar.get_blocks()[0].get_cache(), "B");
}

#[test]
fn scenario_hidden_empty_block() {
    let mut bar = StatusBar::new()
        .delimiter(" | ")
        .left_buffer(">>")
        .right_buffer("<<")
        .hide_empty_modules(true)
        .blocks(vec![block(vec![""])]);
    bar.update(0);
    assert_eq!(bar.render(), ">><<");
}

#[test]
fn scenario_slow_background_block() {
    let mut bar = StatusBar::new()
        .blocks(vec![block(vec!["new"]).poll_interval(1_000).update_in_background(true)]);
    assert_eq!(bar.update(0), vec![0]);
    assert!(!bar.get_blocks()[0].needs_update(1_000));
    assert!(bar.update(1_000).is_empty());
    assert_eq!(bar.get_blocks()[0].get_cache(), "");
    bar.apply_result(0, Some("new".to_string()));
    assert_eq!(bar.get_blocks()[0].get_cache(), "new");
    assert_eq!(bar.render(), "new");
    assert_eq!(bar.update(3_000), vec![0]);
}

#[test]
fn run_jobs_without_workers() {
    let mut bar = StatusBar::new().delimiter("/").blocks(vec![
        block(vec!["p"]).update_in_background(true),
        block(vec!["q"]),
    ]);
    let jobs = bar.update(0);
    assert_eq!(jobs, vec![0]);
    bar.run_jobs(&jobs);
    assert_eq!(bar.render(), "p/q");
    assert!(bar.update(5).is_empty());
    assert_eq!(bar.get_blocks()[0].get_command().calls(), 1);
}

#[test]
fn result_for_unknown_index_is_ignored() {
    let mut bar = StatusBar::new().blocks(vec![block(vec!["a"])]);
    bar.update(0);
    bar.apply_result(3, Some("zzz".to_string()));
    assert_eq!(bar.render(), "a");
}

#[test]
fn clock_going_back_does_not_refresh() {
    let mut b = block(vec!["1", "2"]).poll_interval(5);
    b.update(100);
    assert!(!b.needs_update(50));
    assert!(b.needs_update(105));
    b.update(105);
    assert_eq!(b.get_cache(), "2");
}

#[test]
fn update_unchecked_always_runs() {
    let mut b = block(vec!["1", "2"]);
    b.update(0);
    b.update(1);
    assert_eq!(b.get_cache(), "1");
    b.update_unchecked(2);
    assert_eq!(b.get_cache(), "2");
}

#[test]
fn promise_and_manual_update() {
    let mut b = block(vec!["x"]).poll_interval(10);
    assert!(b.needs_update(0));
    b.promise_result(0);
    assert!(!b.needs_update(100));
    b.manual_update("given".to_string());
    assert_eq!(b.get_cache(), "given");
    assert!(b.needs_update(10));
    assert!(!b.needs_update(9));
}

#[test]
fn block_builders_and_getters() {
    let b = StatusBlock::<Script>::new().name("clock").update_in_background(true);
    assert_eq!(b.get_name(), "clock");
    assert!(b.is_concurrent());
    assert!(b.is_empty());
    let d: StatusBlock<Script> = StatusBlock::default();
    assert!(!d.is_concurrent());
    assert_eq!(d.get_name(), "");
}

#[test]
fn bar_defaults() {
    let bar: StatusBar<Script> = StatusBar::default();
    assert_eq!(bar.get_refresh_rate(), 1000);
    assert_eq!(bar.render(), "");
    let bar: StatusBar<Script> = StatusBar::new().refresh_rate(250);
    assert_eq!(bar.get_refresh_rate(), 250);
}

#[test]
fn failed_inline_run_keeps_last_text() {
    let mut bar = StatusBar::new().blocks(vec![block(vec!["ok", FAIL, "again"]).poll_interval(10)]);
    bar.update(0);
    assert_eq!(bar.get_blocks()[0].get_cache(), "ok");
    bar.update(10);
    assert_eq!(bar.get_blocks()[0].get_cache(), "ok");
    assert!(!bar.get_blocks()[0].needs_update(15));
    bar.update(20);
    assert_eq!(bar.get_blocks()[0].get_cache(), "again");
    assert_eq!(bar.get_blocks()[0].get_command().calls(), 3);
}

#[test]
fn failed_job_keeps_last_text_and_clears_pending() {
    let mut bar = StatusBar::new()
        .blocks(vec![block(vec!["x"]).poll_interval(100).update_in_background(true)]);
    assert_eq!(bar.update(0), vec![0]);
    bar.apply_result(0, Some("first".to_string()));
    assert_eq!(bar.update(100), vec![0]);
    bar.apply_result(0, None);
    assert_eq!(bar.get_blocks()[0].get_cache(), "first");
    assert!(!bar.get_blocks()[0].needs_update(150));
    assert_eq!(bar.update(200), vec![0]);
}

#[test]
fn cycle_applies_results_before_the_pass() {
    let mut bar = StatusBar::new().delimiter(" ").blocks(vec![
        block(vec!["a"]).poll_interval(0).update_in_background(true),
        block(vec!["b"]),
    ]);
    assert_eq!(bar.cycle(vec![], 0, false), vec![0]);
    assert!(bar.cycle(vec![], 1, false).is_empty());
    assert_eq!(bar.cycle(vec![(0, Some("A".to_string()))], 2, false), vec![0]);
    assert_eq!(bar.render(), "A b");
    assert_eq!(bar.get_blocks()[1].get_command().calls(), 1);
}

#[test]
fn cycle_inline_runs_jobs_at_once() {
    let mut bar = StatusBar::new().blocks(vec![block(vec!["bg"]).update_in_background(true)]);
    assert!(bar.cycle(vec![(5, Some("ignored".to_string()))], 0, true).is_empty());
    assert_eq!(bar.render(), "bg");
    assert!(!bar.get_blocks()[0].needs_update(1));
    assert!(bar.cycle(vec![], 1, true).is_empty());
    assert_eq!(bar.get_blocks()[0].get_command().calls(), 1);
}
