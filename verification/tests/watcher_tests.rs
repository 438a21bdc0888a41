use fyr::watcher::{separator, separator_width, ChangeEvent, ChangedPath, PendingChange, WatchAction, WatchState};

fn change(at_ms: u64, file: &str, ignored: bool) -> ChangeEvent {
    ChangeEvent {
        is_change: true,
        at_ms,
        path: Some(ChangedPath { file_name: file.to_string(), ignored }),
    }
}

#[test]
fn nothing_runs_before_the_window_passes() {
    let mut s = WatchState::new(150, false);
    assert_eq!(s.tick(0), WatchAction::Wait);
    s.step(change(5, "main.rs", false));
    assert_eq!(s.pending, Some(PendingChange { file_name: "main.rs".to_string(), at_ms: 5 }));
    assert_eq!(s.tick(5), WatchAction::Wait);
    assert_eq!(s.tick(154), WatchAction::Wait);
    assert_eq!(s.tick(155), WatchAction::Restart("main.rs".to_string()));
    assert_eq!(s.pending, None);
    assert_eq!(s.tick(1000), WatchAction::Wait);
}

#[test]
fn a_burst_of_changes_runs_once_after_the_last() {
    let mut s = WatchState::new(150, false);
    let mut restarts = Vec::new();
    for i in 0..50u64 {
        let at = i * 20;
        s.step(change(at, &format!("f{}.rs", i), false));
        if let WatchAction::Restart(f) = s.tick(at) {
            restarts.push((at, f));
        }
        if let WatchAction::Restart(f) = s.tick(at + 19) {
            restarts.push((at + 19, f));
        }
    }
    assert!(restarts.is_empty());
    assert_eq!(s.tick(980 + 149), WatchAction::Wait);
    assert_eq!(s.tick(980 + 150), WatchAction::Restart("f49.rs".to_string()));
    assert_eq!(s.tick(980 + 400), WatchAction::Wait);
}

#[test]
fn changes_at_0_100_200_run_once_at_350() {
    let mut s = WatchState::new(150, false);
    let mut runs = Vec::new();
    for t in 0..=400u64 {
        if t % 100 == 0 && t <= 200 {
            s.step(change(t, "a.rs", false));
        }
        if let WatchAction::Restart(_) = s.tick(t) {
            runs.push(t);
        }
    }
    assert_eq!(runs, vec![350]);
}

#[test]
fn other_events_change_nothing() {
    let mut s = WatchState::new(150, false);
    s.step(ChangeEvent { is_change: false, at_ms: 10, path: Some(ChangedPath { file_name: "x".to_string(), ignored: false }) });
    assert_eq!(s.pending, None);
    s.step(ChangeEvent { is_change: true, at_ms: 10, path: None });
    assert_eq!(s.pending, None);
}

#[test]
fn ignored_paths_neither_run_nor_delay_a_run() {
    let mut s = WatchState::new(150, false);
    s.step(change(0, "target.bin", true));
    assert_eq!(s.pending, None);
    s.step(change(100, "main.rs", false));
    s.step(change(200, "target.bin", true));
    assert_eq!(s.tick(250), WatchAction::Restart("main.rs".to_string()));
    let mut t = WatchState::new(150, true);
    t.step(change(0, "target.bin", true));
    assert_eq!(t.tick(150), WatchAction::Restart("target.bin".to_string()));
}

#[test]
fn wait_ms_counts_down_to_the_run() {
    let mut s = WatchState::new(150, false);
    assert_eq!(s.wait_ms(0), None);
    s.step(change(100, "a", false));
    assert_eq!(s.wait_ms(100), Some(150));
    assert_eq!(s.wait_ms(200), Some(50));
    assert_eq!(s.wait_ms(250), Some(0));
    assert_eq!(s.wait_ms(900), Some(0));
    assert_eq!(s.wait_ms(50), Some(150));
}

#[test]
fn zero_window_runs_at_once() {
    let mut s = WatchState::new(0, false);
    s.step(change(3, "a", false));
    assert_eq!(s.tick(3), WatchAction::Restart("a".to_string()));
}

#[test]
fn separator_is_half_the_terminal() {
    assert_eq!(separator_width(None), 40);
    assert_eq!(separator_width(Some(121)), 60);
    assert_eq!(separator(3), "___");
    assert_eq!(separator(0), "");
}
