use exuberant_optimizer::optimizer::{
    manual_purge_status, ActiveTab, OptimizerApp, UpdateAction, UpdateEvent,
};
use exuberant_optimizer::sort_key::SortColumn;

const SECOND: u128 = 1_000_000_000;
const MB: u64 = 1024 * 1024;

#[test]
fn first_open() {
    let app = OptimizerApp::default();
    assert_eq!(app.search_query, "");
    assert_eq!(app.active_tab, ActiveTab::Processes);
    assert_eq!(app.purge_at_standby_mb, 1024);
    assert_eq!(app.purge_at_free_mb, 1024);
    assert_eq!(app.polling_rate_ms, 500);
    assert_eq!(app.last_status, "Ready");
    assert!(!app.is_auto_purge_enabled);
    assert_eq!(app.sort_column, SortColumn::Ram);
    assert!(!app.sort_ascending);
}

#[test]
fn figures_are_refreshed_every_two_seconds() {
    let mut app = OptimizerApp::default();
    let frame = |now_ns: u128| UpdateEvent::FrameStarted { now_ns };
    assert_eq!(app.update(frame(2 * SECOND - 1)), UpdateAction::Draw);
    assert_eq!(app.update(frame(2 * SECOND)), UpdateAction::RefreshProcesses);
    assert_eq!(app.last_refresh_ns, 2 * SECOND);
    assert_eq!(app.update(UpdateEvent::Refreshed), UpdateAction::Draw);
    assert_eq!(app.update(frame(4 * SECOND - 1)), UpdateAction::Draw);
    app.select_tab(ActiveTab::MemoryCleaner);
    assert_eq!(app.update(frame(5 * SECOND)), UpdateAction::RefreshMemory);
    // A clock that went back is no reason to refresh.
    assert_eq!(app.update(frame(0)), UpdateAction::Draw);
    assert_eq!(app.last_refresh_ns, 5 * SECOND);
}

#[test]
fn a_frame_purges_and_draws() {
    let mut app = OptimizerApp::default();
    app.is_auto_purge_enabled = true;
    let start = UpdateEvent::FrameStarted { now_ns: 3 * SECOND };
    assert_eq!(app.update(start), UpdateAction::RefreshProcesses);
    assert_eq!(app.update(UpdateEvent::Refreshed), UpdateAction::ReadMemory);
    let read = UpdateEvent::MemoryRead { avail_phys: 2000 * MB, standby: Ok(1500) };
    assert_eq!(app.update(read), UpdateAction::PurgeStandbyList);
    assert_eq!(app.update(UpdateEvent::Purged { outcome: Ok(()) }), UpdateAction::Draw);
    assert_eq!(app.last_status, "Auto-purged successfully.");
}

#[test]
fn a_failed_purge_is_reported() {
    let mut app = OptimizerApp::default();
    app.is_auto_purge_enabled = true;
    let outcome = Err("denied".to_string());
    assert_eq!(app.update(UpdateEvent::Purged { outcome }), UpdateAction::Draw);
    assert_eq!(app.last_status, "Auto-purge Error: denied");
}

#[test]
fn nothing_is_purged_below_the_thresholds() {
    let mut app = OptimizerApp::default();
    app.is_auto_purge_enabled = true;
    let read = |avail_mb: u64, standby: Result<u64, String>| UpdateEvent::MemoryRead {
        avail_phys: avail_mb * MB,
        standby,
    };
    assert_eq!(app.update(read(1100, Ok(1023))), UpdateAction::Draw);
    assert_eq!(app.update(read(2049, Ok(1024))), UpdateAction::Draw);
    assert_eq!(app.update(read(2048, Ok(1024))), UpdateAction::PurgeStandbyList);
    assert_eq!(app.update(read(10, Err("unknown".to_string()))), UpdateAction::Draw);
    app.purge_at_standby_mb = 0;
    assert_eq!(app.update(read(10, Err("unknown".to_string()))), UpdateAction::PurgeStandbyList);
    assert_eq!(app.last_status, "Ready");
}

#[test]
fn nothing_is_purged_while_that_is_off() {
    let mut app = OptimizerApp::default();
    assert_eq!(app.update(UpdateEvent::Refreshed), UpdateAction::Draw);
    let read = UpdateEvent::MemoryRead { avail_phys: 0, standby: Ok(5000) };
    assert_eq!(app.update(read), UpdateAction::Draw);
}

#[test]
fn header_clicks_choose_column_and_direction() {
    let mut app = OptimizerApp::default();
    app.header_clicked(SortColumn::Ram);
    assert!(app.sort_column == SortColumn::Ram && app.sort_ascending);
    app.header_clicked(SortColumn::Ram);
    assert!(app.sort_column == SortColumn::Ram && !app.sort_ascending);
    app.header_clicked(SortColumn::Ram);
    app.header_clicked(SortColumn::Name);
    assert!(app.sort_column == SortColumn::Name && !app.sort_ascending);
}

#[test]
fn the_sorted_column_has_an_arrow() {
    let mut app = OptimizerApp::default();
    assert_eq!(app.header_text(SortColumn::Ram), "RAM \u{23F7}");
    app.header_clicked(SortColumn::Ram);
    assert_eq!(app.header_text(SortColumn::Ram), "RAM \u{23F6}");
    assert_eq!(app.header_text(SortColumn::Pid), "PID");
    assert_eq!(app.header_text(SortColumn::Name), "Name");
    assert_eq!(app.header_text(SortColumn::Cpu), "CPU");
    assert_eq!(app.header_text(SortColumn::Disk), "Disk (R / W)");
}

#[test]
fn purges_by_hand_are_worded() {
    assert_eq!(manual_purge_status(&Ok(()), 0, 5, 9), "Purged at 00:05:09");
    assert_eq!(manual_purge_status(&Ok(()), 23, 59, 59), "Purged at 23:59:59");
    assert_eq!(manual_purge_status(&Ok(()), 10, 0, 30), "Purged at 10:00:30");
    assert_eq!(manual_purge_status(&Err("denied".to_string()), 1, 2, 3), "Error: denied");
}

#[test]
fn purges_by_hand_take_the_time() {
    let mut app = OptimizerApp::default();
    app.manual_purge_finished(Ok(()), 7, 30, 4);
    assert_eq!(app.last_status, "Purged at 07:30:04");
    app.manual_purge_finished(Ok(()), 23, 0, 59);
    assert_eq!(app.last_status, "Purged at 23:00:59");
    app.manual_purge_finished(Err("denied".to_string()), 0, 0, 0);
    assert_eq!(app.last_status, "Error: denied");
    assert_eq!(manual_purge_status(&Err("denied".to_string()), 99, 99, 99), "Error: denied");
    assert_eq!(app.sort_column, SortColumn::Ram);
}

#[test]
fn timer_requests_are_worded() {
    let mut app = OptimizerApp::default();
    app.timer_set_finished(Ok("0.5000".to_string()));
    assert_eq!(app.last_status, "Timer set to 0.5000 ms");
    app.timer_set_finished(Err("denied".to_string()));
    assert_eq!(app.last_status, "Timer Error: denied");
}
