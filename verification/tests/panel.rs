use openusage::panel::{millis_to_i64, now_ms, PanelAction, PanelState, REOPEN_GUARD_MS};

#[test]
fn new_state_is_hidden_and_uninitialized() {
    let s = PanelState::new();
    assert!(!s.initialized);
    assert!(!s.is_visible());
    assert_eq!(s.last_auto_hide_ms, None);
}

#[test]
fn init_runs_once() {
    let mut s = PanelState::new();
    assert!(s.begin_init());
    assert!(!s.begin_init());
    assert!(!s.begin_init());
    assert!(s.initialized);
}

#[test]
fn shortcut_toggles() {
    let mut s = PanelState::new();
    assert_eq!(s.toggle_action(), PanelAction::ShowFromTray);
    s.record_shown();
    assert_eq!(s.toggle_action(), PanelAction::Hide);
    s.record_hidden();
    assert_eq!(s.toggle_action(), PanelAction::ShowFromTray);
}

#[test]
fn tray_click_just_after_focus_loss_is_swallowed() {
    let mut s = PanelState::new();
    s.record_shown();
    s.record_auto_hide(10_000);
    assert!(!s.is_visible());
    assert_eq!(s.tray_click_action(10_000), PanelAction::Nothing);
    assert_eq!(s.tray_click_action(10_000 + REOPEN_GUARD_MS - 1), PanelAction::Nothing);
    assert_eq!(s.tray_click_action(10_000 + REOPEN_GUARD_MS), PanelAction::ShowAtIcon);
    // The shortcut is not guarded.
    assert_eq!(s.toggle_action(), PanelAction::ShowFromTray);
}

#[test]
fn tray_click_toggles_outside_the_guard() {
    let mut s = PanelState::new();
    assert_eq!(s.tray_click_action(1_000), PanelAction::ShowAtIcon);
    s.record_shown();
    assert_eq!(s.tray_click_action(1_000), PanelAction::Hide);
    // Before any focus-loss hide the guard swallows nothing.
    assert_eq!(PanelState::new().tray_click_action(0), PanelAction::ShowAtIcon);
    assert_eq!(PanelState::new().tray_click_action(100), PanelAction::ShowAtIcon);
    assert_eq!(PanelState::new().tray_click_action(i64::MIN), PanelAction::ShowAtIcon);
    // Extreme clock values do not overflow.
    let mut t = PanelState::new();
    t.record_auto_hide(i64::MIN);
    assert_eq!(t.tray_click_action(i64::MAX), PanelAction::ShowAtIcon);
    t.record_auto_hide(i64::MAX);
    assert_eq!(t.tray_click_action(i64::MIN), PanelAction::Nothing);
}

#[test]
fn now_ms_is_monotonic() {
    let epoch = std::time::Instant::now();
    let a = now_ms(&epoch);
    let b = now_ms(&epoch);
    assert!(a >= 0);
    assert!(b >= a);
}

#[test]
fn millis_to_i64_caps_at_i64_max() {
    assert_eq!(millis_to_i64(0), 0);
    assert_eq!(millis_to_i64(1_234), 1_234);
    assert_eq!(millis_to_i64(i64::MAX as u128), i64::MAX);
    assert_eq!(millis_to_i64(i64::MAX as u128 + 1), i64::MAX);
    assert_eq!(millis_to_i64(u128::MAX), i64::MAX);
}
