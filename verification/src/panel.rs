//! The decisions of the tray panel on Windows and Linux, where the panel is a
//! borderless always-on-top window that is hidden when it loses focus.
//!
//! The window itself is driven by the application: it asks [`PanelState`]
//! what to do on a tray click or on the global shortcut, performs the
//! [`PanelAction`], and reports back what happened (shown, hidden, hidden
//! because focus was lost).
use vstd::prelude::*;

verus! {

/// `std::time::Instant`, the start of the clock that the reopen guard reads.
#[verifier::external_type_specification]
#[verifier::external_body]
pub struct ExInstant(std::time::Instant);

/// When the panel is open and the user clicks the tray icon, the click first
/// moves focus away from the panel — firing a blur that hides it — and only
/// then delivers the tray click. Tray clicks that land within this many
/// milliseconds after a focus-loss hide are swallowed.
pub const REOPEN_GUARD_MS: i64 = 350;

/// What the application does with the panel window.
#[derive(Debug, Clone, Copy, PartialEq, Eq, Structural)]
pub enum PanelAction {
    /// Leave the panel as it is.
    Nothing,
    /// Hide the panel.
    Hide,
    /// Position the panel at the tray icon's current rect, then show it.
    ShowFromTray,
    /// Position the panel at the clicked icon rect, then show it.
    ShowAtIcon,
}

/// What the panel logic remembers between events.
#[derive(Debug, Clone, Copy, PartialEq, Eq, Structural)]
pub struct PanelState {
    /// The window's popover settings and focus handler are installed.
    pub initialized: bool,
    /// The panel is on screen.
    pub visible: bool,
    /// When the panel was last hidden because it lost focus, in
    /// milliseconds of the panel clock; `None` until the first such hide.
    pub last_auto_hide_ms: Option<i64>,
}

/// Whether a tray click at `now_ms` falls within the reopen guard.
pub open spec fn within_reopen_guard(state: PanelState, now_ms: i64) -> bool {
    match state.last_auto_hide_ms {
        Some(hidden_ms) => now_ms - hidden_ms < REOPEN_GUARD_MS,
        None => false,
    }
}

/// The action for a tray click at `now_ms`.
pub open spec fn tray_click_spec(state: PanelState, now_ms: i64) -> PanelAction {
    if within_reopen_guard(state, now_ms) {
        PanelAction::Nothing
    } else if state.visible {
        PanelAction::Hide
    } else {
        PanelAction::ShowAtIcon
    }
}

/// The action for the global shortcut.
pub open spec fn toggle_spec(state: PanelState) -> PanelAction {
    if state.visible {
        PanelAction::Hide
    } else {
        PanelAction::ShowFromTray
    }
}

/// The state after the panel was hidden because it lost focus at `now_ms`.
pub open spec fn auto_hidden_spec(state: PanelState, now_ms: i64) -> PanelState {
    PanelState { visible: false, last_auto_hide_ms: Some(now_ms), ..state }
}

/// The state after the panel was marked initialized.
pub open spec fn initialized_spec(state: PanelState) -> PanelState {
    PanelState { initialized: true, ..state }
}

impl PanelState {
    /// The state at start-up: not initialized, hidden, no focus-loss hide yet.
    pub fn new() -> (r: PanelState)
        ensures
            r == (PanelState { initialized: false, visible: false, last_auto_hide_ms: None }),
    {
        PanelState { initialized: false, visible: false, last_auto_hide_ms: None }
    }

    /// Marks the panel initialized. Returns whether the window setup still
    /// has to run, which is only the case the first time.
    pub fn begin_init(&mut self) -> (r: bool)
        ensures
            r == !old(self).initialized,
            *final(self) == initialized_spec(*old(self)),
    {
        let first = !self.initialized;
        self.initialized = true;
        first
    }

    /// Whether the panel is on screen.
    pub fn is_visible(&self) -> (r: bool)
        ensures
            r == self.visible,
    {
        self.visible
    }

    /// Records that the panel window was shown.
    pub fn record_shown(&mut self)
        ensures
            *final(self) == (PanelState { visible: true, ..*old(self) }),
    {
        self.visible = true;
    }

    /// Records that the panel was hidden.
    pub fn record_hidden(&mut self)
        ensures
            *final(self) == (PanelState { visible: false, ..*old(self) }),
    {
        self.visible = false;
    }

    /// Records that the panel was hidden at `now_ms` because it lost focus.
    pub fn record_auto_hide(&mut self, now_ms: i64)
        ensures
            *final(self) == auto_hidden_spec(*old(self), now_ms),
    {
        self.last_auto_hide_ms = Some(now_ms);
        self.visible = false;
    }

    /// What the global shortcut does: hide a visible panel, otherwise show it
    /// at the tray icon.
    pub fn toggle_action(&self) -> (r: PanelAction)
        ensures
            r == toggle_spec(*self),
    {
        if self.visible {
            PanelAction::Hide
        } else {
            PanelAction::ShowFromTray
        }
    }

    /// What a left-click on the tray icon at `now_ms` does: nothing when the
    /// same click just hid the panel through focus loss, otherwise hide a
    /// visible panel or show it at the clicked icon.
    pub fn tray_click_action(&self, now_ms: i64) -> (r: PanelAction)
        ensures
            r == tray_click_spec(*self, now_ms),
    {
        let guarded = match self.last_auto_hide_ms {
            Some(hidden_ms) => (now_ms as i128) - (hidden_ms as i128) < REOPEN_GUARD_MS as i128,
            None => false,
        };
        if guarded {
            PanelAction::Nothing
        } else if self.visible {
            PanelAction::Hide
        } else {
            PanelAction::ShowAtIcon
        }
    }
}

/// `Instant::elapsed`: the time since `epoch`, which the machine's clock
/// decides; nothing is stated of it.
#[verifier::external_body]
fn instant_elapsed(epoch: &std::time::Instant) -> std::time::Duration {
    epoch.elapsed()
}

/// `Duration::as_millis`: the whole milliseconds of `d`. Verus sees nothing
/// inside a `Duration`, so nothing is stated of the result.
#[verifier::external_body]
fn duration_as_millis(d: &std::time::Duration) -> u128 {
    d.as_millis()
}

/// A millisecond count as an `i64`, capped at `i64::MAX`.
pub fn millis_to_i64(ms: u128) -> (r: i64)
    ensures
        r as int == (if ms > i64::MAX as u128 {
            i64::MAX as int
        } else {
            ms as int
        }),
{
    if ms > i64::MAX as u128 {
        i64::MAX
    } else {
        ms as i64
    }
}

/// Milliseconds since `epoch` on the monotonic clock, capped at `i64::MAX`,
/// for the reopen guard. A monotonic clock keeps a backward wall-clock jump
/// from making the guard window appear arbitrarily long. The reading itself
/// is the clock's; whatever it is, the result is not negative.
pub fn now_ms(epoch: &std::time::Instant) -> (r: i64)
    ensures
        r >= 0,
{
    let elapsed = instant_elapsed(epoch);
    let ms = duration_as_millis(&elapsed);
    millis_to_i64(ms)
}

/// Before any focus-loss hide the reopen guard swallows nothing: from the
/// start-up state a tray click at any time shows the panel at the icon.
pub proof fn lemma_first_click_after_start_shows(click_ms: i64)
    ensures
        tray_click_spec(
            PanelState { initialized: false, visible: false, last_auto_hide_ms: None },
            click_ms,
        ) == PanelAction::ShowAtIcon,
{
}

/// The reopen guard: once the panel was hidden by focus loss at `hidden_ms`,
/// a tray click less than [`REOPEN_GUARD_MS`] later does nothing, and so the
/// panel stays hidden.
pub proof fn lemma_click_after_auto_hide_is_swallowed(
    state: PanelState,
    hidden_ms: i64,
    click_ms: i64,
)
    requires
        click_ms - hidden_ms < REOPEN_GUARD_MS,
    ensures
        tray_click_spec(auto_hidden_spec(state, hidden_ms), click_ms) == PanelAction::Nothing,
        !auto_hidden_spec(state, hidden_ms).visible,
{
}

/// Outside the reopen guard a tray click toggles: it hides a visible panel
/// and shows a hidden one, as the global shortcut does (at the clicked icon
/// rather than at the tray's current rect).
pub proof fn lemma_click_outside_guard_toggles(state: PanelState, click_ms: i64)
    requires
        !within_reopen_guard(state, click_ms),
    ensures
        state.visible ==> tray_click_spec(state, click_ms) == PanelAction::Hide,
        !state.visible ==> tray_click_spec(state, click_ms) == PanelAction::ShowAtIcon,
        state.visible <==> toggle_spec(state) == PanelAction::Hide,
{
}

/// The window setup runs at most once: once the panel is marked initialized,
/// marking it again asks for no setup and changes nothing.
pub proof fn lemma_init_runs_once(state: PanelState)
    ensures
        initialized_spec(state).initialized,
        initialized_spec(initialized_spec(state)) == initialized_spec(state),
{
}

/// After a focus-loss hide, the global shortcut shows the panel again: the
/// reopen guard applies to tray clicks only.
pub proof fn lemma_shortcut_reopens_after_auto_hide(state: PanelState, hidden_ms: i64)
    ensures
        toggle_spec(auto_hidden_spec(state, hidden_ms)) == PanelAction::ShowFromTray,
{
}

/// A tray click depends only on the time since the last focus-loss hide and
/// on whether the panel is visible: within 350 ms after such a hide it does
/// nothing; otherwise, and always before the first such hide, it hides a
/// visible panel and shows a hidden one at the clicked icon.
pub proof fn lemma_tray_click_law(state: PanelState, now_ms: i64)
    ensures
        (state.last_auto_hide_ms matches Some(h) && now_ms - h < 350) ==> tray_click_spec(
            state,
            now_ms,
        ) == PanelAction::Nothing,
        !(state.last_auto_hide_ms matches Some(h) && now_ms - h < 350) ==> tray_click_spec(
            state,
            now_ms,
        ) == (if state.visible {
            PanelAction::Hide
        } else {
            PanelAction::ShowAtIcon
        }),
        tray_click_spec(state, now_ms) != PanelAction::ShowFromTray,
{
}

/// The shortcut always acts and always flips visibility: it hides a visible
/// panel and shows a hidden one from the tray, whatever the initialization
/// and focus-loss history; outside the reopen guard it does what a tray click
/// does, only showing at the tray rather than at the clicked icon.
pub proof fn lemma_shortcut_law(
    state: PanelState,
    initialized: bool,
    last_auto_hide_ms: Option<i64>,
    now_ms: i64,
)
    ensures
        toggle_spec(state) != PanelAction::Nothing,
        toggle_spec(state) == PanelAction::Hide <==> state.visible,
        toggle_spec(state) == PanelAction::ShowFromTray <==> !state.visible,
        toggle_spec(state) == toggle_spec(
            PanelState { initialized: initialized, last_auto_hide_ms: last_auto_hide_ms, ..state },
        ),
        toggle_spec(PanelState { visible: true, ..state }) == PanelAction::Hide,
        toggle_spec(PanelState { visible: false, ..state }) == PanelAction::ShowFromTray,
        !(state.last_auto_hide_ms matches Some(h) && now_ms - h < 350) ==> (tray_click_spec(
            state,
            now_ms,
        ) == PanelAction::Hide <==> toggle_spec(state) == PanelAction::Hide),
{
}

} // verus!
