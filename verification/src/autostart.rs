//! Launch-at-login: the persisted preference and the decisions that keep the
//! per-user `Run` registry value in line with it.
use vstd::prelude::*;

use crate::text::string_from_chars;

verus! {

/// Per-user "Run" key — apps listed here start when the user logs in.
pub const RUN_KEY_PATH: &'static str = "Software\\Microsoft\\Windows\\CurrentVersion\\Run";

/// The name of this app's value under the "Run" key.
pub const VALUE_NAME: &'static str = "PopMax";

/// Persisted app preferences (`%LOCALAPPDATA%\PopMax\settings.json`).
#[derive(Clone, Copy, Debug, PartialEq, Eq, Structural)]
pub struct Settings {
    pub launch_at_startup: bool,
}

impl Default for Settings {
    /// First run starts with auto-start enabled.
    fn default() -> (r: Self)
        ensures
            r.launch_at_startup,
    {
        Settings { launch_at_startup: true }
    }
}

/// The settings in effect: those read from disk, or the defaults when there
/// are none or they cannot be read.
pub fn settings_or_default(loaded: Option<Settings>) -> (r: Settings)
    ensures
        r == match loaded {
            Some(s) => s,
            None => Settings { launch_at_startup: true },
        },
{
    match loaded {
        Some(s) => s,
        None => Settings::default(),
    }
}

/// The Run key value for this executable, quoted so paths with spaces work.
pub fn run_value(exe: &str) -> (r: String)
    ensures
        r@ == seq!['"'] + exe@ + seq!['"'],
{
    let v = crate::text::chars_of(exe);
    let mut out: Vec<char> = Vec::new();
    out.push('"');
    let mut i: usize = 0;
    while i < v.len()
        invariant
            v@ == exe@,
            i <= v@.len(),
            out@ == seq!['"'] + exe@.take(i as int),
        decreases v.len() - i,
    {
        out.push(v[i]);
        i = i + 1;
        assert(out@ =~= seq!['"'] + exe@.take(i as int));
    }
    out.push('"');
    assert(exe@.take(v@.len() as int) =~= exe@);
    assert(out@ =~= seq!['"'] + exe@ + seq!['"']);
    string_from_chars(out)
}

/// Launch-at-login is on when the Run value holds exactly this executable's
/// quoted path.
pub fn run_value_matches(current: Option<&str>, expected: Option<&str>) -> (r: bool)
    ensures
        r == (current is Some && expected is Some && current->0@ == expected->0@),
{
    match (current, expected) {
        (Some(c), Some(e)) => crate::text::str_equal(c, e),
        _ => false,
    }
}

/// How deleting the Run value turned out.
pub enum DeleteOutcome {
    Deleted,
    NotFound,
    Failed,
}

/// Disabling succeeds when the value is gone, whether it was deleted or was
/// never there.
pub fn disable_succeeded(outcome: DeleteOutcome) -> (r: bool)
    ensures
        r == !(outcome is Failed),
{
    match outcome {
        DeleteOutcome::Deleted => true,
        DeleteOutcome::NotFound => true,
        DeleteOutcome::Failed => false,
    }
}

/// What to do with the Run value.
#[derive(Clone, Copy, Debug, PartialEq, Eq, Structural)]
pub enum StartupAction {
    Enable,
    Disable,
}

/// The action that makes the registry agree with `enabled`.
pub open spec fn action_for(enabled: bool) -> StartupAction {
    if enabled {
        StartupAction::Enable
    } else {
        StartupAction::Disable
    }
}

/// At start: enable or disable as the settings say.
pub fn apply_startup_setting(settings: &Settings) -> (a: StartupAction)
    ensures
        a == action_for(settings.launch_at_startup),
{
    if settings.launch_at_startup {
        StartupAction::Enable
    } else {
        StartupAction::Disable
    }
}

/// From the tray menu: the action that flips the setting.
pub fn toggle_startup(settings: &Settings) -> (a: StartupAction)
    ensures
        a == action_for(!settings.launch_at_startup),
{
    if settings.launch_at_startup {
        StartupAction::Disable
    } else {
        StartupAction::Enable
    }
}

/// The settings and the answer after a flip of launch-at-login was tried:
/// flipped, with the new value, when it succeeded; unchanged, with no answer,
/// otherwise.
pub open spec fn toggle_result(settings: Settings, succeeded: bool) -> (Settings, Option<bool>) {
    if succeeded {
        (Settings { launch_at_startup: !settings.launch_at_startup }, Some(!settings.launch_at_startup))
    } else {
        (settings, None)
    }
}

/// After the flip was tried: when it succeeded the setting flips (and is to
/// be saved) and the new value is returned; otherwise nothing changes.
pub fn toggle_outcome(settings: Settings, succeeded: bool) -> (r: (Settings, Option<bool>))
    ensures
        r == toggle_result(settings, succeeded),
{
    let next = !settings.launch_at_startup;
    if succeeded {
        (Settings { launch_at_startup: next }, Some(next))
    } else {
        (settings, None)
    }
}

/// Two successful flips restore the setting, and a failed one changes nothing.
pub proof fn toggling_twice_restores(settings: Settings)
    ensures
        toggle_result(toggle_result(settings, true).0, true).0 == settings,
        toggle_result(settings, false).0 == settings,
{
}

/// After a successful flip, the next start applies the action the flip took,
/// and the saved setting agrees with the answer.
pub proof fn next_start_repeats_the_toggle(settings: Settings)
    ensures
        action_for(toggle_result(settings, true).0.launch_at_startup) == action_for(
            !settings.launch_at_startup,
        ),
        toggle_result(settings, true).1 == Some(toggle_result(settings, true).0.launch_at_startup),
{
}

} // verus!
