//! Decisions of the stylesheet reload: which path to load, whether to fade,
//! and what each fade frame does.
use vstd::prelude::*;
use crate::gtk::config::{css_path_loadable, spec_prefer_dark, GtkApi, Mode};

verus! {

/// The stylesheet the module has attached.
pub struct StyleState {
    pub path: String,
    pub gtk: GtkApi,
}

/// What a reload loads.
pub struct ReloadTarget {
    pub path: String,
    pub gtk: GtkApi,
}

/// What attaching the stylesheet has found out so far.
pub enum AttachEvent {
    /// Attaching begins: whether a stylesheet is attached already, and
    /// whether the toolkit's symbols could be resolved.
    Begin { attached: bool, symbols: bool },
    /// Whether the default display (GTK4) or screen (GTK3) exists yet.
    Owner { found: bool },
    /// Whether a CSS provider could be created.
    Provider { created: bool },
    /// Whether the provider could be added to the display or screen.
    Added { ok: bool },
    /// The stylesheet path chosen, and whether it names a regular file.
    Css { path: String, loadable: bool },
}

/// The next step of attaching.
pub enum AttachStep {
    /// Nothing more to do.
    Stop,
    /// Look up the default display or screen.
    FindOwner,
    /// Wait until a display opens, then attach again.
    WaitForDisplay,
    /// Create a CSS provider.
    NewProvider,
    /// Add the provider to the display or screen.
    AddProvider,
    /// Choose the stylesheet path.
    ChooseCss,
    /// Record the attached stylesheet at `path`, loading it first if `load`.
    Finish { path: String, load: bool },
}

/// Attaching goes on while each step succeeds; without a display it waits
/// for one, and the stylesheet is loaded only where it is a regular file.
pub open spec fn spec_attach(event: AttachEvent) -> AttachStep {
    match event {
        AttachEvent::Begin { attached, symbols } => if attached || !symbols {
            AttachStep::Stop
        } else {
            AttachStep::FindOwner
        },
        AttachEvent::Owner { found } => if found {
            AttachStep::NewProvider
        } else {
            AttachStep::WaitForDisplay
        },
        AttachEvent::Provider { created } => if created {
            AttachStep::AddProvider
        } else {
            AttachStep::Stop
        },
        AttachEvent::Added { ok } => if ok {
            AttachStep::ChooseCss
        } else {
            AttachStep::Stop
        },
        AttachEvent::Css { path, loadable } => AttachStep::Finish { path, load: loadable },
    }
}

/// The step that follows what attaching has found out.
pub fn attach(event: AttachEvent) -> (r: AttachStep)
    ensures
        r == spec_attach(event),
{
    match event {
        AttachEvent::Begin { attached, symbols } => if attached || !symbols {
            AttachStep::Stop
        } else {
            AttachStep::FindOwner
        },
        AttachEvent::Owner { found } => if found {
            AttachStep::NewProvider
        } else {
            AttachStep::WaitForDisplay
        },
        AttachEvent::Provider { created } => if created {
            AttachStep::AddProvider
        } else {
            AttachStep::Stop
        },
        AttachEvent::Added { ok } => if ok {
            AttachStep::ChooseCss
        } else {
            AttachStep::Stop
        },
        AttachEvent::Css { path, loadable } => AttachStep::Finish { path, load: loadable },
    }
}

/// Takes the path a change signal announces, if it is non-empty and names a
/// regular file (`signal_is_file`), and returns the reload to perform; none
/// where no stylesheet was attached.
pub fn update_path(state: Option<StyleState>, signal_path: &str, signal_is_file: bool) -> (r: (
    Option<StyleState>,
    Option<ReloadTarget>,
))
    ensures
        state is None ==> r.0 is None && r.1 is None,
        state matches Some(s) ==> {
            &&& r.0 matches Some(n)
            &&& n.gtk == s.gtk
            &&& n.path@ == if signal_path@.len() > 0 && signal_is_file {
                signal_path@
            } else {
                s.path@
            }
            &&& r.1 matches Some(t)
            &&& t.gtk == n.gtk
            &&& t.path@ == n.path@
        },
{
    match state {
        None => (None, None),
        Some(s) => {
            let path = if !signal_path.is_empty() && css_path_loadable(signal_path, signal_is_file) {
                signal_path.to_owned()
            } else {
                s.path
            };
            let target = ReloadTarget { path: path.clone(), gtk: s.gtk };
            (Some(StyleState { path, gtk: s.gtk }), Some(target))
        },
    }
}

/// Why a reload happens at once, without a fade.
#[derive(Clone, Copy, Debug, PartialEq, Eq)]
pub enum InstantReason {
    /// Fading is off, or a fade is already running.
    Instant,
    /// The toolkit cannot set a widget's opacity.
    NoOpacitySymbol,
    /// There is no window to fade.
    NoWindows,
}

/// The first decision of a reload.
#[derive(Clone, Copy, Debug, PartialEq, Eq)]
pub enum ReloadStep {
    Instant(InstantReason),
    /// Collect the windows to fade, then call `plan_fade`.
    CollectTargets,
}

/// Reloads at once when fading is off or already running, or when widgets
/// cannot be faded; otherwise goes on to collect the windows.
pub fn plan_reload(transition_ms: u32, fade_active: bool, has_opacity: bool) -> (r: ReloadStep)
    ensures
        r == if transition_ms == 0 || fade_active {
            ReloadStep::Instant(InstantReason::Instant)
        } else if !has_opacity {
            ReloadStep::Instant(InstantReason::NoOpacitySymbol)
        } else {
            ReloadStep::CollectTargets
        },
{
    if transition_ms == 0 || fade_active {
        ReloadStep::Instant(InstantReason::Instant)
    } else if !has_opacity {
        ReloadStep::Instant(InstantReason::NoOpacitySymbol)
    } else {
        ReloadStep::CollectTargets
    }
}

pub const FADE_FRAME_MS: u64 = 16;

/// A fade: out for `half_ms`, swap the stylesheet, in for `half_ms`; on
/// GTK3 the mode is applied one frame before the midpoint.
#[derive(Clone, Copy, Debug, PartialEq, Eq)]
pub struct FadePlan {
    pub half_ms: u64,
    pub gtk3_mode_at_ms: Option<u64>,
}

#[derive(Clone, Copy, Debug, PartialEq, Eq)]
pub enum FadeStart {
    Instant(InstantReason),
    Fade(FadePlan),
}

pub open spec fn spec_half_ms(transition_ms: u32) -> u64 {
    if transition_ms / 2 >= 1 {
        (transition_ms / 2) as u64
    } else {
        1
    }
}

/// Fades when there are windows: half the transition (at least one
/// millisecond) each way.
pub fn plan_fade(transition_ms: u32, n_targets: usize, gtk: GtkApi) -> (r: FadeStart)
    ensures
        n_targets == 0 ==> r == FadeStart::Instant(InstantReason::NoWindows),
        n_targets > 0 ==> r == FadeStart::Fade(
            FadePlan {
                half_ms: spec_half_ms(transition_ms),
                gtk3_mode_at_ms: if gtk == GtkApi::Gtk3 {
                    Some(
                        if spec_half_ms(transition_ms) >= FADE_FRAME_MS {
                            (spec_half_ms(transition_ms) - FADE_FRAME_MS) as u64
                        } else {
                            0
                        },
                    )
                } else {
                    None
                },
            },
        ),
{
    if n_targets == 0 {
        return FadeStart::Instant(InstantReason::NoWindows);
    }
    let half: u64 = if transition_ms / 2 >= 1 {
        (transition_ms / 2) as u64
    } else {
        1
    };
    let at = if gtk.is_gtk3() {
        Some(half.saturating_sub(FADE_FRAME_MS))
    } else {
        None
    };
    FadeStart::Fade(FadePlan { half_ms: half, gtk3_mode_at_ms: at })
}

/// A running fade.
#[derive(Clone, Copy, Debug, PartialEq, Eq)]
pub struct FadeProgress {
    pub half_ms: u64,
    pub midpoint_done: bool,
}

/// What one fade frame does besides setting the opacity.
#[derive(Clone, Copy, Debug, PartialEq, Eq)]
pub struct TickAction {
    /// Swap the stylesheet now (once, at the midpoint).
    pub swap_css: bool,
    /// Restore full opacity and end the fade.
    pub done: bool,
}

pub open spec fn half_nanos(half_ms: u64) -> int {
    half_ms * 1_000_000
}

/// One fade frame: the stylesheet is swapped on the first frame at or past
/// the midpoint, and the fade is done at twice the half duration.
pub open spec fn spec_tick(fade: FadeProgress, elapsed_nanos: u128) -> (FadeProgress, TickAction) {
    let past_mid = elapsed_nanos >= half_nanos(fade.half_ms);
    (
        FadeProgress { half_ms: fade.half_ms, midpoint_done: fade.midpoint_done || past_mid },
        TickAction {
            swap_css: past_mid && !fade.midpoint_done,
            done: elapsed_nanos >= 2 * half_nanos(fade.half_ms),
        },
    )
}

/// One fade frame, `elapsed_nanos` after the fade began.
pub fn tick_fade(fade: FadeProgress, elapsed_nanos: u128) -> (r: (FadeProgress, TickAction))
    ensures
        r == spec_tick(fade, elapsed_nanos),
{
    let half: u128 = (fade.half_ms as u128) * 1_000_000;
    let swap = elapsed_nanos >= half && !fade.midpoint_done;
    let midpoint_done = fade.midpoint_done || swap;
    let done = elapsed_nanos >= half * 2;
    (FadeProgress { half_ms: fade.half_ms, midpoint_done }, TickAction { swap_css: swap, done })
}

/// The settings a GTK3 process gets for a mode.
pub struct Gtk3Settings {
    pub theme: Option<String>,
    pub prefer_dark: i32,
}

pub open spec fn contains_nul(s: Seq<char>) -> bool {
    exists|i: int| 0 <= i < s.len() && s[i] == '\0'
}

fn has_nul(s: &str) -> (b: bool)
    ensures
        b == contains_nul(s@),
{
    let v = crate::text::to_chars(s);
    let mut i: usize = 0;
    while i < v.len()
        invariant
            i <= v.len(),
            v@ == s@,
            forall|j: int| 0 <= j < i ==> v@[j] != '\0',
        decreases v.len() - i,
    {
        if v[i] == '\0' {
            return true;
        }
        i += 1;
    }
    false
}

/// The path to hand to the stylesheet loader: none where it holds a NUL
/// character, which a C string cannot carry.
pub fn css_load_path(path: &str) -> (r: Option<String>)
    ensures
        r is None <==> contains_nul(path@),
        r matches Some(p) ==> p@ == path@,
{
    if has_nul(path) {
        None
    } else {
        Some(path.to_owned())
    }
}

/// The GTK3 theme name and dark preference to set for a mode; none for an
/// unknown mode, when following the mode is turned off, or when the theme
/// name holds a NUL character.
pub fn gtk3_mode_settings(mode: Mode, enabled: bool, theme: Option<&str>) -> (r: Option<Gtk3Settings>)
    ensures
        (mode == Mode::Unknown || !enabled) ==> r is None,
        (mode != Mode::Unknown && enabled) ==> match theme {
            Some(t) => if contains_nul(t@) {
                r is None
            } else {
                r matches Some(g) && g.theme matches Some(gt) && gt@ == t@ && g.prefer_dark == (
                if spec_prefer_dark(mode) == Some(true) {
                    1i32
                } else {
                    0i32
                })
            },
            None => r matches Some(g) && g.theme is None && g.prefer_dark == (if spec_prefer_dark(
                mode,
            ) == Some(true) {
                1i32
            } else {
                0i32
            }),
        },
{
    if !mode.is_known() || !enabled {
        return None;
    }
    let prefer_dark: i32 = match mode.prefer_dark() {
        Some(true) => 1,
        _ => 0,
    };
    match theme {
        Some(t) => {
            if has_nul(t) {
                None
            } else {
                Some(Gtk3Settings { theme: Some(t.to_owned()), prefer_dark })
            }
        },
        None => Some(Gtk3Settings { theme: None, prefer_dark }),
    }
}

/// The frames of a fade, at the given elapsed times: the state after them,
/// how many swapped the stylesheet, and whether one ended the fade.
pub open spec fn run_ticks(fade: FadeProgress, times: Seq<u128>) -> (FadeProgress, nat, bool)
    decreases times.len(),
{
    if times.len() == 0 {
        (fade, 0, false)
    } else {
        let prev = run_ticks(fade, times.drop_last());
        let step = spec_tick(prev.0, times.last());
        (step.0, prev.1 + if step.1.swap_css {
            1nat
        } else {
            0nat
        }, prev.2 || step.1.done)
    }
}

/// However the frames of a fade fall, the stylesheet is swapped at most
/// once, and a fade that has ended has swapped it.
pub proof fn law_fade_swaps_once(half_ms: u64, times: Seq<u128>)
    ensures
        ({
            let r = run_ticks(FadeProgress { half_ms, midpoint_done: false }, times);
            &&& r.1 <= 1
            &&& r.0.midpoint_done <==> r.1 == 1
            &&& r.2 ==> r.1 == 1
        }),
    decreases times.len(),
{
    if times.len() > 0 {
        law_fade_swaps_once(half_ms, times.drop_last());
        let prev = run_ticks(FadeProgress { half_ms, midpoint_done: false }, times.drop_last());
        assert(prev.0.half_ms == half_ms) by {
            lemma_ticks_keep_half(FadeProgress { half_ms, midpoint_done: false }, times.drop_last());
        }
    }
}

proof fn lemma_ticks_keep_half(fade: FadeProgress, times: Seq<u128>)
    ensures
        run_ticks(fade, times).0.half_ms == fade.half_ms,
    decreases times.len(),
{
    if times.len() > 0 {
        lemma_ticks_keep_half(fade, times.drop_last());
    }
}

} // verus!
