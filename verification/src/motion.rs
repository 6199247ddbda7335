//! Motion choices of the TUI: animated or reduced motion, the activity
//! indicator's fallback, and the spinner's frame at a given time.

use vstd::prelude::*;

verus! {

#[derive(Clone, Copy, Debug, PartialEq, Eq, Structural)]
pub enum MotionMode {
    Animated,
    Reduced,
}

impl MotionMode {
    pub fn from_animations_enabled(animations_enabled: bool) -> (r: Self)
        ensures
            r == (if animations_enabled {
                MotionMode::Animated
            } else {
                MotionMode::Reduced
            }),
    {
        if animations_enabled {
            MotionMode::Animated
        } else {
            MotionMode::Reduced
        }
    }
}

/// What the activity indicator shows under reduced motion.
#[derive(Clone, Copy, Debug, PartialEq, Eq, Structural)]
pub enum ReducedMotionIndicator {
    Hidden,
    StaticBullet,
}

/// The activity indicator: animated, a static dim bullet, or nothing.
#[derive(Clone, Copy, Debug, PartialEq, Eq, Structural)]
pub enum ActivityIndicator {
    Animated,
    DimBullet,
}

pub fn activity_indicator(
    motion_mode: MotionMode,
    reduced_motion_indicator: ReducedMotionIndicator,
) -> (r: Option<ActivityIndicator>)
    ensures
        motion_mode == MotionMode::Animated ==> r == Some(ActivityIndicator::Animated),
        motion_mode == MotionMode::Reduced ==> r == (match reduced_motion_indicator {
            ReducedMotionIndicator::Hidden => None,
            ReducedMotionIndicator::StaticBullet => Some(ActivityIndicator::DimBullet),
        }),
{
    match motion_mode {
        MotionMode::Animated => Some(ActivityIndicator::Animated),
        MotionMode::Reduced => match reduced_motion_indicator {
            ReducedMotionIndicator::Hidden => None,
            ReducedMotionIndicator::StaticBullet => Some(ActivityIndicator::DimBullet),
        },
    }
}

/// How long each spinner frame stays, in milliseconds.
pub const ACTIVITY_SPINNER_INTERVAL_MS: u128 = 100;

pub open spec fn spinner_frames() -> Seq<Seq<char>> {
    seq![
        seq!['⠋'],
        seq!['⠙'],
        seq!['⠹'],
        seq!['⠸'],
        seq!['⠼'],
        seq!['⠴'],
        seq!['⠦'],
        seq!['⠧'],
        seq!['⠇'],
        seq!['⠏'],
    ]
}

fn spinner_frame(i: usize) -> (r: char)
    requires
        i < 10,
    ensures
        seq![r] == spinner_frames()[i as int],
{
    let frames = ['⠋', '⠙', '⠹', '⠸', '⠼', '⠴', '⠦', '⠧', '⠇', '⠏'];
    frames[i]
}

/// The spinner frame `elapsed_ms` after it started: one frame per interval,
/// wrapping after the last.
pub fn activity_spinner_frame_at(elapsed_ms: u128) -> (r: String)
    ensures
        r@ == spinner_frames()[((elapsed_ms / ACTIVITY_SPINNER_INTERVAL_MS) % 10) as int],
{
    let index = ((elapsed_ms / ACTIVITY_SPINNER_INTERVAL_MS) % 10) as usize;
    let c = spinner_frame(index);
    let mut out: Vec<char> = Vec::new();
    out.push(c);
    assert(out@ =~= seq![c]);
    crate::text::chars_to_string(out.as_slice())
}

/// Without full color, the animated indicator blinks: on for 600 ms, off for
/// 600 ms.
pub fn blink_on(elapsed_ms: u128) -> (r: bool)
    ensures
        r == ((elapsed_ms / 600) % 2 == 0),
{
    (elapsed_ms / 600) % 2 == 0
}

/// Plain text under reduced motion: one span of the text, none for no text.
pub fn reduced_motion_spans(text: &str) -> (r: Vec<String>)
    ensures
        text@.len() == 0 ==> r@.len() == 0,
        text@.len() > 0 ==> r@.len() == 1 && r@[0]@ == text@,
{
    let mut out: Vec<String> = Vec::new();
    if text.unicode_len() > 0 {
        out.push(crate::text::str_to_string(text));
    }
    out
}

} // verus!
