//! The animated switch page: how the switch reacts to the pointer, where its
//! lever stands while it slides, how far the label has slid in, and when
//! the animations are advanced.
use vstd::prelude::*;

use crate::{lemma_cast_i32, trunc_div, wrap_i32};

verus! {

/// Animations are advanced only once more than this many milliseconds have
/// passed since the last advance.
pub const ANIM_MIN_INTERVAL_MS: u64 = 30;

/// Whether enough time has passed to advance the animations.
pub fn anim_tick_due(delta_ms: u64) -> (r: bool)
    ensures
        r == (delta_ms > ANIM_MIN_INTERVAL_MS),
{
    delta_ms > ANIM_MIN_INTERVAL_MS
}

/// The pointer event the switch sees.
#[derive(Copy, Clone, Debug, PartialEq, Eq, Structural)]
pub enum SwitchInput {
    Idle,
    Pressed,
    Drag,
    Release,
    Clicked,
    /// Any other event.
    Other,
}

/// The switch's render status, as far as the switch sets it; `Other`
/// stands for any status it never sets itself.
#[derive(Copy, Clone, Debug, PartialEq, Eq, Structural)]
pub enum SwitchStatus {
    NeedsRedraw,
    Rendered,
    Pressed,
    Released,
    Unknown,
    Other,
}

/// The outcome of one pass of the switch widget.
#[derive(Copy, Clone, Debug, PartialEq, Eq, Structural)]
pub struct SwitchStep {
    /// The status to record, when `draw` is set.
    pub status: SwitchStatus,
    /// The switch position afterwards.
    pub on: bool,
    /// The event reported to the page (a release is reported as a click).
    pub response: SwitchInput,
    /// Whether the switch has to be drawn.
    pub draw: bool,
}

pub open spec fn switch_step_of(
    input: SwitchInput,
    animating: bool,
    on: bool,
    prev: SwitchStatus,
) -> SwitchStep {
    let status = match input {
        SwitchInput::Idle => if animating {
            SwitchStatus::NeedsRedraw
        } else {
            SwitchStatus::Rendered
        },
        SwitchInput::Pressed | SwitchInput::Drag => SwitchStatus::Pressed,
        SwitchInput::Release | SwitchInput::Clicked => SwitchStatus::Released,
        SwitchInput::Other => SwitchStatus::Unknown,
    };
    let toggled = input is Release || input is Clicked;
    SwitchStep {
        status,
        on: if toggled {
            !on
        } else {
            on
        },
        response: if toggled {
            SwitchInput::Clicked
        } else {
            input
        },
        draw: status == SwitchStatus::NeedsRedraw || status != prev,
    }
}

/// One pass of the switch: a release (or click) toggles it, a running
/// animation keeps it redrawing, and it is drawn only when its status
/// changes or it needs a redraw.
pub fn switch_step(input: SwitchInput, animating: bool, on: bool, prev: SwitchStatus) -> (r:
    SwitchStep)
    ensures
        r == switch_step_of(input, animating, on, prev),
{
    let mut response = input;
    let mut now_on = on;
    let status;
    match input {
        SwitchInput::Idle => {
            if !animating {
                status = SwitchStatus::Rendered;
            } else {
                status = SwitchStatus::NeedsRedraw;
            }
        },
        SwitchInput::Pressed | SwitchInput::Drag => {
            status = SwitchStatus::Pressed;
        },
        SwitchInput::Release | SwitchInput::Clicked => {
            now_on = !on;
            status = SwitchStatus::Released;
            response = SwitchInput::Clicked;
        },
        SwitchInput::Other => {
            status = SwitchStatus::Unknown;
        },
    }
    let draw = !(status != SwitchStatus::NeedsRedraw && status == prev);
    SwitchStep { status, on: now_on, response, draw }
}

/// Horizontal centre of the lever for a track `dw` pixels longer than the
/// lever: it rests left when off and right when on, and while the switch
/// animates it slides `offset` percent of the way from the old rest
/// position toward the new one.
pub open spec fn lever_x(center_x: int, dw: int, on: bool, offset: Option<i32>) -> int {
    let left = center_x - trunc_div(dw, 2);
    let right = center_x + trunc_div(dw, 2);
    match offset {
        Some(o) => if on {
            left + trunc_div(o * dw, 100)
        } else {
            right - trunc_div(o * dw, 100)
        },
        None => if on {
            right
        } else {
            left
        },
    }
}

/// How much longer than the lever the track of a `width` by `height`
/// switch is, as the 32-bit signed value the drawing computes with.
pub open spec fn track_extra(width: u32, height: u32) -> int {
    wrap_i32((width - height) as u32)
}

/// Whether the lever arithmetic stays within 32-bit signed integers (the
/// track length itself is taken `as i32`, which wraps).
pub open spec fn lever_fits(center_x: i32, width: u32, height: u32, offset: Option<i32>) -> bool {
    let dw = track_extra(width, height);
    &&& height <= width
    &&& i32::MIN <= center_x - trunc_div(dw, 2) <= i32::MAX
    &&& i32::MIN <= center_x + trunc_div(dw, 2) <= i32::MAX
    &&& (offset matches Some(o) ==> {
        &&& i32::MIN <= o * dw <= i32::MAX
        &&& i32::MIN <= center_x - trunc_div(dw, 2) + trunc_div(o * dw, 100) <= i32::MAX
        &&& i32::MIN <= center_x + trunc_div(dw, 2) - trunc_div(o * dw, 100) <= i32::MAX
    })
}

/// Whether [`lever_center_x`] can compute the lever position for these
/// values.
pub fn lever_in_range(center_x: i32, width: u32, height: u32, offset: Option<i32>) -> (r: bool)
    ensures
        r == lever_fits(center_x, width, height, offset),
{
    if height > width {
        return false;
    }
    proof {
        lemma_cast_i32((width - height) as u32);
    }
    let dw = ((width - height) as i32) as i64;
    let c = center_x as i64;
    let left = c - dw / 2;
    let right = c + dw / 2;
    if left < -0x8000_0000 || left > 0x7fff_ffff || right < -0x8000_0000 || right > 0x7fff_ffff {
        return false;
    }
    match offset {
        Some(o) => {
            assert(-0x8000_0000 * 0x8000_0000 <= o * dw <= 0x8000_0000 * 0x8000_0000)
                by (nonlinear_arith)
                requires
                    -0x8000_0000 <= o <= 0x7fff_ffff,
                    -0x8000_0000 <= dw <= 0x7fff_ffff,
            ;
            let p = o as i64 * dw;
            if p < -0x8000_0000 || p > 0x7fff_ffff {
                return false;
            }
            let l = left + p / 100;
            let r = right - p / 100;
            -0x8000_0000 <= l && l <= 0x7fff_ffff && -0x8000_0000 <= r && r <= 0x7fff_ffff
        },
        None => true,
    }
}

pub fn lever_center_x(center_x: i32, width: u32, height: u32, on: bool, offset: Option<i32>) -> (r:
    i32)
    requires
        lever_fits(center_x, width, height, offset),
    ensures
        r == lever_x(center_x as int, track_extra(width, height), on, offset),
{
    proof {
        lemma_cast_i32((width - height) as u32);
    }
    let delta_width = (width - height) as i32;
    let left_center = center_x - delta_width / 2;
    let right_center = center_x + delta_width / 2;
    match offset {
        Some(o) => {
            if on {
                left_center + o * delta_width / 100
            } else {
                right_center - o * delta_width / 100
            }
        },
        None => {
            if !on {
                left_center
            } else {
                right_center
            }
        },
    }
}

/// A slide starts at the rest position of the switch's previous state.
pub proof fn lemma_slide_starts_at_old_rest(center_x: int, dw: int, on: bool)
    ensures
        lever_x(center_x, dw, on, Some(0i32)) == lever_x(center_x, dw, !on, None),
{
}

/// A full slide ends at the rest position of the new state, when the track
/// is an even number of pixels longer than the lever.
pub proof fn lemma_slide_ends_at_new_rest(center_x: int, dw: int, on: bool)
    requires
        dw >= 0,
        dw % 2 == 0,
    ensures
        lever_x(center_x, dw, on, Some(100i32)) == lever_x(center_x, dw, on, None),
{
    assert(trunc_div(100 * dw, 100) == dw) by (nonlinear_arith)
        requires
            dw >= 0,
            trunc_div(100 * dw, 100) == (100 * dw) / 100,
    ;
}

/// Releasing the switch twice restores its position.
pub proof fn lemma_two_clicks_restore(on: bool, animating: bool, prev: SwitchStatus)
    ensures
        switch_step_of(
            SwitchInput::Release,
            animating,
            switch_step_of(SwitchInput::Release, animating, on, prev).on,
            prev,
        ).on == on,
{
}

/// Only a release (or a click) moves the switch, and it always does; the
/// page hears of it as a click, of anything else as it came. A press marks
/// the switch pressed, a release released; an idle pass keeps it rendered
/// unless it animates, and the switch is drawn only when that status is new
/// or a redraw is due.
pub proof fn lemma_only_release_toggles(
    input: SwitchInput,
    animating: bool,
    on: bool,
    prev: SwitchStatus,
)
    ensures
        ({
            let r = switch_step_of(input, animating, on, prev);
            let release = input == SwitchInput::Release || input == SwitchInput::Clicked;
            &&& (r.on != on <==> release)
            &&& r.response == (if release {
                SwitchInput::Clicked
            } else {
                input
            })
            &&& (input == SwitchInput::Pressed || input == SwitchInput::Drag) ==> r.status
                == SwitchStatus::Pressed
            &&& release ==> r.status == SwitchStatus::Released
            &&& input == SwitchInput::Idle ==> r.status == (if animating {
                SwitchStatus::NeedsRedraw
            } else {
                SwitchStatus::Rendered
            })
            &&& input == SwitchInput::Other ==> r.status == SwitchStatus::Unknown
            &&& r.draw <==> (r.status == SwitchStatus::NeedsRedraw || r.status != prev)
        }),
{
}

/// A tap (a press, the finger held or moved, then a release) toggles the
/// switch exactly once, and only at the release.
pub proof fn lemma_tap_toggles_once(on: bool, animating: bool, prev: SwitchStatus)
    ensures
        ({
            let pressed = switch_step_of(SwitchInput::Pressed, animating, on, prev);
            let held = switch_step_of(SwitchInput::Drag, animating, pressed.on, pressed.status);
            let released = switch_step_of(SwitchInput::Release, animating, held.on, held.status);
            &&& pressed.on == on
            &&& held.on == on
            &&& released.on == !on
            &&& released.response == SwitchInput::Clicked
        }),
{
}

/// How far the label is shifted right while it slides in or out.
pub open spec fn label_shift_of(on: bool, offset: i32) -> int {
    let o = #[verifier::truncate] (offset as i16);
    if on {
        o as int
    } else {
        100 - o
    }
}

/// Whether [`label_shift`] can compute the shift for these values.
pub fn label_shift_in_range(on: bool, offset: i32) -> (r: bool)
    ensures
        r == (!on ==> 100 - (#[verifier::truncate] (offset as i16)) <= i16::MAX),
{
    let o = #[verifier::truncate] (offset as i16);
    on || o >= -32667
}

pub fn label_shift(on: bool, offset: i32) -> (r: i16)
    requires
        !on ==> 100 - (#[verifier::truncate] (offset as i16)) <= i16::MAX,
    ensures
        r == label_shift_of(on, offset),
{
    let o = #[verifier::truncate] (offset as i16);
    if on {
        o
    } else {
        100 - o
    }
}

/// What the switch page does after a pass over its widgets.
#[derive(Copy, Clone, Debug, PartialEq, Eq, Structural)]
pub struct AnimSwitchActions {
    /// Switch to the home page.
    pub go_home: bool,
    /// Start the lever's and the label's slide.
    pub play_animations: bool,
    /// Draw the label again.
    pub redraw_label: bool,
}

/// The Exit button leads home; a click on the switch starts both slides
/// and redraws the label.
pub fn anim_switch_actions(exit_clicked: bool, switch_clicked: bool) -> (r: AnimSwitchActions)
    ensures
        r.go_home == exit_clicked,
        r.play_animations == switch_clicked,
        r.redraw_label == switch_clicked,
{
    AnimSwitchActions {
        go_home: exit_clicked,
        play_animations: switch_clicked,
        redraw_label: switch_clicked,
    }
}

} // verus!
