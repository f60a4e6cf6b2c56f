//! The browser front end's input and timing decisions: mouse positions are
//! taken relative to the canvas and dropped outside it, a move counts only
//! while the button is held, and the animation page is advanced on a
//! fixed tick.
use vstd::prelude::*;

use crate::anim_switch::ANIM_MIN_INTERVAL_MS;

verus! {

/// Width of the simulated display canvas in pixels.
pub const CANVAS_WIDTH: i32 = 280;

/// Height of the simulated display canvas in pixels.
pub const CANVAS_HEIGHT: i32 = 240;

/// Milliseconds between two ticks of the page loop.
pub const TICK_INTERVAL: u64 = 20;

/// A pointer event for the pages, at a canvas position.
#[derive(Copy, Clone, Debug, PartialEq, Eq, Structural)]
pub enum ClickEvent {
    Pressed(i32, i32),
    Released(i32, i32),
}

impl ClickEvent {
    /// Whether the pointer is down, and where, as the pages consume it.
    pub fn into_input(self) -> (r: (bool, i32, i32))
        ensures
            r == (match self {
                ClickEvent::Pressed(x, y) => (true, x, y),
                ClickEvent::Released(x, y) => (false, x, y),
            }),
    {
        match self {
            ClickEvent::Pressed(x, y) => (true, x, y),
            ClickEvent::Released(x, y) => (false, x, y),
        }
    }
}

/// Whether a client position can be taken relative to the canvas without
/// leaving 32-bit signed integers.
pub open spec fn offsets_fit(client_x: i32, client_y: i32, canvas_x: i32, canvas_y: i32) -> bool {
    &&& i32::MIN <= client_x - canvas_x <= i32::MAX
    &&& i32::MIN <= client_y - canvas_y <= i32::MAX
}

/// Whether a client position can be taken relative to the canvas.
pub fn offsets_in_range(client_x: i32, client_y: i32, canvas_x: i32, canvas_y: i32) -> (r: bool)
    ensures
        r == offsets_fit(client_x, client_y, canvas_x, canvas_y),
{
    let x = client_x as i64 - canvas_x as i64;
    let y = client_y as i64 - canvas_y as i64;
    -0x8000_0000 <= x && x <= 0x7fff_ffff && -0x8000_0000 <= y && y <= 0x7fff_ffff
}

/// The canvas position of a client position, if it lies on the canvas.
pub open spec fn canvas_point_of(client_x: i32, client_y: i32, canvas_x: i32, canvas_y: i32) -> Option<
    (i32, i32),
> {
    let x = client_x - canvas_x;
    let y = client_y - canvas_y;
    if 0 <= x < CANVAS_WIDTH && 0 <= y < CANVAS_HEIGHT {
        Some((x as i32, y as i32))
    } else {
        None
    }
}

pub fn canvas_point(client_x: i32, client_y: i32, canvas_x: i32, canvas_y: i32) -> (r: Option<
    (i32, i32),
>)
    requires
        offsets_fit(client_x, client_y, canvas_x, canvas_y),
    ensures
        r == canvas_point_of(client_x, client_y, canvas_x, canvas_y),
{
    let x = client_x - canvas_x;
    let y = client_y - canvas_y;
    if x >= 0 && y >= 0 && x < CANVAS_WIDTH && y < CANVAS_HEIGHT {
        Some((x, y))
    } else {
        None
    }
}

/// Whether the button is held after a press at canvas position `p`
/// (`None`: off the canvas).
pub open spec fn held_after_down(down: bool, p: Option<(i32, i32)>) -> bool {
    down || p is Some
}

/// Whether the button is held after a release at canvas position `p`.
pub open spec fn held_after_up(down: bool, p: Option<(i32, i32)>) -> bool {
    down && p is None
}

/// What a move to canvas position `p` reports.
pub open spec fn move_event(down: bool, p: Option<(i32, i32)>) -> Option<ClickEvent> {
    if down {
        match p {
            Some((x, y)) => Some(ClickEvent::Pressed(x, y)),
            None => None,
        }
    } else {
        None
    }
}

/// Tracks the mouse button over the canvas and turns browser mouse events
/// into pointer events.
pub struct MouseTracker {
    down: bool,
}

impl MouseTracker {
    pub closed spec fn is_down(&self) -> bool {
        self.down
    }

    pub fn new() -> (r: Self)
        ensures
            !r.is_down(),
    {
        MouseTracker { down: false }
    }

    /// Whether the button is held.
    pub fn is_held(&self) -> (r: bool)
        ensures
            r == self.is_down(),
    {
        self.down
    }

    /// A button press: on the canvas it holds the button and reports a press.
    pub fn mouse_down(&mut self, client_x: i32, client_y: i32, canvas_x: i32, canvas_y: i32) -> (r:
        Option<ClickEvent>)
        requires
            offsets_fit(client_x, client_y, canvas_x, canvas_y),
        ensures
            r == (match canvas_point_of(client_x, client_y, canvas_x, canvas_y) {
                Some((x, y)) => Some(ClickEvent::Pressed(x, y)),
                None => None,
            }),
            final(self).is_down() == held_after_down(
                old(self).is_down(),
                canvas_point_of(client_x, client_y, canvas_x, canvas_y),
            ),
    {
        match canvas_point(client_x, client_y, canvas_x, canvas_y) {
            Some((x, y)) => {
                self.down = true;
                Some(ClickEvent::Pressed(x, y))
            },
            None => None,
        }
    }

    /// A button release: on the canvas it lets the button go and reports a
    /// release.
    pub fn mouse_up(&mut self, client_x: i32, client_y: i32, canvas_x: i32, canvas_y: i32) -> (r:
        Option<ClickEvent>)
        requires
            offsets_fit(client_x, client_y, canvas_x, canvas_y),
        ensures
            r == (match canvas_point_of(client_x, client_y, canvas_x, canvas_y) {
                Some((x, y)) => Some(ClickEvent::Released(x, y)),
                None => None,
            }),
            final(self).is_down() == held_after_up(
                old(self).is_down(),
                canvas_point_of(client_x, client_y, canvas_x, canvas_y),
            ),
    {
        match canvas_point(client_x, client_y, canvas_x, canvas_y) {
            Some((x, y)) => {
                self.down = false;
                Some(ClickEvent::Released(x, y))
            },
            None => None,
        }
    }

    /// A move: while the button is held, a move on the canvas is reported as
    /// a press at the new position (the pages treat it as a drag).
    pub fn mouse_move(&self, client_x: i32, client_y: i32, canvas_x: i32, canvas_y: i32) -> (r:
        Option<ClickEvent>)
        requires
            self.is_down() ==> offsets_fit(client_x, client_y, canvas_x, canvas_y),
        ensures
            r == move_event(
                self.is_down(),
                if self.is_down() {
                    canvas_point_of(client_x, client_y, canvas_x, canvas_y)
                } else {
                    None
                },
            ),
    {
        if self.down {
            match canvas_point(client_x, client_y, canvas_x, canvas_y) {
                Some((x, y)) => Some(ClickEvent::Pressed(x, y)),
                None => None,
            }
        } else {
            None
        }
    }
}

/// The page loop's clock: the time it has counted and when it last
/// advanced the animations.
pub struct DemoTicker {
    now: u64,
    last_inst: u64,
}

impl DemoTicker {
    pub closed spec fn now(&self) -> u64 {
        self.now
    }

    pub closed spec fn last_advance(&self) -> u64 {
        self.last_inst
    }

    pub open spec fn wf(&self) -> bool {
        self.last_advance() <= self.now()
    }

    pub fn new() -> (r: Self)
        ensures
            r.wf(),
            r.now() == 0,
            r.last_advance() == 0,
    {
        DemoTicker { now: 0, last_inst: 0 }
    }

    /// The time counted so far, in milliseconds.
    pub fn now_ms(&self) -> (r: u64)
        ensures
            r == self.now(),
    {
        self.now
    }

    /// One tick of the loop: the time moves on by `TICK_INTERVAL`; on the
    /// animation page, once more than `ANIM_MIN_INTERVAL_MS` has passed
    /// since the last advance, the animations are advanced by the time
    /// passed, which is returned.
    pub fn tick(&mut self, animating_page: bool) -> (r: Option<u64>)
        requires
            old(self).wf(),
            old(self).now() + TICK_INTERVAL <= u64::MAX,
        ensures
            final(self).wf(),
            final(self).now() == old(self).now() + TICK_INTERVAL,
            ({
                let delta = final(self).now() - old(self).last_advance();
                if animating_page && delta > ANIM_MIN_INTERVAL_MS {
                    r == Some(delta as u64) && final(self).last_advance() == final(self).now()
                } else {
                    r is None && final(self).last_advance() == old(self).last_advance()
                }
            }),
    {
        self.now = self.now + TICK_INTERVAL;
        if animating_page {
            let delta = self.now - self.last_inst;
            if delta > ANIM_MIN_INTERVAL_MS {
                self.last_inst = self.now;
                return Some(delta);
            }
        }
        None
    }
}

/// On the animation page the animations advance on every second tick, by
/// 40 ms, once they have been advanced.
pub proof fn lemma_advance_every_second_tick(t: DemoTicker)
    requires
        t.wf(),
        t.last_advance() == t.now(),
    ensures
        t.now() + TICK_INTERVAL - t.last_advance() <= ANIM_MIN_INTERVAL_MS,
        t.now() + 2 * TICK_INTERVAL - t.last_advance() > ANIM_MIN_INTERVAL_MS,
        t.now() + 2 * TICK_INTERVAL - t.last_advance() == 40,
{
}

/// After a release on the canvas no move is reported, until the next press.
pub proof fn lemma_no_moves_after_release(down: bool, up: (i32, i32), p: Option<(i32, i32)>)
    ensures
        move_event(held_after_up(down, Some(up)), p) is None,
{
}

/// After a press on the canvas every move on the canvas is reported as a
/// press at the new position.
pub proof fn lemma_moves_follow_press(down: bool, at: (i32, i32), to: (i32, i32))
    ensures
        move_event(held_after_down(down, Some(at)), Some(to)) == Some(
            ClickEvent::Pressed(to.0, to.1),
        ),
{
}

} // verus!
