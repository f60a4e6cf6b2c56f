//! The clock page: splitting a time of day into the six digits on screen,
//! advancing it one second at a time, and which digits have to roll.
use vstd::prelude::*;

use crate::{lemma_cast_i32, trunc_div, wrap_i32};

verus! {

/// Seconds since midnight that the clock starts from: 09:59:55.
pub const START_TIME: u32 = 35995;

/// The six digits shown by the clock; the hour is taken modulo 256 first,
/// as it is held in a byte.
#[derive(Copy, Clone, Debug, PartialEq, Eq, Structural)]
pub struct HMS {
    pub sec1: u8,
    pub sec10: u8,
    pub min1: u8,
    pub min10: u8,
    pub hour1: u8,
    pub hour10: u8,
}

/// The digits for `utc` seconds.
pub open spec fn hms_of(utc: u32) -> HMS {
    let hour = (utc / 3600) as u8;
    let min = ((utc % 3600) / 60) as u8;
    let sec = ((utc % 3600) % 60) as u8;
    HMS {
        sec1: (sec % 10) as u8,
        sec10: (sec / 10) as u8,
        min1: (min % 10) as u8,
        min10: (min / 10) as u8,
        hour1: (hour % 10) as u8,
        hour10: (hour / 10) as u8,
    }
}

impl HMS {
    pub fn from(utc: u32) -> (r: Self)
        ensures
            r == hms_of(utc),
    {
        let hour = utc / 3600;
        let temp = utc % 3600;
        let min = temp / 60;
        let sec = temp % 60;

        let (sec, min, hour) = (sec as u8, min as u8, hour as u8);
        Self {
            sec1: sec % 10,
            sec10: sec / 10,
            min1: min % 10,
            min10: min / 10,
            hour1: hour % 10,
            hour10: hour / 10,
        }
    }
}

/// Which of the six digits differ between two readings; each one that does
/// is redrawn and rolls.
#[derive(Copy, Clone, Debug, PartialEq, Eq, Structural)]
pub struct DigitChanges {
    pub sec1: bool,
    pub sec10: bool,
    pub min1: bool,
    pub min10: bool,
    pub hour1: bool,
    pub hour10: bool,
}

pub open spec fn changes_between(a: HMS, b: HMS) -> DigitChanges {
    DigitChanges {
        sec1: a.sec1 != b.sec1,
        sec10: a.sec10 != b.sec10,
        min1: a.min1 != b.min1,
        min10: a.min10 != b.min10,
        hour1: a.hour1 != b.hour1,
        hour10: a.hour10 != b.hour10,
    }
}

/// The time kept by the clock page, with the reading before the last tick
/// (the digits roll from it) and the current one.
pub struct Clock {
    utc: u32,
    hms_last: HMS,
    hms_curr: HMS,
}

impl Clock {
    pub closed spec fn time(&self) -> u32 {
        self.utc
    }

    pub closed spec fn last(&self) -> HMS {
        self.hms_last
    }

    pub closed spec fn curr(&self) -> HMS {
        self.hms_curr
    }

    /// The current reading belongs to the kept time.
    pub open spec fn wf(&self) -> bool {
        self.curr() == hms_of(self.time())
    }

    /// A clock at 09:59:55 that has not ticked yet.
    pub fn new() -> (r: Self)
        ensures
            r.wf(),
            r.time() == START_TIME,
            r.last() == hms_of(START_TIME),
    {
        let utc = 9 * 3600 + 59 * 60 + 55;
        Clock { utc, hms_last: HMS::from(utc), hms_curr: HMS::from(utc) }
    }

    pub fn utc(&self) -> (r: u32)
        ensures
            r == self.time(),
    {
        self.utc
    }

    pub fn hms_last(&self) -> (r: HMS)
        ensures
            r == self.last(),
    {
        self.hms_last
    }

    pub fn hms_curr(&self) -> (r: HMS)
        ensures
            r == self.curr(),
    {
        self.hms_curr
    }

    /// Advances the time by one second and says which digits changed.
    pub fn add_one_second(&mut self) -> (r: DigitChanges)
        requires
            old(self).time() < u32::MAX,
        ensures
            final(self).wf(),
            final(self).time() == old(self).time() + 1,
            final(self).last() == hms_of(old(self).time()),
            final(self).curr() == hms_of(final(self).time()),
            r == changes_between(final(self).last(), final(self).curr()),
    {
        self.hms_last = HMS::from(self.utc);
        self.utc = self.utc + 1;
        self.hms_curr = HMS::from(self.utc);
        DigitChanges {
            sec1: self.hms_last.sec1 != self.hms_curr.sec1,
            sec10: self.hms_last.sec10 != self.hms_curr.sec10,
            min1: self.hms_last.min1 != self.hms_curr.min1,
            min10: self.hms_last.min10 != self.hms_curr.min10,
            hour1: self.hms_last.hour1 != self.hms_curr.hour1,
            hour10: self.hms_last.hour10 != self.hms_curr.hour10,
        }
    }
}

/// The glyph drawn for a digit; anything that is not a digit shows as "0".
pub open spec fn digit_glyph_text(d: u8) -> Seq<char> {
    if d < 10 {
        seq![(d + 48) as char]
    } else {
        seq!['0']
    }
}

pub fn digit_glyph(d: u8) -> (r: &'static str)
    ensures
        r@ == digit_glyph_text(d),
{
    proof {
        reveal_strlit("0");
        reveal_strlit("1");
        reveal_strlit("2");
        reveal_strlit("3");
        reveal_strlit("4");
        reveal_strlit("5");
        reveal_strlit("6");
        reveal_strlit("7");
        reveal_strlit("8");
        reveal_strlit("9");
    }
    match d {
        0 => "0",
        1 => "1",
        2 => "2",
        3 => "3",
        4 => "4",
        5 => "5",
        6 => "6",
        7 => "7",
        8 => "8",
        9 => "9",
        _ => "0",
    }
}

/// Top edges of the outgoing and the incoming digit while a digit rolls:
/// the outgoing one moves up by `offset` percent of the cell height and the
/// incoming one follows one cell below it.
pub open spec fn rolled_tops(top: int, height: int, offset: Option<i32>) -> (int, int) {
    let t = match offset {
        Some(o) => top - trunc_div(o * height, 100),
        None => top,
    };
    (t, t + height)
}

/// Whether the roll arithmetic fits in 32-bit signed integers (the cell
/// height itself is taken `as i32`, which wraps).
pub open spec fn roll_fits(top: i32, height: u32, offset: Option<i32>) -> bool {
    let h = wrap_i32(height);
    &&& (offset matches Some(o) ==> i32::MIN <= o * h <= i32::MAX)
    &&& i32::MIN <= rolled_tops(top as int, h, offset).0 <= i32::MAX
    &&& i32::MIN <= rolled_tops(top as int, h, offset).1 <= i32::MAX
}

/// Whether [`rolled_tops_exec`] can compute the roll for these values.
pub fn roll_in_range(top: i32, height: u32, offset: Option<i32>) -> (r: bool)
    ensures
        r == roll_fits(top, height, offset),
{
    proof {
        lemma_cast_i32(height);
    }
    let h = (height as i32) as i64;
    let mut t = top as i64;
    if let Some(o) = offset {
        assert(-0x8000_0000 * 0x8000_0000 <= o * h <= 0x8000_0000 * 0x8000_0000) by (nonlinear_arith)
            requires
                -0x8000_0000 <= o <= 0x7fff_ffff,
                -0x8000_0000 <= h <= 0x7fff_ffff,
        ;
        let p = o as i64 * h;
        if p < -0x8000_0000 || p > 0x7fff_ffff {
            return false;
        }
        t = t - p / 100;
    }
    -0x8000_0000 <= t && t <= 0x7fff_ffff && -0x8000_0000 <= t + h && t + h <= 0x7fff_ffff
}

pub fn rolled_tops_exec(top: i32, height: u32, offset: Option<i32>) -> (r: (i32, i32))
    requires
        roll_fits(top, height, offset),
    ensures
        r.0 == rolled_tops(top as int, wrap_i32(height), offset).0,
        r.1 == rolled_tops(top as int, wrap_i32(height), offset).1,
{
    proof {
        lemma_cast_i32(height);
    }
    let h = height as i32;
    let mut t = top;
    if let Some(o) = offset {
        t = t - o * h / 100;
    }
    (t, t + h)
}

/// Splitting the time and putting the digits back together gives the time
/// again, whenever the hour fits the byte the clock keeps it in.
pub proof fn lemma_digits_recompose(utc: u32)
    requires
        utc < 256 * 3600,
    ensures
        hms_of(utc).hour10 * 10 + hms_of(utc).hour1 == utc / 3600,
        hms_of(utc).min10 * 10 + hms_of(utc).min1 == (utc % 3600) / 60,
        hms_of(utc).sec10 * 10 + hms_of(utc).sec1 == utc % 60,
        hms_of(utc).sec1 < 10 && hms_of(utc).sec10 < 6,
        hms_of(utc).min1 < 10 && hms_of(utc).min10 < 6,
        hms_of(utc).hour1 < 10,
{
    assert((utc % 3600) % 60 == utc % 60) by (nonlinear_arith);
}

/// Every tick changes the units digit of the seconds.
pub proof fn lemma_tick_rolls_seconds(utc: u32)
    requires
        utc < u32::MAX,
    ensures
        changes_between(hms_of(utc), hms_of((utc + 1) as u32)).sec1,
{
    assert(((utc % 3600) % 60) % 10 != ((((utc + 1) as u32) % 3600) % 60) % 10) by (nonlinear_arith)
        requires
            utc < u32::MAX,
    ;
}

/// The minute digits change only when the seconds roll over to :00.
pub proof fn lemma_minutes_roll_on_full_minute(utc: u32)
    requires
        utc < u32::MAX,
        ({
            let c = changes_between(hms_of(utc), hms_of((utc + 1) as u32));
            c.min1 || c.min10
        }),
    ensures
        hms_of((utc + 1) as u32).sec1 == 0,
        hms_of((utc + 1) as u32).sec10 == 0,
{
    let a = (utc % 3600) as int;
    let b = (((utc + 1) as u32) % 3600) as int;
    assert(b == (if a == 3599 { 0 } else { a + 1 })) by (nonlinear_arith)
        requires
            a == utc % 3600,
            b == (utc + 1) % 3600,
            utc < u32::MAX,
    ;
    if a != 3599 {
        assert((a + 1) % 60 != 0 ==> (a + 1) / 60 == a / 60 && (a + 1) % 60 == a % 60 + 1)
            by (nonlinear_arith)
            requires
                0 <= a < 3599,
        ;
    }
}

/// The hour digits change only when the minutes and seconds roll over to
/// 00:00.
pub proof fn lemma_hours_roll_on_full_hour(utc: u32)
    requires
        utc < u32::MAX,
        ({
            let c = changes_between(hms_of(utc), hms_of((utc + 1) as u32));
            c.hour1 || c.hour10
        }),
    ensures
        hms_of((utc + 1) as u32).sec1 == 0,
        hms_of((utc + 1) as u32).sec10 == 0,
        hms_of((utc + 1) as u32).min1 == 0,
        hms_of((utc + 1) as u32).min10 == 0,
{
}

/// `t` split into whole hours, minutes and seconds.
proof fn lemma_split_time(t: int)
    requires
        0 <= t,
    ensures
        t / 3600 >= 0,
        0 <= (t % 3600) / 60 < 60,
        0 <= (t % 3600) % 60 < 60,
        t == 3600 * (t / 3600) + 60 * ((t % 3600) / 60) + (t % 3600) % 60,
{
    vstd::arithmetic::div_mod::lemma_fundamental_div_mod(t, 3600);
    vstd::arithmetic::div_mod::lemma_fundamental_div_mod(t % 3600, 60);
    assert(0 <= t % 3600 < 3600);
    assert(t / 3600 >= 0) by (nonlinear_arith)
        requires
            t >= 0,
    ;
    assert((t % 3600) / 60 < 60) by (nonlinear_arith)
        requires
            0 <= t % 3600 < 3600,
    ;
}

/// The hours, minutes and seconds of `t` are `h`, `m` and `s`.
proof fn lemma_time_parts(t: int, h: int, m: int, s: int)
    requires
        0 <= h,
        0 <= m < 60,
        0 <= s < 60,
        t == 3600 * h + 60 * m + s,
    ensures
        t / 3600 == h,
        (t % 3600) / 60 == m,
        (t % 3600) % 60 == s,
{
    vstd::arithmetic::div_mod::lemma_fundamental_div_mod_converse(t, 3600, h, 60 * m + s);
    vstd::arithmetic::div_mod::lemma_fundamental_div_mod_converse(60 * m + s, 60, m, s);
}

/// One second later a digit of the clock has changed exactly when all the
/// digits below it have rolled over to zero: the units of the seconds
/// change on every tick, the tens of the seconds when the new units are 0,
/// the minutes' units when the new seconds are 00, and so on up to the tens
/// of the hours.
pub proof fn lemma_digit_changes_follow_rollover(t: u32)
    requires
        t < u32::MAX,
    ensures
        ({
            let b = hms_of((t + 1) as u32);
            let c = changes_between(hms_of(t), b);
            &&& c.sec1
            &&& c.sec10 <==> b.sec1 == 0
            &&& c.min1 <==> b.sec1 == 0 && b.sec10 == 0
            &&& c.min10 <==> b.sec1 == 0 && b.sec10 == 0 && b.min1 == 0
            &&& c.hour1 <==> b.sec1 == 0 && b.sec10 == 0 && b.min1 == 0 && b.min10 == 0
            &&& c.hour10 <==> b.sec1 == 0 && b.sec10 == 0 && b.min1 == 0 && b.min10 == 0
                && b.hour1 == 0
        }),
{
    let u = (t + 1) as u32;
    lemma_split_time(t as int);
    let h = t / 3600;
    let m = (t % 3600) / 60;
    let sec = (t % 3600) % 60;
    let (h2, m2, s2) = if sec < 59 {
        (h as int, m as int, sec + 1)
    } else if m < 59 {
        (h as int, m + 1, 0)
    } else {
        (h + 1, 0, 0)
    };
    lemma_time_parts(u as int, h2, m2, s2);
    let x: u32 = h;
    assert(((x + 1) as u8) == (if (x as u8) == 255 {
        0u8
    } else {
        ((x as u8) + 1) as u8
    })) by (bit_vector)
        requires
            x < 0xffff_ffffu32,
    ;
}

/// Whether an update of the clock page is a pass made only to advance the
/// digit animations: it is marked by the pointer position (-1, -1), and
/// such a pass reads no touch input and offers no Quit button.
pub fn is_animation_pass(x: i32, y: i32) -> (r: bool)
    ensures
        r == (x == -1 && y == -1),
{
    x == -1 && y == -1
}

} // verus!
