//! State and decisions of the CST816D capacitive touch controller driver.
//! The bus transfers themselves are performed by the caller; this module
//! decides which register to read or write next and decodes the replies.
use vstd::prelude::*;

use crate::{HOR_RES, VER_RES};

verus! {

/// A touch coordinate in panel pixels.
#[derive(Copy, Clone, Debug, PartialEq, Eq, Structural)]
pub struct TouchPoint {
    pub x: u16,
    pub y: u16,
}

/// Whether a point can be mirrored on the panel without leaving it.
pub open spec fn on_panel(p: TouchPoint) -> bool {
    p.x <= HOR_RES && p.y <= VER_RES
}

/// The point mirrored through the centre of the panel, or `p` itself.
pub open spec fn rotated(p: TouchPoint, rotate: bool) -> TouchPoint {
    if rotate {
        TouchPoint { x: (HOR_RES - p.x) as u16, y: (VER_RES - p.y) as u16 }
    } else {
        p
    }
}

impl TouchPoint {
    pub fn new(x: u16, y: u16) -> (r: Self)
        ensures
            r.x == x,
            r.y == y,
    {
        Self { x, y }
    }

    /// Mirrors the point through the panel centre when `rotate` is set,
    /// for a panel mounted upside down.
    pub fn rotate(self, rotate: bool) -> (r: Self)
        requires
            rotate ==> on_panel(self),
        ensures
            r == rotated(self, rotate),
    {
        if rotate {
            TouchPoint { x: HOR_RES - self.x, y: VER_RES - self.y }
        } else {
            self
        }
    }
}

/// I2C address of the controller.
pub const DEFAULT_CST816D_ADDRESS: u8 = 0x15;

/// Register holding the chip identifier.
pub const CST816D_ID_REG: u8 = 0xA7;

/// Identifier that a CST816D answers with.
pub const CST816D_CHIP_ID: u8 = 0xB6;

/// Register holding the number of touches.
pub const CST816D_TOUCH_NUM_REG: u8 = 0x02;

/// First of the four coordinate registers (X high, X low, Y high, Y low).
pub const CST816D_TOUCH_XH_REG: u8 = 0x03;

/// Interrupt control register.
pub const TOUCH_REGISTER_IRQ_CTL: u8 = 0xFA;

/// Interrupt control value: pulse low periodically while touched.
pub const TOUCH_IRQ_EN_TOUCH: u8 = 0x40;

/// Represents the dimensions of the device.
#[derive(Copy, Clone, Debug, PartialEq, Eq, Structural)]
pub struct Dimension {
    pub _height: u16,
    pub _width: u16,
}

/// What a touch read reports.
#[derive(Copy, Clone, Debug, PartialEq, Eq, Structural)]
pub enum TouchState {
    Pressed(TouchPoint),
    Released(TouchPoint),
}

impl TouchState {
    /// Whether the panel is pressed, and where, as the pages consume it.
    pub fn into_input(self) -> (r: (bool, TouchPoint))
        ensures
            r == (match self {
                TouchState::Pressed(p) => (true, p),
                TouchState::Released(p) => (false, p),
            }),
    {
        match self {
            TouchState::Pressed(p) => (true, p),
            TouchState::Released(p) => (false, p),
        }
    }
}

/// The 12-bit X reading of a coordinate block.
pub open spec fn raw_x(rx: [u8; 4]) -> int {
    rx@[1] + (rx@[0] % 16) * 256
}

/// The 12-bit Y reading of a coordinate block.
pub open spec fn raw_y(rx: [u8; 4]) -> int {
    rx@[3] + (rx@[2] % 16) * 256
}

/// The panel point of a coordinate block: the sensor is mounted turned a
/// quarter, so its Y axis runs against the panel's X axis.
pub open spec fn decoded_point(rx: [u8; 4], width: u16) -> TouchPoint {
    TouchPoint { x: (width - raw_y(rx)) as u16, y: raw_x(rx) as u16 }
}

/// The CST816D driver's state; the bus itself is held by the caller, who
/// performs each transfer this state asks for.
pub struct CST816D {
    address: u8,
    size: Dimension,
    last_tp: TouchPoint,
    rotate: bool,
}

impl CST816D {
    pub closed spec fn bus_address(&self) -> u8 {
        self.address
    }

    pub closed spec fn dimension(&self) -> Dimension {
        self.size
    }

    pub closed spec fn last_point(&self) -> TouchPoint {
        self.last_tp
    }

    pub closed spec fn rotated_flag(&self) -> bool {
        self.rotate
    }

    /// The state after a coordinate block has been read.
    pub closed spec fn after_touch_data(self, rx: [u8; 4]) -> Self {
        CST816D { last_tp: decoded_point(rx, self.size._width), ..self }
    }

    /// The report after reading the touch count `n`: a release at the last
    /// pressed point when nothing touches, else nothing yet (the
    /// coordinates have to be read).
    pub open spec fn touch_count_reply(self, n: u8) -> Option<TouchState> {
        if n == 0 {
            Some(TouchState::Released(rotated(self.last_point(), self.rotated_flag())))
        } else {
            None
        }
    }

    /// The report after reading the coordinate block `rx`.
    pub open spec fn touch_data_reply(self, rx: [u8; 4]) -> TouchState {
        TouchState::Pressed(rotated(decoded_point(rx, self.dimension()._width), self.rotated_flag()))
    }

    /// Whether a release can be reported without leaving the panel.
    pub open spec fn can_report_release(&self) -> bool {
        self.rotated_flag() ==> on_panel(self.last_point())
    }

    /// Whether a coordinate block can be decoded: the Y reading lies within
    /// the panel width, and the point on the panel when it is mirrored.
    pub open spec fn can_decode(&self, rx: [u8; 4]) -> bool {
        &&& raw_y(rx) <= self.dimension()._width
        &&& self.rotated_flag() ==> on_panel(decoded_point(rx, self.dimension()._width))
    }

    /// Whether a release can be reported (see [`Self::read_touch_count`]).
    pub fn release_in_range(&self) -> (r: bool)
        ensures
            r == self.can_report_release(),
    {
        !self.rotate || (self.last_tp.x <= HOR_RES && self.last_tp.y <= VER_RES)
    }

    /// Whether a coordinate block can be decoded (see
    /// [`Self::read_touch_data`]).
    pub fn data_in_range(&self, rx_buf: [u8; 4]) -> (r: bool)
        ensures
            r == self.can_decode(rx_buf),
    {
        let b2 = rx_buf[2];
        assert(((b2 as u16) & 0x0F) << 8 == (b2 % 16) * 256) by (bit_vector);
        let y: u16 = rx_buf[3] as u16 + (((b2 as u16) & 0x0F) << 8);
        if y > self.size._width {
            return false;
        }
        let b0 = rx_buf[0];
        assert(((b0 as u16) & 0x0F) << 8 == (b0 % 16) * 256) by (bit_vector);
        let x: u16 = rx_buf[1] as u16 + (((b0 as u16) & 0x0F) << 8);
        !self.rotate || (self.size._width - y <= HOR_RES && x <= VER_RES)
    }

    pub fn new() -> (r: Self)
        ensures
            r.bus_address() == DEFAULT_CST816D_ADDRESS,
            r.dimension() == (Dimension { _height: 240, _width: 280 }),
            r.last_point() == (TouchPoint { x: 0, y: 0 }),
            !r.rotated_flag(),
    {
        Self {
            address: DEFAULT_CST816D_ADDRESS,
            size: Dimension { _height: 240, _width: 280 },
            last_tp: TouchPoint::new(0, 0),
            rotate: false,
        }
    }

    pub fn address(&self) -> (r: u8)
        ensures
            r == self.bus_address(),
    {
        self.address
    }

    pub fn last_touch(&self) -> (r: TouchPoint)
        ensures
            r == self.last_point(),
    {
        self.last_tp
    }

    pub fn is_rotated(&self) -> (r: bool)
        ensures
            r == self.rotated_flag(),
    {
        self.rotate
    }

    pub fn size(&self) -> (r: Dimension)
        ensures
            r == self.dimension(),
    {
        self.size
    }

    pub fn rotate(&mut self, rotate: bool)
        ensures
            final(self).rotated_flag() == rotate,
            final(self).bus_address() == old(self).bus_address(),
            final(self).dimension() == old(self).dimension(),
            final(self).last_point() == old(self).last_point(),
    {
        self.rotate = rotate;
    }

    pub fn set_size(&mut self, _width: u16, _height: u16)
        ensures
            final(self).dimension() == (Dimension { _height, _width }),
            final(self).rotated_flag() == old(self).rotated_flag(),
            final(self).bus_address() == old(self).bus_address(),
            final(self).last_point() == old(self).last_point(),
    {
        self.size = Dimension { _height, _width };
    }

    /// The write that follows reading the chip identifier `id`: enabling the
    /// touch interrupt when the chip is a CST816D, nothing otherwise.
    pub fn init_reply(id: u8) -> (r: Option<[u8; 2]>)
        ensures
            id == CST816D_CHIP_ID ==> (r matches Some(cmd) && cmd@ == seq![
                TOUCH_REGISTER_IRQ_CTL,
                TOUCH_IRQ_EN_TOUCH,
            ]),
            id != CST816D_CHIP_ID ==> r is None,
    {
        if id != CST816D_CHIP_ID {
            None
        } else {
            let cmd = [TOUCH_REGISTER_IRQ_CTL, TOUCH_IRQ_EN_TOUCH];
            assert(cmd@ =~= seq![TOUCH_REGISTER_IRQ_CTL, TOUCH_IRQ_EN_TOUCH]);
            Some(cmd)
        }
    }

    /// First step of a touch read, once the touch count register has been
    /// read.
    pub fn read_touch_count(&self, touch_num: u8) -> (r: Option<TouchState>)
        requires
            touch_num == 0 ==> self.can_report_release(),
        ensures
            r == self.touch_count_reply(touch_num),
    {
        if touch_num == 0 {
            return Some(TouchState::Released(self.last_tp.rotate(self.rotate)));
        }
        None
    }

    /// Second step of a touch read, once the four coordinate registers have
    /// been read: the point is remembered for the next release.
    pub fn read_touch_data(&mut self, rx_buf: [u8; 4]) -> (r: TouchState)
        requires
            old(self).can_decode(rx_buf),
        ensures
            *final(self) == old(self).after_touch_data(rx_buf),
            final(self).last_point() == decoded_point(rx_buf, old(self).dimension()._width),
            final(self).rotated_flag() == old(self).rotated_flag(),
            final(self).dimension() == old(self).dimension(),
            final(self).bus_address() == old(self).bus_address(),
            r == old(self).touch_data_reply(rx_buf),
    {
        let b0 = rx_buf[0];
        let b2 = rx_buf[2];
        assert(((b0 as u16) & 0x0F) << 8 == (b0 % 16) * 256) by (bit_vector);
        assert(((b2 as u16) & 0x0F) << 8 == (b2 % 16) * 256) by (bit_vector);
        let mut x: u16 = rx_buf[1] as u16 + (((b0 as u16) & 0x0F) << 8);
        let mut y: u16 = rx_buf[3] as u16 + (((b2 as u16) & 0x0F) << 8);

        let temp = x;
        x = self.size._width - y;
        y = temp;

        let tp = TouchPoint::new(x, y);
        self.last_tp = tp;

        TouchState::Pressed(tp.rotate(self.rotate))
    }
}

/// After a coordinate block is read, the decoded point is remembered for
/// the next release; rotation, size and address stay as they were.
pub proof fn lemma_after_touch_data(s: CST816D, rx: [u8; 4])
    ensures
        s.after_touch_data(rx).last_point() == decoded_point(rx, s.dimension()._width),
        s.after_touch_data(rx).rotated_flag() == s.rotated_flag(),
        s.after_touch_data(rx).dimension() == s.dimension(),
        s.after_touch_data(rx).bus_address() == s.bus_address(),
{
}

/// A release reports the point of the press read just before it.
pub proof fn lemma_release_repeats_last_press(s: CST816D, rx: [u8; 4])
    ensures
        s.after_touch_data(rx).touch_count_reply(0) == Some(
            TouchState::Released(
                match s.touch_data_reply(rx) {
                    TouchState::Pressed(p) => p,
                    TouchState::Released(p) => p,
                },
            ),
        ),
{
}

/// Mirroring a point on the panel twice gives the point back; a point and
/// its mirror image lie as far from the panel's left and top edges as the
/// other lies from its right and bottom edges.
pub proof fn lemma_rotate_twice(p: TouchPoint)
    requires
        on_panel(p),
    ensures
        on_panel(rotated(p, true)),
        rotated(rotated(p, true), true) == p,
        rotated(p, true).x + p.x == HOR_RES,
        rotated(p, true).y + p.y == VER_RES,
{
}

/// Without rotation a point is reported as read.
pub proof fn lemma_no_rotation_keeps_point(p: TouchPoint)
    ensures
        rotated(p, false) == p,
{
}

/// A coordinate block holds two 12-bit readings, each as a byte whose low
/// nibble is the high part followed by the low byte: (rx[0], rx[1]) for the
/// sensor's X and (rx[2], rx[3]) for its Y. The remembered point's y is the
/// X reading and its x lies the Y reading to the left of the panel's right
/// edge; the press is reported at that very point, or at its mirror image
/// through the panel centre when the panel is rotated.
pub proof fn lemma_touch_data_bytes(s: CST816D, rx: [u8; 4])
    requires
        s.can_decode(rx),
    ensures
        ({
            let p = s.after_touch_data(rx).last_point();
            let w = s.dimension()._width;
            &&& p.x <= w
            &&& (w - p.x) / 256 == rx@[2] % 16
            &&& (w - p.x) % 256 == rx@[3]
            &&& p.y / 256 == rx@[0] % 16
            &&& p.y % 256 == rx@[1]
            &&& !s.rotated_flag() ==> s.touch_data_reply(rx) == TouchState::Pressed(p)
            &&& s.rotated_flag() ==> s.touch_data_reply(rx) == TouchState::Pressed(
                TouchPoint { x: (HOR_RES - p.x) as u16, y: (VER_RES - p.y) as u16 },
            )
        }),
{
}

} // verus!
