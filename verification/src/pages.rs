//! What the demo pages decide, apart from drawing: the page list, how the
//! pointer state turns into press / drag / release events, and which
//! button leads where.
use vstd::prelude::*;

use crate::calculator::CalcKey;

verus! {

/// The pages of the demo.
#[derive(Copy, Clone, Debug, PartialEq, Eq, Structural)]
pub enum Pages {
    Home,
    Basic,
    MsgBox,
    Calculator,
    AnimSwitch,
}

pub open spec fn page_name(p: Pages) -> Seq<char> {
    match p {
        Pages::Home => seq!['H', 'o', 'm', 'e'],
        Pages::Basic => seq!['B', 'a', 's', 'i', 'c'],
        Pages::MsgBox => seq!['M', 's', 'g', 'B', 'o', 'x'],
        Pages::Calculator => seq!['C', 'a', 'l', 'c', 'u', 'l', 'a', 't', 'o', 'r'],
        Pages::AnimSwitch => seq!['A', 'n', 'i', 'm', 'S', 'w', 'i', 't', 'c', 'h'],
    }
}

impl Pages {
    /// The page's display name.
    pub fn name(&self) -> (r: &'static str)
        ensures
            r@ == page_name(*self),
    {
        proof {
            reveal_strlit("Home");
            reveal_strlit("Basic");
            reveal_strlit("MsgBox");
            reveal_strlit("Calculator");
            reveal_strlit("AnimSwitch");
        }
        let r = match self {
            Pages::Home => "Home",
            Pages::Basic => "Basic",
            Pages::MsgBox => "MsgBox",
            Pages::Calculator => "Calculator",
            Pages::AnimSwitch => "AnimSwitch",
        };
        assert(r@ =~= page_name(*self));
        r
    }
}

/// The pointer event a page feeds to its widgets.
#[derive(Copy, Clone, Debug, PartialEq, Eq, Structural)]
pub enum TouchPhase {
    /// The pointer went down.
    Pressed,
    /// The pointer stays down (and may have moved).
    Drag,
    /// The pointer went up.
    Release,
}

/// The event for the pointer state before (`last_down`) and now (`tp_down`):
/// none while it stays up.
pub open spec fn phase_of(last_down: bool, tp_down: bool) -> Option<TouchPhase> {
    if !last_down && tp_down {
        Some(TouchPhase::Pressed)
    } else if last_down && tp_down {
        Some(TouchPhase::Drag)
    } else if last_down && !tp_down {
        Some(TouchPhase::Release)
    } else {
        None
    }
}

pub fn touch_phase(last_down: bool, tp_down: bool) -> (r: Option<TouchPhase>)
    ensures
        r == phase_of(last_down, tp_down),
{
    match (last_down, tp_down) {
        (false, true) => Some(TouchPhase::Pressed),
        (true, true) => Some(TouchPhase::Drag),
        (true, false) => Some(TouchPhase::Release),
        (false, false) => None,
    }
}

/// A pointer that goes down from up is a press, one that goes up from down
/// is a release, and one that stays up is no touch phase at all.
pub proof fn lemma_press_then_release()
    ensures
        phase_of(false, true) == Some(TouchPhase::Pressed),
        phase_of(true, false) == Some(TouchPhase::Release),
        phase_of(false, false) is None,
{
}

/// The page each home-page button opens, in the order of the buttons.
pub open spec fn home_target_of(idx: int) -> Pages {
    if idx == 0 {
        Pages::Basic
    } else if idx == 1 {
        Pages::MsgBox
    } else if idx == 2 {
        Pages::Calculator
    } else {
        Pages::AnimSwitch
    }
}

/// Number of buttons on the home page.
pub const HOME_BUTTONS: usize = 4;

pub fn home_target(idx: usize) -> (r: Pages)
    requires
        idx < HOME_BUTTONS,
    ensures
        r == home_target_of(idx as int),
{
    if idx == 0 {
        Pages::Basic
    } else if idx == 1 {
        Pages::MsgBox
    } else if idx == 2 {
        Pages::Calculator
    } else {
        Pages::AnimSwitch
    }
}

/// Number of keys in the calculator's keypad grid.
pub const CALC_KEYS: usize = 16;

/// The calculator keypad, row by row: 7 8 9 / | 4 5 6 X | 1 2 3 - | 0 . = +.
pub open spec fn calc_keypad() -> Seq<CalcKey> {
    seq![
        CalcKey::Digit(7), CalcKey::Digit(8), CalcKey::Digit(9), CalcKey::Div,
        CalcKey::Digit(4), CalcKey::Digit(5), CalcKey::Digit(6), CalcKey::Mul,
        CalcKey::Digit(1), CalcKey::Digit(2), CalcKey::Digit(3), CalcKey::Sub,
        CalcKey::Digit(0), CalcKey::Dot, CalcKey::Equal, CalcKey::Add,
    ]
}

/// The key at position `idx` of the keypad.
pub open spec fn calc_key_of(idx: int) -> CalcKey {
    calc_keypad()[idx]
}

pub fn calc_key_at(idx: usize) -> (r: CalcKey)
    requires
        idx < CALC_KEYS,
    ensures
        r == calc_key_of(idx as int),
        r.wf(),
{
    match idx {
        0 => CalcKey::Digit(7),
        1 => CalcKey::Digit(8),
        2 => CalcKey::Digit(9),
        3 => CalcKey::Div,
        4 => CalcKey::Digit(4),
        5 => CalcKey::Digit(5),
        6 => CalcKey::Digit(6),
        7 => CalcKey::Mul,
        8 => CalcKey::Digit(1),
        9 => CalcKey::Digit(2),
        10 => CalcKey::Digit(3),
        11 => CalcKey::Sub,
        12 => CalcKey::Digit(0),
        13 => CalcKey::Dot,
        14 => CalcKey::Equal,
        _ => CalcKey::Add,
    }
}

/// Where a page stands in the list of pages: the home page first, then the
/// basic widgets, the message box, the calculator and the switch page.
pub open spec fn page_order(p: Pages) -> int {
    match p {
        Pages::Home => 0,
        Pages::Basic => 1,
        Pages::MsgBox => 2,
        Pages::Calculator => 3,
        Pages::AnimSwitch => 4,
    }
}

/// The home page offers each other page on one button, in the order of the
/// page list: the button at position `i` opens the page `i + 1` places after
/// the home page. So no button leads home, no two buttons open the same
/// page, and every other page has a button.
pub proof fn lemma_home_buttons_follow_page_list(i: int, j: int, p: Pages)
    requires
        0 <= i < HOME_BUTTONS,
        0 <= j < HOME_BUTTONS,
    ensures
        page_order(home_target_of(i)) == i + 1,
        home_target_of(i) != Pages::Home,
        i != j ==> home_target_of(i) != home_target_of(j),
        p != Pages::Home ==> home_target_of(page_order(p) - 1) == p,
{
}

/// The message-box page after one pass over its buttons, from whether the
/// box was shown and which button was clicked: whether the box is shown now,
/// and the page to switch to. "Show" opens the box; its OK button closes it
/// and leads home.
pub open spec fn msg_box_step_of(show: bool, show_clicked: bool, ok_clicked: bool) -> (
    bool,
    Option<Pages>,
) {
    if !show {
        (show_clicked, None)
    } else if ok_clicked {
        (false, Some(Pages::Home))
    } else {
        (true, None)
    }
}

/// One pass of the message-box page; `show_clicked` is read while the box is
/// hidden, `ok_clicked` while it is shown.
pub fn msg_box_step(show: bool, show_clicked: bool, ok_clicked: bool) -> (r: (bool, Option<Pages>))
    ensures
        r == msg_box_step_of(show, show_clicked, ok_clicked),
{
    if !show {
        (show_clicked, None)
    } else if ok_clicked {
        (false, Some(Pages::Home))
    } else {
        (true, None)
    }
}

/// The keypad is a 4 by 4 grid read row by row: the digits 1 to 9 fill the
/// top three rows of the first three columns as on any calculator (7 8 9 on
/// top, rising by one to the right and by three upward),
/// the operators fill the last column (/ X - + from the top), and the bottom
/// row holds 0, the point and "=". Every key of the calculator but "AC"
/// is on it exactly once.
pub proof fn lemma_keypad_layout(row: int, col: int, i: int, j: int)
    requires
        0 <= row < 4,
        0 <= col < 4,
        0 <= i < CALC_KEYS,
        0 <= j < CALC_KEYS,
    ensures
        row < 3 && col < 3 ==> calc_key_of(4 * row + col) == CalcKey::Digit((7 - 3 * row + col) as u8),
        col == 3 ==> calc_key_of(4 * row + col) == seq![
            CalcKey::Div,
            CalcKey::Mul,
            CalcKey::Sub,
            CalcKey::Add,
        ][row],
        row == 3 && col == 1 ==> calc_key_of(4 * row + col) == CalcKey::Dot,
        row == 3 && col == 2 ==> calc_key_of(4 * row + col) == CalcKey::Equal,
        row == 3 && col == 0 ==> calc_key_of(4 * row + col) == CalcKey::Digit(0),
        i != j ==> calc_key_of(i) != calc_key_of(j),
        calc_key_of(i) != CalcKey::Clear,
        calc_key_of(i).wf(),
{
}

/// Something the user did on the basic-widgets page.
#[derive(Copy, Clone, Debug, PartialEq, Eq, Structural)]
pub enum BasicEvent {
    Button1,
    Button2,
    Button3,
    SliderChanged,
    Checkbox1Changed,
    Checkbox2Changed,
    Radio1,
    Radio2,
    Radio3,
}

/// The fixed text the first label shows after an event, if the event sets
/// one (the check boxes show texts of the current language instead).
pub open spec fn basic_label_of(e: BasicEvent) -> Option<Seq<char>> {
    match e {
        BasicEvent::Button1 => Some(seq!['B', 't', 'n', '1']),
        BasicEvent::Button2 => Some(seq!['B', 't', 'n', '2']),
        BasicEvent::Button3 => Some(seq!['B', 't', 'n', '3']),
        BasicEvent::Radio1 => Some(seq!['R', 'a', 'd', 'i', 'o', '1']),
        BasicEvent::Radio2 => Some(seq!['R', 'a', 'd', 'i', 'o', '2']),
        BasicEvent::Radio3 => Some(seq!['R', 'a', 'd', 'i', 'o', '3']),
        _ => None,
    }
}

impl BasicEvent {
    pub fn label(&self) -> (r: Option<&'static str>)
        ensures
            r matches Some(t) ==> basic_label_of(*self) == Some(t@),
            r is None ==> basic_label_of(*self) is None,
    {
        proof {
            reveal_strlit("Btn1");
            reveal_strlit("Btn2");
            reveal_strlit("Btn3");
            reveal_strlit("Radio1");
            reveal_strlit("Radio2");
            reveal_strlit("Radio3");
        }
        match self {
            BasicEvent::Button1 => {
                assert("Btn1"@ =~= seq!['B', 't', 'n', '1']);
                Some("Btn1")
            },
            BasicEvent::Button2 => {
                assert("Btn2"@ =~= seq!['B', 't', 'n', '2']);
                Some("Btn2")
            },
            BasicEvent::Button3 => {
                assert("Btn3"@ =~= seq!['B', 't', 'n', '3']);
                Some("Btn3")
            },
            BasicEvent::Radio1 => {
                assert("Radio1"@ =~= seq!['R', 'a', 'd', 'i', 'o', '1']);
                Some("Radio1")
            },
            BasicEvent::Radio2 => {
                assert("Radio2"@ =~= seq!['R', 'a', 'd', 'i', 'o', '2']);
                Some("Radio2")
            },
            BasicEvent::Radio3 => {
                assert("Radio3"@ =~= seq!['R', 'a', 'd', 'i', 'o', '3']);
                Some("Radio3")
            },
            _ => None,
        }
    }

    /// The page the event leads to: the third button opens the message box.
    pub fn target_page(&self) -> (r: Option<Pages>)
        ensures
            r == (if *self == BasicEvent::Button3 {
                Some(Pages::MsgBox)
            } else {
                None
            }),
    {
        match self {
            BasicEvent::Button3 => Some(Pages::MsgBox),
            _ => None,
        }
    }
}

/// The regions of the basic-widgets page drawn again after an event: the
/// first label, the bar, the second label and the radio buttons.
#[derive(Copy, Clone, Debug, PartialEq, Eq, Structural)]
pub struct BasicRedraws {
    pub label1: bool,
    pub bar: bool,
    pub label2: bool,
    pub radio_buttons: bool,
}

/// The slider redraws the bar and the value label; every other event
/// rewrites the first label, and a radio button also redraws its group.
pub open spec fn basic_redraws_of(e: BasicEvent) -> BasicRedraws {
    match e {
        BasicEvent::SliderChanged => BasicRedraws {
            label1: false,
            bar: true,
            label2: true,
            radio_buttons: false,
        },
        BasicEvent::Radio1 | BasicEvent::Radio2 | BasicEvent::Radio3 => BasicRedraws {
            label1: true,
            bar: false,
            label2: false,
            radio_buttons: true,
        },
        _ => BasicRedraws { label1: true, bar: false, label2: false, radio_buttons: false },
    }
}

impl BasicEvent {
    /// The regions to draw again after this event.
    pub fn redraws(&self) -> (r: BasicRedraws)
        ensures
            r == basic_redraws_of(*self),
    {
        match self {
            BasicEvent::SliderChanged => BasicRedraws {
                label1: false,
                bar: true,
                label2: true,
                radio_buttons: false,
            },
            BasicEvent::Radio1 | BasicEvent::Radio2 | BasicEvent::Radio3 => BasicRedraws {
                label1: true,
                bar: false,
                label2: false,
                radio_buttons: true,
            },
            _ => BasicRedraws { label1: true, bar: false, label2: false, radio_buttons: false },
        }
    }
}

} // verus!
