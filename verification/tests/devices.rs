use matrix_demo::anim_switch::{
    anim_switch_actions, anim_tick_due, label_shift, lever_center_x, lever_in_range, switch_step, SwitchInput,
    SwitchStatus,
};
use matrix_demo::clock::{digit_glyph, is_animation_pass, roll_in_range, rolled_tops_exec, Clock, HMS};
use matrix_demo::cst816d::{Dimension, TouchPoint, TouchState, CST816D};
use matrix_demo::pages::{
    home_target, msg_box_step, touch_phase, BasicEvent, BasicRedraws, Pages, TouchPhase,
};
use matrix_demo::web::{canvas_point, ClickEvent, DemoTicker, MouseTracker};
use matrix_demo::{HOR_RES, VER_RES};

#[test]
fn touch_point_rotation() {
    let p = TouchPoint::new(10, 20);
    assert_eq!(p.rotate(false), p);
    assert_eq!(p.rotate(true), TouchPoint::new(270, 220));
    assert_eq!(p.rotate(true).rotate(true), p);
    assert_eq!(TouchPoint::new(HOR_RES, VER_RES).rotate(true), TouchPoint::new(0, 0));
}

#[test]
fn controller_defaults() {
    let c = CST816D::new();
    assert_eq!(c.address(), 0x15);
    assert_eq!(c.size(), Dimension { _height: 240, _width: 280 });
    assert_eq!(c.last_touch(), TouchPoint::new(0, 0));
    assert!(!c.is_rotated());
}

#[test]
fn init_enables_irq_only_for_the_right_chip() {
    assert_eq!(CST816D::init_reply(0xB6), Some([0xFA, 0x40]));
    assert_eq!(CST816D::init_reply(0x00), None);
    assert_eq!(CST816D::init_reply(0xFF), None);
}

#[test]
fn touch_read_decodes_and_remembers() {
    let mut c = CST816D::new();
    c.set_size(280, 240);
    assert_eq!(c.read_touch_count(1), None);
    // raw X = 0x105 = 261, raw Y = 0x032 = 50
    let s = c.read_touch_data([0xF1, 0x05, 0x00, 0x32]);
    assert_eq!(s, TouchState::Pressed(TouchPoint::new(230, 261)));
    assert_eq!(c.read_touch_count(0), Some(TouchState::Released(TouchPoint::new(230, 261))));
}

#[test]
fn touch_read_masks_high_nibbles_and_remembers_press() {
    let mut c = CST816D::new();
    let s = c.read_touch_data([0xF0, 0x78, 0x80, 0x64]);
    assert_eq!(s, TouchState::Pressed(TouchPoint::new(180, 120)));
    assert_eq!(c.last_touch(), TouchPoint::new(180, 120));
    assert!(!c.is_rotated());
    assert_eq!(c.size(), Dimension { _height: 240, _width: 280 });
    assert_eq!(c.address(), 0x15);
    assert_eq!(c.read_touch_count(0), Some(TouchState::Released(TouchPoint::new(180, 120))));
}

#[test]
fn touch_read_with_rotation() {
    let mut c = CST816D::new();
    c.rotate(true);
    let s = c.read_touch_data([0x00, 100, 0x00, 80]);
    // decoded (200, 100), mirrored (80, 140)
    assert_eq!(s, TouchState::Pressed(TouchPoint::new(80, 140)));
    assert_eq!(c.read_touch_count(0), Some(TouchState::Released(TouchPoint::new(80, 140))));
    assert_eq!(c.last_touch(), TouchPoint::new(200, 100));
}

#[test]
fn touch_state_to_input() {
    assert_eq!(TouchState::Pressed(TouchPoint::new(1, 2)).into_input(), (true, TouchPoint::new(1, 2)));
    assert_eq!(TouchState::Released(TouchPoint::new(3, 4)).into_input(), (false, TouchPoint::new(3, 4)));
}

#[test]
fn hms_splits_time() {
    assert_eq!(
        HMS::from(9 * 3600 + 59 * 60 + 55),
        HMS { sec1: 5, sec10: 5, min1: 9, min10: 5, hour1: 9, hour10: 0 }
    );
    assert_eq!(
        HMS::from(23 * 3600 + 7 * 60 + 41),
        HMS { sec1: 1, sec10: 4, min1: 7, min10: 0, hour1: 3, hour10: 2 }
    );
    // the hour is kept in a byte: 300 h shows as 44
    let h = HMS::from(300 * 3600);
    assert_eq!((h.hour10, h.hour1), (4, 4));
}

#[test]
fn clock_ticks_and_rolls_digits() {
    let mut c = Clock::new();
    assert_eq!(c.utc(), 35995);
    for _ in 0..4 {
        let ch = c.add_one_second();
        assert!(ch.sec1);
        assert!(!ch.min1 && !ch.hour1);
    }
    let ch = c.add_one_second(); // 09:59:59 -> 10:00:00
    assert!(ch.sec1 && ch.sec10 && ch.min1 && ch.min10 && ch.hour1 && ch.hour10);
    assert_eq!(c.hms_curr(), HMS { sec1: 0, sec10: 0, min1: 0, min10: 0, hour1: 0, hour10: 1 });
    assert_eq!(c.hms_last(), HMS { sec1: 9, sec10: 5, min1: 9, min10: 5, hour1: 9, hour10: 0 });
}

#[test]
fn digit_glyphs() {
    assert_eq!(digit_glyph(0), "0");
    assert_eq!(digit_glyph(7), "7");
    assert_eq!(digit_glyph(42), "0");
}

#[test]
fn rolling_digit_positions() {
    assert_eq!(rolled_tops_exec(85, 48, None), (85, 133));
    assert_eq!(rolled_tops_exec(85, 48, Some(50)), (61, 109));
    assert_eq!(rolled_tops_exec(85, 48, Some(100)), (37, 85));
    assert_eq!(rolled_tops_exec(85, 48, Some(-3)), (86, 134));
}

#[test]
fn pages_and_phases() {
    assert_eq!(Pages::Calculator.name(), "Calculator");
    assert_eq!(Pages::AnimSwitch.name(), "AnimSwitch");
    assert_eq!(touch_phase(false, true), Some(TouchPhase::Pressed));
    assert_eq!(touch_phase(true, true), Some(TouchPhase::Drag));
    assert_eq!(touch_phase(true, false), Some(TouchPhase::Release));
    assert_eq!(touch_phase(false, false), None);
    assert_eq!(home_target(0), Pages::Basic);
    assert_eq!(home_target(3), Pages::AnimSwitch);
}

#[test]
fn basic_page_events() {
    assert_eq!(BasicEvent::Button2.label(), Some("Btn2"));
    assert_eq!(BasicEvent::Radio3.label(), Some("Radio3"));
    assert_eq!(BasicEvent::Checkbox1Changed.label(), None);
    assert_eq!(BasicEvent::Button3.target_page(), Some(Pages::MsgBox));
    assert_eq!(BasicEvent::Button1.target_page(), None);
}

#[test]
fn switch_reacts_to_pointer() {
    let s = switch_step(SwitchInput::Release, false, false, SwitchStatus::Pressed);
    assert!(s.on && s.draw);
    assert_eq!(s.response, SwitchInput::Clicked);
    assert_eq!(s.status, SwitchStatus::Released);
    let s = switch_step(SwitchInput::Idle, false, true, SwitchStatus::Rendered);
    assert!(s.on && !s.draw);
    let s = switch_step(SwitchInput::Idle, true, true, SwitchStatus::NeedsRedraw);
    assert!(s.draw);
    let s = switch_step(SwitchInput::Drag, false, true, SwitchStatus::Pressed);
    assert!(s.on && !s.draw);
    let s = switch_step(SwitchInput::Other, false, true, SwitchStatus::Other);
    assert_eq!(s.status, SwitchStatus::Unknown);
    assert!(s.on && s.draw);
    let s = switch_step(SwitchInput::Clicked, false, true, SwitchStatus::Released);
    assert!(!s.on && !s.draw);
}

#[test]
fn lever_positions() {
    // region 90 x 40 centred at x = 187
    assert_eq!(lever_center_x(187, 90, 40, false, None), 162);
    assert_eq!(lever_center_x(187, 90, 40, true, None), 212);
    assert_eq!(lever_center_x(187, 90, 40, true, Some(0)), 162);
    assert_eq!(lever_center_x(187, 90, 40, true, Some(50)), 187);
    assert_eq!(lever_center_x(187, 90, 40, true, Some(100)), 212);
    assert_eq!(lever_center_x(187, 90, 40, false, Some(100)), 162);
}

#[test]
fn label_slides() {
    assert_eq!(label_shift(true, 30), 30);
    assert_eq!(label_shift(false, 30), 70);
    assert!(anim_tick_due(31));
    assert!(!anim_tick_due(30));
}

#[test]
fn canvas_mapping() {
    assert_eq!(canvas_point(110, 60, 10, 10), Some((100, 50)));
    assert_eq!(canvas_point(5, 60, 10, 10), None);
    assert_eq!(canvas_point(290, 60, 10, 10), None);
    assert_eq!(canvas_point(289, 249, 10, 10), Some((279, 239)));
}

#[test]
fn mouse_tracking() {
    let mut m = MouseTracker::new();
    assert_eq!(m.mouse_move(50, 50, 0, 0), None);
    assert_eq!(m.mouse_down(500, 50, 0, 0), None);
    assert_eq!(m.mouse_move(50, 50, 0, 0), None);
    assert_eq!(m.mouse_down(20, 30, 0, 0), Some(ClickEvent::Pressed(20, 30)));
    assert_eq!(m.mouse_move(25, 35, 0, 0), Some(ClickEvent::Pressed(25, 35)));
    assert_eq!(m.mouse_up(25, 35, 0, 0), Some(ClickEvent::Released(25, 35)));
    assert_eq!(m.mouse_move(30, 35, 0, 0), None);
    assert_eq!(ClickEvent::Released(1, 2).into_input(), (false, 1, 2));
}

#[test]
fn ticker_advances_every_second_tick() {
    let mut t = DemoTicker::new();
    assert_eq!(t.tick(false), None);
    assert_eq!(t.tick(false), None);
    // 40 ms since the last advance at 0
    assert_eq!(t.tick(true), Some(60));
    assert_eq!(t.tick(true), None);
    assert_eq!(t.tick(true), Some(40));
    assert_eq!(t.tick(true), None);
    assert_eq!(t.tick(true), Some(40));
}

#[test]
fn huge_sizes_wrap_like_as_i32() {
    assert!(roll_in_range(0, 0x8000_0000, None));
    assert_eq!(rolled_tops_exec(0, 0x8000_0000, None), (0, i32::MIN));
    assert!(!roll_in_range(1, 0x7fff_ffff, None));
    assert!(lever_in_range(0, 0x9000_0000, 0, None));
    assert_eq!(lever_center_x(0, 0x9000_0000, 0, false, None), 0x3800_0000);
    assert_eq!(lever_center_x(0, 0x9000_0000, 0, true, None), -0x3800_0000);
}

#[test]
fn message_box_opens_and_ok_leads_home() {
    assert_eq!(msg_box_step(false, false, false), (false, None));
    assert_eq!(msg_box_step(false, true, false), (true, None));
    assert_eq!(msg_box_step(true, false, false), (true, None));
    assert_eq!(msg_box_step(true, false, true), (false, Some(Pages::Home)));
}

#[test]
fn basic_page_redraws() {
    let label_only = BasicRedraws { label1: true, bar: false, label2: false, radio_buttons: false };
    assert_eq!(BasicEvent::Button1.redraws(), label_only);
    assert_eq!(BasicEvent::Checkbox2Changed.redraws(), label_only);
    assert_eq!(
        BasicEvent::SliderChanged.redraws(),
        BasicRedraws { label1: false, bar: true, label2: true, radio_buttons: false }
    );
    assert_eq!(
        BasicEvent::Radio2.redraws(),
        BasicRedraws { label1: true, bar: false, label2: false, radio_buttons: true }
    );
}

#[test]
fn switch_page_actions() {
    let a = anim_switch_actions(true, false);
    assert!(a.go_home && !a.play_animations && !a.redraw_label);
    let b = anim_switch_actions(false, true);
    assert!(!b.go_home && b.play_animations && b.redraw_label);
}

#[test]
fn clock_animation_pass_marker() {
    assert!(is_animation_pass(-1, -1));
    assert!(!is_animation_pass(-1, 0));
    assert!(!is_animation_pass(10, 20));
}
