use matrix_demo::calculator::{format_result, CalcAction, CalcKey, Calculator};
use matrix_demo::evaluation::evaluate;
use matrix_demo::pages::calc_key_at;

fn press_all(calc: &mut Calculator, keys: &[CalcKey]) -> CalcAction {
    let mut last = CalcAction::Idle;
    for k in keys {
        last = calc.user_input(*k);
    }
    last
}

#[test]
fn digits_and_operators_build_the_expression() {
    let mut c = Calculator::new();
    press_all(
        &mut c,
        &[CalcKey::Digit(1), CalcKey::Digit(2), CalcKey::Add, CalcKey::Digit(3), CalcKey::Mul, CalcKey::Digit(4)],
    );
    assert_eq!(c.expression(), "12+3X4");
}

#[test]
fn operator_needs_a_number_before_it() {
    let mut c = Calculator::new();
    c.user_input(CalcKey::Sub);
    assert_eq!(c.expression(), "");
    press_all(&mut c, &[CalcKey::Digit(5), CalcKey::Add, CalcKey::Sub, CalcKey::Div]);
    assert_eq!(c.expression(), "5+");
}

#[test]
fn point_on_empty_display_writes_zero_point() {
    let mut c = Calculator::new();
    assert_eq!(c.user_input(CalcKey::Dot), CalcAction::Idle);
    assert_eq!(c.expression(), "0.");
}

#[test]
fn second_point_in_a_number_is_ignored() {
    let mut c = Calculator::new();
    press_all(&mut c, &[CalcKey::Digit(1), CalcKey::Dot, CalcKey::Digit(5), CalcKey::Dot]);
    assert_eq!(c.expression(), "1.5");
    press_all(&mut c, &[CalcKey::Add, CalcKey::Digit(2), CalcKey::Dot]);
    assert_eq!(c.expression(), "1.5+2.");
}

#[test]
fn point_after_point_goes_home() {
    let mut c = Calculator::new();
    press_all(&mut c, &[CalcKey::Digit(7), CalcKey::Dot]);
    assert_eq!(c.user_input(CalcKey::Dot), CalcAction::GoHome);
    assert_eq!(c.expression(), "7.");
}

#[test]
fn input_stops_at_thirty_one_characters() {
    let mut c = Calculator::new();
    for _ in 0..40 {
        c.user_input(CalcKey::Digit(9));
    }
    assert_eq!(c.expression().len(), 31);
    c.user_input(CalcKey::Add);
    assert_eq!(c.expression().len(), 31);
}

#[test]
fn equal_asks_for_evaluation_only_when_not_empty() {
    let mut c = Calculator::new();
    assert_eq!(c.user_input(CalcKey::Equal), CalcAction::Idle);
    c.user_input(CalcKey::Digit(3));
    assert_eq!(c.user_input(CalcKey::Equal), CalcAction::Evaluate);
    assert_eq!(c.expression(), "3");
}

#[test]
fn clear_empties_the_display() {
    let mut c = Calculator::new();
    press_all(&mut c, &[CalcKey::Digit(3), CalcKey::Add, CalcKey::Digit(4)]);
    c.user_input(CalcKey::Clear);
    assert_eq!(c.expression(), "");
}

#[test]
fn tokenize_splits_numbers_and_operators() {
    let mut c = Calculator::new();
    press_all(
        &mut c,
        &[CalcKey::Digit(1), CalcKey::Digit(2), CalcKey::Add, CalcKey::Digit(3), CalcKey::Dot, CalcKey::Digit(5), CalcKey::Div, CalcKey::Digit(7)],
    );
    let t = c.tokenize().unwrap();
    assert_eq!(t.numbers(), &[(0, 2), (3, 6), (7, 8)]);
    assert_eq!(t.operators(), &['+', '/']);
}

#[test]
fn tokenize_rejects_trailing_operator() {
    let mut c = Calculator::new();
    press_all(&mut c, &[CalcKey::Digit(1), CalcKey::Add]);
    assert!(c.tokenize().is_err());
}

#[test]
fn tokenize_rejects_long_number() {
    let mut c = Calculator::new();
    for _ in 0..17 {
        c.user_input(CalcKey::Digit(1));
    }
    assert!(c.tokenize().is_err());
    let mut d = Calculator::new();
    for _ in 0..16 {
        d.user_input(CalcKey::Digit(1));
    }
    assert_eq!(d.tokenize().unwrap().numbers(), &[(0, 16)]);
}

#[test]
fn tokenize_rejects_error_text() {
    let mut c = Calculator::new();
    c.user_input(CalcKey::Digit(1));
    c.finish_evaluation(Err(()));
    assert_eq!(c.expression(), "Error");
    assert!(c.tokenize().is_err());
}

#[test]
fn tokenize_accepts_sixteen_numbers_only() {
    let mut c = Calculator::new();
    for i in 0..16 {
        if i > 0 {
            c.user_input(CalcKey::Add);
        }
        c.user_input(CalcKey::Digit(1));
    }
    assert_eq!(c.expression().len(), 31);
    let t = c.tokenize().unwrap();
    assert_eq!(t.numbers().len(), 16);
    assert_eq!(t.operators().len(), 15);
    assert_eq!(t.numbers()[0], (0, 1));
    assert_eq!(t.numbers()[15], (30, 31));
    for k in 1..16 {
        assert_eq!(t.numbers()[k].0, t.numbers()[k - 1].1 + 1);
    }
}

#[test]
fn finish_evaluation_shows_result_or_error() {
    let mut c = Calculator::new();
    c.user_input(CalcKey::Digit(9));
    c.finish_evaluation(Ok("42"));
    assert_eq!(c.expression(), "42");
    c.finish_evaluation(Err(()));
    assert_eq!(c.expression(), "Error");
    let too_long = "123456789012345678901234567890123";
    c.finish_evaluation(Ok(too_long));
    assert_eq!(c.expression(), "");
}

#[test]
fn format_result_trims_fraction() {
    assert_eq!(format_result("2.500000", true).as_str(), "2.5");
    assert_eq!(format_result("3.000000", true).as_str(), "3");
    assert_eq!(format_result("100", false).as_str(), "100");
    assert_eq!(format_result("-0.125000", true).as_str(), "-0.125");
}

#[test]
fn format_result_overflows_past_the_limit() {
    let long = "12345678901234567890123456789012";
    assert_eq!(format_result(long, false).as_str(), "Overflow");
    let fits = "1234567890123456789012345678901";
    assert_eq!(format_result(fits, false).as_str(), "1234567890123456789012345678901");
}

#[test]
fn keypad_layout() {
    let labels = ["7", "8", "9", "/", "4", "5", "6", "X", "1", "2", "3", "-", "0", ".", "=", "+"];
    for (i, l) in labels.iter().enumerate() {
        let mut c = Calculator::new();
        c.user_input(CalcKey::Digit(1));
        let k = calc_key_at(i);
        match k {
            CalcKey::Equal => assert_eq!(*l, "="),
            _ => {
                c.user_input(k);
                let shown = c.expression();
                assert_eq!(&shown[shown.len() - 1..], *l);
            }
        }
    }
}

fn eval_i64(nums: &[i64], ops: &[char]) -> Option<i64> {
    evaluate(
        &nums.to_vec(),
        ops,
        |a: i64, b: i64| a * b,
        |a: i64, b: i64| if b == 0 { None } else { Some(a / b) },
        |a: i64, b: i64| a + b,
        |a: i64, b: i64| a - b,
    )
}

#[test]
fn evaluation_puts_products_first() {
    assert_eq!(eval_i64(&[2, 3, 4], &['+', 'X']), Some(14));
    assert_eq!(eval_i64(&[2, 3, 4], &['X', '+']), Some(10));
    assert_eq!(eval_i64(&[10, 3, 4, 2], &['-', 'X', '/']), Some(4));
    assert_eq!(eval_i64(&[7], &[]), Some(7));
}

#[test]
fn evaluation_goes_left_to_right() {
    assert_eq!(eval_i64(&[10, 3, 2], &['-', '-']), Some(5));
    assert_eq!(eval_i64(&[100, 5, 2], &['/', '/']), Some(10));
    assert_eq!(eval_i64(&[1, 2, 3, 4], &['-', '+', '-']), Some(-2));
}

#[test]
fn evaluation_fails_on_division_by_zero() {
    assert_eq!(eval_i64(&[1, 0], &['/']), None);
    assert_eq!(eval_i64(&[1, 0, 5], &['/', '+']), None);
    assert_eq!(eval_i64(&[5, 1, 0], &['+', '/']), None);
}

#[test]
fn evaluation_in_f32() {
    let r = evaluate(
        &vec![1.5f32, 2.0, 0.5],
        &['X', '-'],
        |a: f32, b: f32| a * b,
        |a: f32, b: f32| if b == 0.0 { None } else { Some(a / b) },
        |a: f32, b: f32| a + b,
        |a: f32, b: f32| a - b,
    );
    assert_eq!(r, Some(2.5));
}

#[test]
fn tokenize_positions_on_a_full_display() {
    let mut c = Calculator::new();
    c.finish_evaluation(Ok("1+1+1+1+1+1+1+1+1+1+1+1+1+1+1+11"));
    assert_eq!(c.expression().len(), 32);
    let t = c.tokenize().unwrap();
    assert_eq!(t.numbers().len(), 16);
    assert_eq!(t.numbers()[15], (30, 32));
}

#[test]
fn keypad_table() {
    let expected = [
        CalcKey::Digit(7), CalcKey::Digit(8), CalcKey::Digit(9), CalcKey::Div,
        CalcKey::Digit(4), CalcKey::Digit(5), CalcKey::Digit(6), CalcKey::Mul,
        CalcKey::Digit(1), CalcKey::Digit(2), CalcKey::Digit(3), CalcKey::Sub,
        CalcKey::Digit(0), CalcKey::Dot, CalcKey::Equal, CalcKey::Add,
    ];
    for (i, k) in expected.iter().enumerate() {
        assert_eq!(calc_key_at(i), *k);
    }
}
