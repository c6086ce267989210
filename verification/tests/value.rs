use bulletml::data::expression::ast::{BinaryOp, UnaryOp};
use bulletml::data::{Change, Expression, Orientation, Value};
use bulletml::run::runner::{
    advance, change_over, chosen, due, in_sequence, repeat_count, resume, shot, span_end, target_direction,
    target_speed, update_function, Command, Function,
};
use bulletml::data::DirectionKind;

fn v(x: f32) -> Value {
    Value::from_bits(x.to_bits())
}

fn f(x: Value) -> f32 {
    f32::from_bits(x.to_bits())
}

#[test]
fn binary_operations_agree_with_the_machine() {
    let samples = [
        0.0f32, -0.0, 1.0, -1.0, 0.5, 3.0, 4.0, 1.0e-3, 7.25, -13.5, 360.0, 361.5, 1.0e10,
        3.4e38, 1.0e-40, 16777216.0, 0.1, 0.2, 0.3,
    ];
    for &a in samples.iter() {
        for &b in samples.iter() {
            assert_eq!(f(BinaryOp::Add.eval(v(a), v(b))).to_bits(), (a + b).to_bits());
            assert_eq!(f(BinaryOp::Sub.eval(v(a), v(b))).to_bits(), (a - b).to_bits());
            assert_eq!(f(BinaryOp::Mul.eval(v(a), v(b))).to_bits(), (a * b).to_bits());
            let quotient = f(BinaryOp::Div.eval(v(a), v(b)));
            if (a / b).is_nan() {
                assert!(quotient.is_nan());
            } else {
                assert_eq!(quotient.to_bits(), (a / b).to_bits());
            }
            let remainder = f(BinaryOp::Mod.eval(v(a), v(b)));
            if (a % b).is_nan() {
                assert!(remainder.is_nan());
            } else {
                assert_eq!(remainder.to_bits(), (a % b).to_bits());
            }
        }
    }
}

#[test]
fn division_by_zero_is_no_error() {
    assert_eq!(f(BinaryOp::Div.eval(v(1.0), v(0.0))), f32::INFINITY);
    assert_eq!(f(BinaryOp::Div.eval(v(-1.0), v(0.0))), f32::NEG_INFINITY);
    assert!(f(BinaryOp::Div.eval(v(0.0), v(0.0))).is_nan());
    assert!(f(BinaryOp::Mod.eval(v(1.0), v(0.0))).is_nan());
}

#[test]
fn negation_turns_the_sign() {
    assert_eq!(f(UnaryOp::Negate.eval(v(4.0))), -4.0);
    assert_eq!(f(UnaryOp::Negate.eval(v(-4.0))), 4.0);
    assert_eq!(UnaryOp::Negate.eval(v(0.0)).to_bits(), (-0.0f32).to_bits());
    assert!(f(UnaryOp::Negate.eval(v(f32::NAN))).is_nan());
}

#[test]
fn value_predicates() {
    assert!(v(f32::NAN).is_nan());
    assert!(!v(f32::INFINITY).is_nan());
    assert!(!v(1.0).is_nan());
    assert!(v(-1.0).is_negative());
    assert!(v(-0.0).is_negative());
    assert!(!v(0.0).is_negative());
    assert!(v(0.999).is_below_one());
    assert!(v(-5.0).is_below_one());
    assert!(v(0.0).is_below_one());
    assert!(!v(1.0).is_below_one());
    assert!(!v(2.5).is_below_one());
    assert!(!v(f32::NAN).is_below_one());
    assert_eq!(f(v(-3.0).or_zero()), 0.0);
    assert_eq!(f(v(f32::NAN).or_zero()), 0.0);
    assert_eq!(f(v(2.5).or_zero()), 2.5);
    assert_eq!(f(Value::zero()), 0.0);
}

#[test]
fn turns_are_the_ceiling() {
    assert_eq!(v(0.0).turns(), 0);
    assert_eq!(v(0.1).turns(), 1);
    assert_eq!(v(1.0).turns(), 1);
    assert_eq!(v(2.3).turns(), 3);
    assert_eq!(v(10.0).turns(), 10);
    assert_eq!(v(-2.5).turns(), 0);
    assert_eq!(v(f32::NAN).turns(), 0);
    assert_eq!(v(f32::INFINITY).turns(), u32::MAX);
    assert_eq!(v(1.0e20).turns(), u32::MAX);
    for &x in [0.0f32, 0.5, 1.5, 99.01, 4.0e9, 5.0e9, -1.0].iter() {
        assert_eq!(v(x).turns(), x.ceil() as u32);
    }
}

#[test]
fn orientation_up() {
    assert_eq!(f(Orientation::Horizontal.up(v(100.0))), 10.0);
    assert_eq!(f(Orientation::Vertical.up(v(100.0))), 100.0);
    assert_eq!(f(Orientation::Toroidal.up(v(100.0))), 100.0);
    assert_eq!(Orientation::default(), Orientation::Toroidal);
}

#[test]
fn change_modify() {
    assert_eq!(f(Change::Absolute.modify(v(2.0), v(3.0), v(4.0))), 2.0);
    assert_eq!(f(Change::Relative.modify(v(2.0), v(3.0), v(4.0))), 5.0);
    assert_eq!(f(Change::Sequence.modify(v(2.0), v(3.0), v(4.0))), 11.0);
    assert_eq!(Change::default(), Change::Absolute);
    assert_eq!(DirectionKind::default(), DirectionKind::Aim);
}

#[test]
fn linear_function() {
    let func = Function::new(5, 15, v(1.0), v(6.0));
    assert_eq!(f(func.step), 0.5);
    assert!(!func.is_in_domain(4));
    assert!(func.is_in_domain(5));
    assert!(func.is_in_domain(14));
    assert!(!func.is_in_domain(15));
    let mut expected = 1.0f32;
    for turn in 5..15 {
        assert_eq!(f(func.call(turn)), expected);
        let (more, value) = update_function(&func, turn);
        assert!(more);
        assert_eq!(f(value), expected);
        expected += 0.5;
    }
    assert_eq!(f(func.last()), 6.0);
    let (more, value) = update_function(&func, 15);
    assert!(!more);
    assert_eq!(f(value), 6.0);
    let (more, value) = update_function(&func, 3);
    assert!(!more);
    assert_eq!(f(value), 6.0);
}

#[test]
fn functions_agree_with_the_machine() {
    for &(min, max, start, end) in [
        (0u32, 16_777_217u32, 0.0f32, 1.0f32),
        (3, 4_000_000_001, -2.5, 4.0e9),
        (10, 13, 1.0, 2.0),
        (0, 7, 0.1, 0.9),
        (100, 101, 5.0, -5.0),
    ]
    .iter()
    {
        let func = Function::new(min, max, v(start), v(end));
        let step = (end - start) / ((max - min) as f32);
        assert_eq!(func.step.to_bits(), step.to_bits());
        for &x in [min, min + 1, min + (max - min) / 2, max - 1].iter() {
            let expected = start + step * ((x - min) as f32);
            assert_eq!(func.call(x).to_bits(), expected.to_bits());
        }
    }
}

#[test]
fn function_over_no_turns() {
    let func = Function::new(7, 7, v(1.0), v(2.0));
    assert!(!func.is_in_domain(7));
    assert_eq!(f(func.last()), 2.0);
    assert_eq!(f(func.step), f32::INFINITY);
}

fn shown(command: &Command) -> String {
    match command {
        Command::NewSimple(d, s) => format!("simple {} {}", f(*d), f(*s)),
        Command::New(d, s) => format!("new {} {}", f(*d), f(*s)),
        Command::Vanish => "vanish".to_string(),
        Command::ChangeDirection(d) => format!("direction {}", f(*d)),
        Command::ChangeSpeed(s) => format!("speed {}", f(*s)),
        Command::AccelX(a) => format!("x {}", f(*a)),
        Command::AccelY(a) => format!("y {}", f(*a)),
    }
}

#[test]
fn slots_advance() {
    let mut slot = Some(Function::new(2, 4, v(0.0), v(4.0)));
    assert_eq!(advance(&mut slot, 2).map(f), Some(0.0));
    assert!(slot.is_some());
    assert_eq!(advance(&mut slot, 3).map(f), Some(2.0));
    assert!(slot.is_some());
    assert_eq!(advance(&mut slot, 4).map(f), Some(4.0));
    assert!(slot.is_none());
    assert_eq!(advance(&mut slot, 5).map(f), None);
    let mut early = Some(Function::new(2, 4, v(0.0), v(4.0)));
    assert_eq!(advance(&mut early, 1).map(f), Some(4.0));
    assert!(early.is_none());
}

#[test]
fn changes_come_due_in_order() {
    let mut direction = Some(Function::new(0, 2, v(10.0), v(30.0)));
    let mut speed = None;
    let mut accel_x = Some(Function::new(0, 1, v(1.0), v(2.0)));
    let mut accel_y = Some(Function::new(0, 4, v(0.0), v(8.0)));
    let first = due(&mut direction, &mut speed, &mut accel_x, &mut accel_y, 1);
    let first: Vec<String> = first.iter().map(shown).collect();
    assert_eq!(first, vec!["direction 20", "x 2", "y 2"]);
    assert!(direction.is_some() && speed.is_none() && accel_x.is_none() && accel_y.is_some());
    speed = Some(Function::new(2, 3, v(5.0), v(6.0)));
    let second = due(&mut direction, &mut speed, &mut accel_x, &mut accel_y, 2);
    let second: Vec<String> = second.iter().map(shown).collect();
    assert_eq!(second, vec!["direction 30", "speed 5", "y 4"]);
    assert!(direction.is_none() && speed.is_some() && accel_x.is_none() && accel_y.is_some());
    let third = due(&mut direction, &mut speed, &mut accel_x, &mut accel_y, 9);
    let third: Vec<String> = third.iter().map(shown).collect();
    assert_eq!(third, vec!["speed 6", "y 8"]);
    assert!(due(&mut direction, &mut speed, &mut accel_x, &mut accel_y, 10).is_empty());
}

#[test]
fn shots() {
    assert_eq!(shown(&shot(true, v(1.0), v(2.0))), "simple 1 2");
    assert_eq!(shown(&shot(false, v(1.0), v(2.0))), "new 1 2");
    assert_eq!(shown(&Command::Vanish), "vanish");
}

#[test]
fn changes_over_a_span() {
    let func = change_over(10, v(2.5), v(1.0), v(7.0)).unwrap();
    assert_eq!((func.min, func.max), (10, 13));
    assert_eq!((f(func.start), f(func.end), f(func.step)), (1.0, 7.0, 2.0));
    let at_once = change_over(4, v(0.0), v(1.0), v(7.0)).unwrap();
    assert_eq!((at_once.min, at_once.max), (4, 4));
    assert_eq!(f(at_once.last()), 7.0);
    assert!(change_over(u32::MAX, v(1.0), v(1.0), v(7.0)).is_none());
    assert!(change_over(u32::MAX - 2, v(2.0), v(1.0), v(7.0)).is_some());
}

#[test]
fn span_ends() {
    assert_eq!(span_end(10, v(2.5)), Some(13));
    assert_eq!(span_end(10, v(0.0)), Some(10));
    assert_eq!(span_end(10, v(-4.0)), Some(10));
    assert_eq!(span_end(u32::MAX, v(0.0)), Some(u32::MAX));
    assert_eq!(span_end(u32::MAX, v(1.0)), None);
    assert_eq!(span_end(1, v(f32::INFINITY)), None);
    assert_eq!(span_end(0, v(f32::INFINITY)), Some(u32::MAX));
}

#[test]
fn directions() {
    let none = None;
    let o = Orientation::Toroidal;
    assert_eq!(f(target_direction(o, DirectionKind::Aim, v(10.0), none, v(42.0), v(7.0))), 52.0);
    assert_eq!(f(target_direction(o, DirectionKind::Aim, v(350.0), none, v(42.0), v(7.0))), 32.0);
    assert_eq!(f(target_direction(o, DirectionKind::Absolute, v(100.0), none, v(42.0), v(7.0))), 100.0);
    assert_eq!(
        f(target_direction(Orientation::Horizontal, DirectionKind::Absolute, v(100.0), none, v(42.0), v(7.0))),
        10.0
    );
    assert_eq!(
        f(target_direction(Orientation::Horizontal, DirectionKind::Absolute, v(0.0), none, v(42.0), v(7.0))),
        -90.0
    );
    assert_eq!(
        f(target_direction(Orientation::Vertical, DirectionKind::Absolute, v(100.0), none, v(42.0), v(7.0))),
        100.0
    );
    assert_eq!(f(target_direction(o, DirectionKind::Relative, v(10.0), none, v(42.0), v(7.0))), 17.0);
    assert_eq!(f(target_direction(o, DirectionKind::Sequence, v(10.0), none, v(42.0), v(7.0))), 42.0);
    assert_eq!(
        f(target_direction(o, DirectionKind::Sequence, v(10.0), Some(v(42.0)), v(1.0), v(7.0))),
        52.0
    );
    assert_eq!(
        f(target_direction(Orientation::Horizontal, DirectionKind::Aim, v(10.0), none, v(42.0), v(7.0))),
        52.0
    );
}

#[test]
fn speeds() {
    assert_eq!(f(target_speed(Change::Absolute, v(2.0), None, v(5.0))), 2.0);
    assert_eq!(f(target_speed(Change::Relative, v(2.0), None, v(5.0))), 7.0);
    assert_eq!(f(target_speed(Change::Sequence, v(2.0), None, v(5.0))), 1.0);
    assert_eq!(f(target_speed(Change::Sequence, v(2.0), Some(v(3.0)), v(5.0))), 5.0);
    assert_eq!(f(in_sequence(v(10.0), v(0.5), v(1.0))), 6.0);
}

#[test]
fn repeat_counts() {
    assert_eq!(repeat_count(v(3.0)), 3);
    assert_eq!(repeat_count(v(3.99)), 3);
    assert_eq!(repeat_count(v(1.0)), 1);
    assert_eq!(repeat_count(v(0.99)), 0);
    assert_eq!(repeat_count(v(0.0)), 0);
    assert_eq!(repeat_count(v(-3.0)), 0);
    assert_eq!(repeat_count(v(f32::NAN)), 0);
    assert_eq!(repeat_count(v(1.0e6)), 1_000_000);
    assert_eq!(repeat_count(v(f32::INFINITY)), usize::MAX);
}

#[test]
fn pauses_under_way() {
    assert_eq!(resume(3, 4), (Some(3), false));
    assert_eq!(resume(3, 3), (None, true));
    assert_eq!(resume(3, 1), (None, true));
}

#[test]
fn own_values_go_first() {
    assert_eq!(chosen(Some(v(1.0)), Some(v(2.0))).map(f), Some(1.0));
    assert_eq!(chosen(None, Some(v(2.0))).map(f), Some(2.0));
    assert_eq!(chosen(Some(v(1.0)), None).map(f), Some(1.0));
    assert_eq!(chosen(None, None).map(f), None);
}

#[test]
fn numerals_are_read_to_the_nearest() {
    for text in ["0", "1", "4.", ".5", "4.5", "0.1", "3.14159274", "16777217", "123456789.125",
        "0.000000000000000000000000000000000000000000001", "340282350000000000000000000000000000000",
        "999999999999999999999999999999999999999999", "00012.50"]
    {
        let expected: f32 = text.parse().unwrap();
        let parsed = Expression::parse(text).unwrap();
        let value = parsed.eval(&NoContext).unwrap();
        assert_eq!(value.to_bits(), expected.to_bits(), "{}", text);
    }
}

struct NoContext;

impl bulletml::data::ExpressionContext for NoContext {
    fn get(&self, _name: &str) -> Option<Value> {
        None
    }

    fn rand(&self) -> Value {
        v(0.25)
    }

    fn rank(&self) -> Value {
        v(0.75)
    }
}
