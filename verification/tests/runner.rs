use std::cell::RefCell;
use std::rc::Rc;

use bulletml::data;
use bulletml::data::{
    Accel, Change, ChangeDirection, ChangeSpeed, Direction, DirectionKind, Element, EntityRef,
    Expression, ExpressionContext, ExpressionError, Horizontal, Orientation, Speed, Step, Term,
    Times, Value, Vanish, Vertical, Wait,
};
use bulletml::run::runner::RunError;
use bulletml::run::{BulletManager, Runner};

fn v(x: f32) -> Value {
    Value::from_bits(x.to_bits())
}

fn f(x: Value) -> f32 {
    f32::from_bits(x.to_bits())
}

fn expr(text: &str) -> Expression {
    Expression::parse(text).unwrap()
}

#[derive(Debug, Clone, PartialEq)]
enum Call {
    NewSimple(f32, f32),
    New(f32, f32),
    Vanish,
    ChangeDirection(f32),
    ChangeSpeed(f32),
    AccelX(f32),
    AccelY(f32),
}

#[derive(Debug)]
struct World {
    turn: u32,
    direction: f32,
    aim: f32,
    speed: f32,
    speed_x: f32,
    speed_y: f32,
    default_speed: f32,
    rank: f32,
    draws: Vec<f32>,
    calls: Vec<Call>,
}

impl World {
    fn new() -> Rc<RefCell<World>> {
        Rc::new(RefCell::new(World {
            turn: 0,
            direction: 0.0,
            aim: 42.0,
            speed: 1.0,
            speed_x: 0.0,
            speed_y: 0.0,
            default_speed: 3.0,
            rank: 0.5,
            draws: Vec::new(),
            calls: Vec::new(),
        }))
    }
}

struct Host {
    world: Rc<RefCell<World>>,
}

impl ExpressionContext for Host {
    fn get(&self, name: &str) -> Option<Value> {
        if name == "seven" {
            Some(v(7.0))
        } else {
            None
        }
    }

    fn rand(&self) -> Value {
        let mut world = self.world.borrow_mut();
        if world.draws.is_empty() {
            v(0.0)
        } else {
            v(world.draws.remove(0))
        }
    }

    fn rank(&self) -> Value {
        v(self.world.borrow().rank)
    }
}

impl BulletManager for Host {
    fn new_simple(&mut self, direction: Value, speed: Value) {
        self.world
            .borrow_mut()
            .calls
            .push(Call::NewSimple(f(direction), f(speed)));
    }

    fn new(&mut self, direction: Value, speed: Value) {
        self.world
            .borrow_mut()
            .calls
            .push(Call::New(f(direction), f(speed)));
    }

    fn turn(&self) -> u32 {
        self.world.borrow().turn
    }

    fn direction(&self) -> Value {
        v(self.world.borrow().direction)
    }

    fn aim_direction(&self) -> Value {
        v(self.world.borrow().aim)
    }

    fn speed(&self) -> Value {
        v(self.world.borrow().speed)
    }

    fn speed_x(&self) -> Value {
        v(self.world.borrow().speed_x)
    }

    fn speed_y(&self) -> Value {
        v(self.world.borrow().speed_y)
    }

    fn default_speed(&self) -> Value {
        v(self.world.borrow().default_speed)
    }

    fn vanish(&mut self) {
        self.world.borrow_mut().calls.push(Call::Vanish);
    }

    fn change_direction(&mut self, degrees: Value) {
        self.world
            .borrow_mut()
            .calls
            .push(Call::ChangeDirection(f(degrees)));
    }

    fn change_speed(&mut self, speed: Value) {
        self.world
            .borrow_mut()
            .calls
            .push(Call::ChangeSpeed(f(speed)));
    }

    fn accel_x(&mut self, amount: Value) {
        self.world.borrow_mut().calls.push(Call::AccelX(f(amount)));
    }

    fn accel_y(&mut self, amount: Value) {
        self.world.borrow_mut().calls.push(Call::AccelY(f(amount)));
    }
}

fn plain_bullet() -> Rc<data::Bullet> {
    Rc::new(data::Bullet {
        label: None,
        direction: None,
        speed: None,
        actions: Vec::new(),
    })
}

fn fire_step(direction: Option<Direction>, speed: Option<Speed>, bullet: Rc<data::Bullet>) -> Step {
    Step::Fire(EntityRef::Real(Rc::new(data::Fire {
        label: None,
        direction,
        speed,
        bullet: EntityRef::Real(bullet),
    })))
}

fn top(steps: Vec<Step>) -> Element {
    Element::Action(Rc::new(data::Action {
        label: Some("top".into()),
        steps,
    }))
}

fn runner(
    orientation: Orientation,
    steps: Vec<Step>,
) -> (Runner<Host>, Rc<RefCell<World>>) {
    let world = World::new();
    let script = data::BulletML {
        orientation,
        elements: vec![top(steps)],
    };
    let host = Host {
        world: world.clone(),
    };
    (Runner::new(host, script).unwrap(), world)
}

fn take(world: &Rc<RefCell<World>>) -> Vec<Call> {
    std::mem::take(&mut world.borrow_mut().calls)
}

#[test]
fn fire_once_with_defaults() {
    let (mut runner, world) = runner(
        Orientation::Toroidal,
        vec![fire_step(None, None, plain_bullet())],
    );
    assert!(runner.update().unwrap());
    assert_eq!(take(&world), vec![Call::NewSimple(42.0, 3.0)]);
    world.borrow_mut().turn = 1;
    assert!(!runner.update().unwrap());
    assert_eq!(take(&world), Vec::new());
    assert!(!runner.update().unwrap());
}

#[test]
fn a_bullet_with_actions_is_not_simple() {
    let busy = Rc::new(data::Bullet {
        label: None,
        direction: None,
        speed: None,
        actions: vec![EntityRef::Real(Rc::new(data::Action {
            label: None,
            steps: vec![Step::Vanish(Vanish {})],
        }))],
    });
    let (mut runner, world) = runner(Orientation::Toroidal, vec![fire_step(None, None, busy)]);
    assert!(runner.update().unwrap());
    assert_eq!(take(&world), vec![Call::New(42.0, 3.0)]);
}

#[test]
fn the_bullet_overrides_the_fire() {
    let shot = Rc::new(data::Bullet {
        label: None,
        direction: Some(Direction {
            kind: DirectionKind::Absolute,
            degrees: expr("30"),
        }),
        speed: None,
        actions: Vec::new(),
    });
    let step = fire_step(
        Some(Direction {
            kind: DirectionKind::Absolute,
            degrees: expr("60"),
        }),
        Some(Speed {
            kind: Change::Absolute,
            change: expr("9"),
        }),
        shot,
    );
    let (mut runner, world) = runner(Orientation::Toroidal, vec![step]);
    assert!(runner.update().unwrap());
    assert_eq!(take(&world), vec![Call::NewSimple(30.0, 9.0)]);
}

#[test]
fn wait_then_vanish() {
    let (mut runner, world) = runner(
        Orientation::Toroidal,
        vec![
            Step::Wait(Wait { frames: expr("3") }),
            Step::Vanish(Vanish {}),
        ],
    );
    assert!(runner.update().unwrap());
    assert_eq!(take(&world), Vec::new());
    let mut seen = Vec::new();
    for turn in 1..=4 {
        world.borrow_mut().turn = turn;
        assert!(runner.update().unwrap());
        seen.push(take(&world));
    }
    assert_eq!(seen[3], vec![Call::Vanish]);
    assert_eq!(seen[0], vec![Call::Vanish]);
}

#[test]
fn a_pause_whose_turn_has_passed_goes_on() {
    let (mut runner, world) = runner(
        Orientation::Toroidal,
        vec![
            Step::Wait(Wait { frames: expr("3") }),
            Step::Vanish(Vanish {}),
        ],
    );
    assert!(runner.update().unwrap());
    for turn in [4, 5, 6] {
        world.borrow_mut().turn = turn;
        assert!(runner.update().unwrap());
        assert_eq!(take(&world), Vec::new());
    }
}

#[test]
fn repeat_three_times_with_fire() {
    let body = Rc::new(data::Action {
        label: None,
        steps: vec![fire_step(
            Some(Direction {
                kind: DirectionKind::Absolute,
                degrees: expr("0"),
            }),
            None,
            plain_bullet(),
        )],
    });
    let repeat = Step::Repeat(data::Repeat {
        times: Times { value: expr("3") },
        actions: vec![EntityRef::Real(body)],
    });
    let (mut runner, world) = runner(Orientation::Toroidal, vec![repeat]);
    assert!(runner.update().unwrap());
    assert_eq!(
        take(&world),
        vec![
            Call::NewSimple(0.0, 3.0),
            Call::NewSimple(0.0, 3.0),
            Call::NewSimple(0.0, 3.0)
        ]
    );
    assert!(!runner.update().unwrap());
}

#[test]
fn repeat_counts_are_cut_off() {
    for (times, expected) in [("2.9", 2), ("0.9", 0), ("0-4", 0), ("0/0", 0), ("1", 1)] {
        let body = Rc::new(data::Action {
            label: None,
            steps: vec![fire_step(None, None, plain_bullet())],
        });
        let repeat = Step::Repeat(data::Repeat {
            times: Times { value: expr(times) },
            actions: vec![EntityRef::Real(body)],
        });
        let (mut runner, world) = runner(Orientation::Toroidal, vec![repeat]);
        assert!(runner.update().unwrap());
        assert_eq!(take(&world).len(), expected, "{}", times);
    }
}

#[test]
fn steps_after_a_repeat_run_after_its_body() {
    let body = Rc::new(data::Action {
        label: None,
        steps: vec![fire_step(None, None, plain_bullet())],
    });
    let repeat = Step::Repeat(data::Repeat {
        times: Times { value: expr("2") },
        actions: vec![EntityRef::Real(body)],
    });
    let (mut runner, world) = runner(
        Orientation::Toroidal,
        vec![repeat, Step::Vanish(Vanish {})],
    );
    assert!(runner.update().unwrap());
    assert_eq!(
        take(&world),
        vec![
            Call::NewSimple(42.0, 3.0),
            Call::NewSimple(42.0, 3.0),
            Call::Vanish
        ]
    );
}

#[test]
fn change_speed_in_sequence() {
    let step = Step::ChangeSpeed(ChangeSpeed {
        speed: Speed {
            kind: Change::Sequence,
            change: expr("0.5"),
        },
        value: Term { value: expr("10") },
    });
    let (mut runner, world) = runner(Orientation::Toroidal, vec![step]);
    assert!(runner.update().unwrap());
    assert_eq!(take(&world), Vec::new());
    let mut expected = 1.5f32;
    for turn in 1..10 {
        world.borrow_mut().turn = turn;
        assert!(runner.update().unwrap());
        assert_eq!(take(&world), vec![Call::ChangeSpeed(expected)]);
        expected += 0.5;
    }
    world.borrow_mut().turn = 10;
    assert!(runner.update().unwrap());
    assert_eq!(take(&world), vec![Call::ChangeSpeed(6.0)]);
    world.borrow_mut().turn = 11;
    assert!(!runner.update().unwrap());
    assert_eq!(take(&world), Vec::new());
}

#[test]
fn change_speed_to_a_value() {
    let step = Step::ChangeSpeed(ChangeSpeed {
        speed: Speed {
            kind: Change::Relative,
            change: expr("4"),
        },
        value: Term { value: expr("1.5") },
    });
    let (mut runner, world) = runner(Orientation::Toroidal, vec![step]);
    assert!(runner.update().unwrap());
    world.borrow_mut().turn = 1;
    assert!(runner.update().unwrap());
    assert_eq!(take(&world), vec![Call::ChangeSpeed(3.0)]);
    world.borrow_mut().turn = 2;
    assert!(runner.update().unwrap());
    assert_eq!(take(&world), vec![Call::ChangeSpeed(5.0)]);
}

#[test]
fn change_direction_over_time() {
    let step = Step::ChangeDirection(ChangeDirection {
        direction: Direction {
            kind: DirectionKind::Absolute,
            degrees: expr("90"),
        },
        value: Term { value: expr("2") },
    });
    let (mut runner, world) = runner(Orientation::Horizontal, vec![step]);
    world.borrow_mut().direction = 10.0;
    assert!(runner.update().unwrap());
    world.borrow_mut().turn = 1;
    assert!(runner.update().unwrap());
    assert_eq!(take(&world), vec![Call::ChangeDirection(5.0)]);
    world.borrow_mut().turn = 2;
    assert!(runner.update().unwrap());
    assert_eq!(take(&world), vec![Call::ChangeDirection(0.0)]);
}

#[test]
fn change_direction_in_sequence() {
    let step = Step::ChangeDirection(ChangeDirection {
        direction: Direction {
            kind: DirectionKind::Sequence,
            degrees: expr("3"),
        },
        value: Term { value: expr("4") },
    });
    let (mut runner, world) = runner(Orientation::Toroidal, vec![step]);
    world.borrow_mut().direction = 10.0;
    assert!(runner.update().unwrap());
    world.borrow_mut().turn = 4;
    assert!(runner.update().unwrap());
    assert_eq!(take(&world), vec![Call::ChangeDirection(22.0)]);
}

#[test]
fn horizontal_orientation_swaps_the_axes() {
    let step = Step::Accel(Accel {
        horizontal: Some(Horizontal {
            kind: Change::Absolute,
            change: expr("1"),
        }),
        vertical: None,
        duration: Term { value: expr("1") },
    });
    let (mut runner, world) = runner(Orientation::Horizontal, vec![step]);
    assert!(runner.update().unwrap());
    assert_eq!(take(&world), Vec::new());
    world.borrow_mut().turn = 1;
    assert!(runner.update().unwrap());
    assert_eq!(take(&world), vec![Call::AccelY(1.0)]);
    world.borrow_mut().turn = 2;
    assert!(!runner.update().unwrap());
}

#[test]
fn other_orientations_keep_the_axes() {
    for orientation in [Orientation::Vertical, Orientation::Toroidal] {
        let step = Step::Accel(Accel {
            horizontal: Some(Horizontal {
                kind: Change::Absolute,
                change: expr("1"),
            }),
            vertical: Some(Vertical {
                kind: Change::Relative,
                change: expr("2"),
            }),
            duration: Term { value: expr("1") },
        });
        let (mut runner, world) = runner(orientation, vec![step]);
        world.borrow_mut().speed_y = 5.0;
        assert!(runner.update().unwrap());
        world.borrow_mut().turn = 1;
        assert!(runner.update().unwrap());
        assert_eq!(take(&world), vec![Call::AccelX(1.0), Call::AccelY(7.0)]);
    }
}

#[test]
fn sequence_direction_seeds_from_aim() {
    let sequence = || Direction {
        kind: DirectionKind::Sequence,
        degrees: expr("10"),
    };
    let (mut runner, world) = runner(
        Orientation::Toroidal,
        vec![
            fire_step(Some(sequence()), None, plain_bullet()),
            fire_step(Some(sequence()), None, plain_bullet()),
        ],
    );
    assert!(runner.update().unwrap());
    assert_eq!(
        take(&world),
        vec![Call::NewSimple(42.0, 3.0), Call::NewSimple(52.0, 3.0)]
    );
}

#[test]
fn sequence_speed_seeds_from_one() {
    let sequence = || Speed {
        kind: Change::Sequence,
        change: expr("2"),
    };
    let (mut runner, world) = runner(
        Orientation::Toroidal,
        vec![
            fire_step(None, Some(sequence()), plain_bullet()),
            fire_step(None, Some(sequence()), plain_bullet()),
        ],
    );
    assert!(runner.update().unwrap());
    assert_eq!(
        take(&world),
        vec![Call::NewSimple(42.0, 1.0), Call::NewSimple(42.0, 3.0)]
    );
}

#[test]
fn variables_come_from_the_host() {
    let step = fire_step(
        Some(Direction {
            kind: DirectionKind::Absolute,
            degrees: expr("$seven * 2 + $rank"),
        }),
        Some(Speed {
            kind: Change::Absolute,
            change: expr("$rand + $rand"),
        }),
        plain_bullet(),
    );
    let (mut runner, world) = runner(Orientation::Toroidal, vec![step]);
    world.borrow_mut().draws = vec![0.25, 0.5];
    assert!(runner.update().unwrap());
    assert_eq!(take(&world), vec![Call::NewSimple(14.5, 0.75)]);
}

#[test]
fn an_unknown_variable_stops_the_turn() {
    let step = fire_step(
        Some(Direction {
            kind: DirectionKind::Absolute,
            degrees: expr("1 + $speed"),
        }),
        None,
        plain_bullet(),
    );
    let (mut runner, world) = runner(Orientation::Toroidal, vec![step]);
    match runner.update() {
        Err(RunError::Expression {
            source: ExpressionError::UndefinedVariable { name },
        }) => assert_eq!(name, "speed"),
        other => panic!("expected an undefined variable, got {:?}", other),
    }
    assert_eq!(take(&world), Vec::new());
}

#[test]
fn a_span_past_the_last_turn_is_an_error() {
    let step = Step::Wait(Wait { frames: expr("10") });
    let (mut runner, world) = runner(Orientation::Toroidal, vec![step]);
    world.borrow_mut().turn = u32::MAX - 5;
    assert!(matches!(runner.update(), Err(RunError::TurnOutOfRange)));
}

#[test]
fn expressions_evaluate_in_a_context() {
    let host = Host {
        world: World::new(),
    };
    host.world.borrow_mut().draws = vec![0.5];
    assert_eq!(f(expr("1+2*2").eval(&host).unwrap()), 5.0);
    assert_eq!(f(expr("$rank * 4").eval(&host).unwrap()), 2.0);
    assert_eq!(f(expr("$rand").eval(&host).unwrap()), 0.5);
    assert_eq!(f(expr("-$seven").eval(&host).unwrap()), -7.0);
    assert_eq!(f(expr("-1+2").eval(&host).unwrap()), -3.0);
    assert_eq!(f(expr("7 % ( 4 )\t").eval(&host).unwrap()), 3.0);
    match expr("$a + $b").eval(&host) {
        Err(ExpressionError::UndefinedVariable { name }) => assert_eq!(name, "a"),
        other => panic!("expected an undefined variable, got {:?}", other),
    }
}

#[test]
fn parse_failures_carry_the_place() {
    for (text, offset) in [
        ("(", 1),
        ("+", 0),
        ("4+", 2),
        ("", 0),
        (" 4", 0),
        ("4 4", 2),
        ("(4", 2),
        ("(4 + 5", 6),
        ("4.5.6", 3),
        ("$", 0),
        ("$1", 0),
        (".", 0),
        ("2 * $", 4),
        ("1 + é", 4),
        ("1 ++ 2", 3),
        ("-", 1),
        ("4)", 1),
    ] {
        match Expression::parse(text) {
            Err(ExpressionError::ParseFailure { source }) => {
                assert_eq!(source.location.offset, offset, "{:?}", text);
                assert_eq!(source.location.column, offset + 1, "{:?}", text);
                assert_eq!(source.location.line, 1, "{:?}", text);
            }
            other => panic!("expected a parse failure for {:?}, got {:?}", text, other),
        }
    }
}

#[test]
fn parsed_expressions_are_folded() {
    let host = Host {
        world: World::new(),
    };
    for (text, expected) in [
        ("1+2*2", 5.0f32),
        ("2*2+1", 5.0),
        ("(2+1)*2", 6.0),
        ("-(-1)", 1.0),
        ("2*(1-2*4)", -14.0),
        ("10-2-3", 5.0),
        ("100/10/5", 2.0),
        ("7%4%2", 1.0),
        ("2 + 3 * 4 - 6 / 2", 11.0),
        ("-2*3", -6.0),
    ] {
        assert_eq!(f(expr(text).eval(&host).unwrap()), expected, "{}", text);
    }
}

#[test]
fn a_failed_step_is_run_again() {
    let steps = vec![
        fire_step(None, None, plain_bullet()),
        fire_step(
            None,
            Some(Speed {
                kind: Change::Absolute,
                change: expr("$missing"),
            }),
            plain_bullet(),
        ),
    ];
    let (mut runner, world) = runner(Orientation::Toroidal, steps);
    for round in 0..2 {
        match runner.update() {
            Err(RunError::Expression {
                source: ExpressionError::UndefinedVariable { name },
            }) => assert_eq!(name, "missing"),
            other => panic!("expected an undefined variable, got {:?}", other),
        }
        let expected = if round == 0 {
            vec![Call::NewSimple(42.0, 3.0)]
        } else {
            Vec::new()
        };
        assert_eq!(take(&world), expected);
    }
}

#[test]
fn a_fire_evaluates_its_own_values_first() {
    let shot = Rc::new(data::Bullet {
        label: None,
        direction: Some(Direction {
            kind: DirectionKind::Absolute,
            degrees: expr("$rand"),
        }),
        speed: Some(Speed {
            kind: Change::Absolute,
            change: expr("$rand"),
        }),
        actions: Vec::new(),
    });
    let step = fire_step(
        Some(Direction {
            kind: DirectionKind::Absolute,
            degrees: expr("$rand"),
        }),
        Some(Speed {
            kind: Change::Absolute,
            change: expr("$rand"),
        }),
        shot,
    );
    let (mut runner, world) = runner(Orientation::Toroidal, vec![step]);
    world.borrow_mut().draws = vec![1.0, 2.0, 3.0, 4.0];
    assert!(runner.update().unwrap());
    assert_eq!(take(&world), vec![Call::NewSimple(3.0, 4.0)]);
}

#[test]
fn a_finished_run_only_runs_its_changes() {
    let step = Step::ChangeSpeed(ChangeSpeed {
        speed: Speed {
            kind: Change::Absolute,
            change: expr("4"),
        },
        value: Term { value: expr("2") },
    });
    let (mut runner, world) = runner(Orientation::Toroidal, vec![step]);
    assert!(runner.update().unwrap());
    assert_eq!(take(&world), Vec::new());
    world.borrow_mut().turn = 1;
    assert!(runner.update().unwrap());
    assert_eq!(take(&world), vec![Call::ChangeSpeed(2.5)]);
    world.borrow_mut().turn = 2;
    assert!(runner.update().unwrap());
    assert_eq!(take(&world), vec![Call::ChangeSpeed(4.0)]);
    world.borrow_mut().turn = 3;
    assert!(!runner.update().unwrap());
    assert_eq!(take(&world), Vec::new());
}

#[test]
fn the_left_side_is_worked_out_first() {
    let host = Host {
        world: World::new(),
    };
    host.world.borrow_mut().draws = vec![3.0, 1.0, 8.0, 2.0];
    assert_eq!(f(expr("$rand - $rand").eval(&host).unwrap()), 2.0);
    assert_eq!(f(expr("$rand / ($seven - 5) + $rand").eval(&host).unwrap()), 6.0);
    match expr("$rand + $b + $a").eval(&host) {
        Err(ExpressionError::UndefinedVariable { name }) => assert_eq!(name, "b"),
        other => panic!("expected an undefined variable, got {:?}", other),
    }
    assert_eq!(f(expr("1 / 0").eval(&host).unwrap()), f32::INFINITY);
    assert!(f(expr("0 / 0 + $rank").eval(&host).unwrap()).is_nan());
}
