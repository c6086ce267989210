use std::rc::Rc;

use bulletml::data;
use bulletml::data::{
    Direction, DirectionKind, Element, EntityError, EntityLookup, EntityRef, Expression,
    Orientation, Reference, Step, Term, Vanish, Wait,
};
use bulletml::run::compile::{
    ActionError, BulletError, BulletML, BulletMLError, FireError, NodeStep, RepeatError,
    StepError,
};
use bulletml::run::util;
use bulletml::run::util::{try_insert, Table};

fn expr(text: &str) -> Expression {
    Expression::parse(text).unwrap()
}

fn action(label: Option<&str>, steps: Vec<Step>) -> Rc<data::Action> {
    Rc::new(data::Action {
        label: label.map(String::from),
        steps,
    })
}

fn bullet(label: Option<&str>, actions: Vec<EntityRef<data::Action>>) -> Rc<data::Bullet> {
    Rc::new(data::Bullet {
        label: label.map(String::from),
        direction: None,
        speed: None,
        actions,
    })
}

fn fire(label: Option<&str>, bullet: EntityRef<data::Bullet>) -> Rc<data::Fire> {
    Rc::new(data::Fire {
        label: label.map(String::from),
        direction: None,
        speed: None,
        bullet,
    })
}

fn named<T>(label: &str) -> EntityRef<T> {
    EntityRef::Ref(Reference::new(label.into(), Vec::new()))
}

fn script(elements: Vec<Element>) -> data::BulletML {
    data::BulletML {
        orientation: Orientation::Vertical,
        elements,
    }
}

fn wait(frames: &str) -> Step {
    Step::Wait(Wait {
        frames: expr(frames),
    })
}

fn kinds(compiled: &mut BulletML) -> Vec<&'static str> {
    let mut seen = Vec::new();
    loop {
        let kind = match compiled.steps.next() {
            None => break,
            Some(NodeStep::Root) => "root",
            Some(NodeStep::Repeat(_)) => "repeat",
            Some(NodeStep::Fire(_)) => "fire",
            Some(NodeStep::ChangeSpeed(_)) => "changeSpeed",
            Some(NodeStep::ChangeDirection(_)) => "changeDirection",
            Some(NodeStep::Accel(_)) => "accel",
            Some(NodeStep::Wait(_)) => "wait",
            Some(NodeStep::Vanish(_)) => "vanish",
        };
        seen.push(kind);
    }
    seen
}

fn duplicate_of(source: &util::EntityError) -> (String, String) {
    match source {
        util::EntityError::Duplicate { name, kind } => (kind.to_string(), name.clone()),
    }
}

fn missing(source: &EntityError) -> String {
    match source {
        EntityError::CannotFind { label } => label.clone(),
    }
}

#[test]
fn empty_script_is_a_lone_root() {
    let mut compiled = BulletML::new(script(Vec::new())).unwrap();
    assert_eq!(compiled.orientation, Orientation::Vertical);
    assert_eq!(kinds(&mut compiled), vec!["root"]);
}

#[test]
fn only_top_actions_become_runnable() {
    let elements = vec![
        Element::Action(action(Some("helper"), vec![wait("1")])),
        Element::Action(action(Some("top"), vec![Step::Vanish(Vanish {})])),
        Element::Action(action(None, vec![wait("2"), wait("3")])),
        Element::Action(action(Some("top2"), vec![wait("4"), Step::Vanish(Vanish {})])),
        Element::Action(action(Some("to"), vec![wait("5")])),
        Element::Action(action(Some("atop"), vec![wait("6")])),
        Element::Bullet(bullet(Some("top"), Vec::new())),
    ];
    let mut compiled = BulletML::new(script(elements)).unwrap();
    assert_eq!(
        kinds(&mut compiled),
        vec!["root", "root", "vanish", "root", "wait", "vanish"]
    );
}

#[test]
fn nested_actions_become_subtrees() {
    let inner = action(None, vec![wait("1"), Step::Vanish(Vanish {})]);
    let elements = vec![Element::Action(action(
        Some("top"),
        vec![wait("0"), Step::Action(EntityRef::Real(inner)), wait("2")],
    ))];
    let mut compiled = BulletML::new(script(elements)).unwrap();
    assert_eq!(
        kinds(&mut compiled),
        vec!["root", "root", "wait", "root", "wait", "vanish", "wait"]
    );
}

#[test]
fn references_are_answered_from_what_was_lowered() {
    let elements = vec![
        Element::Bullet(bullet(Some("shot"), Vec::new())),
        Element::Fire(fire(Some("burst"), named("shot"))),
        Element::Action(action(Some("helper"), vec![Step::Fire(named("burst")), wait("1")])),
        Element::Action(action(
            Some("topmost"),
            vec![Step::Action(named("helper")), Step::Action(named("helper"))],
        )),
    ];
    let mut compiled = BulletML::new(script(elements)).unwrap();
    assert_eq!(
        kinds(&mut compiled),
        vec!["root", "root", "root", "fire", "wait", "root", "fire", "wait"]
    );
}

#[test]
fn duplicate_action_labels_fail() {
    let elements = vec![
        Element::Action(action(Some("a"), Vec::new())),
        Element::Action(action(Some("b"), Vec::new())),
        Element::Action(action(Some("a"), Vec::new())),
    ];
    match BulletML::new(script(elements)) {
        Err(BulletMLError::Action {
            source: ActionError::EntityUse { source },
        }) => assert_eq!(duplicate_of(&source), ("action".to_string(), "a".to_string())),
        other => panic!("expected a duplicate action, got {:?}", other.map(|_| ())),
    }
}

#[test]
fn duplicate_top_labels_fail() {
    let elements = vec![
        Element::Action(action(Some("top"), Vec::new())),
        Element::Action(action(Some("top"), Vec::new())),
    ];
    match BulletML::new(script(elements)) {
        Err(BulletMLError::Action {
            source: ActionError::EntityUse { source },
        }) => assert_eq!(duplicate_of(&source), ("action".to_string(), "top".to_string())),
        other => panic!("expected a duplicate action, got {:?}", other.map(|_| ())),
    }
}

#[test]
fn duplicate_bullet_labels_fail() {
    let elements = vec![
        Element::Bullet(bullet(Some("b"), Vec::new())),
        Element::Bullet(bullet(Some("b"), Vec::new())),
    ];
    match BulletML::new(script(elements)) {
        Err(BulletMLError::Bullet {
            source: BulletError::EntityUse { source },
        }) => assert_eq!(duplicate_of(&source), ("bullet".to_string(), "b".to_string())),
        other => panic!("expected a duplicate bullet, got {:?}", other.map(|_| ())),
    }
}

#[test]
fn duplicate_fire_labels_fail() {
    let elements = vec![
        Element::Fire(fire(Some("f"), EntityRef::Real(bullet(None, Vec::new())))),
        Element::Action(action(
            Some("top"),
            vec![Step::Fire(EntityRef::Real(fire(
                Some("f"),
                EntityRef::Real(bullet(None, Vec::new())),
            )))],
        )),
    ];
    match BulletML::new(script(elements)) {
        Err(BulletMLError::Action {
            source: ActionError::Step { source },
        }) => match *source {
            StepError::Fire {
                source: FireError::EntityUse { source },
            } => assert_eq!(duplicate_of(&source), ("fire".to_string(), "f".to_string())),
            other => panic!("expected a duplicate fire, got {:?}", other),
        },
        other => panic!("expected a duplicate fire, got {:?}", other.map(|_| ())),
    }
}

#[test]
fn a_failing_inner_action_fails_the_step() {
    let elements = vec![
        Element::Action(action(Some("a"), Vec::new())),
        Element::Action(action(
            Some("top"),
            vec![Step::Action(EntityRef::Real(action(Some("a"), Vec::new())))],
        )),
    ];
    match BulletML::new(script(elements)) {
        Err(BulletMLError::Action {
            source: ActionError::Step { source },
        }) => match *source {
            StepError::Action {
                source: ActionError::EntityUse { source },
            } => assert_eq!(duplicate_of(&source), ("action".to_string(), "a".to_string())),
            other => panic!("expected a duplicate action, got {:?}", other),
        },
        other => panic!("expected a duplicate action, got {:?}", other.map(|_| ())),
    }
}

#[test]
fn a_failing_bullet_fails_the_fire() {
    let elements = vec![
        Element::Bullet(bullet(Some("b"), Vec::new())),
        Element::Fire(fire(None, EntityRef::Real(bullet(Some("b"), Vec::new())))),
    ];
    match BulletML::new(script(elements)) {
        Err(BulletMLError::Fire {
            source:
                FireError::Bullet {
                    source: BulletError::EntityUse { source },
                },
        }) => assert_eq!(duplicate_of(&source), ("bullet".to_string(), "b".to_string())),
        other => panic!("expected a duplicate bullet, got {:?}", other.map(|_| ())),
    }
}

#[test]
fn an_entity_that_is_shared_is_lowered_once_for_each_place() {
    let shared = action(None, vec![wait("1")]);
    let elements = vec![Element::Action(action(
        Some("top"),
        vec![
            Step::Action(EntityRef::Real(shared.clone())),
            Step::Action(EntityRef::Real(shared)),
        ],
    ))];
    let mut compiled = BulletML::new(script(elements)).unwrap();
    assert_eq!(
        kinds(&mut compiled),
        vec!["root", "root", "root", "wait", "root", "wait"]
    );
}

#[test]
fn copies_of_steps_are_equal_to_what_they_copy() {
    let original = data::ChangeSpeed {
        speed: data::Speed {
            kind: data::Change::Sequence,
            change: expr("$rank*2"),
        },
        value: Term { value: expr("1+1") },
    };
    let copy = original.clone();
    assert_eq!(copy.speed.kind, data::Change::Sequence);
    let host = Nothing;
    assert_eq!(
        copy.value.eval(&host).unwrap().to_bits(),
        original.value.eval(&host).unwrap().to_bits()
    );
    assert_eq!(
        copy.speed.change.eval(&host).unwrap().to_bits(),
        original.speed.change.eval(&host).unwrap().to_bits()
    );
    let accel = data::Accel {
        horizontal: Some(data::Horizontal {
            kind: data::Change::Relative,
            change: expr("3"),
        }),
        vertical: None,
        duration: Term { value: expr("$x") },
    };
    let copy = accel.clone();
    assert!(copy.vertical.is_none());
    assert_eq!(copy.horizontal.unwrap().kind, data::Change::Relative);
    assert!(copy.duration.eval(&host).is_err());
    let cd = data::ChangeDirection {
        direction: Direction {
            kind: DirectionKind::Relative,
            degrees: expr("-(4)"),
        },
        value: Term { value: expr("2") },
    };
    let copy = cd.clone();
    assert_eq!(copy.direction.kind, DirectionKind::Relative);
    assert_eq!(
        f32::from_bits(copy.direction.degrees.eval(&host).unwrap().to_bits()),
        -4.0
    );
}

#[test]
fn the_same_label_may_name_one_of_each_kind() {
    let elements = vec![
        Element::Bullet(bullet(Some("x"), Vec::new())),
        Element::Fire(fire(Some("x"), named("x"))),
        Element::Action(action(Some("x"), vec![Step::Fire(named("x"))])),
        Element::Action(action(Some("top"), vec![Step::Action(named("x"))])),
    ];
    let mut compiled = BulletML::new(script(elements)).unwrap();
    assert_eq!(kinds(&mut compiled), vec!["root", "root", "root", "fire"]);
}

#[test]
fn unresolved_action_reference_fails() {
    let elements = vec![Element::Action(action(
        Some("top"),
        vec![Step::Action(named("nowhere"))],
    ))];
    match BulletML::new(script(elements)) {
        Err(BulletMLError::Action {
            source: ActionError::Step { source },
        }) => match *source {
            StepError::EntityLookup { source } => assert_eq!(missing(&source), "nowhere"),
            other => panic!("expected a failed lookup, got {:?}", other),
        },
        other => panic!("expected a failed lookup, got {:?}", other.map(|_| ())),
    }
}

#[test]
fn unresolved_fire_reference_fails() {
    let elements = vec![Element::Action(action(
        Some("helper"),
        vec![Step::Fire(named("nowhere"))],
    ))];
    match BulletML::new(script(elements)) {
        Err(BulletMLError::Action {
            source: ActionError::Step { source },
        }) => match *source {
            StepError::EntityLookup { source } => assert_eq!(missing(&source), "nowhere"),
            other => panic!("expected a failed lookup, got {:?}", other),
        },
        other => panic!("expected a failed lookup, got {:?}", other.map(|_| ())),
    }
}

#[test]
fn unresolved_bullet_reference_fails() {
    let elements = vec![Element::Fire(fire(None, named("nowhere")))];
    match BulletML::new(script(elements)) {
        Err(BulletMLError::Fire {
            source: FireError::EntityLookup { source },
        }) => assert_eq!(missing(&source), "nowhere"),
        other => panic!("expected a failed lookup, got {:?}", other.map(|_| ())),
    }
}

#[test]
fn unresolved_reference_in_a_bullet_fails() {
    let elements = vec![Element::Bullet(bullet(None, vec![named("nowhere")]))];
    match BulletML::new(script(elements)) {
        Err(BulletMLError::Bullet {
            source:
                BulletError::Action {
                    source: ActionError::EntityLookup { source },
                },
        }) => assert_eq!(missing(&source), "nowhere"),
        other => panic!("expected a failed lookup, got {:?}", other.map(|_| ())),
    }
}

#[test]
fn unresolved_reference_in_a_repeat_fails() {
    let repeat = Step::Repeat(data::Repeat {
        times: data::Times { value: expr("2") },
        actions: vec![named("nowhere")],
    });
    let elements = vec![Element::Action(action(Some("top"), vec![repeat]))];
    match BulletML::new(script(elements)) {
        Err(BulletMLError::Action {
            source: ActionError::Step { source },
        }) => match *source {
            StepError::Repeat {
                source:
                    RepeatError::Action {
                        source: ActionError::EntityLookup { source },
                    },
            } => assert_eq!(missing(&source), "nowhere"),
            other => panic!("expected a failed lookup, got {:?}", other),
        },
        other => panic!("expected a failed lookup, got {:?}", other.map(|_| ())),
    }
}

#[test]
fn a_reference_to_what_comes_later_fails() {
    let elements = vec![
        Element::Action(action(Some("first"), vec![Step::Action(named("second"))])),
        Element::Action(action(Some("second"), Vec::new())),
    ];
    assert!(BulletML::new(script(elements)).is_err());
}

#[test]
fn a_top_action_may_refer_to_what_stands_after_it() {
    let elements = vec![
        Element::Action(action(Some("top"), vec![Step::Action(named("later"))])),
        Element::Action(action(Some("later"), vec![wait("1")])),
    ];
    let mut compiled = BulletML::new(script(elements)).unwrap();
    assert_eq!(kinds(&mut compiled), vec!["root", "root", "root", "wait"]);
}

#[test]
fn an_action_cannot_refer_to_itself() {
    let elements = vec![Element::Action(action(
        Some("top"),
        vec![Step::Action(named("top"))],
    ))];
    assert!(BulletML::new(script(elements)).is_err());
}

#[test]
fn the_first_failure_is_the_error() {
    let elements = vec![
        Element::Action(action(Some("a"), Vec::new())),
        Element::Action(action(None, vec![Step::Action(named("missing"))])),
        Element::Action(action(Some("a"), Vec::new())),
    ];
    match BulletML::new(script(elements)) {
        Err(BulletMLError::Action {
            source: ActionError::Step { source },
        }) => match *source {
            StepError::EntityLookup { source } => assert_eq!(missing(&source), "missing"),
            other => panic!("expected a failed lookup, got {:?}", other),
        },
        other => panic!("expected a failed lookup, got {:?}", other.map(|_| ())),
    }
}

#[test]
fn repeat_makes_new_steps() {
    let body = action(None, vec![wait("1"), Step::Vanish(Vanish {})]);
    let other = action(None, Vec::new());
    let repeat = Step::Repeat(data::Repeat {
        times: data::Times { value: expr("2") },
        actions: vec![EntityRef::Real(body), EntityRef::Real(other)],
    });
    let elements = vec![Element::Action(action(Some("top"), vec![repeat]))];
    let mut compiled = BulletML::new(script(elements)).unwrap();
    assert!(matches!(compiled.steps.next(), Some(NodeStep::Root)));
    assert!(matches!(compiled.steps.next(), Some(NodeStep::Root)));
    let steps = match compiled.steps.next() {
        Some(NodeStep::Repeat(repeat)) => {
            assert_eq!(repeat.new_steps(0).len(), 0);
            assert_eq!(repeat.new_steps(1).len(), 2);
            repeat.new_steps(3)
        }
        other => panic!("expected a repeat, got {:?}", other),
    };
    assert_eq!(steps.len(), 6);
    let lens: Vec<usize> = steps.iter().map(|node| node.len()).collect();
    assert_eq!(lens, vec![2, 0, 2, 0, 2, 0]);
    for step in steps {
        assert!(matches!(step.as_ref(), NodeStep::Root));
    }
}

#[test]
fn lowered_fire_keeps_direction_and_speed() {
    let shot = Rc::new(data::Bullet {
        label: None,
        direction: Some(Direction {
            kind: DirectionKind::Relative,
            degrees: expr("5"),
        }),
        speed: None,
        actions: vec![EntityRef::Real(action(None, Vec::new()))],
    });
    let burst = Rc::new(data::Fire {
        label: None,
        direction: Some(Direction {
            kind: DirectionKind::Absolute,
            degrees: expr("90"),
        }),
        speed: Some(data::Speed {
            kind: data::Change::Relative,
            change: expr("2"),
        }),
        bullet: EntityRef::Real(shot),
    });
    let elements = vec![Element::Action(action(
        Some("top"),
        vec![Step::Fire(EntityRef::Real(burst))],
    ))];
    let mut compiled = BulletML::new(script(elements)).unwrap();
    compiled.steps.next();
    compiled.steps.next();
    match compiled.steps.next() {
        Some(NodeStep::Fire(fire)) => {
            assert_eq!(fire.direction.as_ref().unwrap().kind, DirectionKind::Absolute);
            assert_eq!(fire.speed.as_ref().unwrap().kind, data::Change::Relative);
            assert_eq!(
                fire.bullet.direction.as_ref().unwrap().kind,
                DirectionKind::Relative
            );
            assert!(fire.bullet.speed.is_none());
            assert_eq!(fire.bullet.actions.len(), 1);
        }
        other => panic!("expected a fire, got {:?}", other),
    }
}

#[test]
fn tables_take_each_name_once() {
    let mut table: Table<u32> = Table::new();
    assert!(!table.contains_key("a"));
    assert_eq!(table.get("a"), None);
    assert!(try_insert("a".to_string(), &mut table, || 1, "thing").is_ok());
    assert!(try_insert("b".to_string(), &mut table, || 2, "thing").is_ok());
    assert_eq!(table.get("a"), Some(&1));
    assert_eq!(table.get("b"), Some(&2));
    assert_eq!(table.get("c"), None);
    let mut asked = false;
    let third = try_insert(
        "a".to_string(),
        &mut table,
        || {
            asked = true;
            3
        },
        "thing",
    );
    assert!(!asked);
    match third {
        Err(util::EntityError::Duplicate { name, kind }) => {
            assert_eq!(name, "a");
            assert_eq!(kind, "thing");
        }
        Ok(()) => panic!("the name was taken"),
    }
    assert_eq!(table.get("a"), Some(&1));
    assert!(table.contains_key("b"));
}

struct OneAction {
    name: String,
    entity: Rc<data::Action>,
}

impl EntityLookup<data::Action> for OneAction {
    fn find(&self, name: &str) -> Option<Rc<data::Action>> {
        if name == self.name {
            Some(self.entity.clone())
        } else {
            None
        }
    }
}

#[test]
fn entity_references_resolve() {
    let lookup = OneAction {
        name: "known".into(),
        entity: action(Some("known"), vec![wait("1")]),
    };
    let real = EntityRef::Real(action(None, Vec::new()));
    assert_eq!(real.entity(&lookup).unwrap().steps.len(), 0);
    let known: EntityRef<data::Action> = named("known");
    assert_eq!(known.entity(&lookup).unwrap().steps.len(), 1);
    let unknown: EntityRef<data::Action> = named("unknown");
    match unknown.entity(&lookup) {
        Err(EntityError::CannotFind { label }) => assert_eq!(label, "unknown"),
        Ok(_) => panic!("nothing goes by that name"),
    }
}

#[test]
fn terms_evaluate() {
    let term = Term { value: expr("2*3") };
    let value = term.eval(&Nothing).unwrap();
    assert_eq!(f32::from_bits(value.to_bits()), 6.0);
}

struct Nothing;

impl data::ExpressionContext for Nothing {
    fn get(&self, _name: &str) -> Option<data::Value> {
        None
    }

    fn rand(&self) -> data::Value {
        data::Value::from_bits(0)
    }

    fn rank(&self) -> data::Value {
        data::Value::from_bits(0)
    }
}
