//! The entities of a script, as they are written down: named things may be
//! referred to by their labels.

use crate::data::expression::{evaluated, Expression, ExpressionContext, ExpressionError};
use crate::value::{
    difference_bits, minus, plus, product_bits, sum_bits, times, Value, QUARTER_TURN_BITS,
};
use std::rc::Rc;
use vstd::prelude::*;

verus! {

/// `Rc::clone`: another handle to the same value.
#[verifier::external_body]
pub(crate) fn share<T>(rc: &Rc<T>) -> (r: Rc<T>)
    ensures
        r == *rc,
{
    Rc::clone(rc)
}

/// An error related to entity searches.
#[derive(Debug)]
pub enum EntityError {
    /// An entity with the given name could not be found.
    CannotFind {
        /// The label for the requested entity.
        label: String,
    },
}

impl EntityError {
    /// The error for a label that names nothing.
    pub fn cannot_find(label: String) -> (e: Self)
        ensures
            e == (EntityError::CannotFind { label }),
    {
        EntityError::CannotFind { label }
    }
}

/// The orientation of the game.
#[derive(Debug, Clone, Copy, PartialEq, Eq, Structural)]
pub enum Orientation {
    /// For games with a toroidal topology.
    Toroidal,
    /// For games with a vertical orientation.
    Vertical,
    /// For games with a horizontal orientation.
    Horizontal,
}

impl Orientation {
    /// The angle `dir`, given against the game's "up", as an angle of the
    /// world.
    pub open spec fn spec_up(self, dir: Value) -> Value {
        if self == Orientation::Horizontal {
            Value { bits: difference_bits(dir.bits, QUARTER_TURN_BITS) }
        } else {
            dir
        }
    }

    /// Whether the game is laid out from side to side.
    pub fn is_horizontal(self) -> (r: bool)
        ensures
            r == (self == Orientation::Horizontal),
    {
        match self {
            Orientation::Horizontal => true,
            _ => false,
        }
    }

    /// The "up" direction for the given orientation: a quarter turn less in
    /// a horizontal game, the angle itself in the others.
    #[verifier::when_used_as_spec(spec_up)]
    pub fn up(self, dir: Value) -> (r: Value)
        ensures
            r == self.spec_up(dir),
    {
        match self {
            Orientation::Horizontal => minus(dir, Value::from_bits(QUARTER_TURN_BITS)),
            _ => dir,
        }
    }
}

impl Default for Orientation {
    fn default() -> (r: Self)
        ensures
            r == Orientation::Toroidal,
    {
        Orientation::Toroidal
    }
}

/// Ways a value may change.
#[derive(Debug, Clone, Copy, PartialEq, Eq, Structural)]
pub enum Change {
    /// Set the value.
    Absolute,
    /// Set the value relative to the current value.
    Relative,
    /// Set the value relative to the current value over time.
    Sequence,
}

impl Default for Change {
    fn default() -> (r: Self)
        ensures
            r == Change::Absolute,
    {
        Change::Absolute
    }
}

impl Change {
    /// The value aimed at: `value` itself, `value` added to the current one,
    /// or `value` for each of `duration` steps added to the current one.
    pub open spec fn spec_modify(self, value: Value, current: Value, duration: Value) -> Value {
        match self {
            Change::Absolute => value,
            Change::Relative => Value { bits: sum_bits(value.bits, current.bits) },
            Change::Sequence => Value {
                bits: sum_bits(product_bits(value.bits, duration.bits), current.bits),
            },
        }
    }

    /// Change a value.
    #[verifier::when_used_as_spec(spec_modify)]
    pub fn modify(self, value: Value, current: Value, duration: Value) -> (r: Value)
        ensures
            r == self.spec_modify(value, current, duration),
    {
        match self {
            Change::Absolute => value,
            Change::Relative => plus(value, current),
            Change::Sequence => plus(times(value, duration), current),
        }
    }
}

/// How to interpret a direction.
#[derive(Debug, Clone, Copy, PartialEq, Eq, Structural)]
pub enum DirectionKind {
    /// Aim towards the player.
    Aim,
    /// Go to an absolute location.
    Absolute,
    /// Go relative to the current heading.
    Relative,
    /// Increment by a given amount each frame.
    Sequence,
}

impl Default for DirectionKind {
    fn default() -> (r: Self)
        ensures
            r == DirectionKind::Aim,
    {
        DirectionKind::Aim
    }
}

/// An expression to compute a value for an action.
#[derive(Debug)]
pub struct Term {
    /// The value of the term.
    pub value: Expression,
}

impl Term {
    /// Evaluate the term in the given context.
    pub fn eval(&self, ctx: &dyn ExpressionContext) -> (r: Result<Value, ExpressionError>)
        ensures
            evaluated(self.value@, r),
            r matches Ok(v) ==> self.value@.may_give(v),
            self.value@.is_constant() ==> r == Ok::<Value, ExpressionError>(
                self.value@.constant(),
            ),
            !self.value@.has_names() ==> r is Ok,
            r matches Err(e) ==> (e matches ExpressionError::UndefinedVariable { name }
                && self.value@.mentions(name@)),
    {
        self.value.eval(ctx)
    }

    /// A copy of the term.
    pub fn clone(&self) -> (r: Self)
        ensures
            r == *self,
    {
        Term { value: self.value.clone() }
    }
}

/// A count of how many times to repeat an action.
#[derive(Debug)]
pub struct Times {
    /// How many times to repeat an action.
    pub value: Expression,
}

impl Times {
    /// A copy of the count.
    pub fn clone(&self) -> (r: Self)
        ensures
            r == *self,
    {
        Times { value: self.value.clone() }
    }
}

/// The direction of a bullet.
#[derive(Debug)]
pub struct Direction {
    /// What kind of direction is given.
    pub kind: DirectionKind,
    /// The angle against the given direction.
    pub degrees: Expression,
}

impl Direction {
    /// A copy of the direction.
    pub fn clone(&self) -> (r: Self)
        ensures
            r == *self,
    {
        Direction { kind: self.kind, degrees: self.degrees.clone() }
    }
}

/// A change in speed.
#[derive(Debug)]
pub struct Speed {
    /// How to change the speed.
    pub kind: Change,
    /// How much to change the speed by.
    pub change: Expression,
}

impl Speed {
    /// A copy of the speed.
    pub fn clone(&self) -> (r: Self)
        ensures
            r == *self,
    {
        Speed { kind: self.kind, change: self.change.clone() }
    }
}

/// Horizontal change description.
#[derive(Debug)]
pub struct Horizontal {
    /// How to change horizontally.
    pub kind: Change,
    /// How much to change by.
    pub change: Expression,
}

impl Horizontal {
    /// A copy of the description.
    pub fn clone(&self) -> (r: Self)
        ensures
            r == *self,
    {
        Horizontal { kind: self.kind, change: self.change.clone() }
    }
}

/// Vertical change description.
#[derive(Debug)]
pub struct Vertical {
    /// How to change vertically.
    pub kind: Change,
    /// How much to change by.
    pub change: Expression,
}

impl Vertical {
    /// A copy of the description.
    pub fn clone(&self) -> (r: Self)
        ensures
            r == *self,
    {
        Vertical { kind: self.kind, change: self.change.clone() }
    }
}

/// Cause acceleration of a bullet for a given amount of time.
#[derive(Debug)]
pub struct Accel {
    /// The amount to accelerate along the horizontal axis.
    pub horizontal: Option<Horizontal>,
    /// The amount to accelerate along the vertical axis.
    pub vertical: Option<Vertical>,
    /// The number of frames to accelerate.
    pub duration: Term,
}

impl Accel {
    /// A copy of the acceleration.
    pub fn clone(&self) -> (r: Self)
        ensures
            r == *self,
    {
        let horizontal = match &self.horizontal {
            Some(h) => Some(h.clone()),
            None => None,
        };
        let vertical = match &self.vertical {
            Some(v) => Some(v.clone()),
            None => None,
        };
        Accel { horizontal, vertical, duration: self.duration.clone() }
    }
}

/// A change in direction.
#[derive(Debug)]
pub struct ChangeDirection {
    /// The direction to change.
    pub direction: Direction,
    /// How long the change takes, in frames.
    pub value: Term,
}

impl ChangeDirection {
    /// A copy of the change.
    pub fn clone(&self) -> (r: Self)
        ensures
            r == *self,
    {
        ChangeDirection { direction: self.direction.clone(), value: self.value.clone() }
    }
}

/// A change in speed.
#[derive(Debug)]
pub struct ChangeSpeed {
    /// The speed to change.
    pub speed: Speed,
    /// How long the change takes, in frames.
    pub value: Term,
}

impl ChangeSpeed {
    /// A copy of the change.
    pub fn clone(&self) -> (r: Self)
        ensures
            r == *self,
    {
        ChangeSpeed { speed: self.speed.clone(), value: self.value.clone() }
    }
}

/// Pause execution for a given number of frames.
#[derive(Debug)]
pub struct Wait {
    /// The number of frames to wait for.
    pub frames: Expression,
}

impl Wait {
    /// A copy of the pause.
    pub fn clone(&self) -> (r: Self)
        ensures
            r == *self,
    {
        Wait { frames: self.frames.clone() }
    }
}

/// Cause the bullet to vanish.
#[derive(Debug, Clone, Copy, PartialEq, Eq, Structural)]
pub struct Vanish {}

/// A parameter to an entity reference.
#[derive(Debug)]
pub struct Param {
    /// The expression of the parameter.
    value: Expression,
}

impl Param {
    /// A parameter with the given expression.
    pub fn new(value: Expression) -> (r: Self)
        ensures
            r.value() == value,
    {
        Param { value }
    }

    /// The expression of the parameter.
    pub closed spec fn value(self) -> Expression {
        self.value
    }
}

/// A reference to another entity.
#[derive(Debug)]
pub struct Reference {
    /// The name of the referred-to entity.
    label: String,
    /// Parameters to forward to the entity.
    params: Vec<Param>,
}

impl Reference {
    /// A reference to the entity called `label`.
    pub fn new(label: String, params: Vec<Param>) -> (r: Self)
        ensures
            r.name() == label@,
            r.arguments() == params@,
    {
        Reference { label, params }
    }

    /// The name of the referred-to entity.
    pub closed spec fn name(self) -> Seq<char> {
        self.label@
    }

    /// The parameters to forward to the entity.
    pub closed spec fn arguments(self) -> Seq<Param> {
        self.params@
    }

    /// The name of the referred-to entity.
    pub fn label(&self) -> (label: &String)
        ensures
            label@ == self.name(),
    {
        &self.label
    }
}

/// A reference to a given entity.
#[derive(Debug)]
pub enum EntityRef<T> {
    /// A named entity.
    Ref(Reference),
    /// An actual entity.
    Real(Rc<T>),
}

/// A trait to look up entities.
pub trait EntityLookup<T> {
    /// Find an entity by name.
    fn find(&self, name: &str) -> Option<Rc<T>>;
}

impl Reference {
    /// What the reference gives, once the entities have been searched for
    /// its label: the entity found, or the error that tells the label.
    pub fn resolve<T>(&self, found: Option<Rc<T>>) -> (r: Result<Rc<T>, EntityError>)
        ensures
            match found {
                Some(rc) => r == Ok::<Rc<T>, EntityError>(rc),
                None => r matches Err(EntityError::CannotFind { label }) && label@
                    == self.name(),
            },
    {
        match found {
            Some(rc) => Ok(rc),
            None => Err(EntityError::cannot_find(self.label.clone())),
        }
    }
}

impl<T> EntityRef<T> {
    /// Get a reference to the entity: the entity itself where it is written
    /// in place, else the one that `lookup` finds under the label. Where it
    /// finds none, the error tells the label.
    pub fn entity(&self, lookup: &dyn EntityLookup<T>) -> (r: Result<Rc<T>, EntityError>)
        ensures
            *self matches EntityRef::Real(rc) ==> r == Ok::<Rc<T>, EntityError>(rc),
            r matches Err(EntityError::CannotFind { label }) ==> (*self matches EntityRef::Ref(
                refer,
            ) && label@ == refer.name()),
    {
        match self {
            EntityRef::Ref(refer) => refer.resolve(lookup.find(refer.label.as_str())),
            EntityRef::Real(rc) => Ok(share(rc)),
        }
    }
}

/// Cause a set of actions to be repeated a number of times.
#[derive(Debug)]
pub struct Repeat {
    /// How many times to repeat the actions.
    pub times: Times,
    /// The actions to repeat.
    pub actions: Vec<EntityRef<Action>>,
}

/// Entities which may appear within an action.
#[derive(Debug)]
pub enum Step {
    /// Cause a set of actions to be repeated a number of times.
    Repeat(Repeat),
    /// Cause a set bullets to be fired.
    Fire(EntityRef<Fire>),
    /// A change of speed.
    ChangeSpeed(ChangeSpeed),
    /// A change of direction.
    ChangeDirection(ChangeDirection),
    /// An acceleration.
    Accel(Accel),
    /// Pause for a number of frames.
    Wait(Wait),
    /// Destroy the bullet.
    Vanish(Vanish),
    /// Chain into another action.
    Action(EntityRef<Action>),
}

/// An action that may be performed for a bullet.
#[derive(Debug)]
pub struct Action {
    /// The name of the action.
    pub label: Option<String>,
    /// The steps which make up the action.
    pub steps: Vec<Step>,
}

/// A bullet.
#[derive(Debug)]
pub struct Bullet {
    /// The label for the bullet.
    pub label: Option<String>,
    /// The direction to fire the bullet.
    pub direction: Option<Direction>,
    /// The initial speed of the bullet.
    pub speed: Option<Speed>,
    /// The set of actions to perform on the bullet.
    pub actions: Vec<EntityRef<Action>>,
}

/// Create a new bullet.
#[derive(Debug)]
pub struct Fire {
    /// The name of the fire action.
    pub label: Option<String>,
    /// The direction to fire in.
    pub direction: Option<Direction>,
    /// The initial speed of the bullet.
    pub speed: Option<Speed>,
    /// The bullet to fire.
    pub bullet: EntityRef<Bullet>,
}

/// Elements allowed at the top-level of the structure.
#[derive(Debug)]
pub enum Element {
    /// A bullet entity.
    Bullet(Rc<Bullet>),
    /// An action entity.
    Action(Rc<Action>),
    /// A fire entity.
    Fire(Rc<Fire>),
}

/// The top-level BulletML entity.
#[derive(Debug)]
pub struct BulletML {
    /// The orientation of the game.
    pub orientation: Orientation,
    /// The elements which make up the entity.
    pub elements: Vec<Element>,
}

} // verus!
