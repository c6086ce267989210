//! The run of one bullet through its tree of steps, a turn at a time.

use crate::data;
use crate::data::expression::ast::{lemma_gives_something, Formula};
use crate::data::expression::{evaluated, undefined_in};
use crate::data::{
    Accel, Change, ChangeDirection, ChangeSpeed, Direction, DirectionKind, ExpressionContext,
    ExpressionError, Horizontal, Orientation, Speed, Vertical, Wait,
};
use crate::run::compile::{
    action_trees, lower_script, program, programs, repeated, script_tree, BulletML,
    BulletMLError, Fire, NodeStep, Repeat,
};
use crate::run::effort::{lemma_step_brings_down, no_more, walk_effort};
use crate::run::manager::BulletManager;
use crate::run::sure::{lemma_sure_turn, sure_walk};
use crate::run::zipper::{trees_of, Node, Tree, ZipperIter};
use crate::value::{
    count_bits, difference_bits, divided_by, from_count, minus, modulo, plus, product_bits,
    quotient_bits, remainder_bits, sum_bits, times, truncated, whole_part, Value,
    FULL_TURN_BITS, ONE_BITS,
};
use vstd::prelude::*;

verus! {

/// The change of a linear function from one turn to the next.
pub open spec fn slope(min: u32, max: u32, start: Value, end: Value) -> Value {
    Value {
        bits: quotient_bits(
            difference_bits(end.bits, start.bits),
            count_bits((max - min) as u32),
        ),
    }
}

/// A value that goes from `start` to `end` in equal steps over the turns
/// from `min` up to, and without, `max`.
#[derive(Debug, Clone, Copy)]
pub struct Function {
    pub min: u32,
    pub max: u32,
    pub start: Value,
    pub end: Value,
    pub step: Value,
}

impl Function {
    /// The function over the turns from `min` to `max`.
    pub fn new(min: u32, max: u32, start: Value, end: Value) -> (f: Self)
        requires
            min <= max,
        ensures
            f == (Function { min, max, start, end, step: slope(min, max, start, end) }),
    {
        Function { min, max, start, end, step: divided_by(minus(end, start), from_count(max - min)) }
    }

    /// The value at the turn `x`: the start and one step for each turn
    /// since the first.
    pub open spec fn spec_call(&self, x: u32) -> Value {
        Value {
            bits: sum_bits(
                self.start.bits,
                product_bits(self.step.bits, count_bits((x - self.min) as u32)),
            ),
        }
    }

    /// The value at the turn `x`.
    #[verifier::when_used_as_spec(spec_call)]
    pub fn call(&self, x: u32) -> (v: Value)
        requires
            self.min <= x,
        ensures
            v == self.spec_call(x),
    {
        plus(self.start, times(self.step, from_count(x - self.min)))
    }

    /// Whether the turn `x` is one of the turns of the function.
    pub open spec fn spec_is_in_domain(&self, x: u32) -> bool {
        self.min <= x < self.max
    }

    /// Whether the turn `x` is one of the turns of the function.
    #[verifier::when_used_as_spec(spec_is_in_domain)]
    pub fn is_in_domain(&self, x: u32) -> (inside: bool)
        ensures
            inside == self.spec_is_in_domain(x),
    {
        self.min <= x && x < self.max
    }

    /// The value at and after the last turn.
    pub fn last(&self) -> (v: Value)
        ensures
            v == self.end,
    {
        self.end
    }
}

/// What a function gives at `turn`, and whether it goes on: its value while
/// the turn is one of its turns, its last value after them.
pub open spec fn spec_update_function(f: Function, turn: u32) -> (bool, Value) {
    if f.spec_is_in_domain(turn) {
        (true, f.spec_call(turn))
    } else {
        (false, f.end)
    }
}

/// What a function gives at `turn`, and whether it goes on.
pub fn update_function(f: &Function, turn: u32) -> (r: (bool, Value))
    ensures
        r == spec_update_function(*f, turn),
{
    if f.is_in_domain(turn) {
        (true, f.call(turn))
    } else {
        (false, f.last())
    }
}

/// Runs the function of a slot for the turn, if there is one: the value goes
/// to the host, and a function that is past its turns leaves the slot.
pub fn advance(slot: &mut Option<Function>, turn: u32) -> (value: Option<Value>)
    ensures
        match *old(slot) {
            Some(f) => value == Some(spec_update_function(f, turn).1) && *final(slot) == (
            if spec_update_function(f, turn).0 {
                Some(f)
            } else {
                None
            }),
            None => value is None && *final(slot) is None,
        },
{
    match *slot {
        Some(f) => {
            let (cont, v) = update_function(&f, turn);
            if !cont {
                *slot = None;
            }
            Some(v)
        },
        None => None,
    }
}

/// What a run asks of the host to do.
#[derive(Debug, Clone, Copy)]
pub enum Command {
    /// Create a new, simple, bullet with a direction and a speed.
    NewSimple(Value, Value),
    /// Create a new bullet with a direction and a speed.
    New(Value, Value),
    /// Destroy the bullet.
    Vanish,
    /// Change the direction of the bullet.
    ChangeDirection(Value),
    /// Change the speed of the bullet.
    ChangeSpeed(Value),
    /// Accelerate the bullet along the `x` axis.
    AccelX(Value),
    /// Accelerate the bullet along the `y` axis.
    AccelY(Value),
}

/// The function of a slot after `turn`: it stays while the turn is one of
/// its turns.
pub open spec fn slot_after(slot: Option<Function>, turn: u32) -> Option<Function> {
    match slot {
        Some(f) => if f.spec_is_in_domain(turn) {
            Some(f)
        } else {
            None
        },
        None => None,
    }
}

/// What the function of a slot has the host do at `turn`.
pub open spec fn slot_command(
    slot: Option<Function>,
    turn: u32,
    make: spec_fn(Value) -> Command,
) -> Seq<Command> {
    match slot {
        Some(f) => seq![make(spec_update_function(f, turn).1)],
        None => Seq::empty(),
    }
}

/// What the changes over time have the host do at `turn`: the change of
/// direction first, then the one of speed, then the accelerations along `x`
/// and along `y`.
pub open spec fn spec_due(
    direction: Option<Function>,
    speed: Option<Function>,
    accel_x: Option<Function>,
    accel_y: Option<Function>,
    turn: u32,
) -> Seq<Command> {
    slot_command(direction, turn, |v: Value| Command::ChangeDirection(v)) + slot_command(
        speed,
        turn,
        |v: Value| Command::ChangeSpeed(v),
    ) + slot_command(accel_x, turn, |v: Value| Command::AccelX(v)) + slot_command(
        accel_y,
        turn,
        |v: Value| Command::AccelY(v),
    )
}

/// Runs the changes over time that are under way for the turn: what they
/// have the host do, in order. A change that is past its turns gives its
/// last value and leaves its slot.
pub fn due(
    direction: &mut Option<Function>,
    speed: &mut Option<Function>,
    accel_x: &mut Option<Function>,
    accel_y: &mut Option<Function>,
    turn: u32,
) -> (commands: Vec<Command>)
    ensures
        commands@ == spec_due(*old(direction), *old(speed), *old(accel_x), *old(accel_y), turn),
        *final(direction) == slot_after(*old(direction), turn),
        *final(speed) == slot_after(*old(speed), turn),
        *final(accel_x) == slot_after(*old(accel_x), turn),
        *final(accel_y) == slot_after(*old(accel_y), turn),
        (commands@.len() > 0) == (*old(direction) is Some || *old(speed) is Some || *old(accel_x)
            is Some || *old(accel_y) is Some),
{
    let mut commands: Vec<Command> = Vec::new();
    match advance(direction, turn) {
        Some(v) => {
            commands.push(Command::ChangeDirection(v));
        },
        None => {},
    }
    let ghost first = commands@;
    match advance(speed, turn) {
        Some(v) => {
            commands.push(Command::ChangeSpeed(v));
        },
        None => {},
    }
    let ghost second = commands@;
    match advance(accel_x, turn) {
        Some(v) => {
            commands.push(Command::AccelX(v));
        },
        None => {},
    }
    let ghost third = commands@;
    match advance(accel_y, turn) {
        Some(v) => {
            commands.push(Command::AccelY(v));
        },
        None => {},
    }
    proof {
        let a = slot_command(*old(direction), turn, |v: Value| Command::ChangeDirection(v));
        let b = slot_command(*old(speed), turn, |v: Value| Command::ChangeSpeed(v));
        let c = slot_command(*old(accel_x), turn, |v: Value| Command::AccelX(v));
        let d = slot_command(*old(accel_y), turn, |v: Value| Command::AccelY(v));
        assert(first =~= a);
        assert(second =~= a + b);
        assert(third =~= a + b + c);
        assert(commands@ =~= a + b + c + d);
    }
    commands
}

/// What a fire has the host do: a simple bullet for a bullet without
/// actions of its own.
pub open spec fn spec_shot(simple: bool, direction: Value, speed: Value) -> Command {
    if simple {
        Command::NewSimple(direction, speed)
    } else {
        Command::New(direction, speed)
    }
}

/// What a fire has the host do.
pub fn shot(simple: bool, direction: Value, speed: Value) -> (command: Command)
    ensures
        command == spec_shot(simple, direction, speed),
{
    if simple {
        Command::NewSimple(direction, speed)
    } else {
        Command::New(direction, speed)
    }
}

/// The last turn of a span of `duration` turns that begins at `turn`: the
/// duration counts by whole turns, any part of a turn as a whole one.
pub open spec fn spec_span_end(turn: u32, duration: Value) -> Option<u32> {
    if turn + duration.spec_turns() > u32::MAX {
        None
    } else {
        Some((turn + duration.spec_turns()) as u32)
    }
}

/// The turn at which a span that begins at `turn` is over, unless it lies
/// past the last turn that can be counted.
pub fn span_end(turn: u32, duration: Value) -> (end: Option<u32>)
    ensures
        end == spec_span_end(turn, duration),
        end matches Some(last) ==> turn <= last,
{
    let n = duration.turns();
    if n > u32::MAX - turn {
        None
    } else {
        Some(turn + n)
    }
}

/// The function of a change that begins at `turn`, takes `duration` turns
/// and goes from `start` to `end`; none where the change would be over past
/// the last turn that can be counted.
pub open spec fn spec_change_over(turn: u32, duration: Value, start: Value, end: Value) -> Option<
    Function,
> {
    match spec_span_end(turn, duration) {
        Some(last) => Some(
            Function { min: turn, max: last, start, end, step: slope(turn, last, start, end) },
        ),
        None => None,
    }
}

/// The function of a change that begins at `turn`, takes `duration` turns
/// and goes from `start` to `end`.
pub fn change_over(turn: u32, duration: Value, start: Value, end: Value) -> (f: Option<Function>)
    ensures
        f == spec_change_over(turn, duration, start, end),
{
    match span_end(turn, duration) {
        Some(last) => Some(Function::new(turn, last, start, end)),
        None => None,
    }
}

/// An angle within one turn of zero: what is left of it after whole turns.
pub open spec fn within_turn(v: Value) -> Value {
    Value { bits: remainder_bits(v.bits, FULL_TURN_BITS) }
}

/// The direction that an angle of some kind stands for, within one turn.
///
/// `aim` is the direction from the bullet to the player and `heading` the
/// direction in which the bullet moves; `prev_dir` is the direction that was
/// computed last, if any was.
pub open spec fn spec_target_direction(
    orientation: Orientation,
    kind: DirectionKind,
    degrees: Value,
    prev_dir: Option<Value>,
    aim: Value,
    heading: Value,
) -> Value {
    within_turn(
        match kind {
            DirectionKind::Aim => Value { bits: sum_bits(degrees.bits, aim.bits) },
            DirectionKind::Absolute => orientation.spec_up(degrees),
            DirectionKind::Relative => Value { bits: sum_bits(degrees.bits, heading.bits) },
            DirectionKind::Sequence => match prev_dir {
                Some(prev) => Value { bits: sum_bits(degrees.bits, prev.bits) },
                None => aim,
            },
        },
    )
}

/// The direction that an angle of some kind stands for, within one turn.
pub fn target_direction(
    orientation: Orientation,
    kind: DirectionKind,
    degrees: Value,
    prev_dir: Option<Value>,
    aim: Value,
    heading: Value,
) -> (dir: Value)
    ensures
        dir == spec_target_direction(orientation, kind, degrees, prev_dir, aim, heading),
{
    let dir = match kind {
        DirectionKind::Aim => plus(degrees, aim),
        DirectionKind::Absolute => orientation.up(degrees),
        DirectionKind::Relative => plus(degrees, heading),
        DirectionKind::Sequence => match prev_dir {
            Some(prev) => plus(degrees, prev),
            None => aim,
        },
    };
    modulo(dir, Value::from_bits(FULL_TURN_BITS))
}

/// The speed that a value of some kind stands for.
///
/// `current` is the speed of the bullet; `prev_speed` is the speed that was
/// computed last, if any was.
pub open spec fn spec_target_speed(
    kind: Change,
    value: Value,
    prev_speed: Option<Value>,
    current: Value,
) -> Value {
    match kind {
        Change::Absolute => value,
        Change::Relative => Value { bits: sum_bits(value.bits, current.bits) },
        Change::Sequence => match prev_speed {
            Some(prev) => Value { bits: sum_bits(value.bits, prev.bits) },
            None => Value { bits: ONE_BITS },
        },
    }
}

/// The speed that a value of some kind stands for.
pub fn target_speed(kind: Change, value: Value, prev_speed: Option<Value>, current: Value) -> (speed:
    Value)
    ensures
        speed == spec_target_speed(kind, value, prev_speed, current),
{
    match kind {
        Change::Absolute => value,
        Change::Relative => plus(value, current),
        Change::Sequence => match prev_speed {
            Some(prev) => plus(value, prev),
            None => Value::from_bits(ONE_BITS),
        },
    }
}

/// Where a change over time ends that adds `change` in each of `duration`
/// turns to what is there now.
pub open spec fn spec_in_sequence(duration: Value, change: Value, current: Value) -> Value {
    Value { bits: sum_bits(product_bits(duration.bits, change.bits), current.bits) }
}

/// Where a change over time ends that adds `change` in each of `duration`
/// turns to what is there now.
pub fn in_sequence(duration: Value, change: Value, current: Value) -> (end: Value)
    ensures
        end == spec_in_sequence(duration, change, current),
{
    plus(times(duration, change), current)
}

/// How often a repetition runs: not at all for a count below one or a NaN,
/// else the whole part of the count.
pub open spec fn spec_repeat_count(times: Value) -> usize {
    if times.spec_is_nan() || times.spec_is_below_one() {
        0
    } else if whole_part(times.bits) > usize::MAX {
        usize::MAX
    } else {
        whole_part(times.bits) as usize
    }
}

/// How often a repetition runs.
pub fn repeat_count(times: Value) -> (count: usize)
    ensures
        count == spec_repeat_count(times),
{
    if times.is_nan() || times.is_below_one() {
        0
    } else {
        let whole = truncated(times);
        if whole > usize::MAX as u64 {
            usize::MAX
        } else {
            whole as usize
        }
    }
}

/// What a pause that is under way does at `turn`, and the marker it leaves:
/// it goes on pausing while its turn lies before `turn`, and is over
/// otherwise.
pub open spec fn spec_resume(next: u32, turn: u32) -> (Option<u32>, bool) {
    if next < turn {
        (Some(next), false)
    } else {
        (None, true)
    }
}

/// What a pause that is under way does at `turn`: the marker it leaves and
/// whether the run moves on.
pub fn resume(next: u32, turn: u32) -> (r: (Option<u32>, bool))
    ensures
        r == spec_resume(next, turn),
{
    if next < turn {
        (Some(next), false)
    } else {
        (None, true)
    }
}

/// The value that counts: the bullet's own, else the one of the fire.
pub open spec fn spec_chosen(own: Option<Value>, outer: Option<Value>) -> Option<Value> {
    match own {
        Some(v) => Some(v),
        None => outer,
    }
}

/// The value that counts: the bullet's own, else the one of the fire.
pub fn chosen(own: Option<Value>, outer: Option<Value>) -> (r: Option<Value>)
    ensures
        r == spec_chosen(own, outer),
{
    match own {
        Some(v) => Some(v),
        None => outer,
    }
}

/// What the expressions of a change of speed and the host gave when the
/// change was begun: the duration and the change as they were evaluated, the
/// speed of the bullet when it was asked for first and when it was asked for
/// again, and the turn.
pub struct SpeedReadings {
    pub duration: Value,
    pub change: Value,
    pub current: Value,
    pub again: Value,
    pub turn: u32,
}

/// The function that a change of speed installs: from the speed of the
/// bullet to the speed aimed at, over the duration. A duration below zero
/// counts as none. A change in sequence adds its amount in each turn; any
/// other aims at the speed that its kind stands for.
pub open spec fn speed_change(kind: Change, prev_speed: Option<Value>, read: SpeedReadings) -> Option<
    Function,
> {
    let duration = read.duration.spec_or_zero();
    spec_change_over(
        read.turn,
        duration,
        read.current,
        if kind == Change::Sequence {
            spec_in_sequence(duration, read.change, read.current)
        } else {
            spec_target_speed(kind, read.change, prev_speed, read.again)
        },
    )
}

/// Whether a change of speed was begun as the readings say: the slot went
/// from `before` to `after`, and `done` tells whether the change was
/// installed.
pub open spec fn speed_begun(
    cs: ChangeSpeed,
    prev_speed: Option<Value>,
    read: SpeedReadings,
    before: Option<Function>,
    after: Option<Function>,
    done: bool,
) -> bool {
    &&& cs.value.value@.may_give(read.duration)
    &&& cs.speed.change@.may_give(read.change)
    &&& match speed_change(cs.speed.kind, prev_speed, read) {
        Some(f) => done && after == Some(f),
        None => !done && after == before,
    }
}

/// What the expressions of a change of direction and the host gave when the
/// change was begun: the duration and the angle as they were evaluated, the
/// heading of the bullet when the change began, the direction to the player
/// and the heading as the kind of the angle asked for them, and the turn.
pub struct DirectionReadings {
    pub duration: Value,
    pub degrees: Value,
    pub current: Value,
    pub aim: Value,
    pub heading: Value,
    pub turn: u32,
}

/// The function that a change of direction installs: from the heading of
/// the bullet to the direction aimed at, over the duration. A duration below
/// zero counts as none. A change in sequence adds its angle in each turn;
/// any other aims at the direction that its kind stands for.
pub open spec fn direction_change(
    orientation: Orientation,
    kind: DirectionKind,
    prev_dir: Option<Value>,
    read: DirectionReadings,
) -> Option<Function> {
    let duration = read.duration.spec_or_zero();
    spec_change_over(
        read.turn,
        duration,
        read.current,
        if kind == DirectionKind::Sequence {
            spec_in_sequence(duration, read.degrees, read.current)
        } else {
            spec_target_direction(
                orientation,
                kind,
                read.degrees,
                prev_dir,
                read.aim,
                read.heading,
            )
        },
    )
}

/// Whether a change of direction was begun as the readings say: the slot
/// went from `before` to `after`, and `done` tells whether the change was
/// installed.
pub open spec fn direction_begun(
    cd: ChangeDirection,
    orientation: Orientation,
    prev_dir: Option<Value>,
    read: DirectionReadings,
    before: Option<Function>,
    after: Option<Function>,
    done: bool,
) -> bool {
    &&& cd.value.value@.may_give(read.duration)
    &&& cd.direction.degrees@.may_give(read.degrees)
    &&& match direction_change(orientation, cd.direction.kind, prev_dir, read) {
        Some(f) => done && after == Some(f),
        None => !done && after == before,
    }
}

/// What the expressions of an acceleration and the host gave when the
/// acceleration was begun: the duration as it was evaluated, the turn, the
/// speed of the bullet along `x` and along `y`, and the amounts for the two
/// as they were evaluated.
pub struct AccelReadings {
    pub duration: Value,
    pub turn: u32,
    pub speed_x: Value,
    pub speed_y: Value,
    pub change_x: Value,
    pub change_y: Value,
}

/// What an acceleration says of the speed along `x`: how the amount is
/// meant, and the amount. In a horizontal game that is the vertical axis of
/// the script, in any other the horizontal one.
pub open spec fn x_axis(orientation: Orientation, accel: Accel) -> Option<(Change, Formula)> {
    if orientation == Orientation::Horizontal {
        match accel.vertical {
            Some(axis) => Some((axis.kind, axis.change@)),
            None => None,
        }
    } else {
        match accel.horizontal {
            Some(axis) => Some((axis.kind, axis.change@)),
            None => None,
        }
    }
}

/// What an acceleration says of the speed along `y`: in a horizontal game
/// the horizontal axis of the script, in any other the vertical one.
pub open spec fn y_axis(orientation: Orientation, accel: Accel) -> Option<(Change, Formula)> {
    if orientation == Orientation::Horizontal {
        match accel.horizontal {
            Some(axis) => Some((axis.kind, axis.change@)),
            None => None,
        }
    } else {
        match accel.vertical {
            Some(axis) => Some((axis.kind, axis.change@)),
            None => None,
        }
    }
}

/// The function that an acceleration installs for one axis: from the speed
/// along the axis to the speed that the amount stands for, over the
/// duration; none for an axis of which the acceleration says nothing.
pub open spec fn axis_change(
    axis: Option<(Change, Formula)>,
    turn: u32,
    duration: Value,
    start: Value,
    change: Value,
) -> Option<Function> {
    match axis {
        Some((kind, _)) => spec_change_over(
            turn,
            duration,
            start,
            kind.spec_modify(change, start, duration),
        ),
        None => None,
    }
}

/// Whether the error of an expression is one that the formula can give: the
/// formula refers to variables by name, and the error tells of one of them.
pub open spec fn failed_in(e: ExpressionError, formula: Formula) -> bool {
    formula.has_names() && undefined_in(e, formula)
}

/// Whether the error of an expression is one that an expression of an
/// acceleration can give: its duration, or the amount for `x` or for `y`.
pub open spec fn failed_in_accel(e: ExpressionError, accel: Accel, orientation: Orientation) -> bool {
    ||| failed_in(e, accel.duration.value@)
    ||| x_axis(orientation, accel) matches Some((_, amount)) && failed_in(e, amount)
    ||| y_axis(orientation, accel) matches Some((_, amount)) && failed_in(e, amount)
}

/// Whether the readings are what the expressions of an acceleration can
/// give.
pub open spec fn accel_read(accel: Accel, orientation: Orientation, read: AccelReadings) -> bool {
    &&& accel.duration.value@.may_give(read.duration)
    &&& x_axis(orientation, accel) matches Some((_, amount)) ==> amount.may_give(read.change_x)
    &&& y_axis(orientation, accel) matches Some((_, amount)) ==> amount.may_give(read.change_y)
}

/// Whether the slot for `x` holds what an acceleration installs in it by the
/// readings.
pub open spec fn accel_x_begun(
    accel: Accel,
    orientation: Orientation,
    read: AccelReadings,
    after: Option<Function>,
) -> bool {
    &&& accel_read(accel, orientation, read)
    &&& after == axis_change(
        x_axis(orientation, accel),
        read.turn,
        read.duration.spec_or_zero(),
        read.speed_x,
        read.change_x,
    )
}

/// Whether an acceleration was begun as the readings say: the slots for `x`
/// and `y` went from `before` to `after`, and `done` tells whether the
/// acceleration was installed. Where it says something of an axis and would
/// be over past the last turn that can be counted, it is not installed: the
/// slot for `y` stays, and the slot for `x` stays where the acceleration
/// says something of `x`, and is empty where it does not.
pub open spec fn accel_begun(
    accel: Accel,
    orientation: Orientation,
    read: AccelReadings,
    before: (Option<Function>, Option<Function>),
    after: (Option<Function>, Option<Function>),
    done: bool,
) -> bool {
    let duration = read.duration.spec_or_zero();
    let x = x_axis(orientation, accel);
    let y = y_axis(orientation, accel);
    &&& accel_read(accel, orientation, read)
    &&& if (x is Some || y is Some) && spec_span_end(read.turn, duration) is None {
        !done && after.1 == before.1 && after.0 == (if x is Some {
            before.0
        } else {
            None
        })
    } else {
        done && after.0 == axis_change(x, read.turn, duration, read.speed_x, read.change_x)
            && after.1 == axis_change(y, read.turn, duration, read.speed_y, read.change_y)
    }
}

/// What a run keeps in mind from turn to turn, beside its place in the tree
/// of steps: the orientation of the game, the direction and the speed of the
/// bullet that was fired last, the changes over time that are under way, and
/// the turn that a pause has marked.
pub struct Mind {
    pub orientation: Orientation,
    pub prev_dir: Option<Value>,
    pub prev_speed: Option<Value>,
    pub change_dir: Option<Function>,
    pub change_speed: Option<Function>,
    pub accel_x: Option<Function>,
    pub accel_y: Option<Function>,
    pub next: Option<u32>,
}

impl Mind {
    /// What a run has in mind before its first turn: nothing but the
    /// orientation of the game.
    pub open spec fn fresh(orientation: Orientation) -> Mind {
        Mind {
            orientation,
            prev_dir: None,
            prev_speed: None,
            change_dir: None,
            change_speed: None,
            accel_x: None,
            accel_y: None,
            next: None,
        }
    }

    /// Whether a change over time is under way.
    pub open spec fn changing(self) -> bool {
        self.change_dir is Some || self.change_speed is Some || self.accel_x is Some
            || self.accel_y is Some
    }
}

/// Whether the changes over time were run for `turn`: the host was told
/// what they came to, in order, and the ones that are past their turns have
/// left their slots.
pub open spec fn functions_run(
    before: Mind,
    sent: Seq<Command>,
    turn: u32,
    after: Mind,
    after_sent: Seq<Command>,
) -> bool {
    &&& after_sent == sent + spec_due(
        before.change_dir,
        before.change_speed,
        before.accel_x,
        before.accel_y,
        turn,
    )
    &&& after == (Mind {
        change_dir: slot_after(before.change_dir, turn),
        change_speed: slot_after(before.change_speed, turn),
        accel_x: slot_after(before.accel_x, turn),
        accel_y: slot_after(before.accel_y, turn),
        ..before
    })
}

/// Whether `r` and `after` are what comes of beginning a change of speed
/// with `before` in mind.
pub open spec fn speed_run(
    cs: ChangeSpeed,
    before: Mind,
    after: Mind,
    r: Result<Status, RunError>,
) -> bool {
    match r {
        Ok(status) => status is Continue && after == (Mind {
            change_speed: after.change_speed,
            ..before
        }) && exists|read: SpeedReadings| #[trigger]
            speed_begun(
                cs,
                before.prev_speed,
                read,
                before.change_speed,
                after.change_speed,
                true,
            ),
        Err(RunError::TurnOutOfRange) => after == before && exists|read: SpeedReadings| #[trigger]
            speed_begun(
                cs,
                before.prev_speed,
                read,
                before.change_speed,
                after.change_speed,
                false,
            ),
        Err(RunError::Expression { source }) => after == before && (failed_in(
            source,
            cs.value.value@,
        ) || failed_in(source, cs.speed.change@)),
    }
}

/// Whether `r` and `after` are what comes of beginning a change of
/// direction with `before` in mind.
pub open spec fn direction_run(
    cd: ChangeDirection,
    before: Mind,
    after: Mind,
    r: Result<Status, RunError>,
) -> bool {
    match r {
        Ok(status) => status is Continue && after == (Mind {
            change_dir: after.change_dir,
            ..before
        }) && exists|read: DirectionReadings| #[trigger]
            direction_begun(
                cd,
                before.orientation,
                before.prev_dir,
                read,
                before.change_dir,
                after.change_dir,
                true,
            ),
        Err(RunError::TurnOutOfRange) => after == before && exists|read: DirectionReadings| #[trigger]
            direction_begun(
                cd,
                before.orientation,
                before.prev_dir,
                read,
                before.change_dir,
                after.change_dir,
                false,
            ),
        Err(RunError::Expression { source }) => after == before && (failed_in(
            source,
            cd.value.value@,
        ) || failed_in(source, cd.direction.degrees@)),
    }
}

/// Whether `r` and `after` are what comes of beginning an acceleration with
/// `before` in mind. Where an expression fails, the slot for `x` is as it
/// was or holds what the acceleration installs in it.
pub open spec fn accel_run(accel: Accel, before: Mind, after: Mind, r: Result<Status, RunError>) -> bool {
    &&& after == (Mind { accel_x: after.accel_x, accel_y: after.accel_y, ..before })
    &&& match r {
        Ok(status) => status is Continue && exists|read: AccelReadings| #[trigger]
            accel_begun(
                accel,
                before.orientation,
                read,
                (before.accel_x, before.accel_y),
                (after.accel_x, after.accel_y),
                true,
            ),
        Err(RunError::TurnOutOfRange) => exists|read: AccelReadings| #[trigger]
            accel_begun(
                accel,
                before.orientation,
                read,
                (before.accel_x, before.accel_y),
                (after.accel_x, after.accel_y),
                false,
            ),
        Err(RunError::Expression { source }) => after.accel_y == before.accel_y
            && failed_in_accel(source, accel, before.orientation) && (after.accel_x
            == before.accel_x || exists|read: AccelReadings| #[trigger]
            accel_x_begun(accel, before.orientation, read, after.accel_x)),
    }
}

/// What the expressions of a fire and the host gave when the bullet was
/// fired: for the direction of the fire and for the one of the bullet the
/// angle as it was evaluated and the direction to the player and the heading
/// as the kind of the angle asked for them; for the two speeds the value as
/// it was evaluated and the speed of the bullet as the kind asked for it;
/// and the direction to the player and the usual speed, which count where
/// neither the bullet nor the fire says anything.
pub struct FireReadings {
    pub fire_degrees: Value,
    pub fire_aim: Value,
    pub fire_heading: Value,
    pub fire_change: Value,
    pub fire_current: Value,
    pub bullet_degrees: Value,
    pub bullet_aim: Value,
    pub bullet_heading: Value,
    pub bullet_change: Value,
    pub bullet_current: Value,
    pub aim: Value,
    pub default_speed: Value,
}

/// The direction that a direction of the script stands for, where there is
/// one.
pub open spec fn stated_direction(
    direction: Option<Direction>,
    mind: Mind,
    degrees: Value,
    aim: Value,
    heading: Value,
) -> Option<Value> {
    match direction {
        Some(d) => Some(
            spec_target_direction(mind.orientation, d.kind, degrees, mind.prev_dir, aim, heading),
        ),
        None => None,
    }
}

/// The speed that a speed of the script stands for, where there is one.
pub open spec fn stated_speed(speed: Option<Speed>, mind: Mind, change: Value, current: Value) -> Option<
    Value,
> {
    match speed {
        Some(s) => Some(spec_target_speed(s.kind, change, mind.prev_speed, current)),
        None => None,
    }
}

/// The direction in which a fire fires: the one that the bullet states,
/// else the one that the fire states, else the direction to the player.
pub open spec fn fire_direction(fire: Fire, mind: Mind, read: FireReadings) -> Value {
    match spec_chosen(
        stated_direction(
            fire.bullet.direction,
            mind,
            read.bullet_degrees,
            read.bullet_aim,
            read.bullet_heading,
        ),
        stated_direction(fire.direction, mind, read.fire_degrees, read.fire_aim, read.fire_heading),
    ) {
        Some(dir) => dir,
        None => read.aim,
    }
}

/// The speed at which a fire fires: the one that the bullet states, else
/// the one that the fire states, else the usual speed.
pub open spec fn fire_speed(fire: Fire, mind: Mind, read: FireReadings) -> Value {
    match spec_chosen(
        stated_speed(fire.bullet.speed, mind, read.bullet_change, read.bullet_current),
        stated_speed(fire.speed, mind, read.fire_change, read.fire_current),
    ) {
        Some(speed) => speed,
        None => read.default_speed,
    }
}

/// Whether the readings are what the expressions of a fire can give.
pub open spec fn fire_read(fire: Fire, read: FireReadings) -> bool {
    &&& fire.direction matches Some(d) ==> d.degrees@.may_give(read.fire_degrees)
    &&& fire.speed matches Some(s) ==> s.change@.may_give(read.fire_change)
    &&& fire.bullet.direction matches Some(d) ==> d.degrees@.may_give(read.bullet_degrees)
    &&& fire.bullet.speed matches Some(s) ==> s.change@.may_give(read.bullet_change)
}

/// Whether the error of an expression is one that an expression of a fire
/// can give.
pub open spec fn failed_in_fire(e: ExpressionError, fire: Fire) -> bool {
    ||| fire.direction matches Some(d) && failed_in(e, d.degrees@)
    ||| fire.speed matches Some(s) && failed_in(e, s.change@)
    ||| fire.bullet.direction matches Some(d) && failed_in(e, d.degrees@)
    ||| fire.bullet.speed matches Some(s) && failed_in(e, s.change@)
}

/// Whether a bullet was fired as the readings say: its direction and speed
/// are kept in mind, and the host was told to make it, a simple one where
/// the bullet has no actions of its own.
pub open spec fn fire_done(
    fire: Fire,
    before: Mind,
    sent: Seq<Command>,
    read: FireReadings,
    after: Mind,
    after_sent: Seq<Command>,
) -> bool {
    let dir = fire_direction(fire, before, read);
    let speed = fire_speed(fire, before, read);
    &&& fire_read(fire, read)
    &&& after == (Mind { prev_dir: Some(dir), prev_speed: Some(speed), ..before })
    &&& after_sent == sent.push(spec_shot(fire.bullet.actions@.len() == 0, dir, speed))
}

/// Whether `r`, `after` and what the host was told are what comes of a fire
/// with `before` in mind. An expression that fails leaves everything as it
/// was.
pub open spec fn fire_run(
    fire: Fire,
    before: Mind,
    sent: Seq<Command>,
    after: Mind,
    after_sent: Seq<Command>,
    r: Result<Status, RunError>,
) -> bool {
    match r {
        Ok(status) => status is Continue && exists|read: FireReadings| #[trigger]
            fire_done(fire, before, sent, read, after, after_sent),
        Err(RunError::Expression { source }) => after == before && after_sent == sent
            && failed_in_fire(source, fire),
        Err(RunError::TurnOutOfRange) => false,
    }
}

/// How often a repetition runs whose count came to `times`.
pub open spec fn rounds_of(times: Value) -> nat {
    spec_repeat_count(times) as nat
}

/// Whether `r` is what comes of a repetition: the trees of its actions, as
/// often as its count says, or the error of the count.
pub open spec fn repeat_run(repeat: Repeat, r: Result<Status, RunError>) -> bool {
    match r {
        Ok(Status::NewSteps(steps)) => exists|times: Value|
            repeat.count().value@.may_give(times) && programs(trees_of(steps@)) == repeated(
                action_trees(repeat.models()),
                #[trigger] rounds_of(times),
            ),
        Ok(_) => false,
        Err(RunError::Expression { source }) => failed_in(source, repeat.count().value@),
        Err(RunError::TurnOutOfRange) => false,
    }
}

/// Whether a pause that begins marks the turn as `r` and `marked` say, for
/// the frames as they were evaluated and the turn of the host.
pub open spec fn pause_begun(
    wait: Wait,
    frames: Value,
    turn: u32,
    marked: Option<u32>,
    done: bool,
) -> bool {
    &&& wait.frames@.may_give(frames)
    &&& match spec_span_end(turn, frames) {
        Some(end) => done && marked == Some(end),
        None => !done && marked is None,
    }
}

/// Whether `r` and `after` are what comes of a pause with `before` in mind.
/// A pause that is under way asks for the turn and goes on or is over; one
/// that begins marks the turn at which its frames are over, and the run
/// pauses.
pub open spec fn wait_run(wait: Wait, before: Mind, after: Mind, r: Result<Status, RunError>) -> bool {
    &&& after == (Mind { next: after.next, ..before })
    &&& match before.next {
        Some(next) => (r matches Ok(Status::Continue) || r matches Ok(Status::End))
            && exists|turn: u32|
            (after.next, r matches Ok(Status::Continue)) == #[trigger] spec_resume(next, turn),
        None => match r {
            Ok(status) => status is End && exists|frames: Value, turn: u32| #[trigger]
                pause_begun(wait, frames, turn, after.next, true),
            Err(RunError::TurnOutOfRange) => exists|frames: Value, turn: u32| #[trigger]
                pause_begun(wait, frames, turn, after.next, false),
            Err(RunError::Expression { source }) => after.next is None && failed_in(
                source,
                wait.frames@,
            ),
        },
    }
}

/// Whether `r`, `after` and what the host was told are what comes of running
/// the step that a node holds, with `before` in mind.
pub open spec fn node_run(
    node: NodeStep,
    before: Mind,
    sent: Seq<Command>,
    after: Mind,
    after_sent: Seq<Command>,
    r: Result<Status, RunError>,
) -> bool {
    match node {
        NodeStep::Root => r matches Ok(Status::Continue) && after == before && after_sent == sent,
        NodeStep::Repeat(repeat) => repeat_run(repeat, r) && after == before && after_sent == sent,
        NodeStep::Fire(fire) => fire_run(*fire, before, sent, after, after_sent, r),
        NodeStep::ChangeSpeed(cs) => speed_run(cs, before, after, r) && after_sent == sent,
        NodeStep::ChangeDirection(cd) => direction_run(cd, before, after, r) && after_sent == sent,
        NodeStep::Accel(accel) => accel_run(accel, before, after, r) && after_sent == sent,
        NodeStep::Wait(wait) => wait_run(wait, before, after, r) && after_sent == sent,
        NodeStep::Vanish(_) => r matches Ok(Status::End) && after == before && after_sent
            == sent.push(Command::Vanish),
    }
}

/// An error of a run.
#[derive(Debug)]
pub enum RunError {
    /// An expression of the script cannot be evaluated.
    Expression { source: ExpressionError },
    /// A pause or a change over time would end past the last turn that can
    /// be counted.
    TurnOutOfRange,
}

/// What the run does after a step.
#[derive(Debug)]
pub enum Status {
    /// The run pauses until the next turn.
    End,
    /// The run moves on to the next step.
    Continue,
    /// The run moves on; these steps go below the one that was run.
    NewSteps(Vec<Node<NodeStep>>),
}

/// One axis of an acceleration.
pub trait Acceleration {
    /// How the amount is meant.
    spec fn kind_of(&self) -> Change;

    /// The amount, as it is written.
    spec fn amount_of(&self) -> Formula;

    /// The amount to accelerate by.
    fn amount(&self, ctx: &dyn ExpressionContext) -> (r: Result<Value, ExpressionError>)
        ensures
            evaluated(self.amount_of(), r),
            r matches Ok(v) ==> self.amount_of().may_give(v),
            r matches Err(e) ==> undefined_in(e, self.amount_of()),
            !self.amount_of().has_names() ==> r is Ok,
    ;

    /// The speed aimed at.
    fn modify(&self, value: Value, current: Value, duration: Value) -> (r: Value)
        ensures
            r == self.kind_of().spec_modify(value, current, duration),
    ;
}

impl Acceleration for Horizontal {
    open spec fn kind_of(&self) -> Change {
        self.kind
    }

    open spec fn amount_of(&self) -> Formula {
        self.change@
    }

    fn amount(&self, ctx: &dyn ExpressionContext) -> (r: Result<Value, ExpressionError>) {
        self.change.eval(ctx)
    }

    fn modify(&self, value: Value, current: Value, duration: Value) -> (r: Value) {
        self.kind.modify(value, current, duration)
    }
}

impl Acceleration for Vertical {
    open spec fn kind_of(&self) -> Change {
        self.kind
    }

    open spec fn amount_of(&self) -> Formula {
        self.change@
    }

    fn amount(&self, ctx: &dyn ExpressionContext) -> (r: Result<Value, ExpressionError>) {
        self.change.eval(ctx)
    }

    fn modify(&self, value: Value, current: Value, duration: Value) -> (r: Value) {
        self.kind.modify(value, current, duration)
    }
}

/// Whether `r` is what comes of beginning one axis of an acceleration at
/// `turn`, from the speed `init_speed` and over `duration`: nothing for an
/// axis of which the acceleration says nothing; else the function from the
/// speed to the speed that the amount stands for, or the error of the
/// amount, or the error of an end past the last turn that can be counted.
spec fn axis_made<A: Acceleration>(
    axis: Option<&A>,
    init_speed: Value,
    turn: u32,
    duration: Value,
    r: Result<Option<Function>, RunError>,
) -> bool {
    match axis {
        None => r == Ok::<Option<Function>, RunError>(None),
        Some(a) => match r {
            Ok(slot) => slot is Some && exists|change: Value|
                a.amount_of().may_give(change) && slot == #[trigger] spec_change_over(
                    turn,
                    duration,
                    init_speed,
                    a.kind_of().spec_modify(change, init_speed, duration),
                ),
            Err(RunError::Expression { source }) => undefined_in(source, a.amount_of())
                && a.amount_of().has_names(),
            Err(RunError::TurnOutOfRange) => spec_span_end(turn, duration) is None,
        },
    }
}

/// A value that a formula can come to. It stands for what an expression
/// would have given that was not evaluated.
spec fn unread(formula: Formula) -> Value {
    choose|v: Value| formula.may_give(v)
}

/// An amount that the axis can have given, and the one that it gave where a
/// function came of it.
proof fn axis_read<A: Acceleration>(
    axis: Option<&A>,
    init_speed: Value,
    turn: u32,
    duration: Value,
    r: Result<Option<Function>, RunError>,
) -> (change: Value)
    requires
        axis_made(axis, init_speed, turn, duration, r),
    ensures
        axis matches Some(a) ==> a.amount_of().may_give(change),
        r matches Ok(slot) ==> slot == (match axis {
            Some(a) => spec_change_over(
                turn,
                duration,
                init_speed,
                a.kind_of().spec_modify(change, init_speed, duration),
            ),
            None => None,
        }),
        r matches Ok(slot) ==> (slot is Some) == (axis is Some),
{
    match axis {
        Some(a) => {
            if r is Ok {
                choose|change: Value|
                    a.amount_of().may_give(change) && r->Ok_0 == #[trigger] spec_change_over(
                        turn,
                        duration,
                        init_speed,
                        a.kind_of().spec_modify(change, init_speed, duration),
                    )
            } else {
                lemma_gives_something(a.amount_of());
                unread(a.amount_of())
            }
        },
        None => Value { bits: 0 },
    }
}

/// The state of a run beside its place in the tree: the host, what the run
/// keeps in mind, and, as a ghost, what it has told the host to do so far.
struct State<T> {
    manager: T,
    orientation: Orientation,
    prev_dir: Option<Value>,
    change_dir: Option<Function>,
    prev_speed: Option<Value>,
    change_speed: Option<Function>,
    accel_x: Option<Function>,
    accel_y: Option<Function>,
    next: Option<u32>,
    sent: Ghost<Seq<Command>>,
}

impl<T> State<T> {
    /// What the run keeps in mind.
    spec fn mind(&self) -> Mind {
        Mind {
            orientation: self.orientation,
            prev_dir: self.prev_dir,
            prev_speed: self.prev_speed,
            change_dir: self.change_dir,
            change_speed: self.change_speed,
            accel_x: self.accel_x,
            accel_y: self.accel_y,
            next: self.next,
        }
    }

    fn new(manager: T, orientation: Orientation) -> (state: Self)
        ensures
            state.manager == manager,
            state.mind() == Mind::fresh(orientation),
            state.sent@ == Seq::<Command>::empty(),
    {
        State {
            manager,
            orientation,
            prev_dir: None,
            change_dir: None,
            prev_speed: None,
            change_speed: None,
            accel_x: None,
            accel_y: None,
            next: None,
            sent: Ghost(Seq::empty()),
        }
    }
}

/// The error of a run that an expression gave.
fn failed(source: ExpressionError) -> (e: RunError)
    ensures
        e == (RunError::Expression { source }),
{
    RunError::Expression { source }
}

impl<T: BulletManager> State<T> {
    /// Runs the changes over time that are under way, in the order
    /// direction, speed, `x` and `y`, and tells whether there was any.
    fn update_functions(&mut self) -> (updated: bool)
        ensures
            updated == old(self).mind().changing(),
            exists|turn: u32| #[trigger]
                functions_run(
                    old(self).mind(),
                    old(self).sent@,
                    turn,
                    final(self).mind(),
                    final(self).sent@,
                ),
    {
        let turn = self.manager.turn();
        let commands = due(
            &mut self.change_dir,
            &mut self.change_speed,
            &mut self.accel_x,
            &mut self.accel_y,
            turn,
        );
        let ghost settled = self.mind();
        let mut i: usize = 0;
        while i < commands.len()
            invariant
                i <= commands.len(),
                self.mind() == settled,
                self.sent@ == old(self).sent@ + commands@.subrange(0, i as int),
            decreases commands.len() - i,
        {
            proof {
                assert(commands@.subrange(0, i + 1) =~= commands@.subrange(0, i as int).push(
                    commands@[i as int],
                ));
            }
            self.perform(commands[i]);
            i += 1;
        }
        proof {
            assert(commands@.subrange(0, i as int) =~= commands@);
            assert(functions_run(old(self).mind(), old(self).sent@, turn, self.mind(), self.sent@));
        }
        commands.len() > 0
    }

    /// Has the host do what a command says, and notes the command.
    fn perform(&mut self, command: Command)
        ensures
            final(self).mind() == old(self).mind(),
            final(self).sent@ == old(self).sent@.push(command),
    {
        self.sent = Ghost(self.sent@.push(command));
        match command {
            Command::NewSimple(direction, speed) => self.manager.new_simple(direction, speed),
            Command::New(direction, speed) => self.manager.new(direction, speed),
            Command::Vanish => self.manager.vanish(),
            Command::ChangeDirection(degrees) => self.manager.change_direction(degrees),
            Command::ChangeSpeed(speed) => self.manager.change_speed(speed),
            Command::AccelX(amount) => self.manager.accel_x(amount),
            Command::AccelY(amount) => self.manager.accel_y(amount),
        }
    }

    /// The function for one axis of an acceleration that begins at `turn`:
    /// from the speed along the axis to the speed that the amount stands
    /// for. Nothing is asked where the acceleration says nothing of the axis.
    fn speed_func<A: Acceleration>(
        &self,
        accel: Option<&A>,
        init_speed: Value,
        turn: u32,
        duration: Value,
    ) -> (r: Result<Option<Function>, RunError>)
        ensures
            axis_made(accel, init_speed, turn, duration, r),
    {
        match accel {
            Some(axis) => {
                let change = match axis.amount(&self.manager) {
                    Ok(change) => change,
                    Err(source) => {
                        return Err(failed(source));
                    },
                };
                let final_speed = axis.modify(change, init_speed, duration);
                match change_over(turn, duration, init_speed, final_speed) {
                    Some(f) => Ok(Some(f)),
                    None => Err(RunError::TurnOutOfRange),
                }
            },
            None => Ok(None),
        }
    }

    /// Begins an acceleration. In a horizontal game the horizontal axis of
    /// the script drives `y`, and the vertical one `x`.
    ///
    /// The duration is evaluated and the host asked for the turn; then, for
    /// `x` and after it for `y`, the host is asked for the speed along the
    /// axis, the amount is evaluated, and the function from that speed to
    /// the speed that the amount stands for goes into the slot. The first
    /// failure ends it: what was put into the slot for `x` stays there.
    fn run_accel(&mut self, accel: &Accel) -> (r: Result<Status, RunError>)
        ensures
            accel_run(*accel, old(self).mind(), final(self).mind(), r),
            final(self).sent@ == old(self).sent@,
            final(self).manager == old(self).manager,
    {
        let asked = match accel.duration.eval(&self.manager) {
            Ok(duration) => duration,
            Err(source) => {
                return Err(failed(source));
            },
        };
        let duration = asked.or_zero();
        let turn = self.manager.turn();
        let ghost before = (self.accel_x, self.accel_y);
        let ghost mut read = AccelReadings {
            duration: asked,
            turn,
            speed_x: Value { bits: 0 },
            speed_y: Value { bits: 0 },
            change_x: Value { bits: 0 },
            change_y: Value { bits: 0 },
        };
        if self.orientation.is_horizontal() {
            let first = accel.vertical.as_ref();
            let second = accel.horizontal.as_ref();
            let speed_x = self.manager.speed_x();
            let slot_x = self.speed_func(first, speed_x, turn, duration);
            proof {
                let change_x = axis_read(first, speed_x, turn, duration, slot_x);
                let change_y = match second {
                    Some(axis) => {
                        lemma_gives_something(axis.amount_of());
                        unread(axis.amount_of())
                    },
                    None => Value { bits: 0 },
                };
                read = AccelReadings { speed_x, change_x, change_y, ..read };
                if slot_x matches Err(RunError::TurnOutOfRange) {
                    assert(accel_begun(*accel, self.orientation, read, before, before, false));
                }
            }
            self.accel_x = slot_x?;
            let speed_y = self.manager.speed_y();
            let slot_y = self.speed_func(second, speed_y, turn, duration);
            proof {
                let change_y = axis_read(second, speed_y, turn, duration, slot_y);
                read = AccelReadings { speed_y, change_y, ..read };
                assert(accel_x_begun(*accel, self.orientation, read, self.accel_x));
                if slot_y matches Err(RunError::TurnOutOfRange) {
                    assert(accel_begun(
                        *accel,
                        self.orientation,
                        read,
                        before,
                        (self.accel_x, self.accel_y),
                        false,
                    ));
                } else if slot_y is Ok {
                    assert(accel_begun(
                        *accel,
                        self.orientation,
                        read,
                        before,
                        (self.accel_x, slot_y->Ok_0),
                        true,
                    ));
                }
            }
            self.accel_y = slot_y?;
        } else {
            let first = accel.horizontal.as_ref();
            let second = accel.vertical.as_ref();
            let speed_x = self.manager.speed_x();
            let slot_x = self.speed_func(first, speed_x, turn, duration);
            proof {
                let change_x = axis_read(first, speed_x, turn, duration, slot_x);
                let change_y = match second {
                    Some(axis) => {
                        lemma_gives_something(axis.amount_of());
                        unread(axis.amount_of())
                    },
                    None => Value { bits: 0 },
                };
                read = AccelReadings { speed_x, change_x, change_y, ..read };
                if slot_x matches Err(RunError::TurnOutOfRange) {
                    assert(accel_begun(*accel, self.orientation, read, before, before, false));
                }
            }
            self.accel_x = slot_x?;
            let speed_y = self.manager.speed_y();
            let slot_y = self.speed_func(second, speed_y, turn, duration);
            proof {
                let change_y = axis_read(second, speed_y, turn, duration, slot_y);
                read = AccelReadings { speed_y, change_y, ..read };
                assert(accel_x_begun(*accel, self.orientation, read, self.accel_x));
                if slot_y matches Err(RunError::TurnOutOfRange) {
                    assert(accel_begun(
                        *accel,
                        self.orientation,
                        read,
                        before,
                        (self.accel_x, self.accel_y),
                        false,
                    ));
                } else if slot_y is Ok {
                    assert(accel_begun(
                        *accel,
                        self.orientation,
                        read,
                        before,
                        (self.accel_x, slot_y->Ok_0),
                        true,
                    ));
                }
            }
            self.accel_y = slot_y?;
        }
        Ok(Status::Continue)
    }

    /// The direction that an angle of some kind stands for. The host is
    /// asked for what the kind goes by, and for nothing else: the direction
    /// to the player for an angle against it and for the first angle in
    /// sequence, the heading for an angle against the heading.
    fn target_direction(&self, kind: DirectionKind, degrees: Value) -> (dir: Value)
        ensures
            exists|aim: Value, heading: Value|
                dir == #[trigger] spec_target_direction(
                    self.orientation,
                    kind,
                    degrees,
                    self.prev_dir,
                    aim,
                    heading,
                ),
            kind == DirectionKind::Absolute || (kind == DirectionKind::Sequence && self.prev_dir
                is Some) ==> dir == spec_target_direction(
                self.orientation,
                kind,
                degrees,
                self.prev_dir,
                Value { bits: 0 },
                Value { bits: 0 },
            ),
    {
        let unasked = Value::zero();
        match kind {
            DirectionKind::Aim => {
                let aim = self.manager.aim_direction();
                target_direction(self.orientation, kind, degrees, self.prev_dir, aim, unasked)
            },
            DirectionKind::Relative => {
                let heading = self.manager.direction();
                target_direction(self.orientation, kind, degrees, self.prev_dir, unasked, heading)
            },
            DirectionKind::Absolute => target_direction(
                self.orientation,
                kind,
                degrees,
                self.prev_dir,
                unasked,
                unasked,
            ),
            DirectionKind::Sequence => match self.prev_dir {
                Some(_) => target_direction(
                    self.orientation,
                    kind,
                    degrees,
                    self.prev_dir,
                    unasked,
                    unasked,
                ),
                None => {
                    let aim = self.manager.aim_direction();
                    target_direction(self.orientation, kind, degrees, self.prev_dir, aim, unasked)
                },
            },
        }
    }

    /// The direction that a direction of the script stands for: its angle
    /// is evaluated, and the direction is what the kind makes of the angle.
    /// A variable that the host does not know is the error.
    fn target_direction_data(&self, direction: &Direction) -> (r: Result<Value, RunError>)
        ensures
            !direction.degrees@.has_names() ==> r is Ok,
            r matches Ok(dir) ==> exists|degrees: Value, aim: Value, heading: Value|
                direction.degrees@.may_give(degrees) && dir == #[trigger] spec_target_direction(
                    self.orientation,
                    direction.kind,
                    degrees,
                    self.prev_dir,
                    aim,
                    heading,
                ),
            r matches Err(e) ==> (e matches RunError::Expression { source } && failed_in(
                source,
                direction.degrees@,
            )),
    {
        match direction.degrees.eval(&self.manager) {
            Ok(degrees) => Ok(self.target_direction(direction.kind, degrees)),
            Err(source) => Err(failed(source)),
        }
    }

    /// Begins a change of direction over time.
    ///
    /// The duration is evaluated, the host asked for the heading, and the
    /// angle evaluated; the host is asked for what the kind of the angle
    /// goes by, and for the turn. The function from the heading to the
    /// direction aimed at goes into the slot. A variable that the host does
    /// not know, or an end past the last turn that can be counted, is the
    /// error, and the slot stays as it was.
    fn run_change_direction(&mut self, cd: &ChangeDirection) -> (r: Result<Status, RunError>)
        ensures
            direction_run(*cd, old(self).mind(), final(self).mind(), r),
            final(self).sent@ == old(self).sent@,
            final(self).manager == old(self).manager,
    {
        let asked = match cd.value.eval(&self.manager) {
            Ok(duration) => duration,
            Err(source) => {
                return Err(failed(source));
            },
        };
        let duration = asked.or_zero();
        let cur_dir = self.manager.direction();
        let degrees = match cd.direction.degrees.eval(&self.manager) {
            Ok(degrees) => degrees,
            Err(source) => {
                return Err(failed(source));
            },
        };
        let ghost mut aim = Value { bits: 0 };
        let ghost mut heading = Value { bits: 0 };
        let final_dir = match cd.direction.kind {
            DirectionKind::Sequence => in_sequence(duration, degrees, cur_dir),
            _ => {
                let dir = self.target_direction(cd.direction.kind, degrees);
                proof {
                    let found = choose|aim: Value, heading: Value|
                        dir == #[trigger] spec_target_direction(
                            self.orientation,
                            cd.direction.kind,
                            degrees,
                            self.prev_dir,
                            aim,
                            heading,
                        );
                    aim = found.0;
                    heading = found.1;
                }
                dir
            },
        };
        let turn = self.manager.turn();
        let ghost read = DirectionReadings {
            duration: asked,
            degrees,
            current: cur_dir,
            aim,
            heading,
            turn,
        };
        let made = change_over(turn, duration, cur_dir, final_dir);
        proof {
            assert(made == direction_change(
                self.orientation,
                cd.direction.kind,
                self.prev_dir,
                read,
            ));
        }
        match made {
            Some(f) => {
                self.change_dir = Some(f);
                proof {
                    assert(direction_begun(
                        *cd,
                        old(self).orientation,
                        old(self).prev_dir,
                        read,
                        old(self).change_dir,
                        self.change_dir,
                        true,
                    ));
                }
                Ok(Status::Continue)
            },
            None => {
                proof {
                    assert(direction_begun(
                        *cd,
                        old(self).orientation,
                        old(self).prev_dir,
                        read,
                        old(self).change_dir,
                        self.change_dir,
                        false,
                    ));
                }
                Err(RunError::TurnOutOfRange)
            },
        }
    }

    /// The speed that a value of some kind stands for. The host is asked for
    /// the speed of the bullet where the kind goes by it, and for nothing
    /// else.
    fn target_speed(&self, kind: Change, value: Value) -> (speed: Value)
        ensures
            exists|current: Value|
                speed == #[trigger] spec_target_speed(kind, value, self.prev_speed, current),
            kind != Change::Relative ==> speed == spec_target_speed(
                kind,
                value,
                self.prev_speed,
                Value { bits: 0 },
            ),
    {
        match kind {
            Change::Relative => {
                let current = self.manager.speed();
                target_speed(kind, value, self.prev_speed, current)
            },
            _ => target_speed(kind, value, self.prev_speed, Value::zero()),
        }
    }

    /// The speed that a speed of the script stands for: its value is
    /// evaluated, and the speed is what the kind makes of the value. A
    /// variable that the host does not know is the error.
    fn target_speed_data(&self, speed: &Speed) -> (r: Result<Value, RunError>)
        ensures
            !speed.change@.has_names() ==> r is Ok,
            r matches Ok(aimed) ==> exists|change: Value, current: Value|
                speed.change@.may_give(change) && aimed == #[trigger] spec_target_speed(
                    speed.kind,
                    change,
                    self.prev_speed,
                    current,
                ),
            r matches Err(e) ==> (e matches RunError::Expression { source } && failed_in(
                source,
                speed.change@,
            )),
    {
        match speed.change.eval(&self.manager) {
            Ok(change) => Ok(self.target_speed(speed.kind, change)),
            Err(source) => Err(failed(source)),
        }
    }

    /// Begins a change of speed over time.
    ///
    /// The duration is evaluated, the host asked for the speed, and the
    /// change evaluated; the host is asked for the speed again where the
    /// change is relative to it, and for the turn. The function from the
    /// speed to the speed aimed at goes into the slot. A variable that the
    /// host does not know, or an end past the last turn that can be counted,
    /// is the error, and the slot stays as it was.
    fn run_change_speed(&mut self, cs: &ChangeSpeed) -> (r: Result<Status, RunError>)
        ensures
            speed_run(*cs, old(self).mind(), final(self).mind(), r),
            final(self).sent@ == old(self).sent@,
            final(self).manager == old(self).manager,
    {
        let asked = match cs.value.eval(&self.manager) {
            Ok(duration) => duration,
            Err(source) => {
                return Err(failed(source));
            },
        };
        let duration = asked.or_zero();
        let cur_speed = self.manager.speed();
        let change = match cs.speed.change.eval(&self.manager) {
            Ok(change) => change,
            Err(source) => {
                return Err(failed(source));
            },
        };
        let ghost mut again = Value { bits: 0 };
        let final_speed = match cs.speed.kind {
            Change::Sequence => in_sequence(duration, change, cur_speed),
            _ => {
                let aimed = self.target_speed(cs.speed.kind, change);
                proof {
                    again = choose|current: Value|
                        aimed == #[trigger] spec_target_speed(
                            cs.speed.kind,
                            change,
                            self.prev_speed,
                            current,
                        );
                }
                aimed
            },
        };
        let turn = self.manager.turn();
        let ghost read = SpeedReadings { duration: asked, change, current: cur_speed, again, turn };
        let made = change_over(turn, duration, cur_speed, final_speed);
        proof {
            assert(made == speed_change(cs.speed.kind, self.prev_speed, read));
        }
        match made {
            Some(f) => {
                self.change_speed = Some(f);
                proof {
                    assert(speed_begun(
                        *cs,
                        old(self).prev_speed,
                        read,
                        old(self).change_speed,
                        self.change_speed,
                        true,
                    ));
                }
                Ok(Status::Continue)
            },
            None => {
                proof {
                    assert(speed_begun(
                        *cs,
                        old(self).prev_speed,
                        read,
                        old(self).change_speed,
                        self.change_speed,
                        false,
                    ));
                }
                Err(RunError::TurnOutOfRange)
            },
        }
    }

    /// Fires a bullet. What the bullet says of its direction and speed goes
    /// before what the fire says, and where neither says anything the host
    /// gives the direction to the player and its usual speed.
    fn run_fire(&mut self, fire: &Fire) -> (r: Result<Status, RunError>)
        ensures
            fire_run(
                *fire,
                old(self).mind(),
                old(self).sent@,
                final(self).mind(),
                final(self).sent@,
                r,
            ),
    {
        let ghost unread = Value { bits: 0 };
        let ghost mut read = FireReadings {
            fire_degrees: unread,
            fire_aim: unread,
            fire_heading: unread,
            fire_change: unread,
            fire_current: unread,
            bullet_degrees: unread,
            bullet_aim: unread,
            bullet_heading: unread,
            bullet_change: unread,
            bullet_current: unread,
            aim: unread,
            default_speed: unread,
        };
        let outer_dir = match &fire.direction {
            Some(direction) => {
                let aimed = match self.target_direction_data(direction) {
                    Ok(aimed) => aimed,
                    Err(e) => {
                        return Err(e);
                    },
                };
                proof {
                    let found = choose|degrees: Value, aim: Value, heading: Value|
                        direction.degrees@.may_give(degrees) && aimed
                            == #[trigger] spec_target_direction(
                            self.orientation,
                            direction.kind,
                            degrees,
                            self.prev_dir,
                            aim,
                            heading,
                        );
                    read = FireReadings {
                        fire_degrees: found.0,
                        fire_aim: found.1,
                        fire_heading: found.2,
                        ..read
                    };
                }
                Some(aimed)
            },
            None => None,
        };
        let outer_speed = match &fire.speed {
            Some(speed) => {
                let aimed = match self.target_speed_data(speed) {
                    Ok(aimed) => aimed,
                    Err(e) => {
                        return Err(e);
                    },
                };
                proof {
                    let found = choose|change: Value, current: Value|
                        speed.change@.may_give(change) && aimed == #[trigger] spec_target_speed(
                            speed.kind,
                            change,
                            self.prev_speed,
                            current,
                        );
                    read = FireReadings { fire_change: found.0, fire_current: found.1, ..read };
                }
                Some(aimed)
            },
            None => None,
        };
        let bullet_dir = match &fire.bullet.direction {
            Some(direction) => {
                let aimed = match self.target_direction_data(direction) {
                    Ok(aimed) => aimed,
                    Err(e) => {
                        return Err(e);
                    },
                };
                proof {
                    let found = choose|degrees: Value, aim: Value, heading: Value|
                        direction.degrees@.may_give(degrees) && aimed
                            == #[trigger] spec_target_direction(
                            self.orientation,
                            direction.kind,
                            degrees,
                            self.prev_dir,
                            aim,
                            heading,
                        );
                    read = FireReadings {
                        bullet_degrees: found.0,
                        bullet_aim: found.1,
                        bullet_heading: found.2,
                        ..read
                    };
                }
                Some(aimed)
            },
            None => None,
        };
        let dir = match chosen(bullet_dir, outer_dir) {
            Some(dir) => dir,
            None => {
                let aim = self.manager.aim_direction();
                proof {
                    read = FireReadings { aim, ..read };
                }
                aim
            },
        };
        let bullet_speed = match &fire.bullet.speed {
            Some(speed) => {
                let aimed = match self.target_speed_data(speed) {
                    Ok(aimed) => aimed,
                    Err(e) => {
                        return Err(e);
                    },
                };
                proof {
                    let found = choose|change: Value, current: Value|
                        speed.change@.may_give(change) && aimed == #[trigger] spec_target_speed(
                            speed.kind,
                            change,
                            self.prev_speed,
                            current,
                        );
                    read = FireReadings { bullet_change: found.0, bullet_current: found.1, ..read };
                }
                Some(aimed)
            },
            None => None,
        };
        let speed = match chosen(bullet_speed, outer_speed) {
            Some(speed) => speed,
            None => {
                let usual = self.manager.default_speed();
                proof {
                    read = FireReadings { default_speed: usual, ..read };
                }
                usual
            },
        };
        proof {
            assert(dir == fire_direction(*fire, self.mind(), read));
            assert(speed == fire_speed(*fire, self.mind(), read));
        }
        self.prev_dir = Some(dir);
        self.prev_speed = Some(speed);
        self.perform(shot(fire.bullet.actions.len() == 0, dir, speed));
        proof {
            assert(fire_done(*fire, old(self).mind(), old(self).sent@, read, self.mind(), self.sent@));
        }
        Ok(Status::Continue)
    }

    /// Runs a repetition: the repeated actions go below its node, as often
    /// as the count says.
    fn run_repeat(&mut self, repeat: &Repeat) -> (r: Result<Status, RunError>)
        ensures
            *final(self) == *old(self),
            repeat_run(*repeat, r),
    {
        let times = match repeat.times().value.eval(&self.manager) {
            Ok(times) => times,
            Err(source) => {
                return Err(failed(source));
            },
        };
        let count = repeat_count(times);
        let steps = repeat.new_steps(count);
        proof {
            assert(count as nat == rounds_of(times));
        }
        Ok(Status::NewSteps(steps))
    }

    /// Makes the bullet vanish. The run goes no further.
    fn run_vanish(&mut self) -> (status: Status)
        ensures
            status is End,
            final(self).mind() == old(self).mind(),
            final(self).sent@ == old(self).sent@.push(Command::Vanish),
    {
        self.perform(Command::Vanish);
        Status::End
    }

    /// Runs a pause. A pause that begins marks the turn at which its frames
    /// are over, and the run pauses. A pause that is under way goes on while
    /// the marked turn lies before the turn of the host; otherwise the mark
    /// goes and the run moves on.
    fn run_wait(&mut self, wait: &Wait) -> (r: Result<Status, RunError>)
        ensures
            wait_run(*wait, old(self).mind(), final(self).mind(), r),
            final(self).sent@ == old(self).sent@,
            final(self).manager == old(self).manager,
    {
        match self.next {
            Some(next) => {
                let turn = self.manager.turn();
                let (marker, proceed) = resume(next, turn);
                self.next = marker;
                if proceed {
                    Ok(Status::Continue)
                } else {
                    Ok(Status::End)
                }
            },
            None => {
                let frames = match wait.frames.eval(&self.manager) {
                    Ok(frames) => frames,
                    Err(source) => {
                        return Err(failed(source));
                    },
                };
                let turn = self.manager.turn();
                match span_end(turn, frames) {
                    Some(end) => {
                        self.next = Some(end);
                        proof {
                            assert(pause_begun(*wait, frames, turn, self.next, true));
                        }
                        Ok(Status::End)
                    },
                    None => {
                        proof {
                            assert(pause_begun(*wait, frames, turn, self.next, false));
                        }
                        Err(RunError::TurnOutOfRange)
                    },
                }
            },
        }
    }
}

/// Whether a walk stands on a pause.
pub open spec fn on_pause(walk: ZipperIter<NodeStep>) -> bool {
    !walk.finished() && walk.cursor().focus.value is Wait
}

/// Whether a walk stands on a step that pauses a run: a pause, or the step
/// that makes the bullet vanish.
pub open spec fn on_hold(walk: ZipperIter<NodeStep>) -> bool {
    !walk.finished() && (walk.cursor().focus.value is Wait || walk.cursor().focus.value
        is Vanish)
}

/// A run at one moment: what it keeps in mind, where its walk over the tree
/// of steps stands, and what it has told the host so far.
pub struct Moment {
    pub mind: Mind,
    pub walk: ZipperIter<NodeStep>,
    pub sent: Seq<Command>,
}

/// Whether two walks stand at the same place.
pub open spec fn same_place(a: ZipperIter<NodeStep>, b: ZipperIter<NodeStep>) -> bool {
    a.cursor() == b.cursor() && a.started() == b.started() && a.finished() == b.finished()
}

/// Whether `after` is where `walk` stands once the node it stood on holds
/// `focus` and the walk has moved on: a walk that has not begun begins on
/// that node, and one that has goes to the node that follows in pre-order,
/// or is over where none follows.
pub open spec fn moved(
    walk: ZipperIter<NodeStep>,
    focus: Tree<NodeStep>,
    after: ZipperIter<NodeStep>,
) -> bool {
    let place = walk.cursor().refocus(focus);
    &&& after.started()
    &&& if walk.started() {
        match place.successor() {
            Some(next) => after.cursor() == next && !after.finished(),
            None => after.cursor() == place.top() && after.finished(),
        }
    } else {
        after.cursor() == place && !after.finished()
    }
}

/// Whether `after` is where `walk` stands after a step that came to `r`:
/// the steps that a repetition brought go below its node before the walk
/// moves on. A step that ends the turn, or fails, moves the walk nowhere.
pub open spec fn went_on(
    walk: ZipperIter<NodeStep>,
    r: Result<Status, RunError>,
    after: ZipperIter<NodeStep>,
) -> bool {
    match r {
        Ok(Status::Continue) => moved(walk, walk.cursor().focus, after),
        Ok(Status::NewSteps(steps)) => moved(
            walk,
            walk.cursor().focus.with_children(trees_of(steps@)),
            after,
        ),
        _ => false,
    }
}

/// Whether `b` is the moment that follows `a` in a turn: the step that the
/// walk stood on was run, did not end the turn, and the walk moved on.
pub open spec fn stepped(a: Moment, b: Moment) -> bool {
    &&& !a.walk.finished()
    &&& exists|r: Result<Status, RunError>| #[trigger]
        node_run(a.walk.cursor().focus.value, a.mind, a.sent, b.mind, b.sent, r) && went_on(
            a.walk,
            r,
            b.walk,
        )
}

/// Whether the moment after the one at `i` follows it in a turn.
pub open spec fn linked(trail: Seq<Moment>, i: int) -> bool {
    stepped(trail[i], trail[i + 1])
}

/// Whether a turn that has come to `last` ends with `end` and `r`. Where the
/// walk is over nothing happens, and the result tells whether the turn was
/// `busy`. Otherwise the step that the walk stands on is run, and either
/// ends the turn or fails; the walk stays on it.
pub open spec fn stopped(last: Moment, end: Moment, busy: bool, r: Result<bool, RunError>) -> bool {
    if last.walk.finished() {
        end == last && r == Ok::<bool, RunError>(busy)
    } else {
        let node = last.walk.cursor().focus.value;
        &&& same_place(end.walk, last.walk)
        &&& match r {
            Ok(updated) => updated && node_run(
                node,
                last.mind,
                last.sent,
                end.mind,
                end.sent,
                Ok(Status::End),
            ),
            Err(e) => node_run(node, last.mind, last.sent, end.mind, end.sent, Err(e)),
        }
    }
}

/// Whether a turn leads from `start` to `end` with the result `r`: the
/// changes over time are run for the turn of the host, then the steps one
/// after the other, through the moments of `trail`, until the walk is over
/// or a step ends the turn or fails.
pub open spec fn ticked(
    start: Moment,
    turn: u32,
    trail: Seq<Moment>,
    end: Moment,
    r: Result<bool, RunError>,
) -> bool {
    &&& trail.len() > 0
    &&& trail[0].walk == start.walk
    &&& functions_run(start.mind, start.sent, turn, trail[0].mind, trail[0].sent)
    &&& forall|i: int| 0 <= i < trail.len() - 1 ==> #[trigger] linked(trail, i)
    &&& stopped(trail.last(), end, start.mind.changing() || !start.walk.finished(), r)
}

/// Whether a step evaluates an expression that refers to a variable by
/// name.
pub open spec fn has_names(node: NodeStep) -> bool {
    match node {
        NodeStep::Root => false,
        NodeStep::Repeat(repeat) => repeat.count().value@.has_names(),
        NodeStep::Fire(fire) => {
            ||| fire.direction matches Some(d) && d.degrees@.has_names()
            ||| fire.speed matches Some(s) && s.change@.has_names()
            ||| fire.bullet.direction matches Some(d) && d.degrees@.has_names()
            ||| fire.bullet.speed matches Some(s) && s.change@.has_names()
        },
        NodeStep::ChangeSpeed(cs) => cs.value.value@.has_names() || cs.speed.change@.has_names(),
        NodeStep::ChangeDirection(cd) => cd.value.value@.has_names()
            || cd.direction.degrees@.has_names(),
        NodeStep::Accel(accel) => {
            ||| accel.duration.value@.has_names()
            ||| accel.horizontal matches Some(h) && h.change@.has_names()
            ||| accel.vertical matches Some(v) && v.change@.has_names()
        },
        NodeStep::Wait(wait) => wait.frames@.has_names(),
        NodeStep::Vanish(_) => false,
    }
}

/// Whether a step counts turns ahead, which can lead past the last turn
/// that can be counted.
pub open spec fn counts_ahead(node: NodeStep) -> bool {
    node is ChangeSpeed || node is ChangeDirection || node is Accel || node is Wait
}

/// Run a script with a given bullet manager.
pub struct Runner<T> {
    state: State<T>,
    bulletml: BulletML,
}

impl<T> Runner<T> {
    /// The walk over the tree of steps is sound, and a turn is marked only
    /// while the walk stands on the pause that marked it.
    pub closed spec fn wf(&self) -> bool {
        &&& self.bulletml.steps.wf()
        &&& self.state.next is Some ==> on_pause(self.bulletml.steps)
    }

    /// What the run keeps in mind.
    pub closed spec fn mind(&self) -> Mind {
        self.state.mind()
    }

    /// What the run has told the host to do since it was made, in order.
    pub closed spec fn sent(&self) -> Seq<Command> {
        self.state.sent@
    }

    /// The run as it stands.
    pub open spec fn moment(&self) -> Moment {
        Moment { mind: self.mind(), walk: self.steps(), sent: self.sent() }
    }

    /// The orientation of the game.
    pub open spec fn orientation(&self) -> Orientation {
        self.mind().orientation
    }

    /// The walk over the tree of steps.
    pub closed spec fn steps(&self) -> ZipperIter<NodeStep> {
        self.bulletml.steps
    }

    /// Whether a change over time is under way.
    pub open spec fn changing(&self) -> bool {
        self.mind().changing()
    }

    /// The turn that a pause has marked.
    pub open spec fn pause(&self) -> Option<u32> {
        self.mind().next
    }

    /// Create a new runner for a manager and BulletML script. The script is
    /// lowered; the run has not begun, and nothing is under way.
    pub fn new(manager: T, bulletml: data::BulletML) -> (r: Result<Self, BulletMLError>)
        ensures
            match lower_script(bulletml) {
                Ok(tops) => r matches Ok(runner) && runner.wf() && runner.mind() == Mind::fresh(
                    bulletml.orientation,
                ) && runner.sent() == Seq::<Command>::empty()
                    && runner.steps().cursor().at_root() && !runner.steps().started()
                    && !runner.steps().finished() && program(runner.steps().cursor().focus)
                    == script_tree(tops),
                Err(fault) => r matches Err(e) && e.fault() == fault,
            },
    {
        let orientation = bulletml.orientation;
        match BulletML::new(bulletml) {
            Ok(compiled) => Ok(Runner { state: State::new(manager, orientation), bulletml: compiled }),
            Err(e) => Err(e),
        }
    }
}

impl<T: BulletManager> Runner<T> {
    /// Update the state: one turn of the run.
    ///
    /// First the changes over time that are under way give their values to
    /// the host. Then the steps are run from the one the walk stands on, in
    /// the order of the walk, until one of them pauses the run or the walk
    /// is over; the steps that a repetition brings go below its node before
    /// the walk moves on. The result tells whether there was a change under
    /// way or a step to run. An error leaves the walk on the step that gave
    /// it: an expression of that step refers to a variable that the host
    /// does not know, or the step counts turns past the last one. Where no
    /// step ahead of the walk can fail in either way, the turn goes well.
    /// What is left of the run never grows, and every step that is run
    /// brings it down.
    pub fn update(&mut self) -> (r: Result<bool, RunError>)
        requires
            old(self).wf(),
        ensures
            final(self).wf(),
            exists|turn: u32, trail: Seq<Moment>| #[trigger]
                ticked(old(self).moment(), turn, trail, final(self).moment(), r),
            final(self).orientation() == old(self).orientation(),
            r matches Ok(updated) ==> updated == (old(self).changing() || !old(self).steps().finished()),
            old(self).steps().finished() ==> final(self).steps() == old(self).steps() && r is Ok,
            no_more(walk_effort(final(self).steps()), walk_effort(old(self).steps())),
            r is Ok ==> final(self).steps().finished() || on_hold(final(self).steps()),
            sure_walk(old(self).steps()) ==> r is Ok,
            r is Err ==> !final(self).steps().finished(),
            r matches Err(RunError::Expression { .. }) ==> has_names(
                final(self).steps().cursor().focus.value,
            ),
            r matches Err(RunError::TurnOutOfRange) ==> counts_ahead(
                final(self).steps().cursor().focus.value,
            ),
            final(self).pause() is Some ==> on_pause(final(self).steps()),
    {
        let ghost start = self.moment();
        let ghost busy = start.mind.changing() || !start.walk.finished();
        let mut updated = self.state.update_functions();
        let ghost turn = choose|turn: u32| #[trigger]
            functions_run(start.mind, start.sent, turn, self.state.mind(), self.state.sent@);
        let ghost mut trail = seq![self.moment()];
        loop
            invariant
                self.bulletml.steps.wf(),
                self.state.next is Some ==> on_pause(self.bulletml.steps),
                self.state.orientation == old(self).state.orientation,
                start == old(self).moment(),
                busy == (start.mind.changing() || !start.walk.finished()),
                old(self).changing() ==> updated,
                !updated ==> self.bulletml.steps == old(self).bulletml.steps && !old(self).changing(),
                old(self).steps().finished() ==> self.bulletml.steps == old(self).bulletml.steps
                    && updated == old(self).changing(),
                updated && !old(self).changing() ==> !old(self).steps().finished(),
                no_more(walk_effort(self.bulletml.steps), walk_effort(old(self).bulletml.steps)),
                trail.len() > 0,
                trail[0].walk == start.walk,
                functions_run(start.mind, start.sent, turn, trail[0].mind, trail[0].sent),
                trail.last() == self.moment(),
                forall|i: int| 0 <= i < trail.len() - 1 ==> #[trigger] linked(trail, i),
            decreases walk_effort(self.bulletml.steps),
        {
            let ghost before = self.bulletml.steps;
            let ghost here = self.moment();
            let ghost mut rounds: Option<nat> = None;
            let ghost mut focus = before.cursor().focus;
            let ghost mut ran: Result<Status, RunError> = Ok(Status::Continue);
            let outcome = match self.bulletml.steps.current_mut() {
                None => {
                    proof {
                        assert(stopped(here, self.moment(), busy, Ok(updated)));
                        assert(ticked(start, turn, trail, self.moment(), Ok(updated)));
                    }
                    return Ok(updated);
                },
                Some(node) => {
                    updated = true;
                    let outcome = match node.as_ref() {
                        NodeStep::Root => Ok(Status::Continue),
                        NodeStep::Repeat(repeat) => {
                            let outcome = self.state.run_repeat(repeat);
                            proof {
                                if outcome is Ok {
                                    let brought = trees_of(outcome->Ok_0->NewSteps_0@);
                                    let times = choose|times: Value|
                                        repeat.count().value@.may_give(times) && programs(brought)
                                            == repeated(
                                            action_trees(repeat.models()),
                                            #[trigger] rounds_of(times),
                                        );
                                    rounds = Some(rounds_of(times));
                                }
                            }
                            outcome
                        },
                        NodeStep::Fire(fire) => self.state.run_fire(fire),
                        NodeStep::ChangeSpeed(cs) => self.state.run_change_speed(cs),
                        NodeStep::ChangeDirection(cd) => self.state.run_change_direction(cd),
                        NodeStep::Accel(accel) => self.state.run_accel(accel),
                        NodeStep::Wait(wait) => self.state.run_wait(wait),
                        NodeStep::Vanish(_) => Ok(self.state.run_vanish()),
                    };
                    proof {
                        ran = outcome;
                        assert(node_run(
                            here.walk.cursor().focus.value,
                            here.mind,
                            here.sent,
                            self.state.mind(),
                            self.state.sent@,
                            ran,
                        ));
                    }
                    match outcome {
                        Ok(Status::NewSteps(steps)) => {
                            let ghost brought = trees_of(steps@);
                            node.add_children(steps);
                            proof {
                                focus = node@;
                                assert(program(focus).kids =~= program(before.cursor().focus).kids
                                    + programs(brought));
                            }
                            Ok(Status::Continue)
                        },
                        other => other,
                    }
                },
            };
            let ghost run = self.bulletml.steps;
            proof {
                assert(run.cursor() == before.cursor().refocus(focus));
            }
            match outcome {
                Err(e) => {
                    proof {
                        assert(stopped(here, self.moment(), busy, Err(e)));
                        assert(ticked(start, turn, trail, self.moment(), Err(e)));
                        if sure_walk(start.walk) {
                            lemma_sure_turn(start, turn, trail, self.moment(), Err(e));
                        }
                    }
                    return Err(e);
                },
                Ok(Status::End) => {
                    proof {
                        assert(stopped(here, self.moment(), busy, Ok(updated)));
                        assert(ticked(start, turn, trail, self.moment(), Ok(updated)));
                    }
                    return Ok(updated);
                },
                Ok(_) => {
                    self.bulletml.steps.next();
                },
            }
            proof {
                assert(run.cursor().focus == focus);
                lemma_step_brings_down(before, run, self.bulletml.steps, rounds);
                let there = self.moment();
                assert(node_run(
                    here.walk.cursor().focus.value,
                    here.mind,
                    here.sent,
                    there.mind,
                    there.sent,
                    ran,
                ));
                assert(stepped(here, there));
                let longer = trail.push(there);
                assert forall|i: int| 0 <= i < longer.len() - 1 implies #[trigger] linked(
                    longer,
                    i,
                ) by {
                    if i < trail.len() - 1 {
                        assert(linked(trail, i));
                    }
                }
                trail = longer;
            }
        }
    }
}

} // verus!
