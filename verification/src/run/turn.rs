//! What follows from the relations of a run: the turn of a run whose walk is
//! over, a fire that states nothing, a direction in sequence, a repetition
//! with a fixed count, a pause that begins and one that is under way, the
//! axes of an acceleration in a horizontal game, a change that ends, and
//! what a step of a turn tells the host.

use crate::data::expression::ast::{lemma_constant_gives, lemma_constant_without_names};
use crate::data::{Accel, DirectionKind, Orientation, Wait};
use crate::run::compile::{action_trees, programs, repeated, Fire, NodeStep, Repeat};
use crate::run::labels::held;
use crate::run::runner::{
    accel_run, fire_direction, fire_done, fire_run, fire_speed, functions_run, linked, node_run,
    repeat_run, rounds_of, same_place, spec_shot, spec_target_direction, stepped, ticked, wait_run,
    went_on, within_turn, Command, FireReadings, Function, Mind, Moment, RunError, Status,
};
use crate::run::zipper::trees_of;
use crate::value::{sum_bits, Value};
use vstd::prelude::*;

verus! {

/// A turn of a run whose walk is over runs the changes over time and does
/// nothing else: the walk stays as it is, and the result tells whether a
/// change was under way.
pub proof fn lemma_idle_turn(
    start: Moment,
    turn: u32,
    trail: Seq<Moment>,
    end: Moment,
    r: Result<bool, RunError>,
)
    requires
        ticked(start, turn, trail, end, r),
        start.walk.finished(),
    ensures
        r == Ok::<bool, RunError>(start.mind.changing()),
        end.walk == start.walk,
        functions_run(start.mind, start.sent, turn, end.mind, end.sent),
{
    if trail.len() > 1 {
        assert(linked(trail, 0));
    }
}

/// A fire that states no direction and no speed, and whose bullet states
/// none, fires one bullet towards the player at the usual speed of the
/// host, and keeps the two in mind.
pub proof fn lemma_fire_by_default(
    fire: Fire,
    before: Mind,
    sent: Seq<Command>,
    after: Mind,
    after_sent: Seq<Command>,
    r: Result<Status, RunError>,
)
    requires
        fire_run(fire, before, sent, after, after_sent, r),
        fire.direction is None,
        fire.speed is None,
        fire.bullet.direction is None,
        fire.bullet.speed is None,
    ensures
        r matches Ok(Status::Continue),
        ({
            let simple = fire.bullet.actions@.len() == 0;
            exists|aim: Value, usual: Value|
                after_sent == sent.push(#[trigger] spec_shot(simple, aim, usual)) && after == (Mind {
                    prev_dir: Some(aim),
                    prev_speed: Some(usual),
                    ..before
                })
        }),
{
}

/// An angle in sequence counts from the direction that was computed last.
/// Where none was, the direction is the one to the player, and the angle
/// counts for nothing.
pub proof fn lemma_direction_in_sequence(
    orientation: Orientation,
    degrees: Value,
    prev_dir: Option<Value>,
    aim: Value,
    heading: Value,
)
    ensures
        spec_target_direction(
            orientation,
            DirectionKind::Sequence,
            degrees,
            prev_dir,
            aim,
            heading,
        ) == (match prev_dir {
            Some(prev) => within_turn(Value { bits: sum_bits(degrees.bits, prev.bits) }),
            None => within_turn(aim),
        }),
{
}

/// A repetition whose count is a number runs as often as the number says:
/// it cannot fail, and brings its actions that many times.
pub proof fn lemma_counted_repeat(repeat: Repeat, r: Result<Status, RunError>)
    requires
        repeat_run(repeat, r),
        repeat.count().value@.is_constant(),
    ensures
        r matches Ok(Status::NewSteps(steps)) && programs(trees_of(steps@)) == repeated(
            action_trees(repeat.models()),
            rounds_of(repeat.count().value@.constant()),
        ),
{
    let count = repeat.count().value@;
    lemma_constant_without_names(count);
    if r is Ok {
        let brought = programs(trees_of(r->Ok_0->NewSteps_0@));
        let times = choose|times: Value|
            count.may_give(times) && brought == repeated(
                action_trees(repeat.models()),
                #[trigger] rounds_of(times),
            );
        lemma_constant_gives(count, times);
    }
}

/// A pause that is under way never fails and marks no other turn: it goes
/// on with its mark, or is over and the mark is gone.
pub proof fn lemma_pause_under_way(wait: Wait, before: Mind, after: Mind, r: Result<Status, RunError>)
    requires
        wait_run(wait, before, after, r),
        before.next is Some,
    ensures
        r matches Ok(Status::End) ==> after == before,
        r matches Ok(Status::Continue) ==> after == (Mind { next: None, ..before }),
        r matches Ok(Status::End) || r matches Ok(Status::Continue),
{
}

/// In a horizontal game the horizontal part of an acceleration drives the
/// speed along `y`: an acceleration without a vertical part that is begun
/// leaves nothing in the slot for `x`.
pub proof fn lemma_horizontal_swap(accel: Accel, before: Mind, after: Mind, r: Result<Status, RunError>)
    requires
        accel_run(accel, before, after, r),
        before.orientation == Orientation::Horizontal,
        accel.vertical is None,
        r is Ok,
    ensures
        after.accel_x is None,
{
}

/// A change of speed that is past its turns gives its last value once and
/// leaves its slot: nothing is under way after it.
pub proof fn lemma_change_ends(
    before: Mind,
    sent: Seq<Command>,
    turn: u32,
    after: Mind,
    after_sent: Seq<Command>,
    f: Function,
)
    requires
        functions_run(before, sent, turn, after, after_sent),
        before.change_speed == Some(f),
        before.change_dir is None,
        before.accel_x is None,
        before.accel_y is None,
        !f.spec_is_in_domain(turn),
    ensures
        after_sent == sent.push(Command::ChangeSpeed(f.end)),
        !after.changing(),
{
    assert(after_sent =~= sent.push(Command::ChangeSpeed(f.end)));
}

/// A step after which a turn goes on tells the host nothing, but for a fire,
/// which has it make one bullet.
pub proof fn lemma_step_sends(a: Moment, b: Moment)
    requires
        stepped(a, b),
    ensures
        a.walk.cursor().focus.value is Fire ==> exists|made: Command|
            b.sent == #[trigger] a.sent.push(made) && (made is New || made is NewSimple),
        !(a.walk.cursor().focus.value is Fire) ==> b.sent == a.sent,
{
    let ran = choose|ran: Result<Status, RunError>| #[trigger]
        node_run(a.walk.cursor().focus.value, a.mind, a.sent, b.mind, b.sent, ran) && went_on(
            a.walk,
            ran,
            b.walk,
        );
    match a.walk.cursor().focus.value {
        NodeStep::Fire(handle) => {
            let fire = held(handle);
            let read = choose|read: FireReadings| #[trigger]
                fire_done(fire, a.mind, a.sent, read, b.mind, b.sent);
            let made = spec_shot(
                fire.bullet.actions@.len() == 0,
                fire_direction(fire, a.mind, read),
                fire_speed(fire, a.mind, read),
            );
            assert(b.sent == a.sent.push(made));
        },
        _ => {},
    }
}

/// The turn of a run that stands on its last step, a fire that states no
/// direction and no speed and whose bullet states none, while no change over
/// time is under way: one bullet is fired towards the player at the usual
/// speed of the host, nothing else is sent, and the walk is over.
pub proof fn lemma_last_fire(
    start: Moment,
    turn: u32,
    trail: Seq<Moment>,
    end: Moment,
    r: Result<bool, RunError>,
    fire: Fire,
)
    requires
        ticked(start, turn, trail, end, r),
        !start.mind.changing(),
        start.walk.started(),
        !start.walk.finished(),
        start.walk.cursor().focus.value matches NodeStep::Fire(held) && *held == fire,
        start.walk.cursor().successor() is None,
        fire.direction is None,
        fire.speed is None,
        fire.bullet.direction is None,
        fire.bullet.speed is None,
    ensures
        r == Ok::<bool, RunError>(true),
        end.walk.finished(),
        ({
            let simple = fire.bullet.actions@.len() == 0;
            exists|aim: Value, usual: Value|
                end.sent == start.sent.push(#[trigger] spec_shot(simple, aim, usual)) && end.mind
                    == (Mind { prev_dir: Some(aim), prev_speed: Some(usual), ..start.mind })
        }),
{
    let first = trail[0];
    assert(first.sent =~= start.sent);
    assert(first.mind == start.mind);
    assert(start.walk.cursor().refocus(start.walk.cursor().focus) == start.walk.cursor());
    assert(trail.len() > 1);
    assert(linked(trail, 0));
    let second = trail[1];
    assert(second.walk.finished());
    if trail.len() > 2 {
        assert(linked(trail, 1));
    }
    let ran = choose|ran: Result<Status, RunError>| #[trigger]
        node_run(first.walk.cursor().focus.value, first.mind, first.sent, second.mind, second.sent, ran)
            && went_on(first.walk, ran, second.walk);
    lemma_fire_by_default(fire, first.mind, first.sent, second.mind, second.sent, ran);
}

/// The turn of a run that stands on a pause that has not begun, while no
/// change over time is under way: nothing is sent and the walk stays on the
/// pause. Where the turn goes well, the pause has marked the turn at which
/// its frames are over.
pub proof fn lemma_pause_begins(
    start: Moment,
    turn: u32,
    trail: Seq<Moment>,
    end: Moment,
    r: Result<bool, RunError>,
)
    requires
        ticked(start, turn, trail, end, r),
        !start.mind.changing(),
        !start.walk.finished(),
        start.walk.cursor().focus.value is Wait,
        start.mind.next is None,
    ensures
        end.sent == start.sent,
        same_place(end.walk, start.walk),
        r is Ok ==> r == Ok::<bool, RunError>(true) && end.mind.next is Some,
        r is Err ==> end.mind == start.mind,
{
    let first = trail[0];
    assert(first.sent =~= start.sent);
    assert(first.mind == start.mind);
    if trail.len() > 1 {
        assert(linked(trail, 0));
    }
}

} // verus!
