//! Steps that cannot fail, and turns that run nothing else.
//!
//! A step fails where one of its expressions refers to a variable that the
//! host does not know, or where it counts turns past the last one. A step
//! is sure when it does neither: the root of an action, a fire and a
//! repetition whose expressions refer to no variable by name, and the step
//! that makes the bullet vanish. A turn of a run goes well where every step
//! that lies ahead of its walk is sure.

use crate::run::compile::{
    action_tree, action_trees, program, programs, repeated, script_tree, step_tree, ActionModel,
    FireModel, NodeModel, NodeStep, StepModel,
};
use crate::run::runner::{linked, node_run, ticked, went_on, Moment, RunError, Status};
use crate::run::zipper::{trees_of, Cursor, Frame, Tree, ZipperIter};
use vstd::prelude::*;

verus! {

/// Whether no expression of a fire refers to a variable by name.
pub open spec fn sure_fire(fire: FireModel) -> bool {
    &&& fire.direction matches Some(d) ==> !d.degrees@.has_names()
    &&& fire.speed matches Some(s) ==> !s.change@.has_names()
    &&& fire.bullet.direction matches Some(d) ==> !d.degrees@.has_names()
    &&& fire.bullet.speed matches Some(s) ==> !s.change@.has_names()
}

/// Whether every step of an action is sure.
pub open spec fn sure_action(action: ActionModel) -> bool
    decreases action,
{
    forall|i: int| 0 <= i < action.steps.len() ==> sure_step(#[trigger] action.steps[i])
}

/// Whether a step is sure, and every step that it brings.
pub open spec fn sure_step(step: StepModel) -> bool
    decreases step,
{
    match step {
        StepModel::Repeat { times, actions } => !times.value@.has_names() && forall|i: int|
            0 <= i < actions.len() ==> sure_action(#[trigger] actions[i]),
        StepModel::Fire(fire) => sure_fire(fire),
        StepModel::Vanish(_) => true,
        StepModel::Action(action) => sure_action(action),
        _ => false,
    }
}

/// Whether what a node holds is sure, and every step that it brings.
pub open spec fn sure_node(node: NodeModel) -> bool {
    match node {
        NodeModel::Root => true,
        NodeModel::Repeat { times, actions } => !times.value@.has_names() && forall|i: int|
            0 <= i < actions.len() ==> sure_action(#[trigger] actions[i]),
        NodeModel::Fire(fire) => sure_fire(fire),
        NodeModel::Vanish(_) => true,
        _ => false,
    }
}

/// Whether every node of a tree is sure.
pub open spec fn sure_tree(tree: Tree<NodeModel>) -> bool
    decreases tree,
{
    sure_node(tree.value) && forall|i: int|
        0 <= i < tree.kids.len() ==> sure_tree(#[trigger] tree.kids[i])
}

/// Whether every node of a list of trees is sure.
pub open spec fn sure_forest(forest: Seq<Tree<NodeModel>>) -> bool {
    forall|i: int| 0 <= i < forest.len() ==> sure_tree(#[trigger] forest[i])
}

/// Whether every node is sure that follows the subtree in focus: the later
/// siblings of the focus and of the nodes above it.
pub open spec fn sure_beyond(above: Seq<Frame<NodeStep>>) -> bool {
    forall|k: int| 0 <= k < above.len() ==> sure_forest(programs((#[trigger] above[k]).after))
}

/// Whether every node is sure that lies ahead of a place: the node in focus,
/// what is below it, and what follows.
pub open spec fn sure_ahead(place: Cursor<NodeStep>) -> bool {
    sure_tree(program(place.focus)) && sure_beyond(place.above)
}

/// Whether every node is sure that lies ahead of a walk.
pub open spec fn sure_walk(walk: ZipperIter<NodeStep>) -> bool {
    walk.finished() || sure_ahead(walk.cursor())
}

/// The tree of a sure step is sure.
pub proof fn lemma_sure_step_tree(step: StepModel)
    requires
        sure_step(step),
    ensures
        sure_tree(step_tree(step)),
    decreases step, 0nat,
{
    match step {
        StepModel::Action(action) => {
            lemma_sure_action_tree(action);
        },
        _ => {},
    }
}

/// The tree of a sure action is sure.
pub proof fn lemma_sure_action_tree(action: ActionModel)
    requires
        sure_action(action),
    ensures
        sure_tree(action_tree(action)),
    decreases action, 1nat,
{
    let tree = action_tree(action);
    assert forall|i: int| 0 <= i < tree.kids.len() implies sure_tree(#[trigger] tree.kids[i]) by {
        lemma_sure_step_tree(action.steps[i]);
    }
}

/// The trees that a sure repetition brings are sure.
pub proof fn lemma_sure_rounds(actions: Seq<ActionModel>, n: nat)
    requires
        forall|i: int| 0 <= i < actions.len() ==> sure_action(#[trigger] actions[i]),
    ensures
        sure_forest(repeated(action_trees(actions), n)),
    decreases n,
{
    if n > 0 {
        let round = action_trees(actions);
        let earlier = repeated(round, (n - 1) as nat);
        lemma_sure_rounds(actions, (n - 1) as nat);
        assert forall|i: int| 0 <= i < round.len() implies sure_tree(#[trigger] round[i]) by {
            lemma_sure_action_tree(actions[i]);
        }
        assert(sure_forest(earlier + round));
    }
}

/// The tree of a script is sure where its top-level actions are.
pub proof fn lemma_sure_script(tops: Seq<ActionModel>)
    requires
        forall|i: int| 0 <= i < tops.len() ==> sure_action(#[trigger] tops[i]),
    ensures
        sure_tree(script_tree(tops)),
{
    let tree = script_tree(tops);
    assert forall|i: int| 0 <= i < tree.kids.len() implies sure_tree(#[trigger] tree.kids[i]) by {
        lemma_sure_action_tree(tops[i]);
    }
}

/// What follows a subtree lies ahead of it: the place that follows is sure
/// where the later siblings are.
pub proof fn lemma_sure_onward(place: Cursor<NodeStep>)
    requires
        sure_beyond(place.above),
    ensures
        place.onward() matches Some(next) ==> sure_ahead(next),
    decreases place.above.len(),
{
    if place.above.len() > 0 {
        let frame = place.above.last();
        let up = place.ascend();
        assert forall|k: int| 0 <= k < up.above.len() implies sure_forest(
            programs((#[trigger] up.above[k]).after),
        ) by {
            assert(up.above[k] == place.above[k]);
        }
        if frame.after.len() > 0 {
            let at = frame.before.len() as int + 1;
            let next = up.descend(at);
            let later = programs(frame.after);
            assert(sure_forest(later));
            assert(next.focus == frame.after[0]);
            assert(later[0] == program(frame.after[0]));
            assert forall|k: int| 0 <= k < next.above.len() implies sure_forest(
                programs((#[trigger] next.above[k]).after),
            ) by {
                if k < up.above.len() {
                    assert(next.above[k] == place.above[k]);
                } else {
                    let rest = programs(next.above[k].after);
                    assert(next.above[k].after =~= frame.after.subrange(
                        1,
                        frame.after.len() as int,
                    ));
                    assert forall|j: int| 0 <= j < rest.len() implies sure_tree(
                        #[trigger] rest[j],
                    ) by {
                        assert(rest[j] == later[j + 1]);
                    }
                }
            }
        } else {
            lemma_sure_onward(up);
        }
    }
}

/// What follows a node lies ahead of it.
pub proof fn lemma_sure_successor(place: Cursor<NodeStep>)
    requires
        sure_ahead(place),
    ensures
        place.successor() matches Some(next) ==> sure_ahead(next),
{
    if place.focus.kids.len() > 0 {
        let next = place.descend(0);
        let below = program(place.focus);
        assert(below.kids[0] == program(place.focus.kids[0]));
        assert forall|k: int| 0 <= k < next.above.len() implies sure_forest(
            programs((#[trigger] next.above[k]).after),
        ) by {
            if k < place.above.len() {
                assert(next.above[k] == place.above[k]);
            } else {
                let rest = programs(next.above[k].after);
                assert forall|j: int| 0 <= j < rest.len() implies sure_tree(#[trigger] rest[j]) by {
                    assert(rest[j] == below.kids[j + 1]);
                }
            }
        }
    } else {
        lemma_sure_onward(place);
    }
}

/// A number of rounds that gives the trees that a repetition brought, where
/// there is one.
pub open spec fn rounds_reached(brought: Seq<Tree<NodeModel>>, node: NodeModel) -> nat {
    choose|n: nat| brought == repeated(action_trees(node->Repeat_actions), n)
}

/// A step of a turn keeps what lies ahead sure.
pub proof fn lemma_sure_step(a: Moment, b: Moment, ran: Result<Status, RunError>)
    requires
        !a.walk.finished(),
        sure_ahead(a.walk.cursor()),
        node_run(a.walk.cursor().focus.value, a.mind, a.sent, b.mind, b.sent, ran),
        went_on(a.walk, ran, b.walk),
    ensures
        sure_walk(b.walk),
{
    let place = a.walk.cursor();
    let focus = match ran {
        Ok(Status::NewSteps(steps)) => place.focus.with_children(trees_of(steps@)),
        _ => place.focus,
    };
    let run = place.refocus(focus);
    match ran {
        Ok(Status::NewSteps(steps)) => {
            let before = program(place.focus);
            let after = program(focus);
            let brought = programs(trees_of(steps@));
            assert(place.focus.value is Repeat);
            assert(after.kids =~= before.kids + brought);
            lemma_sure_rounds(before.value->Repeat_actions, rounds_reached(brought, before.value));
            assert forall|i: int| 0 <= i < after.kids.len() implies sure_tree(
                #[trigger] after.kids[i],
            ) by {
                if i < before.kids.len() {
                    assert(after.kids[i] == before.kids[i]);
                } else {
                    assert(after.kids[i] == brought[i - before.kids.len()]);
                }
            }
        },
        _ => {},
    }
    assert(sure_ahead(run));
    lemma_sure_successor(run);
}

/// Every moment of a turn has only sure steps ahead, where the first has.
pub proof fn lemma_sure_trail(trail: Seq<Moment>, i: int)
    requires
        0 <= i < trail.len(),
        sure_walk(trail[0].walk),
        forall|k: int| 0 <= k < trail.len() - 1 ==> #[trigger] linked(trail, k),
    ensures
        sure_walk(trail[i].walk),
    decreases i,
{
    if i > 0 {
        lemma_sure_trail(trail, i - 1);
        assert(linked(trail, i - 1));
        let a = trail[i - 1];
        let b = trail[i];
        let ran = choose|ran: Result<Status, RunError>| #[trigger]
            node_run(a.walk.cursor().focus.value, a.mind, a.sent, b.mind, b.sent, ran) && went_on(
                a.walk,
                ran,
                b.walk,
            );
        lemma_sure_step(a, b, ran);
    }
}

/// A turn goes well where every step that lies ahead of the walk is sure:
/// no step that it runs can fail.
pub proof fn lemma_sure_turn(
    start: Moment,
    turn: u32,
    trail: Seq<Moment>,
    end: Moment,
    r: Result<bool, RunError>,
)
    requires
        ticked(start, turn, trail, end, r),
        sure_walk(start.walk),
    ensures
        r is Ok,
        sure_walk(end.walk),
{
    lemma_sure_trail(trail, trail.len() - 1);
}

} // verus!
