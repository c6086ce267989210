//! How much of a run is left: a measure that every step of a run brings
//! down, though a repetition learns only when it is run how often it runs.

use crate::run::compile::{
    action_tree, action_trees, program, programs, repeated, step_tree, ActionModel, NodeModel,
    NodeStep, StepModel,
};
use crate::run::zipper::{lemma_descend_ascend, Cursor, Frame, Tree, ZipperIter};
use vstd::prelude::*;

verus! {

/// What is left to do. Nothing; one step and what is left after it; or a
/// repetition, after which what is left depends on how often it runs.
pub enum Effort {
    Done,
    Step(Box<Effort>),
    Rounds(spec_fn(nat) -> Effort),
}

/// Whether `now` is what `before` was, or less.
pub open spec fn no_more(now: Effort, before: Effort) -> bool {
    now == before || decreases_to!(before => now)
}

/// What is left before an action is run, if `then` is left after it: the
/// step into the action, and its steps.
pub open spec fn action_effort(action: ActionModel, then: Effort) -> Effort
    decreases action, 0nat, 0nat,
{
    Effort::Step(Box::new(steps_effort(action.steps, then)))
}

/// What is left before a list of steps is run.
pub open spec fn steps_effort(steps: Seq<StepModel>, then: Effort) -> Effort
    decreases steps, 0nat, 0nat,
{
    if steps.len() == 0 {
        then
    } else {
        step_effort(steps.first(), steps_effort(steps.drop_first(), then))
    }
}

/// What is left before a step is run.
pub open spec fn step_effort(step: StepModel, then: Effort) -> Effort
    decreases step, 0nat, 0nat,
{
    match step {
        StepModel::Repeat { actions, .. } => Effort::Rounds(
            |n: nat| rounds_effort(actions, n, then),
        ),
        StepModel::Action(action) => action_effort(action, then),
        _ => Effort::Step(Box::new(then)),
    }
}

/// What is left before a list of actions is run `n` times over.
pub open spec fn rounds_effort(actions: Seq<ActionModel>, n: nat, then: Effort) -> Effort
    decreases actions, 1nat, n,
{
    if n == 0 {
        then
    } else {
        rounds_effort(actions, (n - 1) as nat, actions_effort(actions, then))
    }
}

/// What is left before a list of actions is run.
pub open spec fn actions_effort(actions: Seq<ActionModel>, then: Effort) -> Effort
    decreases actions, 0nat, 0nat,
{
    if actions.len() == 0 {
        then
    } else {
        action_effort(actions.first(), actions_effort(actions.drop_first(), then))
    }
}

/// What is left before the node at the root of a tree is run: the node, what
/// it has below it, and for a repetition what it brings.
pub open spec fn tree_effort(tree: Tree<NodeModel>, then: Effort) -> Effort
    decreases tree,
{
    match tree.value {
        NodeModel::Repeat { actions, .. } => Effort::Rounds(
            |n: nat| forest_effort(tree.kids, rounds_effort(actions, n, then)),
        ),
        _ => Effort::Step(Box::new(forest_effort(tree.kids, then))),
    }
}

/// What is left before a list of trees is run.
pub open spec fn forest_effort(forest: Seq<Tree<NodeModel>>, then: Effort) -> Effort
    decreases forest,
{
    if forest.len() == 0 {
        then
    } else {
        tree_effort(forest.first(), forest_effort(forest.drop_first(), then))
    }
}

/// The trees of a list of steps.
pub open spec fn step_trees(steps: Seq<StepModel>) -> Seq<Tree<NodeModel>> {
    Seq::new(steps.len(), |i: int| step_tree(steps[i]))
}

/// Running one list of trees after another leaves what both leave.
pub proof fn lemma_forest_effort_concat(
    a: Seq<Tree<NodeModel>>,
    b: Seq<Tree<NodeModel>>,
    then: Effort,
)
    ensures
        forest_effort(a + b, then) == forest_effort(a, forest_effort(b, then)),
    decreases a.len(),
{
    if a.len() == 0 {
        assert(a + b =~= b);
    } else {
        assert((a + b).first() == a.first());
        assert((a + b).drop_first() =~= a.drop_first() + b);
        lemma_forest_effort_concat(a.drop_first(), b, then);
    }
}

/// The tree of a step leaves what the step leaves.
pub proof fn lemma_step_tree_effort(step: StepModel, then: Effort)
    ensures
        tree_effort(step_tree(step), then) == step_effort(step, then),
    decreases step, 0nat,
{
    match step {
        StepModel::Repeat { actions, .. } => {
            let tree = step_tree(step);
            let by_tree = tree_effort(tree, then);
            let by_step = step_effort(step, then);
            assert(tree.kids.len() == 0);
            assert(tree.value matches NodeModel::Repeat { actions: a, .. } && a == actions);
            assert(by_tree is Rounds);
            assert(by_step is Rounds);
            let f = by_tree->Rounds_0;
            let g = by_step->Rounds_0;
            assert forall|n: nat| #[trigger] f(n) == g(n) by {
                assert(forest_effort(tree.kids, rounds_effort(actions, n, then)) == rounds_effort(
                    actions,
                    n,
                    then,
                ));
            }
            assert(f =~= g);
        },
        StepModel::Action(action) => {
            lemma_action_tree_effort(action, then);
        },
        _ => {
            assert(step_tree(step).kids.len() == 0);
        },
    }
}

/// The tree of an action leaves what the action leaves.
pub proof fn lemma_action_tree_effort(action: ActionModel, then: Effort)
    ensures
        tree_effort(action_tree(action), then) == action_effort(action, then),
    decreases action, 0nat,
{
    assert(action_tree(action).kids =~= step_trees(action.steps));
    lemma_step_trees_effort(action.steps, then);
}

/// The trees of a list of steps leave what the steps leave.
pub proof fn lemma_step_trees_effort(steps: Seq<StepModel>, then: Effort)
    ensures
        forest_effort(step_trees(steps), then) == steps_effort(steps, then),
    decreases steps, 0nat,
{
    if steps.len() > 0 {
        let rest = steps_effort(steps.drop_first(), then);
        lemma_step_trees_effort(steps.drop_first(), then);
        lemma_step_tree_effort(steps.first(), rest);
        assert(step_trees(steps).first() == step_tree(steps.first()));
        assert(step_trees(steps).drop_first() =~= step_trees(steps.drop_first()));
    }
}

/// The trees of a list of actions leave what the actions leave.
pub proof fn lemma_action_trees_effort(actions: Seq<ActionModel>, then: Effort)
    ensures
        forest_effort(action_trees(actions), then) == actions_effort(actions, then),
    decreases actions.len(),
{
    if actions.len() > 0 {
        let rest = actions_effort(actions.drop_first(), then);
        lemma_action_trees_effort(actions.drop_first(), then);
        lemma_action_tree_effort(actions.first(), rest);
        assert(action_trees(actions).first() == action_tree(actions.first()));
        assert(action_trees(actions).drop_first() =~= action_trees(actions.drop_first()));
    }
}

/// The trees of a list of actions, `n` times over, leave what `n` rounds of
/// the actions leave.
pub proof fn lemma_rounds_effort(actions: Seq<ActionModel>, n: nat, then: Effort)
    ensures
        forest_effort(repeated(action_trees(actions), n), then) == rounds_effort(actions, n, then),
    decreases n,
{
    if n > 0 {
        let round = action_trees(actions);
        lemma_forest_effort_concat(repeated(round, (n - 1) as nat), round, then);
        lemma_action_trees_effort(actions, then);
        lemma_rounds_effort(actions, (n - 1) as nat, actions_effort(actions, then));
    }
}

/// What is left once the subtree in focus is done: the later siblings, and
/// what is left once the parent's subtree is done.
pub open spec fn frames_effort(above: Seq<Frame<NodeStep>>) -> Effort
    decreases above.len(),
{
    if above.len() == 0 {
        Effort::Done
    } else {
        forest_effort(programs(above.last().after), frames_effort(above.drop_last()))
    }
}

/// What is left before the node in focus is run.
pub open spec fn place_effort(place: Cursor<NodeStep>) -> Effort {
    tree_effort(program(place.focus), frames_effort(place.above))
}

/// What is left once the node in focus has been run.
pub open spec fn after_effort(place: Cursor<NodeStep>) -> Effort {
    forest_effort(programs(place.focus.kids), frames_effort(place.above))
}

/// What is left before a walk begins: the node it begins on is run twice,
/// once before the walk has begun and once when it has.
pub open spec fn first_effort(place: Cursor<NodeStep>) -> Effort {
    match program(place.focus).value {
        NodeModel::Repeat { actions, .. } => Effort::Rounds(
            |n: nat|
                tree_effort(
                    program(place.focus).with_children(repeated(action_trees(actions), n)),
                    frames_effort(place.above),
                ),
        ),
        _ => Effort::Step(Box::new(place_effort(place))),
    }
}

/// What is left of a walk.
pub open spec fn walk_effort(walk: ZipperIter<NodeStep>) -> Effort {
    if walk.finished() {
        Effort::Done
    } else if walk.started() {
        place_effort(walk.cursor())
    } else {
        first_effort(walk.cursor())
    }
}

/// The trees of the later steps are the later trees of the steps.
pub proof fn lemma_programs_rest(trees: Seq<Tree<NodeStep>>)
    requires
        trees.len() > 0,
    ensures
        programs(trees).first() == program(trees.first()),
        programs(trees).drop_first() == programs(trees.drop_first()),
{
    assert(programs(trees).drop_first() =~= programs(trees.drop_first()));
}

/// What is left once the subtree in focus is done is what is left before
/// the place that follows it, and nothing where no place follows.
pub proof fn lemma_onward_effort(place: Cursor<NodeStep>)
    ensures
        match place.onward() {
            Some(next) => place_effort(next) == frames_effort(place.above),
            None => frames_effort(place.above) == Effort::Done,
        },
    decreases place.above.len(),
{
    if place.above.len() > 0 {
        let frame = place.above.last();
        let up = place.ascend();
        if frame.after.len() > 0 {
            let i = frame.before.len() as int;
            let kids = up.focus.kids;
            let next = up.descend(i + 1);
            lemma_descend_ascend(up, i + 1);
            assert(kids[i + 1] == frame.after.first());
            assert(kids.subrange(i + 2, kids.len() as int) =~= frame.after.drop_first());
            assert(next.above.last().after == frame.after.drop_first());
            assert(next.above.drop_last() =~= up.above);
            lemma_programs_rest(frame.after);
        } else {
            assert(programs(frame.after).len() == 0);
            lemma_onward_effort(up);
        }
    }
}

/// What is left once the node in focus has been run is what is left before
/// the place that follows it, and nothing where no place follows.
pub proof fn lemma_successor_effort(place: Cursor<NodeStep>)
    ensures
        match place.successor() {
            Some(next) => place_effort(next) == after_effort(place),
            None => after_effort(place) == Effort::Done,
        },
{
    let kids = place.focus.kids;
    if kids.len() > 0 {
        let next = place.descend(0);
        lemma_descend_ascend(place, 0);
        assert(next.above.drop_last() =~= place.above);
        assert(kids.subrange(1, kids.len() as int) =~= kids.drop_first());
        lemma_programs_rest(kids);
    } else {
        assert(programs(kids).len() == 0);
        lemma_onward_effort(place);
    }
}

/// What a node holds after it has been run: what it held, and for a
/// repetition that ran `rounds` times the trees that it brought.
pub open spec fn run_node(before: Tree<NodeModel>, rounds: Option<nat>) -> Tree<NodeModel> {
    match (before.value, rounds) {
        (NodeModel::Repeat { actions, .. }, Some(n)) => before.with_children(
            repeated(action_trees(actions), n),
        ),
        _ => before,
    }
}

/// One step of a run brings down what is left: the node in focus is run,
/// then the walk moves on.
pub proof fn lemma_step_brings_down(
    before: ZipperIter<NodeStep>,
    run: ZipperIter<NodeStep>,
    after: ZipperIter<NodeStep>,
    rounds: Option<nat>,
)
    requires
        !before.finished(),
        !run.finished(),
        run.started() == before.started(),
        run.cursor().above == before.cursor().above,
        program(run.cursor().focus) == run_node(program(before.cursor().focus), rounds),
        rounds is Some == program(before.cursor().focus).value is Repeat,
        after.started(),
        !run.started() ==> after.cursor() == run.cursor() && !after.finished(),
        run.started() ==> (match run.cursor().successor() {
            Some(place) => after.cursor() == place && !after.finished(),
            None => after.finished(),
        }),
    ensures
        decreases_to!(walk_effort(before) => walk_effort(after)),
{
    let start = before.cursor();
    let place = run.cursor();
    let beyond = frames_effort(start.above);
    let node = program(start.focus);
    let left = walk_effort(before);
    if before.started() {
        lemma_successor_effort(place);
        assert(walk_effort(after) == after_effort(place));
        assert(programs(place.focus.kids) =~= program(place.focus).kids);
        match node.value {
            NodeModel::Repeat { actions, .. } => {
                let n = rounds.unwrap();
                let brought = repeated(action_trees(actions), n);
                lemma_forest_effort_concat(node.kids, brought, beyond);
                lemma_rounds_effort(actions, n, beyond);
                assert(after_effort(place) == (left->Rounds_0)(n));
                assert(decreases_to!(left => (left->Rounds_0)(n)));
            },
            _ => {
                assert(programs(start.focus.kids) =~= node.kids);
                assert(after_effort(place) == *left->Step_0);
                assert(decreases_to!(left => left->Step_0));
            },
        }
    } else {
        assert(walk_effort(after) == place_effort(place));
        match node.value {
            NodeModel::Repeat { actions, .. } => {
                let n = rounds.unwrap();
                assert(place_effort(place) == (left->Rounds_0)(n));
                assert(decreases_to!(left => (left->Rounds_0)(n)));
            },
            _ => {
                assert(place_effort(place) == *left->Step_0);
                assert(decreases_to!(left => left->Step_0));
            },
        }
    }
}

} // verus!
