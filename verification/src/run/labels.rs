//! What the labels of a script decide about its lowering: which names are
//! there afterwards, and which scripts cannot be lowered at all.

use crate::data;
use crate::data::EntityRef;
use crate::run::compile::{
    is_top, lower_action, lower_action_ref, lower_action_refs, lower_bullet, lower_bullet_ref,
    lower_elements, lower_fire, lower_fire_ref, lower_script, lower_step, lower_steps,
    lower_tops, referred, registered, script_tree, ActionModel, BulletModel, Fault, FireModel,
    Names, StepModel,
};
use std::rc::Rc;
use vstd::prelude::*;

verus! {

/// The entity behind a handle.
pub open spec fn held<T>(handle: Rc<T>) -> T {
    *handle
}

/// A reference to a label that has not been lowered is an error that tells
/// the label, whatever the kind of entity.
pub proof fn lemma_unresolved_reference<M>(names: Names, table: Map<Seq<char>, M>, label: Seq<char>)
    requires
        !table.dom().contains(label),
    ensures
        referred(names, table, label) == Err::<(Names, M), Fault>(Fault::CannotFind { label }),
{
}

/// Names that are kept twice over are kept.
pub proof fn lemma_within_twice(first: Names, second: Names, third: Names)
    requires
        first.within(second),
        second.within(third),
    ensures
        first.within(third),
{
    vstd::map_lib::lemma_submap_of_trans(first.actions, second.actions, third.actions);
    vstd::map_lib::lemma_submap_of_trans(first.bullets, second.bullets, third.bullets);
    vstd::map_lib::lemma_submap_of_trans(first.fires, second.fires, third.fires);
}

/// An entry keeps every name that was there, and what it stood for.
pub proof fn lemma_entry_keeps_names<M>(
    table: Map<Seq<char>, M>,
    label: Option<String>,
    model: M,
    kind: Seq<char>,
)
    ensures
        registered(table, label, model, kind) matches Ok(later) ==> table.submap_of(later),
{
}

/// Lowering an action keeps every name that was there, and what it stood
/// for.
pub proof fn lemma_action_keeps_names(names: Names, action: data::Action)
    ensures
        lower_action(names, action) matches Ok((later, _)) ==> names.within(later),
    decreases action, 0nat,
{
    lemma_steps_keep_names(names, action.steps@, 0, Seq::empty());
    if let Ok((mid, steps)) = lower_steps(names, action.steps@, 0, Seq::empty()) {
        let model = ActionModel { steps };
        lemma_entry_keeps_names(mid.actions, action.label, model, "action"@);
        if let Ok((later, _)) = lower_action(names, action) {
            assert(mid.within(later));
            lemma_within_twice(names, mid, later);
        }
    }
}

/// Lowering steps keeps every name that was there.
pub proof fn lemma_steps_keep_names(
    names: Names,
    steps: Seq<data::Step>,
    from: int,
    done: Seq<StepModel>,
)
    ensures
        lower_steps(names, steps, from, done) matches Ok((later, _)) ==> names.within(later),
    decreases steps, steps.len() - from,
{
    if 0 <= from < steps.len() {
        lemma_step_keeps_names(names, steps[from]);
        if let Ok((next, step)) = lower_step(names, steps[from]) {
            lemma_steps_keep_names(next, steps, from + 1, done.push(step));
            if let Ok((later, _)) = lower_steps(next, steps, from + 1, done.push(step)) {
                lemma_within_twice(names, next, later);
            }
        }
    }
}

/// Lowering a step keeps every name that was there.
pub proof fn lemma_step_keeps_names(names: Names, step: data::Step)
    ensures
        lower_step(names, step) matches Ok((later, _)) ==> names.within(later),
    decreases step, 0nat,
{
    match step {
        data::Step::Repeat(repeat) => {
            lemma_action_refs_keep_names(names, repeat.actions@, 0, Seq::empty());
        },
        data::Step::Fire(fire) => {
            lemma_fire_ref_keeps_names(names, fire);
        },
        data::Step::Action(action) => {
            lemma_action_ref_keeps_names(names, action);
        },
        _ => {},
    }
}

/// Lowering what stands for an action keeps every name that was there.
pub proof fn lemma_action_ref_keeps_names(names: Names, action: EntityRef<data::Action>)
    ensures
        lower_action_ref(names, action) matches Ok((later, _)) ==> names.within(later),
    decreases action, 0nat,
{
    match action {
        EntityRef::Real(entity) => {
            lemma_action_keeps_names(names, held(entity));
        },
        EntityRef::Ref(_) => {},
    }
}

/// Lowering a list of actions keeps every name that was there.
pub proof fn lemma_action_refs_keep_names(
    names: Names,
    actions: Seq<EntityRef<data::Action>>,
    from: int,
    done: Seq<ActionModel>,
)
    ensures
        lower_action_refs(names, actions, from, done) matches Ok((later, _)) ==> names.within(
            later,
        ),
    decreases actions, actions.len() - from,
{
    if 0 <= from < actions.len() {
        lemma_action_ref_keeps_names(names, actions[from]);
        if let Ok((next, action)) = lower_action_ref(names, actions[from]) {
            lemma_action_refs_keep_names(next, actions, from + 1, done.push(action));
            if let Ok((later, _)) = lower_action_refs(next, actions, from + 1, done.push(action)) {
                lemma_within_twice(names, next, later);
            }
        }
    }
}

/// Lowering a bullet keeps every name that was there.
pub proof fn lemma_bullet_keeps_names(names: Names, bullet: data::Bullet)
    ensures
        lower_bullet(names, bullet) matches Ok((later, _)) ==> names.within(later),
    decreases bullet, 0nat,
{
    lemma_action_refs_keep_names(names, bullet.actions@, 0, Seq::empty());
    if let Ok((mid, actions)) = lower_action_refs(names, bullet.actions@, 0, Seq::empty()) {
        let model = BulletModel { direction: bullet.direction, speed: bullet.speed, actions };
        lemma_entry_keeps_names(mid.bullets, bullet.label, model, "bullet"@);
        if let Ok((later, _)) = lower_bullet(names, bullet) {
            assert(mid.within(later));
            lemma_within_twice(names, mid, later);
        }
    }
}

/// Lowering what stands for a bullet keeps every name that was there.
pub proof fn lemma_bullet_ref_keeps_names(names: Names, bullet: EntityRef<data::Bullet>)
    ensures
        lower_bullet_ref(names, bullet) matches Ok((later, _)) ==> names.within(later),
    decreases bullet, 0nat,
{
    match bullet {
        EntityRef::Real(entity) => {
            lemma_bullet_keeps_names(names, held(entity));
        },
        EntityRef::Ref(_) => {},
    }
}

/// Lowering a fire keeps every name that was there.
pub proof fn lemma_fire_keeps_names(names: Names, fire: data::Fire)
    ensures
        lower_fire(names, fire) matches Ok((later, _)) ==> names.within(later),
    decreases fire, 0nat,
{
    lemma_bullet_ref_keeps_names(names, fire.bullet);
    if let Ok((mid, bullet)) = lower_bullet_ref(names, fire.bullet) {
        let model = FireModel { direction: fire.direction, speed: fire.speed, bullet };
        lemma_entry_keeps_names(mid.fires, fire.label, model, "fire"@);
        if let Ok((later, _)) = lower_fire(names, fire) {
            assert(mid.within(later));
            lemma_within_twice(names, mid, later);
        }
    }
}

/// Lowering what stands for a fire keeps every name that was there.
pub proof fn lemma_fire_ref_keeps_names(names: Names, fire: EntityRef<data::Fire>)
    ensures
        lower_fire_ref(names, fire) matches Ok((later, _)) ==> names.within(later),
    decreases fire, 0nat,
{
    match fire {
        EntityRef::Real(entity) => {
            lemma_fire_keeps_names(names, held(entity));
        },
        EntityRef::Ref(_) => {},
    }
}

/// A labelled action that is lowered is entered under its label, and an
/// action whose label is taken cannot be lowered.
pub proof fn lemma_action_label(names: Names, action: data::Action)
    requires
        action.label is Some,
    ensures
        lower_action(names, action) matches Ok((later, _)) ==> later.actions.dom().contains(
            action.label.unwrap()@,
        ),
        names.actions.dom().contains(action.label.unwrap()@) ==> lower_action(names, action)
            is Err,
{
    lemma_steps_keep_names(names, action.steps@, 0, Seq::empty());
}

/// A labelled bullet that is lowered is entered under its label, and a
/// bullet whose label is taken cannot be lowered.
pub proof fn lemma_bullet_label(names: Names, bullet: data::Bullet)
    requires
        bullet.label is Some,
    ensures
        lower_bullet(names, bullet) matches Ok((later, _)) ==> later.bullets.dom().contains(
            bullet.label.unwrap()@,
        ),
        names.bullets.dom().contains(bullet.label.unwrap()@) ==> lower_bullet(names, bullet)
            is Err,
{
    lemma_action_refs_keep_names(names, bullet.actions@, 0, Seq::empty());
}

/// A labelled fire that is lowered is entered under its label, and a fire
/// whose label is taken cannot be lowered.
pub proof fn lemma_fire_label(names: Names, fire: data::Fire)
    requires
        fire.label is Some,
    ensures
        lower_fire(names, fire) matches Ok((later, _)) ==> later.fires.dom().contains(
            fire.label.unwrap()@,
        ),
        names.fires.dom().contains(fire.label.unwrap()@) ==> lower_fire(names, fire) is Err,
{
    lemma_bullet_ref_keeps_names(names, fire.bullet);
}

/// Whether two elements are of one kind and carry the same label.
pub open spec fn same_name(a: data::Element, b: data::Element) -> bool {
    match (a, b) {
        (data::Element::Bullet(x), data::Element::Bullet(y)) => x.label is Some && y.label
            is Some && x.label.unwrap()@ == y.label.unwrap()@,
        (data::Element::Fire(x), data::Element::Fire(y)) => x.label is Some && y.label is Some
            && x.label.unwrap()@ == y.label.unwrap()@,
        (data::Element::Action(x), data::Element::Action(y)) => x.label is Some && y.label
            is Some && x.label.unwrap()@ == y.label.unwrap()@,
        _ => false,
    }
}

/// Whether an element is a top-level action.
pub open spec fn is_top_action(element: data::Element) -> bool {
    element matches data::Element::Action(action) && is_top(action.label)
}

/// Whether the label of an element that the first pass lowers is taken.
pub open spec fn name_taken(names: Names, element: data::Element) -> bool {
    match element {
        data::Element::Bullet(bullet) => bullet.label is Some && names.bullets.dom().contains(
            bullet.label.unwrap()@,
        ),
        data::Element::Fire(fire) => fire.label is Some && names.fires.dom().contains(
            fire.label.unwrap()@,
        ),
        data::Element::Action(action) => !is_top(action.label) && action.label is Some
            && names.actions.dom().contains(action.label.unwrap()@),
    }
}

/// The first pass fails where it comes to an element whose label is taken.
pub proof fn lemma_taken_name_fails(
    names: Names,
    elements: Seq<data::Element>,
    from: int,
    tops: Seq<Rc<data::Action>>,
    j: int,
)
    requires
        0 <= from <= j < elements.len(),
        name_taken(names, elements[j]),
    ensures
        lower_elements(names, elements, from, tops) is Err,
    decreases j - from,
{
    match elements[from] {
        data::Element::Bullet(bullet) => {
            lemma_bullet_keeps_names(names, held(bullet));
            if from == j {
                lemma_bullet_label(names, held(bullet));
            } else if let Ok((next, _)) = lower_bullet(names, held(bullet)) {
                lemma_taken_name_fails(next, elements, from + 1, tops, j);
            }
        },
        data::Element::Fire(fire) => {
            lemma_fire_keeps_names(names, held(fire));
            if from == j {
                lemma_fire_label(names, held(fire));
            } else if let Ok((next, _)) = lower_fire(names, held(fire)) {
                lemma_taken_name_fails(next, elements, from + 1, tops, j);
            }
        },
        data::Element::Action(action) => {
            if is_top_action(elements[from]) {
                lemma_taken_name_fails(names, elements, from + 1, tops.push(action), j);
            } else {
                lemma_action_keeps_names(names, held(action));
                if from == j {
                    lemma_action_label(names, held(action));
                } else if let Ok((next, _)) = lower_action(names, held(action)) {
                    lemma_taken_name_fails(next, elements, from + 1, tops, j);
                }
            }
        },
    }
}

/// The first pass fails where two of the elements that it lowers are of one
/// kind and carry the same label.
pub proof fn lemma_same_name_fails(
    names: Names,
    elements: Seq<data::Element>,
    from: int,
    tops: Seq<Rc<data::Action>>,
    i: int,
    j: int,
)
    requires
        0 <= from <= i < j < elements.len(),
        same_name(elements[i], elements[j]),
        !is_top_action(elements[i]),
    ensures
        lower_elements(names, elements, from, tops) is Err,
    decreases i - from,
{
    match elements[from] {
        data::Element::Bullet(bullet) => {
            if let Ok((next, _)) = lower_bullet(names, held(bullet)) {
                if from == i {
                    lemma_bullet_label(names, held(bullet));
                    lemma_taken_name_fails(next, elements, from + 1, tops, j);
                } else {
                    lemma_same_name_fails(next, elements, from + 1, tops, i, j);
                }
            }
        },
        data::Element::Fire(fire) => {
            if let Ok((next, _)) = lower_fire(names, held(fire)) {
                if from == i {
                    lemma_fire_label(names, held(fire));
                    lemma_taken_name_fails(next, elements, from + 1, tops, j);
                } else {
                    lemma_same_name_fails(next, elements, from + 1, tops, i, j);
                }
            }
        },
        data::Element::Action(action) => {
            if is_top_action(elements[from]) {
                lemma_same_name_fails(names, elements, from + 1, tops.push(action), i, j);
            } else if let Ok((next, _)) = lower_action(names, held(action)) {
                if from == i {
                    lemma_action_label(names, held(action));
                    lemma_taken_name_fails(next, elements, from + 1, tops, j);
                } else {
                    lemma_same_name_fails(next, elements, from + 1, tops, i, j);
                }
            }
        },
    }
}

/// The top-level actions among the elements from the `from`-th on, in the
/// order in which they stand.
pub open spec fn top_actions(elements: Seq<data::Element>, from: int) -> Seq<Rc<data::Action>>
    decreases elements.len() - from,
{
    if from < 0 || from >= elements.len() {
        Seq::empty()
    } else {
        match elements[from] {
            data::Element::Action(action) if is_top(action.label) => seq![action] + top_actions(
                elements,
                from + 1,
            ),
            _ => top_actions(elements, from + 1),
        }
    }
}

/// What the first pass sets aside is the top-level actions, and nothing
/// else.
pub proof fn lemma_set_aside(
    names: Names,
    elements: Seq<data::Element>,
    from: int,
    tops: Seq<Rc<data::Action>>,
)
    requires
        0 <= from,
    ensures
        lower_elements(names, elements, from, tops) matches Ok((_, aside)) ==> aside == tops
            + top_actions(elements, from),
    decreases elements.len() - from,
{
    if from < elements.len() {
        match elements[from] {
            data::Element::Bullet(bullet) => {
                if let Ok((next, _)) = lower_bullet(names, held(bullet)) {
                    lemma_set_aside(next, elements, from + 1, tops);
                }
            },
            data::Element::Fire(fire) => {
                if let Ok((next, _)) = lower_fire(names, held(fire)) {
                    lemma_set_aside(next, elements, from + 1, tops);
                }
            },
            data::Element::Action(action) => {
                if is_top_action(elements[from]) {
                    lemma_set_aside(names, elements, from + 1, tops.push(action));
                    assert(tops.push(action) + top_actions(elements, from + 1) =~= tops
                        + top_actions(elements, from));
                } else if let Ok((next, _)) = lower_action(names, held(action)) {
                    lemma_set_aside(next, elements, from + 1, tops);
                }
            },
        }
    } else {
        assert(tops + top_actions(elements, from) =~= tops);
    }
}

/// The second pass lowers one action for each that was set aside.
pub proof fn lemma_tops_count(
    names: Names,
    tops: Seq<Rc<data::Action>>,
    from: int,
    done: Seq<ActionModel>,
)
    requires
        0 <= from <= tops.len(),
    ensures
        lower_tops(names, tops, from, done) matches Ok((_, lowered)) ==> lowered.len()
            == done.len() + tops.len() - from,
    decreases tops.len() - from,
{
    if from < tops.len() {
        if let Ok((next, action)) = lower_action(names, held(tops[from])) {
            lemma_tops_count(next, tops, from + 1, done.push(action));
        }
    }
}

/// The second pass fails where it comes to an action whose label is taken.
pub proof fn lemma_taken_top_fails(
    names: Names,
    tops: Seq<Rc<data::Action>>,
    from: int,
    done: Seq<ActionModel>,
    q: int,
)
    requires
        0 <= from <= q < tops.len(),
        tops[q].label is Some,
        names.actions.dom().contains(tops[q].label.unwrap()@),
    ensures
        lower_tops(names, tops, from, done) is Err,
    decreases q - from,
{
    lemma_action_keeps_names(names, held(tops[from]));
    if from == q {
        lemma_action_label(names, held(tops[from]));
    } else if let Ok((next, action)) = lower_action(names, held(tops[from])) {
        lemma_taken_top_fails(next, tops, from + 1, done.push(action), q);
    }
}

/// The second pass fails where two of the actions carry the same label.
pub proof fn lemma_same_top_fails(
    names: Names,
    tops: Seq<Rc<data::Action>>,
    from: int,
    done: Seq<ActionModel>,
    p: int,
    q: int,
)
    requires
        0 <= from <= p < q < tops.len(),
        tops[p].label is Some,
        tops[q].label is Some,
        tops[p].label.unwrap()@ == tops[q].label.unwrap()@,
    ensures
        lower_tops(names, tops, from, done) is Err,
    decreases p - from,
{
    if let Ok((next, action)) = lower_action(names, held(tops[from])) {
        if from == p {
            lemma_action_label(names, held(tops[from]));
            lemma_taken_top_fails(next, tops, from + 1, done.push(action), q);
        } else {
            lemma_same_top_fails(next, tops, from + 1, done.push(action), p, q);
        }
    }
}

/// The number of top-level actions among the elements from `from` up to,
/// and without, the `to`-th.
pub open spec fn tops_between(elements: Seq<data::Element>, from: int, to: int) -> int
    decreases to - from,
{
    if from >= to {
        0
    } else if is_top_action(elements[from]) {
        1 + tops_between(elements, from + 1, to)
    } else {
        tops_between(elements, from + 1, to)
    }
}

/// A top-level action stands among the top-level actions at the place that
/// the count of those before it gives.
pub proof fn lemma_top_place(elements: Seq<data::Element>, from: int, i: int)
    requires
        0 <= from <= i < elements.len(),
        is_top_action(elements[i]),
    ensures
        0 <= tops_between(elements, from, i) < top_actions(elements, from).len(),
        data::Element::Action(top_actions(elements, from)[tops_between(elements, from, i)])
            == elements[i],
    decreases i - from,
{
    if from < i {
        lemma_top_place(elements, from + 1, i);
    }
}

/// Of two top-level actions the earlier stands earlier among them.
pub proof fn lemma_top_order(elements: Seq<data::Element>, from: int, i: int, j: int)
    requires
        0 <= from <= i < j < elements.len(),
        is_top_action(elements[i]),
    ensures
        tops_between(elements, from, i) < tops_between(elements, from, j),
    decreases i - from,
{
    if from < i {
        lemma_top_order(elements, from + 1, i, j);
    } else {
        lemma_count_bounds(elements, from + 1, i);
        lemma_count_bounds(elements, from + 1, j);
    }
}

/// A count of top-level actions is not negative.
pub proof fn lemma_count_bounds(elements: Seq<data::Element>, from: int, to: int)
    ensures
        0 <= tops_between(elements, from, to),
    decreases to - from,
{
    if from < to {
        lemma_count_bounds(elements, from + 1, to);
    }
}

/// A script in which two elements of one kind carry the same label cannot
/// be lowered.
pub proof fn lemma_duplicate_labels(script: data::BulletML, i: int, j: int)
    requires
        0 <= i < j < script.elements@.len(),
        same_name(script.elements@[i], script.elements@[j]),
    ensures
        lower_script(script) is Err,
{
    let elements = script.elements@;
    if is_top_action(elements[i]) {
        lemma_set_aside(Names::empty(), elements, 0, Seq::empty());
        if let Ok((names, tops)) = lower_elements(Names::empty(), elements, 0, Seq::empty()) {
            assert(tops =~= top_actions(elements, 0));
            assert(is_top_action(elements[j]));
            lemma_top_place(elements, 0, i);
            lemma_top_place(elements, 0, j);
            lemma_top_order(elements, 0, i, j);
            let p = tops_between(elements, 0, i);
            let q = tops_between(elements, 0, j);
            lemma_same_top_fails(names, tops, 0, Seq::empty(), p, q);
        }
    } else {
        lemma_same_name_fails(Names::empty(), elements, 0, Seq::empty(), i, j);
    }
}

/// The tree of a lowered script has one child for each action whose label
/// begins with `top`, and for no other element.
pub proof fn lemma_top_level_actions(script: data::BulletML)
    ensures
        lower_script(script) matches Ok(lowered) ==> lowered.len() == top_actions(
            script.elements@,
            0,
        ).len() && script_tree(lowered).kids.len() == top_actions(script.elements@, 0).len(),
{
    lemma_set_aside(Names::empty(), script.elements@, 0, Seq::empty());
    if let Ok((names, tops)) = lower_elements(
        Names::empty(),
        script.elements@,
        0,
        Seq::empty(),
    ) {
        assert(tops =~= top_actions(script.elements@, 0));
        lemma_tops_count(names, tops, 0, Seq::empty());
    }
}

/// The kinds of entities that go by a name.
pub enum Kind {
    Action,
    Bullet,
    Fire,
}

/// What is asked of the labels of a script, or of its references: whether
/// there is any at all, or one for a given label of a given kind.
pub enum Query {
    Any,
    Exactly(Kind, Seq<char>),
}

impl Query {
    /// Whether the label of an entity of `kind`, or a reference to it, is
    /// what is asked for.
    pub open spec fn hits(self, kind: Kind, label: Seq<char>) -> bool {
        match self {
            Query::Any => true,
            Query::Exactly(k, l) => k == kind && l == label,
        }
    }
}

/// Whether a lowered entity of `kind` goes by `label`.
pub open spec fn named(names: Names, kind: Kind, label: Seq<char>) -> bool {
    match kind {
        Kind::Action => names.actions.dom().contains(label),
        Kind::Bullet => names.bullets.dom().contains(label),
        Kind::Fire => names.fires.dom().contains(label),
    }
}

/// Whether none of the names is what is asked for.
pub open spec fn free_of(names: Names, q: Query) -> bool {
    forall|kind: Kind, label: Seq<char>| q.hits(kind, label) ==> !named(names, kind, label)
}

/// Whether the label of an entity of `kind` is what is asked for.
pub open spec fn label_hits(label: Option<String>, kind: Kind, q: Query) -> bool {
    label matches Some(name) && q.hits(kind, name@)
}

/// Whether an action, or an entity written down within it, carries a label
/// that is asked for.
pub open spec fn action_carries(action: data::Action, q: Query) -> bool
    decreases action, 0nat,
{
    label_hits(action.label, Kind::Action, q) || steps_carry(action.steps@, 0, q)
}

/// Whether an entity written down within the steps from the `from`-th on
/// carries a label that is asked for.
pub open spec fn steps_carry(steps: Seq<data::Step>, from: int, q: Query) -> bool
    decreases steps, steps.len() - from,
{
    0 <= from < steps.len() && (step_carries(steps[from], q) || steps_carry(steps, from + 1, q))
}

/// Whether an entity written down within a step carries a label that is
/// asked for.
pub open spec fn step_carries(step: data::Step, q: Query) -> bool
    decreases step, 0nat,
{
    match step {
        data::Step::Repeat(repeat) => action_refs_carry(repeat.actions@, 0, q),
        data::Step::Fire(fire) => fire_ref_carries(fire, q),
        data::Step::Action(action) => action_ref_carries(action, q),
        _ => false,
    }
}

/// Whether an action written in place, or an entity within it, carries a
/// label that is asked for.
pub open spec fn action_ref_carries(action: EntityRef<data::Action>, q: Query) -> bool
    decreases action, 0nat,
{
    match action {
        EntityRef::Real(entity) => action_carries(*entity, q),
        EntityRef::Ref(_) => false,
    }
}

/// Whether one of the actions from the `from`-th on carries a label that is
/// asked for.
pub open spec fn action_refs_carry(
    actions: Seq<EntityRef<data::Action>>,
    from: int,
    q: Query,
) -> bool
    decreases actions, actions.len() - from,
{
    0 <= from < actions.len() && (action_ref_carries(actions[from], q) || action_refs_carry(
        actions,
        from + 1,
        q,
    ))
}

/// Whether a bullet, or an entity written down within it, carries a label
/// that is asked for.
pub open spec fn bullet_carries(bullet: data::Bullet, q: Query) -> bool
    decreases bullet, 0nat,
{
    label_hits(bullet.label, Kind::Bullet, q) || action_refs_carry(bullet.actions@, 0, q)
}

/// Whether a bullet written in place, or an entity within it, carries a
/// label that is asked for.
pub open spec fn bullet_ref_carries(bullet: EntityRef<data::Bullet>, q: Query) -> bool
    decreases bullet, 0nat,
{
    match bullet {
        EntityRef::Real(entity) => bullet_carries(*entity, q),
        EntityRef::Ref(_) => false,
    }
}

/// Whether a fire, or an entity written down within it, carries a label
/// that is asked for.
pub open spec fn fire_carries(fire: data::Fire, q: Query) -> bool
    decreases fire, 0nat,
{
    label_hits(fire.label, Kind::Fire, q) || bullet_ref_carries(fire.bullet, q)
}

/// Whether a fire written in place, or an entity within it, carries a label
/// that is asked for.
pub open spec fn fire_ref_carries(fire: EntityRef<data::Fire>, q: Query) -> bool
    decreases fire, 0nat,
{
    match fire {
        EntityRef::Real(entity) => fire_carries(*entity, q),
        EntityRef::Ref(_) => false,
    }
}

/// Whether an element of a script, or an entity written down within it,
/// carries a label that is asked for.
pub open spec fn element_carries(element: data::Element, q: Query) -> bool {
    match element {
        data::Element::Bullet(bullet) => bullet_carries(*bullet, q),
        data::Element::Fire(fire) => fire_carries(*fire, q),
        data::Element::Action(action) => action_carries(*action, q),
    }
}

/// Whether a reference within an action is one that is asked for.
pub open spec fn action_refers(action: data::Action, q: Query) -> bool
    decreases action, 0nat,
{
    steps_refer(action.steps@, 0, q)
}

/// Whether a reference within the steps from the `from`-th on is one that is
/// asked for.
pub open spec fn steps_refer(steps: Seq<data::Step>, from: int, q: Query) -> bool
    decreases steps, steps.len() - from,
{
    0 <= from < steps.len() && (step_refers(steps[from], q) || steps_refer(steps, from + 1, q))
}

/// Whether a reference within a step is one that is asked for.
pub open spec fn step_refers(step: data::Step, q: Query) -> bool
    decreases step, 0nat,
{
    match step {
        data::Step::Repeat(repeat) => action_refs_refer(repeat.actions@, 0, q),
        data::Step::Fire(fire) => fire_ref_refers(fire, q),
        data::Step::Action(action) => action_ref_refers(action, q),
        _ => false,
    }
}

/// Whether what stands for an action is, or holds, a reference that is
/// asked for.
pub open spec fn action_ref_refers(action: EntityRef<data::Action>, q: Query) -> bool
    decreases action, 0nat,
{
    match action {
        EntityRef::Real(entity) => action_refers(*entity, q),
        EntityRef::Ref(refer) => q.hits(Kind::Action, refer.name()),
    }
}

/// Whether one of the actions from the `from`-th on is, or holds, a
/// reference that is asked for.
pub open spec fn action_refs_refer(
    actions: Seq<EntityRef<data::Action>>,
    from: int,
    q: Query,
) -> bool
    decreases actions, actions.len() - from,
{
    0 <= from < actions.len() && (action_ref_refers(actions[from], q) || action_refs_refer(
        actions,
        from + 1,
        q,
    ))
}

/// Whether a reference within a bullet is one that is asked for.
pub open spec fn bullet_refers(bullet: data::Bullet, q: Query) -> bool
    decreases bullet, 0nat,
{
    action_refs_refer(bullet.actions@, 0, q)
}

/// Whether what stands for a bullet is, or holds, a reference that is asked
/// for.
pub open spec fn bullet_ref_refers(bullet: EntityRef<data::Bullet>, q: Query) -> bool
    decreases bullet, 0nat,
{
    match bullet {
        EntityRef::Real(entity) => bullet_refers(*entity, q),
        EntityRef::Ref(refer) => q.hits(Kind::Bullet, refer.name()),
    }
}

/// Whether a reference within a fire is one that is asked for.
pub open spec fn fire_refers(fire: data::Fire, q: Query) -> bool
    decreases fire, 0nat,
{
    bullet_ref_refers(fire.bullet, q)
}

/// Whether what stands for a fire is, or holds, a reference that is asked
/// for.
pub open spec fn fire_ref_refers(fire: EntityRef<data::Fire>, q: Query) -> bool
    decreases fire, 0nat,
{
    match fire {
        EntityRef::Real(entity) => fire_refers(*entity, q),
        EntityRef::Ref(refer) => q.hits(Kind::Fire, refer.name()),
    }
}

/// Whether a reference within an element of a script is one that is asked
/// for.
pub open spec fn element_refers(element: data::Element, q: Query) -> bool {
    match element {
        data::Element::Bullet(bullet) => bullet_refers(*bullet, q),
        data::Element::Fire(fire) => fire_refers(*fire, q),
        data::Element::Action(action) => action_refers(*action, q),
    }
}

/// Whether no element from the `from`-th on carries a label that is asked
/// for.
pub open spec fn none_carries(elements: Seq<data::Element>, from: int, q: Query) -> bool {
    forall|i: int| from <= i < elements.len() ==> !element_carries(#[trigger] elements[i], q)
}

/// Whether no element from the `from`-th on holds a reference that is asked
/// for.
pub open spec fn none_refers(elements: Seq<data::Element>, from: int, q: Query) -> bool {
    forall|i: int| from <= i < elements.len() ==> !element_refers(#[trigger] elements[i], q)
}

/// Whether no action from the `from`-th on carries a label that is asked
/// for.
pub open spec fn no_top_carries(tops: Seq<Rc<data::Action>>, from: int, q: Query) -> bool {
    forall|i: int| from <= i < tops.len() ==> !action_carries(held(#[trigger] tops[i]), q)
}

/// Whether no action from the `from`-th on holds a reference that is asked
/// for.
pub open spec fn no_top_refers(tops: Seq<Rc<data::Action>>, from: int, q: Query) -> bool {
    forall|i: int| from <= i < tops.len() ==> !action_refers(held(#[trigger] tops[i]), q)
}

/// Lowering an action that carries no label that is asked for leaves the
/// names free of what is asked for.
pub proof fn lemma_action_stays_free(names: Names, action: data::Action, q: Query)
    requires
        free_of(names, q),
        !action_carries(action, q),
    ensures
        lower_action(names, action) matches Ok((later, _)) ==> free_of(later, q),
    decreases action, 0nat,
{
    lemma_steps_stay_free(names, action.steps@, 0, Seq::empty(), q);
    if let Ok((mid, steps)) = lower_steps(names, action.steps@, 0, Seq::empty()) {
        if let Ok((later, _)) = lower_action(names, action) {
            assert forall|kind: Kind, label: Seq<char>| q.hits(kind, label) implies !named(
                later,
                kind,
                label,
            ) by {
                assert(!named(mid, kind, label));
            }
        }
    }
}

/// Lowering steps that carry no label that is asked for leaves the names
/// free of what is asked for.
pub proof fn lemma_steps_stay_free(
    names: Names,
    steps: Seq<data::Step>,
    from: int,
    done: Seq<StepModel>,
    q: Query,
)
    requires
        0 <= from,
        free_of(names, q),
        !steps_carry(steps, from, q),
    ensures
        lower_steps(names, steps, from, done) matches Ok((later, _)) ==> free_of(later, q),
    decreases steps, steps.len() - from,
{
    if from < steps.len() {
        lemma_step_stays_free(names, steps[from], q);
        if let Ok((next, step)) = lower_step(names, steps[from]) {
            lemma_steps_stay_free(next, steps, from + 1, done.push(step), q);
        }
    }
}

/// Lowering a step that carries no label that is asked for leaves the names
/// free of what is asked for.
pub proof fn lemma_step_stays_free(names: Names, step: data::Step, q: Query)
    requires
        free_of(names, q),
        !step_carries(step, q),
    ensures
        lower_step(names, step) matches Ok((later, _)) ==> free_of(later, q),
    decreases step, 0nat,
{
    match step {
        data::Step::Repeat(repeat) => {
            lemma_action_refs_stay_free(names, repeat.actions@, 0, Seq::empty(), q);
        },
        data::Step::Fire(fire) => {
            lemma_fire_ref_stays_free(names, fire, q);
        },
        data::Step::Action(action) => {
            lemma_action_ref_stays_free(names, action, q);
        },
        _ => {},
    }
}

/// Lowering what stands for an action and carries no label that is asked
/// for leaves the names free of what is asked for.
pub proof fn lemma_action_ref_stays_free(names: Names, action: EntityRef<data::Action>, q: Query)
    requires
        free_of(names, q),
        !action_ref_carries(action, q),
    ensures
        lower_action_ref(names, action) matches Ok((later, _)) ==> free_of(later, q),
    decreases action, 0nat,
{
    match action {
        EntityRef::Real(entity) => {
            lemma_action_stays_free(names, held(entity), q);
        },
        EntityRef::Ref(_) => {},
    }
}

/// Lowering actions that carry no label that is asked for leaves the names
/// free of what is asked for.
pub proof fn lemma_action_refs_stay_free(
    names: Names,
    actions: Seq<EntityRef<data::Action>>,
    from: int,
    done: Seq<ActionModel>,
    q: Query,
)
    requires
        0 <= from,
        free_of(names, q),
        !action_refs_carry(actions, from, q),
    ensures
        lower_action_refs(names, actions, from, done) matches Ok((later, _)) ==> free_of(
            later,
            q,
        ),
    decreases actions, actions.len() - from,
{
    if from < actions.len() {
        lemma_action_ref_stays_free(names, actions[from], q);
        if let Ok((next, action)) = lower_action_ref(names, actions[from]) {
            lemma_action_refs_stay_free(next, actions, from + 1, done.push(action), q);
        }
    }
}

/// Lowering a bullet that carries no label that is asked for leaves the
/// names free of what is asked for.
pub proof fn lemma_bullet_stays_free(names: Names, bullet: data::Bullet, q: Query)
    requires
        free_of(names, q),
        !bullet_carries(bullet, q),
    ensures
        lower_bullet(names, bullet) matches Ok((later, _)) ==> free_of(later, q),
    decreases bullet, 0nat,
{
    lemma_action_refs_stay_free(names, bullet.actions@, 0, Seq::empty(), q);
    if let Ok((mid, actions)) = lower_action_refs(names, bullet.actions@, 0, Seq::empty()) {
        if let Ok((later, _)) = lower_bullet(names, bullet) {
            assert forall|kind: Kind, label: Seq<char>| q.hits(kind, label) implies !named(
                later,
                kind,
                label,
            ) by {
                assert(!named(mid, kind, label));
            }
        }
    }
}

/// Lowering what stands for a bullet and carries no label that is asked for
/// leaves the names free of what is asked for.
pub proof fn lemma_bullet_ref_stays_free(names: Names, bullet: EntityRef<data::Bullet>, q: Query)
    requires
        free_of(names, q),
        !bullet_ref_carries(bullet, q),
    ensures
        lower_bullet_ref(names, bullet) matches Ok((later, _)) ==> free_of(later, q),
    decreases bullet, 0nat,
{
    match bullet {
        EntityRef::Real(entity) => {
            lemma_bullet_stays_free(names, held(entity), q);
        },
        EntityRef::Ref(_) => {},
    }
}

/// Lowering a fire that carries no label that is asked for leaves the names
/// free of what is asked for.
pub proof fn lemma_fire_stays_free(names: Names, fire: data::Fire, q: Query)
    requires
        free_of(names, q),
        !fire_carries(fire, q),
    ensures
        lower_fire(names, fire) matches Ok((later, _)) ==> free_of(later, q),
    decreases fire, 0nat,
{
    lemma_bullet_ref_stays_free(names, fire.bullet, q);
    if let Ok((mid, bullet)) = lower_bullet_ref(names, fire.bullet) {
        if let Ok((later, _)) = lower_fire(names, fire) {
            assert forall|kind: Kind, label: Seq<char>| q.hits(kind, label) implies !named(
                later,
                kind,
                label,
            ) by {
                assert(!named(mid, kind, label));
            }
        }
    }
}

/// Lowering what stands for a fire and carries no label that is asked for
/// leaves the names free of what is asked for.
pub proof fn lemma_fire_ref_stays_free(names: Names, fire: EntityRef<data::Fire>, q: Query)
    requires
        free_of(names, q),
        !fire_ref_carries(fire, q),
    ensures
        lower_fire_ref(names, fire) matches Ok((later, _)) ==> free_of(later, q),
    decreases fire, 0nat,
{
    match fire {
        EntityRef::Real(entity) => {
            lemma_fire_stays_free(names, held(entity), q);
        },
        EntityRef::Ref(_) => {},
    }
}

/// An action with a reference to a label that neither the names nor the
/// action itself can answer cannot be lowered.
pub proof fn lemma_action_unresolved(names: Names, action: data::Action, q: Query)
    requires
        action_refers(action, q),
        free_of(names, q),
        !action_carries(action, q),
    ensures
        lower_action(names, action) is Err,
    decreases action, 0nat,
{
    lemma_steps_unresolved(names, action.steps@, 0, Seq::empty(), q);
}

/// Steps with a reference to a label that neither the names nor the steps
/// themselves can answer cannot be lowered.
pub proof fn lemma_steps_unresolved(
    names: Names,
    steps: Seq<data::Step>,
    from: int,
    done: Seq<StepModel>,
    q: Query,
)
    requires
        0 <= from,
        steps_refer(steps, from, q),
        free_of(names, q),
        !steps_carry(steps, from, q),
    ensures
        lower_steps(names, steps, from, done) is Err,
    decreases steps, steps.len() - from,
{
    if step_refers(steps[from], q) {
        lemma_step_unresolved(names, steps[from], q);
    } else if let Ok((next, step)) = lower_step(names, steps[from]) {
        lemma_step_stays_free(names, steps[from], q);
        lemma_steps_unresolved(next, steps, from + 1, done.push(step), q);
    }
}

/// A step with a reference to a label that neither the names nor the step
/// itself can answer cannot be lowered.
pub proof fn lemma_step_unresolved(names: Names, step: data::Step, q: Query)
    requires
        step_refers(step, q),
        free_of(names, q),
        !step_carries(step, q),
    ensures
        lower_step(names, step) is Err,
    decreases step, 0nat,
{
    match step {
        data::Step::Repeat(repeat) => {
            lemma_action_refs_unresolved(names, repeat.actions@, 0, Seq::empty(), q);
        },
        data::Step::Fire(fire) => {
            lemma_fire_ref_unresolved(names, fire, q);
        },
        data::Step::Action(action) => {
            lemma_action_ref_unresolved(names, action, q);
        },
        _ => {},
    }
}

/// What stands for an action and is, or holds, a reference that cannot be
/// answered cannot be lowered.
pub proof fn lemma_action_ref_unresolved(names: Names, action: EntityRef<data::Action>, q: Query)
    requires
        action_ref_refers(action, q),
        free_of(names, q),
        !action_ref_carries(action, q),
    ensures
        lower_action_ref(names, action) is Err,
    decreases action, 0nat,
{
    match action {
        EntityRef::Real(entity) => {
            lemma_action_unresolved(names, held(entity), q);
        },
        EntityRef::Ref(refer) => {
            assert(!named(names, Kind::Action, refer.name()));
        },
    }
}

/// Actions with a reference that cannot be answered cannot be lowered.
pub proof fn lemma_action_refs_unresolved(
    names: Names,
    actions: Seq<EntityRef<data::Action>>,
    from: int,
    done: Seq<ActionModel>,
    q: Query,
)
    requires
        0 <= from,
        action_refs_refer(actions, from, q),
        free_of(names, q),
        !action_refs_carry(actions, from, q),
    ensures
        lower_action_refs(names, actions, from, done) is Err,
    decreases actions, actions.len() - from,
{
    if action_ref_refers(actions[from], q) {
        lemma_action_ref_unresolved(names, actions[from], q);
    } else if let Ok((next, action)) = lower_action_ref(names, actions[from]) {
        lemma_action_ref_stays_free(names, actions[from], q);
        lemma_action_refs_unresolved(next, actions, from + 1, done.push(action), q);
    }
}

/// A bullet with a reference that cannot be answered cannot be lowered.
pub proof fn lemma_bullet_unresolved(names: Names, bullet: data::Bullet, q: Query)
    requires
        bullet_refers(bullet, q),
        free_of(names, q),
        !bullet_carries(bullet, q),
    ensures
        lower_bullet(names, bullet) is Err,
    decreases bullet, 0nat,
{
    lemma_action_refs_unresolved(names, bullet.actions@, 0, Seq::empty(), q);
}

/// What stands for a bullet and is, or holds, a reference that cannot be
/// answered cannot be lowered.
pub proof fn lemma_bullet_ref_unresolved(names: Names, bullet: EntityRef<data::Bullet>, q: Query)
    requires
        bullet_ref_refers(bullet, q),
        free_of(names, q),
        !bullet_ref_carries(bullet, q),
    ensures
        lower_bullet_ref(names, bullet) is Err,
    decreases bullet, 0nat,
{
    match bullet {
        EntityRef::Real(entity) => {
            lemma_bullet_unresolved(names, held(entity), q);
        },
        EntityRef::Ref(refer) => {
            assert(!named(names, Kind::Bullet, refer.name()));
        },
    }
}

/// A fire with a reference that cannot be answered cannot be lowered.
pub proof fn lemma_fire_unresolved(names: Names, fire: data::Fire, q: Query)
    requires
        fire_refers(fire, q),
        free_of(names, q),
        !fire_carries(fire, q),
    ensures
        lower_fire(names, fire) is Err,
    decreases fire, 0nat,
{
    lemma_bullet_ref_unresolved(names, fire.bullet, q);
}

/// What stands for a fire and is, or holds, a reference that cannot be
/// answered cannot be lowered.
pub proof fn lemma_fire_ref_unresolved(names: Names, fire: EntityRef<data::Fire>, q: Query)
    requires
        fire_ref_refers(fire, q),
        free_of(names, q),
        !fire_ref_carries(fire, q),
    ensures
        lower_fire_ref(names, fire) is Err,
    decreases fire, 0nat,
{
    match fire {
        EntityRef::Real(entity) => {
            lemma_fire_unresolved(names, held(entity), q);
        },
        EntityRef::Ref(refer) => {
            assert(!named(names, Kind::Fire, refer.name()));
        },
    }
}

/// Whether a fault is accounted for by what refers and what carries: a
/// label that cannot be found is the label of a reference, and a name that is
/// taken is the label of an entity of that kind.
pub open spec fn explains(
    fault: Fault,
    refers: spec_fn(Query) -> bool,
    carries: spec_fn(Query) -> bool,
) -> bool {
    match fault {
        Fault::CannotFind { label } => refers(Query::Any) && (refers(
            Query::Exactly(Kind::Action, label),
        ) || refers(Query::Exactly(Kind::Bullet, label)) || refers(
            Query::Exactly(Kind::Fire, label),
        )),
        Fault::Duplicate { kind, name } => carries(Query::Any) && ((kind == "action"@ && carries(
            Query::Exactly(Kind::Action, name),
        )) || (kind == "bullet"@ && carries(Query::Exactly(Kind::Bullet, name))) || (kind
            == "fire"@ && carries(Query::Exactly(Kind::Fire, name)))),
    }
}

/// Where an action cannot be lowered, the fault is accounted for by its
/// references and its labels.
pub proof fn lemma_action_fault(names: Names, action: data::Action)
    ensures
        lower_action(names, action) matches Err(fault) ==> explains(
            fault,
            |q: Query| action_refers(action, q),
            |q: Query| action_carries(action, q),
        ),
    decreases action, 0nat,
{
    lemma_steps_fault(names, action.steps@, 0, Seq::empty());
}

/// Where steps cannot be lowered, the fault is accounted for by their
/// references and their labels.
pub proof fn lemma_steps_fault(
    names: Names,
    steps: Seq<data::Step>,
    from: int,
    done: Seq<StepModel>,
)
    requires
        0 <= from,
    ensures
        lower_steps(names, steps, from, done) matches Err(fault) ==> explains(
            fault,
            |q: Query| steps_refer(steps, from, q),
            |q: Query| steps_carry(steps, from, q),
        ),
    decreases steps, steps.len() - from,
{
    if from < steps.len() {
        lemma_step_fault(names, steps[from]);
        if let Ok((next, step)) = lower_step(names, steps[from]) {
            lemma_steps_fault(next, steps, from + 1, done.push(step));
        }
    }
}

/// Where a step cannot be lowered, the fault is accounted for by its
/// references and its labels.
pub proof fn lemma_step_fault(names: Names, step: data::Step)
    ensures
        lower_step(names, step) matches Err(fault) ==> explains(
            fault,
            |q: Query| step_refers(step, q),
            |q: Query| step_carries(step, q),
        ),
    decreases step, 0nat,
{
    match step {
        data::Step::Repeat(repeat) => {
            lemma_action_refs_fault(names, repeat.actions@, 0, Seq::empty());
        },
        data::Step::Fire(fire) => {
            lemma_fire_ref_fault(names, fire);
        },
        data::Step::Action(action) => {
            lemma_action_ref_fault(names, action);
        },
        _ => {},
    }
}

/// Where what stands for an action cannot be lowered, the fault is
/// accounted for by its references and its labels.
pub proof fn lemma_action_ref_fault(names: Names, action: EntityRef<data::Action>)
    ensures
        lower_action_ref(names, action) matches Err(fault) ==> explains(
            fault,
            |q: Query| action_ref_refers(action, q),
            |q: Query| action_ref_carries(action, q),
        ),
    decreases action, 0nat,
{
    match action {
        EntityRef::Real(entity) => {
            lemma_action_fault(names, held(entity));
        },
        EntityRef::Ref(_) => {},
    }
}

/// Where actions cannot be lowered, the fault is accounted for by their
/// references and their labels.
pub proof fn lemma_action_refs_fault(
    names: Names,
    actions: Seq<EntityRef<data::Action>>,
    from: int,
    done: Seq<ActionModel>,
)
    requires
        0 <= from,
    ensures
        lower_action_refs(names, actions, from, done) matches Err(fault) ==> explains(
            fault,
            |q: Query| action_refs_refer(actions, from, q),
            |q: Query| action_refs_carry(actions, from, q),
        ),
    decreases actions, actions.len() - from,
{
    if from < actions.len() {
        lemma_action_ref_fault(names, actions[from]);
        if let Ok((next, action)) = lower_action_ref(names, actions[from]) {
            lemma_action_refs_fault(next, actions, from + 1, done.push(action));
        }
    }
}

/// Where a bullet cannot be lowered, the fault is accounted for by its
/// references and its labels.
pub proof fn lemma_bullet_fault(names: Names, bullet: data::Bullet)
    ensures
        lower_bullet(names, bullet) matches Err(fault) ==> explains(
            fault,
            |q: Query| bullet_refers(bullet, q),
            |q: Query| bullet_carries(bullet, q),
        ),
    decreases bullet, 0nat,
{
    lemma_action_refs_fault(names, bullet.actions@, 0, Seq::empty());
}

/// Where what stands for a bullet cannot be lowered, the fault is accounted
/// for by its references and its labels.
pub proof fn lemma_bullet_ref_fault(names: Names, bullet: EntityRef<data::Bullet>)
    ensures
        lower_bullet_ref(names, bullet) matches Err(fault) ==> explains(
            fault,
            |q: Query| bullet_ref_refers(bullet, q),
            |q: Query| bullet_ref_carries(bullet, q),
        ),
    decreases bullet, 0nat,
{
    match bullet {
        EntityRef::Real(entity) => {
            lemma_bullet_fault(names, held(entity));
        },
        EntityRef::Ref(_) => {},
    }
}

/// Where a fire cannot be lowered, the fault is accounted for by its
/// references and its labels.
pub proof fn lemma_fire_fault(names: Names, fire: data::Fire)
    ensures
        lower_fire(names, fire) matches Err(fault) ==> explains(
            fault,
            |q: Query| fire_refers(fire, q),
            |q: Query| fire_carries(fire, q),
        ),
    decreases fire, 0nat,
{
    lemma_bullet_ref_fault(names, fire.bullet);
}

/// Where what stands for a fire cannot be lowered, the fault is accounted
/// for by its references and its labels.
pub proof fn lemma_fire_ref_fault(names: Names, fire: EntityRef<data::Fire>)
    ensures
        lower_fire_ref(names, fire) matches Err(fault) ==> explains(
            fault,
            |q: Query| fire_ref_refers(fire, q),
            |q: Query| fire_ref_carries(fire, q),
        ),
    decreases fire, 0nat,
{
    match fire {
        EntityRef::Real(entity) => {
            lemma_fire_fault(names, held(entity));
        },
        EntityRef::Ref(_) => {},
    }
}

/// The first pass over elements that carry no label that is asked for
/// leaves the names free of what is asked for.
pub proof fn lemma_elements_stay_free(
    names: Names,
    elements: Seq<data::Element>,
    from: int,
    tops: Seq<Rc<data::Action>>,
    q: Query,
)
    requires
        0 <= from,
        free_of(names, q),
        none_carries(elements, from, q),
    ensures
        lower_elements(names, elements, from, tops) matches Ok((later, _)) ==> free_of(later, q),
    decreases elements.len() - from,
{
    if from < elements.len() {
        assert(!element_carries(elements[from], q));
        match elements[from] {
            data::Element::Bullet(bullet) => {
                lemma_bullet_stays_free(names, held(bullet), q);
                if let Ok((next, _)) = lower_bullet(names, held(bullet)) {
                    lemma_elements_stay_free(next, elements, from + 1, tops, q);
                }
            },
            data::Element::Fire(fire) => {
                lemma_fire_stays_free(names, held(fire), q);
                if let Ok((next, _)) = lower_fire(names, held(fire)) {
                    lemma_elements_stay_free(next, elements, from + 1, tops, q);
                }
            },
            data::Element::Action(action) => {
                if is_top_action(elements[from]) {
                    lemma_elements_stay_free(names, elements, from + 1, tops.push(action), q);
                } else {
                    lemma_action_stays_free(names, held(action), q);
                    if let Ok((next, _)) = lower_action(names, held(action)) {
                        lemma_elements_stay_free(next, elements, from + 1, tops, q);
                    }
                }
            },
        }
    }
}

/// The first pass fails where an element that it lowers holds a reference
/// that neither the names nor the elements can answer.
pub proof fn lemma_elements_unresolved(
    names: Names,
    elements: Seq<data::Element>,
    from: int,
    tops: Seq<Rc<data::Action>>,
    j: int,
    q: Query,
)
    requires
        0 <= from <= j < elements.len(),
        !is_top_action(elements[j]),
        element_refers(elements[j], q),
        free_of(names, q),
        none_carries(elements, from, q),
    ensures
        lower_elements(names, elements, from, tops) is Err,
    decreases j - from,
{
    assert(!element_carries(elements[from], q));
    match elements[from] {
        data::Element::Bullet(bullet) => {
            if from == j {
                lemma_bullet_unresolved(names, held(bullet), q);
            } else if let Ok((next, _)) = lower_bullet(names, held(bullet)) {
                lemma_bullet_stays_free(names, held(bullet), q);
                lemma_elements_unresolved(next, elements, from + 1, tops, j, q);
            }
        },
        data::Element::Fire(fire) => {
            if from == j {
                lemma_fire_unresolved(names, held(fire), q);
            } else if let Ok((next, _)) = lower_fire(names, held(fire)) {
                lemma_fire_stays_free(names, held(fire), q);
                lemma_elements_unresolved(next, elements, from + 1, tops, j, q);
            }
        },
        data::Element::Action(action) => {
            if is_top_action(elements[from]) {
                lemma_elements_unresolved(names, elements, from + 1, tops.push(action), j, q);
            } else if from == j {
                lemma_action_unresolved(names, held(action), q);
            } else if let Ok((next, _)) = lower_action(names, held(action)) {
                lemma_action_stays_free(names, held(action), q);
                lemma_elements_unresolved(next, elements, from + 1, tops, j, q);
            }
        },
    }
}

/// The second pass fails where an action holds a reference that neither the
/// names nor the actions can answer.
pub proof fn lemma_tops_unresolved(
    names: Names,
    tops: Seq<Rc<data::Action>>,
    from: int,
    done: Seq<ActionModel>,
    p: int,
    q: Query,
)
    requires
        0 <= from <= p < tops.len(),
        action_refers(held(tops[p]), q),
        free_of(names, q),
        no_top_carries(tops, from, q),
    ensures
        lower_tops(names, tops, from, done) is Err,
    decreases p - from,
{
    assert(!action_carries(held(tops[from]), q));
    if from == p {
        lemma_action_unresolved(names, held(tops[from]), q);
    } else if let Ok((next, action)) = lower_action(names, held(tops[from])) {
        lemma_action_stays_free(names, held(tops[from]), q);
        lemma_tops_unresolved(next, tops, from + 1, done.push(action), p, q);
    }
}

/// Every action that the first pass sets aside is one of the elements.
pub proof fn lemma_top_source(elements: Seq<data::Element>, from: int, p: int)
    requires
        0 <= from,
        0 <= p < top_actions(elements, from).len(),
    ensures
        exists|i: int|
            from <= i < elements.len() && #[trigger] elements[i] == data::Element::Action(
                top_actions(elements, from)[p],
            ),
    decreases elements.len() - from,
{
    if from < elements.len() {
        if is_top_action(elements[from]) {
            if p == 0 {
                assert(elements[from] == data::Element::Action(top_actions(elements, from)[p]));
            } else {
                lemma_top_source(elements, from + 1, p - 1);
                let i = choose|i: int|
                    from + 1 <= i < elements.len() && #[trigger] elements[i]
                        == data::Element::Action(top_actions(elements, from + 1)[p - 1]);
                assert(elements[i] == data::Element::Action(top_actions(elements, from)[p]));
            }
        } else {
            lemma_top_source(elements, from + 1, p);
            let i = choose|i: int|
                from + 1 <= i < elements.len() && #[trigger] elements[i] == data::Element::Action(
                    top_actions(elements, from + 1)[p],
                );
            assert(elements[i] == data::Element::Action(top_actions(elements, from)[p]));
        }
    }
}

/// What no element carries, none of the actions set aside carries; what no
/// element refers to, none of them refers to.
pub proof fn lemma_tops_are_elements(elements: Seq<data::Element>, q: Query)
    ensures
        none_carries(elements, 0, q) ==> no_top_carries(top_actions(elements, 0), 0, q),
        none_refers(elements, 0, q) ==> no_top_refers(top_actions(elements, 0), 0, q),
{
    let tops = top_actions(elements, 0);
    assert forall|p: int| 0 <= p < tops.len() implies (none_carries(elements, 0, q)
        ==> !action_carries(held(#[trigger] tops[p]), q)) && (none_refers(elements, 0, q)
        ==> !action_refers(held(tops[p]), q)) by {
        lemma_top_source(elements, 0, p);
        let i = choose|i: int|
            0 <= i < elements.len() && #[trigger] elements[i] == data::Element::Action(tops[p]);
        assert(element_carries(elements[i], q) == action_carries(held(tops[p]), q));
        assert(element_refers(elements[i], q) == action_refers(held(tops[p]), q));
    }
}

/// A script with a reference to a label that none of its entities carries
/// cannot be lowered.
pub proof fn lemma_unresolved_reference_fails(script: data::BulletML, j: int, q: Query)
    requires
        0 <= j < script.elements@.len(),
        element_refers(script.elements@[j], q),
        none_carries(script.elements@, 0, q),
    ensures
        lower_script(script) is Err,
{
    let elements = script.elements@;
    let start = Names::empty();
    assert(free_of(start, q));
    if is_top_action(elements[j]) {
        lemma_set_aside(start, elements, 0, Seq::empty());
        lemma_elements_stay_free(start, elements, 0, Seq::empty(), q);
        if let Ok((names, tops)) = lower_elements(start, elements, 0, Seq::empty()) {
            assert(tops =~= top_actions(elements, 0));
            lemma_top_place(elements, 0, j);
            lemma_tops_are_elements(elements, q);
            let p = tops_between(elements, 0, j);
            assert(data::Element::Action(tops[p]) == elements[j]);
            assert(action_refers(held(tops[p]), q));
            lemma_tops_unresolved(names, tops, 0, Seq::empty(), p, q);
        }
    } else {
        lemma_elements_unresolved(start, elements, 0, Seq::empty(), j, q);
    }
}

/// Where the first pass fails, the fault is accounted for by the references
/// and the labels of the elements.
pub proof fn lemma_elements_fault(
    names: Names,
    elements: Seq<data::Element>,
    from: int,
    tops: Seq<Rc<data::Action>>,
)
    requires
        0 <= from,
    ensures
        lower_elements(names, elements, from, tops) matches Err(fault) ==> explains(
            fault,
            |q: Query| !none_refers(elements, from, q),
            |q: Query| !none_carries(elements, from, q),
        ),
    decreases elements.len() - from,
{
    if from < elements.len() {
        let here = elements[from];
        let later_refers = |q: Query| !none_refers(elements, from + 1, q);
        let later_carries = |q: Query| !none_carries(elements, from + 1, q);
        assert forall|q: Query|
            (element_refers(here, q) || #[trigger] later_refers(q)) ==> !none_refers(
                elements,
                from,
                q,
            ) by {
            if !element_refers(here, q) && later_refers(q) {
                let i = choose|i: int|
                    from + 1 <= i < elements.len() && element_refers(#[trigger] elements[i], q);
                assert(element_refers(elements[i], q));
            }
        }
        assert forall|q: Query|
            (element_carries(here, q) || #[trigger] later_carries(q)) ==> !none_carries(
                elements,
                from,
                q,
            ) by {
            if !element_carries(here, q) && later_carries(q) {
                let i = choose|i: int|
                    from + 1 <= i < elements.len() && element_carries(#[trigger] elements[i], q);
                assert(element_carries(elements[i], q));
            }
        }
        match here {
            data::Element::Bullet(bullet) => {
                lemma_bullet_fault(names, held(bullet));
                if let Ok((next, _)) = lower_bullet(names, held(bullet)) {
                    lemma_elements_fault(next, elements, from + 1, tops);
                }
            },
            data::Element::Fire(fire) => {
                lemma_fire_fault(names, held(fire));
                if let Ok((next, _)) = lower_fire(names, held(fire)) {
                    lemma_elements_fault(next, elements, from + 1, tops);
                }
            },
            data::Element::Action(action) => {
                if is_top_action(here) {
                    lemma_elements_fault(names, elements, from + 1, tops.push(action));
                } else {
                    lemma_action_fault(names, held(action));
                    if let Ok((next, _)) = lower_action(names, held(action)) {
                        lemma_elements_fault(next, elements, from + 1, tops);
                    }
                }
            },
        }
    }
}

/// Where the second pass fails, the fault is accounted for by the
/// references and the labels of the actions.
pub proof fn lemma_tops_fault(
    names: Names,
    tops: Seq<Rc<data::Action>>,
    from: int,
    done: Seq<ActionModel>,
)
    requires
        0 <= from,
    ensures
        lower_tops(names, tops, from, done) matches Err(fault) ==> explains(
            fault,
            |q: Query| !no_top_refers(tops, from, q),
            |q: Query| !no_top_carries(tops, from, q),
        ),
    decreases tops.len() - from,
{
    if from < tops.len() {
        let here = held(tops[from]);
        let later_refers = |q: Query| !no_top_refers(tops, from + 1, q);
        let later_carries = |q: Query| !no_top_carries(tops, from + 1, q);
        assert forall|q: Query|
            (action_refers(here, q) || #[trigger] later_refers(q)) ==> !no_top_refers(
                tops,
                from,
                q,
            ) by {
            if !action_refers(here, q) && later_refers(q) {
                let i = choose|i: int|
                    from + 1 <= i < tops.len() && action_refers(held(#[trigger] tops[i]), q);
                assert(action_refers(held(tops[i]), q));
            }
        }
        assert forall|q: Query|
            (action_carries(here, q) || #[trigger] later_carries(q)) ==> !no_top_carries(
                tops,
                from,
                q,
            ) by {
            if !action_carries(here, q) && later_carries(q) {
                let i = choose|i: int|
                    from + 1 <= i < tops.len() && action_carries(held(#[trigger] tops[i]), q);
                assert(action_carries(held(tops[i]), q));
            }
        }
        lemma_action_fault(names, here);
        if let Ok((next, action)) = lower_action(names, here) {
            lemma_tops_fault(next, tops, from + 1, done.push(action));
        }
    }
}

/// Where a script cannot be lowered, the fault is accounted for by the
/// script: a label that cannot be found is the label of one of its
/// references, and a name that is taken is the label of one of its entities
/// of that kind.
pub proof fn lemma_script_fault(script: data::BulletML)
    ensures
        lower_script(script) matches Err(fault) ==> explains(
            fault,
            |q: Query| !none_refers(script.elements@, 0, q),
            |q: Query| !none_carries(script.elements@, 0, q),
        ),
{
    let elements = script.elements@;
    let start = Names::empty();
    lemma_elements_fault(start, elements, 0, Seq::empty());
    lemma_set_aside(start, elements, 0, Seq::empty());
    if let Ok((names, tops)) = lower_elements(start, elements, 0, Seq::empty()) {
        assert(tops =~= top_actions(elements, 0));
        lemma_tops_fault(names, tops, 0, Seq::empty());
        assert forall|q: Query| !no_top_refers(tops, 0, q) implies !none_refers(elements, 0, q) by {
            lemma_tops_are_elements(elements, q);
        }
        assert forall|q: Query| !no_top_carries(tops, 0, q) implies !none_carries(
            elements,
            0,
            q,
        ) by {
            lemma_tops_are_elements(elements, q);
        }
    }
}

/// A script without references in which two elements of one kind carry the
/// same label fails for a name that is taken.
pub proof fn lemma_duplicate_labels_fault(script: data::BulletML, i: int, j: int)
    requires
        0 <= i < j < script.elements@.len(),
        same_name(script.elements@[i], script.elements@[j]),
        none_refers(script.elements@, 0, Query::Any),
    ensures
        lower_script(script) matches Err(Fault::Duplicate { .. }),
{
    lemma_duplicate_labels(script, i, j);
    lemma_script_fault(script);
}

/// A script without labels that holds a reference fails for a label that
/// cannot be found.
pub proof fn lemma_unresolved_reference_fault(script: data::BulletML, j: int)
    requires
        0 <= j < script.elements@.len(),
        element_refers(script.elements@[j], Query::Any),
        none_carries(script.elements@, 0, Query::Any),
    ensures
        lower_script(script) matches Err(Fault::CannotFind { .. }),
{
    lemma_unresolved_reference_fails(script, j, Query::Any);
    lemma_script_fault(script);
}

} // verus!
