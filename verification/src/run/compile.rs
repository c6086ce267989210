//! The lowering of a script into the tree of steps that a bullet runs.
//!
//! Named actions, bullets and fires are entered into tables as they are
//! lowered; a reference by label is answered from the tables. A label is
//! taken once for each kind, and a reference to a label that is not yet in
//! the table is an error.

use crate::data;
use crate::data::data::share;
use crate::data::{
    Accel, ChangeDirection, ChangeSpeed, Direction, EntityRef, Orientation, Speed, Times, Vanish,
    Wait,
};
use crate::run::util;
use crate::run::util::{try_insert, Table};
use crate::run::zipper::{trees_of, Node, Tree, ZipperIter};
use std::rc::Rc;
use vstd::prelude::*;
use vstd::string::StrSliceExecFns;

verus! {

/// What a lowered action is: its steps in order.
pub struct ActionModel {
    pub steps: Seq<StepModel>,
}

/// What a lowered bullet is.
pub struct BulletModel {
    pub direction: Option<Direction>,
    pub speed: Option<Speed>,
    pub actions: Seq<ActionModel>,
}

/// What a lowered fire is.
pub struct FireModel {
    pub direction: Option<Direction>,
    pub speed: Option<Speed>,
    pub bullet: BulletModel,
}

/// What a lowered step is: every reference in it has given way to the
/// entity referred to.
pub enum StepModel {
    Repeat { times: Times, actions: Seq<ActionModel> },
    Fire(FireModel),
    ChangeSpeed(ChangeSpeed),
    ChangeDirection(ChangeDirection),
    Accel(Accel),
    Wait(Wait),
    Vanish(Vanish),
    Action(ActionModel),
}

/// What a node of the tree of steps holds.
pub enum NodeModel {
    Root,
    Repeat { times: Times, actions: Seq<ActionModel> },
    Fire(FireModel),
    ChangeSpeed(ChangeSpeed),
    ChangeDirection(ChangeDirection),
    Accel(Accel),
    Wait(Wait),
    Vanish(Vanish),
}

/// The tree of a lowered action: a root with the trees of the steps as its
/// children.
pub open spec fn action_tree(action: ActionModel) -> Tree<NodeModel>
    decreases action,
{
    Tree {
        value: NodeModel::Root,
        kids: Seq::new(
            action.steps.len(),
            |i: int|
                if 0 <= i < action.steps.len() {
                    step_tree(action.steps[i])
                } else {
                    Tree::leaf(NodeModel::Root)
                },
        ),
    }
}

/// The tree of a lowered step: a single node, but for an action, whose tree
/// takes the place of the step.
pub open spec fn step_tree(step: StepModel) -> Tree<NodeModel>
    decreases step,
{
    match step {
        StepModel::Repeat { times, actions } => Tree::leaf(NodeModel::Repeat { times, actions }),
        StepModel::Fire(fire) => Tree::leaf(NodeModel::Fire(fire)),
        StepModel::ChangeSpeed(cs) => Tree::leaf(NodeModel::ChangeSpeed(cs)),
        StepModel::ChangeDirection(cd) => Tree::leaf(NodeModel::ChangeDirection(cd)),
        StepModel::Accel(accel) => Tree::leaf(NodeModel::Accel(accel)),
        StepModel::Wait(wait) => Tree::leaf(NodeModel::Wait(wait)),
        StepModel::Vanish(vanish) => Tree::leaf(NodeModel::Vanish(vanish)),
        StepModel::Action(action) => action_tree(action),
    }
}

/// The trees of a list of lowered actions.
pub open spec fn action_trees(actions: Seq<ActionModel>) -> Seq<Tree<NodeModel>> {
    Seq::new(actions.len(), |i: int| action_tree(actions[i]))
}

/// The tree that a bullet runs: a root with the trees of the top-level
/// actions as its children.
pub open spec fn script_tree(tops: Seq<ActionModel>) -> Tree<NodeModel> {
    Tree { value: NodeModel::Root, kids: action_trees(tops) }
}

/// The lowered entities that go by a name, by kind.
pub struct Names {
    pub actions: Map<Seq<char>, ActionModel>,
    pub bullets: Map<Seq<char>, BulletModel>,
    pub fires: Map<Seq<char>, FireModel>,
}

impl Names {
    /// No name at all.
    pub open spec fn empty() -> Names {
        Names { actions: Map::empty(), bullets: Map::empty(), fires: Map::empty() }
    }

    /// Whether every name of `self` is a name of `later`, of the same kind
    /// and for the same entity.
    pub open spec fn within(self, later: Names) -> bool {
        &&& self.actions.submap_of(later.actions)
        &&& self.bullets.submap_of(later.bullets)
        &&& self.fires.submap_of(later.fires)
    }
}

/// Why a script cannot be lowered.
pub enum Fault {
    /// Two entities of one kind go by the same name.
    Duplicate { kind: Seq<char>, name: Seq<char> },
    /// A reference names nothing that has been lowered so far.
    CannotFind { label: Seq<char> },
}

/// What lowering one entity gives: the names after it and what was lowered.
pub type Lowered<M> = Result<(Names, M), Fault>;

/// The table with `model` entered under `label`, where there is a label; an
/// error where the label is taken.
pub open spec fn registered<M>(
    table: Map<Seq<char>, M>,
    label: Option<String>,
    model: M,
    kind: Seq<char>,
) -> Result<Map<Seq<char>, M>, Fault> {
    match label {
        None => Ok(table),
        Some(name) => if table.dom().contains(name@) {
            Err(Fault::Duplicate { kind, name: name@ })
        } else {
            Ok(table.insert(name@, model))
        },
    }
}

/// The entity of `table` that the label refers to.
pub open spec fn referred<M>(names: Names, table: Map<Seq<char>, M>, label: Seq<char>) -> Lowered<
    M,
> {
    if table.dom().contains(label) {
        Ok((names, table[label]))
    } else {
        Err(Fault::CannotFind { label })
    }
}

/// Lowers an action: its steps from the first to the last, then the entry
/// under its label.
pub open spec fn lower_action(names: Names, action: data::Action) -> Lowered<ActionModel>
    decreases action, 0nat,
{
    match lower_steps(names, action.steps@, 0, Seq::empty()) {
        Err(fault) => Err(fault),
        Ok((names, steps)) => {
            let model = ActionModel { steps };
            match registered(names.actions, action.label, model, "action"@) {
                Err(fault) => Err(fault),
                Ok(actions) => Ok((Names { actions, ..names }, model)),
            }
        },
    }
}

/// Lowers the steps from the `from`-th on, after `done`.
pub open spec fn lower_steps(
    names: Names,
    steps: Seq<data::Step>,
    from: int,
    done: Seq<StepModel>,
) -> Lowered<Seq<StepModel>>
    decreases steps, steps.len() - from,
{
    if from < 0 || from >= steps.len() {
        Ok((names, done))
    } else {
        match lower_step(names, steps[from]) {
            Err(fault) => Err(fault),
            Ok((names, step)) => lower_steps(names, steps, from + 1, done.push(step)),
        }
    }
}

/// Lowers one step.
pub open spec fn lower_step(names: Names, step: data::Step) -> Lowered<StepModel>
    decreases step, 0nat,
{
    match step {
        data::Step::ChangeSpeed(cs) => Ok((names, StepModel::ChangeSpeed(cs))),
        data::Step::ChangeDirection(cd) => Ok((names, StepModel::ChangeDirection(cd))),
        data::Step::Accel(accel) => Ok((names, StepModel::Accel(accel))),
        data::Step::Wait(wait) => Ok((names, StepModel::Wait(wait))),
        data::Step::Vanish(vanish) => Ok((names, StepModel::Vanish(vanish))),
        data::Step::Repeat(repeat) => match lower_action_refs(
            names,
            repeat.actions@,
            0,
            Seq::empty(),
        ) {
            Err(fault) => Err(fault),
            Ok((names, actions)) => Ok((names, StepModel::Repeat { times: repeat.times, actions })),
        },
        data::Step::Fire(fire) => match lower_fire_ref(names, fire) {
            Err(fault) => Err(fault),
            Ok((names, fire)) => Ok((names, StepModel::Fire(fire))),
        },
        data::Step::Action(action) => match lower_action_ref(names, action) {
            Err(fault) => Err(fault),
            Ok((names, action)) => Ok((names, StepModel::Action(action))),
        },
    }
}

/// Lowers what stands for an action: the action written in place, or the
/// lowered action that goes by the label.
pub open spec fn lower_action_ref(names: Names, action: EntityRef<data::Action>) -> Lowered<
    ActionModel,
>
    decreases action, 0nat,
{
    match action {
        EntityRef::Real(entity) => lower_action(names, *entity),
        EntityRef::Ref(refer) => referred(names, names.actions, refer.name()),
    }
}

/// Lowers the actions from the `from`-th on, after `done`.
pub open spec fn lower_action_refs(
    names: Names,
    actions: Seq<EntityRef<data::Action>>,
    from: int,
    done: Seq<ActionModel>,
) -> Lowered<Seq<ActionModel>>
    decreases actions, actions.len() - from,
{
    if from < 0 || from >= actions.len() {
        Ok((names, done))
    } else {
        match lower_action_ref(names, actions[from]) {
            Err(fault) => Err(fault),
            Ok((names, action)) => lower_action_refs(names, actions, from + 1, done.push(action)),
        }
    }
}

/// Lowers a bullet: its actions, then the entry under its label.
pub open spec fn lower_bullet(names: Names, bullet: data::Bullet) -> Lowered<BulletModel>
    decreases bullet, 0nat,
{
    match lower_action_refs(names, bullet.actions@, 0, Seq::empty()) {
        Err(fault) => Err(fault),
        Ok((names, actions)) => {
            let model = BulletModel { direction: bullet.direction, speed: bullet.speed, actions };
            match registered(names.bullets, bullet.label, model, "bullet"@) {
                Err(fault) => Err(fault),
                Ok(bullets) => Ok((Names { bullets, ..names }, model)),
            }
        },
    }
}

/// Lowers what stands for a bullet.
pub open spec fn lower_bullet_ref(names: Names, bullet: EntityRef<data::Bullet>) -> Lowered<
    BulletModel,
>
    decreases bullet, 0nat,
{
    match bullet {
        EntityRef::Real(entity) => lower_bullet(names, *entity),
        EntityRef::Ref(refer) => referred(names, names.bullets, refer.name()),
    }
}

/// Lowers a fire: its bullet, then the entry under its label.
pub open spec fn lower_fire(names: Names, fire: data::Fire) -> Lowered<FireModel>
    decreases fire, 0nat,
{
    match lower_bullet_ref(names, fire.bullet) {
        Err(fault) => Err(fault),
        Ok((names, bullet)) => {
            let model = FireModel { direction: fire.direction, speed: fire.speed, bullet };
            match registered(names.fires, fire.label, model, "fire"@) {
                Err(fault) => Err(fault),
                Ok(fires) => Ok((Names { fires, ..names }, model)),
            }
        },
    }
}

/// Lowers what stands for a fire.
pub open spec fn lower_fire_ref(names: Names, fire: EntityRef<data::Fire>) -> Lowered<FireModel>
    decreases fire, 0nat,
{
    match fire {
        EntityRef::Real(entity) => lower_fire(names, *entity),
        EntityRef::Ref(refer) => referred(names, names.fires, refer.name()),
    }
}

/// Whether a label marks a top-level action: it begins with `top`.
pub open spec fn is_top(label: Option<String>) -> bool {
    label matches Some(name) && name@.len() >= 3 && name@[0] == 't' && name@[1] == 'o' && name@[2]
        == 'p'
}

/// The first pass over the elements of a script, from the `from`-th on:
/// bullets, fires and the actions that are not top-level are lowered in the
/// order in which they stand; the top-level actions are set aside, after
/// `tops`.
pub open spec fn lower_elements(
    names: Names,
    elements: Seq<data::Element>,
    from: int,
    tops: Seq<Rc<data::Action>>,
) -> Lowered<Seq<Rc<data::Action>>>
    decreases elements.len() - from,
{
    if from < 0 || from >= elements.len() {
        Ok((names, tops))
    } else {
        match elements[from] {
            data::Element::Bullet(bullet) => match lower_bullet(names, *bullet) {
                Err(fault) => Err(fault),
                Ok((names, _)) => lower_elements(names, elements, from + 1, tops),
            },
            data::Element::Fire(fire) => match lower_fire(names, *fire) {
                Err(fault) => Err(fault),
                Ok((names, _)) => lower_elements(names, elements, from + 1, tops),
            },
            data::Element::Action(action) => if is_top(action.label) {
                lower_elements(names, elements, from + 1, tops.push(action))
            } else {
                match lower_action(names, *action) {
                    Err(fault) => Err(fault),
                    Ok((names, _)) => lower_elements(names, elements, from + 1, tops),
                }
            },
        }
    }
}

/// The second pass: the top-level actions from the `from`-th on are lowered,
/// after `done`.
pub open spec fn lower_tops(
    names: Names,
    tops: Seq<Rc<data::Action>>,
    from: int,
    done: Seq<ActionModel>,
) -> Lowered<Seq<ActionModel>>
    decreases tops.len() - from,
{
    if from < 0 || from >= tops.len() {
        Ok((names, done))
    } else {
        match lower_action(names, *tops[from]) {
            Err(fault) => Err(fault),
            Ok((names, action)) => lower_tops(names, tops, from + 1, done.push(action)),
        }
    }
}

/// The top-level actions of a script, lowered: first everything else, in the
/// order in which it stands, then the top-level actions in their order.
pub open spec fn lower_script(script: data::BulletML) -> Result<Seq<ActionModel>, Fault> {
    match lower_elements(Names::empty(), script.elements@, 0, Seq::empty()) {
        Err(fault) => Err(fault),
        Ok((names, tops)) => match lower_tops(names, tops, 0, Seq::empty()) {
            Err(fault) => Err(fault),
            Ok((_, actions)) => Ok(actions),
        },
    }
}

/// Entities which may appear within an action tree.
#[derive(Debug)]
pub enum NodeStep {
    /// The root of the tree, or of the tree of an action.
    Root,
    /// Cause a set of actions to be repeated a number of times.
    Repeat(Repeat),
    /// Cause a set bullets to be fired.
    Fire(Rc<Fire>),
    /// A change of speed.
    ChangeSpeed(ChangeSpeed),
    /// A change of direction.
    ChangeDirection(ChangeDirection),
    /// An acceleration.
    Accel(Accel),
    /// Pause for a number of frames.
    Wait(Wait),
    /// Destroy the bullet.
    Vanish(Vanish),
}

/// Entities which may appear within a lowered action.
#[derive(Debug)]
pub enum Step {
    /// Cause a set of actions to be repeated a number of times.
    Repeat(Repeat),
    /// Cause a set bullets to be fired.
    Fire(Rc<Fire>),
    /// A change of speed.
    ChangeSpeed(ChangeSpeed),
    /// A change of direction.
    ChangeDirection(ChangeDirection),
    /// An acceleration.
    Accel(Accel),
    /// Pause for a number of frames.
    Wait(Wait),
    /// Destroy the bullet.
    Vanish(Vanish),
    /// Chain into another action.
    Action(Rc<Action>),
}

/// An action that may be performed for a bullet.
#[derive(Debug)]
pub struct Action {
    /// The steps which make up the action.
    steps: Vec<Step>,
}

/// A bullet.
#[derive(Debug)]
pub struct Bullet {
    /// The direction to fire the bullet.
    pub direction: Option<Direction>,
    /// The initial speed of the bullet.
    pub speed: Option<Speed>,
    /// The set of actions to perform on the bullet.
    pub actions: Vec<Rc<Action>>,
}

/// Create a new bullet.
#[derive(Debug)]
pub struct Fire {
    /// The direction to fire in.
    pub direction: Option<Direction>,
    /// The initial speed of the bullet.
    pub speed: Option<Speed>,
    /// The bullet to fire.
    pub bullet: Rc<Bullet>,
}

/// Repetition action.
#[derive(Debug)]
pub struct Repeat {
    /// How many times to repeat the actions.
    pub times: Times,
    /// The actions to repeat.
    actions: Vec<Rc<Action>>,
}

/// What a list of lowered actions is.
pub open spec fn models_of(actions: Seq<Rc<Action>>) -> Seq<ActionModel>
    decreases actions,
{
    Seq::new(
        actions.len(),
        |i: int|
            if 0 <= i < actions.len() {
                actions[i].model()
            } else {
                ActionModel { steps: Seq::empty() }
            },
    )
}

/// What a list of lowered steps is.
pub open spec fn step_models(steps: Seq<Step>) -> Seq<StepModel>
    decreases steps,
{
    Seq::new(
        steps.len(),
        |i: int|
            if 0 <= i < steps.len() {
                steps[i].model()
            } else {
                StepModel::Vanish(Vanish {  })
            },
    )
}

impl Action {
    /// What the action is.
    pub closed spec fn model(self) -> ActionModel
        decreases self,
    {
        ActionModel { steps: step_models(self.steps@) }
    }
}

impl Repeat {
    /// How many times to repeat the actions.
    pub closed spec fn count(self) -> Times {
        self.times
    }

    /// What the actions to repeat are.
    pub closed spec fn models(self) -> Seq<ActionModel>
        decreases self,
    {
        models_of(self.actions@)
    }
}

impl Bullet {
    /// What the bullet is.
    pub open spec fn model(self) -> BulletModel
        decreases self,
    {
        BulletModel {
            direction: self.direction,
            speed: self.speed,
            actions: models_of(self.actions@),
        }
    }
}

impl Fire {
    /// What the fire is.
    pub open spec fn model(self) -> FireModel
        decreases self,
    {
        FireModel { direction: self.direction, speed: self.speed, bullet: self.bullet.model() }
    }
}

impl Step {
    /// What the step is.
    pub open spec fn model(self) -> StepModel
        decreases self,
    {
        match self {
            Step::Repeat(repeat) => StepModel::Repeat {
                times: repeat.count(),
                actions: repeat.models(),
            },
            Step::Fire(fire) => StepModel::Fire(fire.model()),
            Step::ChangeSpeed(cs) => StepModel::ChangeSpeed(cs),
            Step::ChangeDirection(cd) => StepModel::ChangeDirection(cd),
            Step::Accel(accel) => StepModel::Accel(accel),
            Step::Wait(wait) => StepModel::Wait(wait),
            Step::Vanish(vanish) => StepModel::Vanish(vanish),
            Step::Action(action) => StepModel::Action(action.model()),
        }
    }
}

impl NodeStep {
    /// What the node holds.
    pub open spec fn model(self) -> NodeModel {
        match self {
            NodeStep::Root => NodeModel::Root,
            NodeStep::Repeat(repeat) => NodeModel::Repeat {
                times: repeat.count(),
                actions: repeat.models(),
            },
            NodeStep::Fire(fire) => NodeModel::Fire(fire.model()),
            NodeStep::ChangeSpeed(cs) => NodeModel::ChangeSpeed(cs),
            NodeStep::ChangeDirection(cd) => NodeModel::ChangeDirection(cd),
            NodeStep::Accel(accel) => NodeModel::Accel(accel),
            NodeStep::Wait(wait) => NodeModel::Wait(wait),
            NodeStep::Vanish(vanish) => NodeModel::Vanish(vanish),
        }
    }
}

/// What a tree of steps is: the same tree, with what each node holds.
pub open spec fn program(tree: Tree<NodeStep>) -> Tree<NodeModel>
    decreases tree,
{
    Tree {
        value: tree.value.model(),
        kids: Seq::new(
            tree.kids.len(),
            |i: int|
                if 0 <= i < tree.kids.len() {
                    program(tree.kids[i])
                } else {
                    Tree::leaf(NodeModel::Root)
                },
        ),
    }
}

/// What a list of trees of steps is.
pub open spec fn programs(trees: Seq<Tree<NodeStep>>) -> Seq<Tree<NodeModel>> {
    Seq::new(trees.len(), |i: int| program(trees[i]))
}

/// The fault that a failed lookup stands for.
pub open spec fn lookup_fault(e: data::EntityError) -> Fault {
    match e {
        data::EntityError::CannotFind { label } => Fault::CannotFind { label: label@ },
    }
}

/// The fault that a refused name stands for.
pub open spec fn use_fault(e: util::EntityError) -> Fault {
    match e {
        util::EntityError::Duplicate { name, kind } => Fault::Duplicate {
            kind: kind@,
            name: name@,
        },
    }
}

/// An error when lowering a step.
#[derive(Debug)]
pub enum StepError {
    /// A reference of the step names nothing.
    EntityLookup { source: data::EntityError },
    /// The repeated actions cannot be lowered.
    Repeat { source: RepeatError },
    /// The fire cannot be lowered.
    Fire { source: FireError },
    /// The action cannot be lowered.
    Action { source: ActionError },
}

/// An error when lowering an action.
#[derive(Debug)]
pub enum ActionError {
    /// A reference to the action names nothing.
    EntityLookup { source: data::EntityError },
    /// The label of the action is taken.
    EntityUse { source: util::EntityError },
    /// A step of the action cannot be lowered.
    Step { source: Box<StepError> },
}

/// An error when lowering a bullet.
#[derive(Debug)]
pub enum BulletError {
    /// The label of the bullet is taken.
    EntityUse { source: util::EntityError },
    /// An action of the bullet cannot be lowered.
    Action { source: ActionError },
}

/// An error when lowering a fire.
#[derive(Debug)]
pub enum FireError {
    /// The reference to the bullet names nothing.
    EntityLookup { source: data::EntityError },
    /// The label of the fire is taken.
    EntityUse { source: util::EntityError },
    /// The bullet cannot be lowered.
    Bullet { source: BulletError },
}

/// An error when lowering a repetition.
#[derive(Debug)]
pub enum RepeatError {
    /// A repeated action cannot be lowered.
    Action { source: ActionError },
}

/// An error when lowering a script.
#[derive(Debug)]
pub enum BulletMLError {
    /// An action cannot be lowered.
    Action { source: ActionError },
    /// A bullet cannot be lowered.
    Bullet { source: BulletError },
    /// A fire cannot be lowered.
    Fire { source: FireError },
}

impl StepError {
    /// The fault at the bottom of the error.
    pub open spec fn fault(self) -> Fault
        decreases self,
    {
        match self {
            StepError::EntityLookup { source } => lookup_fault(source),
            StepError::Repeat { source } => source.fault(),
            StepError::Fire { source } => source.fault(),
            StepError::Action { source } => source.fault(),
        }
    }
}

impl ActionError {
    /// The fault at the bottom of the error.
    pub open spec fn fault(self) -> Fault
        decreases self,
    {
        match self {
            ActionError::EntityLookup { source } => lookup_fault(source),
            ActionError::EntityUse { source } => use_fault(source),
            ActionError::Step { source } => source.fault(),
        }
    }
}

impl BulletError {
    /// The fault at the bottom of the error.
    pub open spec fn fault(self) -> Fault
        decreases self,
    {
        match self {
            BulletError::EntityUse { source } => use_fault(source),
            BulletError::Action { source } => source.fault(),
        }
    }
}

impl FireError {
    /// The fault at the bottom of the error.
    pub open spec fn fault(self) -> Fault
        decreases self,
    {
        match self {
            FireError::EntityLookup { source } => lookup_fault(source),
            FireError::EntityUse { source } => use_fault(source),
            FireError::Bullet { source } => source.fault(),
        }
    }
}

impl RepeatError {
    /// The fault at the bottom of the error.
    pub open spec fn fault(self) -> Fault
        decreases self,
    {
        match self {
            RepeatError::Action { source } => source.fault(),
        }
    }
}

impl BulletMLError {
    /// The fault at the bottom of the error.
    pub open spec fn fault(self) -> Fault {
        match self {
            BulletMLError::Action { source } => source.fault(),
            BulletMLError::Bullet { source } => source.fault(),
            BulletMLError::Fire { source } => source.fault(),
        }
    }
}

/// The lowered entities by name.
struct Library {
    actions: Table<Rc<Action>>,
    bullets: Table<Rc<Bullet>>,
    fires: Table<Rc<Fire>>,
}

/// The entities by name as they are written down.
struct DataLibrary {
    actions: Table<Rc<data::Action>>,
    bullets: Table<Rc<data::Bullet>>,
    fires: Table<Rc<data::Fire>>,
}

impl Library {
    fn new() -> (lib: Self)
        ensures
            lib.names() == Names::empty(),
            lib.actions@ == Map::<Seq<char>, Rc<Action>>::empty(),
            lib.bullets@ == Map::<Seq<char>, Rc<Bullet>>::empty(),
            lib.fires@ == Map::<Seq<char>, Rc<Fire>>::empty(),
    {
        let lib = Library { actions: Table::new(), bullets: Table::new(), fires: Table::new() };
        proof {
            assert(lib.names().actions =~= Map::empty());
            assert(lib.names().bullets =~= Map::empty());
            assert(lib.names().fires =~= Map::empty());
        }
        lib
    }

    /// What the names stand for.
    spec fn names(self) -> Names {
        Names {
            actions: self.actions@.map_values(|a: Rc<Action>| a.model()),
            bullets: self.bullets@.map_values(|b: Rc<Bullet>| b.model()),
            fires: self.fires@.map_values(|f: Rc<Fire>| f.model()),
        }
    }

    /// Whether the two libraries hold the same names.
    spec fn agrees(self, data_lib: DataLibrary) -> bool {
        &&& self.actions@.dom() == data_lib.actions@.dom()
        &&& self.bullets@.dom() == data_lib.bullets@.dom()
        &&& self.fires@.dom() == data_lib.fires@.dom()
    }
}

impl DataLibrary {
    fn new() -> (lib: Self)
        ensures
            lib.actions@ == Map::<Seq<char>, Rc<data::Action>>::empty(),
            lib.bullets@ == Map::<Seq<char>, Rc<data::Bullet>>::empty(),
            lib.fires@ == Map::<Seq<char>, Rc<data::Fire>>::empty(),
    {
        DataLibrary { actions: Table::new(), bullets: Table::new(), fires: Table::new() }
    }
}

/// The value of a map under a key, if there is one.
pub open spec fn value_at<V>(map: Map<Seq<char>, V>, key: Seq<char>) -> Option<V> {
    if map.dom().contains(key) {
        Some(map[key])
    } else {
        None
    }
}

/// Another handle to what a table holds under a name.
fn shared_from<V>(table: &Table<Rc<V>>, name: &str) -> (found: Option<Rc<V>>)
    ensures
        found == value_at(table@, name@),
{
    match table.get(name) {
        Some(entity) => Some(share(entity)),
        None => None,
    }
}

/// A copy of a direction that may be missing.
fn clone_direction(direction: &Option<Direction>) -> (r: Option<Direction>)
    ensures
        r == *direction,
{
    match direction {
        Some(d) => Some(d.clone()),
        None => None,
    }
}

/// A copy of a speed that may be missing.
fn clone_speed(speed: &Option<Speed>) -> (r: Option<Speed>)
    ensures
        r == *speed,
{
    match speed {
        Some(s) => Some(s.clone()),
        None => None,
    }
}

/// More handles to the same actions, in the same order.
fn share_actions(actions: &Vec<Rc<Action>>) -> (r: Vec<Rc<Action>>)
    ensures
        r@ == actions@,
{
    let mut shared: Vec<Rc<Action>> = Vec::new();
    let mut i: usize = 0;
    while i < actions.len()
        invariant
            i <= actions.len(),
            shared@ == actions@.subrange(0, i as int),
        decreases actions.len() - i,
    {
        shared.push(share(&actions[i]));
        proof {
            assert(shared@ =~= actions@.subrange(0, i + 1));
        }
        i += 1;
    }
    proof {
        assert(shared@ =~= actions@);
    }
    shared
}

/// Whether a label marks a top-level action.
fn marks_top(label: &Option<String>) -> (top: bool)
    ensures
        top == is_top(*label),
{
    match label {
        Some(name) => {
            let text = name.as_str();
            text.unicode_len() >= 3 && text.get_char(0) == 't' && text.get_char(1) == 'o'
                && text.get_char(2) == 'p'
        },
        None => false,
    }
}

/// The lowered entity that goes by a label which the written-down entities
/// have resolved.
fn lowered<V>(table: &Table<Rc<V>>, label: &String) -> (r: Rc<V>)
    requires
        table@.dom().contains(label@),
    ensures
        r == table@[label@],
{
    match table.get(label.as_str()) {
        Some(compiled) => share(compiled),
        None => vstd::pervasive::unreached(),
    }
}

impl Step {
    fn new(lib: &mut Library, data_lib: &mut DataLibrary, step: &data::Step) -> (r: Result<
        Self,
        StepError,
    >)
        requires
            old(lib).agrees(*old(data_lib)),
        ensures
            final(lib).agrees(*final(data_lib)),
            match lower_step(old(lib).names(), *step) {
                Ok((names, model)) => r matches Ok(compiled) && compiled.model() == model
                    && final(lib).names() == names,
                Err(fault) => r matches Err(e) && e.fault() == fault,
            },
        decreases step, 0nat,
    {
        match step {
            data::Step::ChangeSpeed(cs) => Ok(Step::ChangeSpeed(cs.clone())),
            data::Step::ChangeDirection(cd) => Ok(Step::ChangeDirection(cd.clone())),
            data::Step::Accel(accel) => Ok(Step::Accel(accel.clone())),
            data::Step::Wait(wait) => Ok(Step::Wait(wait.clone())),
            data::Step::Vanish(vanish) => Ok(Step::Vanish(*vanish)),
            data::Step::Repeat(repeat) => match Repeat::new(lib, data_lib, repeat) {
                Ok(compiled) => Ok(Step::Repeat(compiled)),
                Err(source) => Err(StepError::Repeat { source }),
            },
            data::Step::Fire(fire) => match fire {
                EntityRef::Real(entity) => match Fire::new(lib, data_lib, share(entity)) {
                    Ok(compiled) => Ok(Step::Fire(compiled)),
                    Err(source) => Err(StepError::Fire { source }),
                },
                EntityRef::Ref(refer) => {
                    let found = shared_from(&data_lib.fires, refer.label().as_str());
                    match refer.resolve(found) {
                        Ok(_) => Ok(Step::Fire(lowered(&lib.fires, refer.label()))),
                        Err(source) => Err(StepError::EntityLookup { source }),
                    }
                },
            },
            data::Step::Action(action) => match action {
                EntityRef::Real(entity) => match Action::new(lib, data_lib, share(entity)) {
                    Ok(compiled) => Ok(Step::Action(compiled)),
                    Err(source) => Err(StepError::Action { source }),
                },
                EntityRef::Ref(refer) => {
                    let found = shared_from(&data_lib.actions, refer.label().as_str());
                    match refer.resolve(found) {
                        Ok(_) => Ok(Step::Action(lowered(&lib.actions, refer.label()))),
                        Err(source) => Err(StepError::EntityLookup { source }),
                    }
                },
            },
        }
    }

    /// The tree of the step: a single node, but for an action, whose steps
    /// become the children of a node of their own.
    fn into_node(self) -> (node: Node<NodeStep>)
        ensures
            program(node@) == step_tree(self.model()),
    {
        self.node()
    }

    /// The tree of the step, built beside the step.
    fn node(&self) -> (node: Node<NodeStep>)
        ensures
            program(node@) == step_tree(self.model()),
        decreases self,
    {
        match self {
            Step::ChangeSpeed(cs) => leaf(NodeStep::ChangeSpeed(cs.clone())),
            Step::ChangeDirection(cd) => leaf(NodeStep::ChangeDirection(cd.clone())),
            Step::Accel(accel) => leaf(NodeStep::Accel(accel.clone())),
            Step::Wait(wait) => leaf(NodeStep::Wait(wait.clone())),
            Step::Vanish(vanish) => leaf(NodeStep::Vanish(*vanish)),
            Step::Repeat(repeat) => leaf(NodeStep::Repeat(repeat.clone())),
            Step::Fire(fire) => leaf(NodeStep::Fire(share(fire))),
            Step::Action(action) => action.node(),
        }
    }
}

/// A node that holds `step` and has no children.
fn leaf(step: NodeStep) -> (node: Node<NodeStep>)
    ensures
        node@ == Tree::leaf(step),
        program(node@) == Tree::leaf(step.model()),
{
    let node = Node::new(step);
    proof {
        assert(program(node@).kids =~= Seq::empty());
    }
    node
}

/// Lowers what stands for an action: the action written in place, or the
/// lowered action that goes by the label.
fn action_of(lib: &mut Library, data_lib: &mut DataLibrary, action: &EntityRef<data::Action>) -> (r:
    Result<Rc<Action>, ActionError>)
    requires
        old(lib).agrees(*old(data_lib)),
    ensures
        final(lib).agrees(*final(data_lib)),
        match lower_action_ref(old(lib).names(), *action) {
            Ok((names, model)) => r matches Ok(compiled) && compiled.model() == model
                && final(lib).names() == names,
            Err(fault) => r matches Err(e) && e.fault() == fault,
        },
    decreases action, 0nat,
{
    match action {
        EntityRef::Real(entity) => Action::new(lib, data_lib, share(entity)),
        EntityRef::Ref(refer) => {
            let found = shared_from(&data_lib.actions, refer.label().as_str());
            match refer.resolve(found) {
                Ok(_) => Ok(lowered(&lib.actions, refer.label())),
                Err(source) => Err(ActionError::EntityLookup { source }),
            }
        },
    }
}

/// Lowers a list of actions, from the first to the last.
fn actions_of(
    lib: &mut Library,
    data_lib: &mut DataLibrary,
    actions: &Vec<EntityRef<data::Action>>,
) -> (r: Result<Vec<Rc<Action>>, ActionError>)
    requires
        old(lib).agrees(*old(data_lib)),
    ensures
        final(lib).agrees(*final(data_lib)),
        match lower_action_refs(old(lib).names(), actions@, 0, Seq::empty()) {
            Ok((names, models)) => r matches Ok(compiled) && models_of(compiled@) == models
                && final(lib).names() == names,
            Err(fault) => r matches Err(e) && e.fault() == fault,
        },
    decreases actions, 0nat,
{
    let ghost start = lib.names();
    let mut lowered: Vec<Rc<Action>> = Vec::new();
    let mut i: usize = 0;
    proof {
        assert(models_of(lowered@) =~= Seq::empty());
    }
    while i < actions.len()
        invariant
            lib.agrees(*data_lib),
            i <= actions.len(),
            start == old(lib).names(),
            lower_action_refs(start, actions@, 0, Seq::empty()) == lower_action_refs(
                lib.names(),
                actions@,
                i as int,
                models_of(lowered@),
            ),
        decreases actions.len() - i,
    {
        match action_of(lib, data_lib, &actions[i]) {
            Ok(compiled) => {
                proof {
                    assert(models_of(lowered@.push(compiled)) =~= models_of(lowered@).push(
                        compiled.model(),
                    ));
                }
                lowered.push(compiled);
            },
            Err(e) => {
                return Err(e);
            },
        }
        i += 1;
    }
    Ok(lowered)
}

impl Action {
    fn new(lib: &mut Library, data_lib: &mut DataLibrary, action: Rc<data::Action>) -> (r: Result<
        Rc<Self>,
        ActionError,
    >)
        requires
            old(lib).agrees(*old(data_lib)),
        ensures
            final(lib).agrees(*final(data_lib)),
            match lower_action(old(lib).names(), *action) {
                Ok((names, model)) => r matches Ok(compiled) && compiled.model() == model
                    && final(lib).names() == names,
                Err(fault) => r matches Err(e) && e.fault() == fault,
            },
        decreases action, 0nat,
    {
        let ghost start = lib.names();
        let mut steps: Vec<Step> = Vec::new();
        let mut i: usize = 0;
        proof {
            assert(step_models(steps@) =~= Seq::empty());
        }
        while i < action.steps.len()
            invariant
                lib.agrees(*data_lib),
                i <= action.steps.len(),
                start == old(lib).names(),
                lower_steps(start, action.steps@, 0, Seq::empty()) == lower_steps(
                    lib.names(),
                    action.steps@,
                    i as int,
                    step_models(steps@),
                ),
            decreases action.steps.len() - i,
        {
            match Step::new(lib, data_lib, &action.steps[i]) {
                Ok(step) => {
                    proof {
                        assert(step_models(steps@.push(step)) =~= step_models(steps@).push(
                            step.model(),
                        ));
                    }
                    steps.push(step);
                },
                Err(e) => {
                    return Err(ActionError::Step { source: Box::new(e) });
                },
            }
            i += 1;
        }
        let comp_action = Rc::new(Action { steps });
        let ghost names = lib.names();
        match &action.label {
            Some(name) => {
                let make = || -> (r: Rc<Action>)
                    ensures
                        r == comp_action,
                {
                    share(&comp_action)
                };
                match try_insert(name.clone(), &mut lib.actions, make, "action") {
                    Err(source) => {
                        return Err(ActionError::EntityUse { source });
                    },
                    Ok(()) => {},
                }
                let make = || -> (r: Rc<data::Action>)
                    ensures
                        r == action,
                {
                    share(&action)
                };
                match try_insert(name.clone(), &mut data_lib.actions, make, "action") {
                    Err(source) => {
                        return Err(ActionError::EntityUse { source });
                    },
                    Ok(()) => {},
                }
                proof {
                    assert(lib.names().actions =~= names.actions.insert(
                        name@,
                        comp_action.model(),
                    ));
                    assert(lib.names().bullets == names.bullets);
                    assert(lib.names().fires == names.fires);
                }
            },
            None => {},
        }
        Ok(comp_action)
    }

    /// The tree of the action: a root with the trees of the steps as its
    /// children.
    fn node(&self) -> (node: Node<NodeStep>)
        ensures
            program(node@) == action_tree(self.model()),
        decreases self,
    {
        let mut node = Node::new(NodeStep::Root);
        let mut i: usize = 0;
        proof {
            assert(program(node@).kids =~= Seq::empty());
        }
        while i < self.steps.len()
            invariant
                i <= self.steps.len(),
                node@.value == NodeStep::Root,
                node@.kids.len() == i,
                forall|j: int|
                    0 <= j < i ==> program(#[trigger] node@.kids[j]) == step_tree(
                        self.steps@[j].model(),
                    ),
            decreases self.steps.len() - i,
        {
            let child = self.steps[i].node();
            let ghost before = node@;
            node.add_child(child);
            proof {
                assert forall|j: int| 0 <= j < i + 1 implies program(#[trigger] node@.kids[j])
                    == step_tree(self.steps@[j].model()) by {
                    if j < i {
                        assert(node@.kids[j] == before.kids[j]);
                    }
                }
            }
            i += 1;
        }
        proof {
            assert(program(node@).kids =~= action_tree(self.model()).kids);
        }
        node
    }
}

impl Bullet {
    fn new(lib: &mut Library, data_lib: &mut DataLibrary, bullet: Rc<data::Bullet>) -> (r: Result<
        Rc<Self>,
        BulletError,
    >)
        requires
            old(lib).agrees(*old(data_lib)),
        ensures
            final(lib).agrees(*final(data_lib)),
            match lower_bullet(old(lib).names(), *bullet) {
                Ok((names, model)) => r matches Ok(compiled) && compiled.model() == model
                    && final(lib).names() == names,
                Err(fault) => r matches Err(e) && e.fault() == fault,
            },
        decreases bullet, 0nat,
    {
        let actions = match actions_of(lib, data_lib, &bullet.actions) {
            Ok(actions) => actions,
            Err(source) => {
                return Err(BulletError::Action { source });
            },
        };
        let comp_bullet = Rc::new(
            Bullet {
                direction: clone_direction(&bullet.direction),
                speed: clone_speed(&bullet.speed),
                actions,
            },
        );
        let ghost names = lib.names();
        match &bullet.label {
            Some(name) => {
                let make = || -> (r: Rc<Bullet>)
                    ensures
                        r == comp_bullet,
                {
                    share(&comp_bullet)
                };
                match try_insert(name.clone(), &mut lib.bullets, make, "bullet") {
                    Err(source) => {
                        return Err(BulletError::EntityUse { source });
                    },
                    Ok(()) => {},
                }
                let make = || -> (r: Rc<data::Bullet>)
                    ensures
                        r == bullet,
                {
                    share(&bullet)
                };
                match try_insert(name.clone(), &mut data_lib.bullets, make, "bullet") {
                    Err(source) => {
                        return Err(BulletError::EntityUse { source });
                    },
                    Ok(()) => {},
                }
                proof {
                    assert(lib.names().bullets =~= names.bullets.insert(
                        name@,
                        comp_bullet.model(),
                    ));
                    assert(lib.names().actions == names.actions);
                    assert(lib.names().fires == names.fires);
                }
            },
            None => {},
        }
        Ok(comp_bullet)
    }
}

impl Fire {
    fn new(lib: &mut Library, data_lib: &mut DataLibrary, fire: Rc<data::Fire>) -> (r: Result<
        Rc<Self>,
        FireError,
    >)
        requires
            old(lib).agrees(*old(data_lib)),
        ensures
            final(lib).agrees(*final(data_lib)),
            match lower_fire(old(lib).names(), *fire) {
                Ok((names, model)) => r matches Ok(compiled) && compiled.model() == model
                    && final(lib).names() == names,
                Err(fault) => r matches Err(e) && e.fault() == fault,
            },
        decreases fire, 0nat,
    {
        let bullet = match &fire.bullet {
            EntityRef::Real(entity) => match Bullet::new(lib, data_lib, share(entity)) {
                Ok(compiled) => compiled,
                Err(source) => {
                    return Err(FireError::Bullet { source });
                },
            },
            EntityRef::Ref(refer) => {
                let found = shared_from(&data_lib.bullets, refer.label().as_str());
                match refer.resolve(found) {
                    Ok(_) => lowered(&lib.bullets, refer.label()),
                    Err(source) => {
                        return Err(FireError::EntityLookup { source });
                    },
                }
            },
        };
        let comp_fire = Rc::new(
            Fire {
                direction: clone_direction(&fire.direction),
                speed: clone_speed(&fire.speed),
                bullet,
            },
        );
        let ghost names = lib.names();
        match &fire.label {
            Some(name) => {
                let make = || -> (r: Rc<Fire>)
                    ensures
                        r == comp_fire,
                {
                    share(&comp_fire)
                };
                match try_insert(name.clone(), &mut lib.fires, make, "fire") {
                    Err(source) => {
                        return Err(FireError::EntityUse { source });
                    },
                    Ok(()) => {},
                }
                let make = || -> (r: Rc<data::Fire>)
                    ensures
                        r == fire,
                {
                    share(&fire)
                };
                match try_insert(name.clone(), &mut data_lib.fires, make, "fire") {
                    Err(source) => {
                        return Err(FireError::EntityUse { source });
                    },
                    Ok(()) => {},
                }
                proof {
                    assert(lib.names().fires =~= names.fires.insert(name@, comp_fire.model()));
                    assert(lib.names().actions == names.actions);
                    assert(lib.names().bullets == names.bullets);
                }
            },
            None => {},
        }
        Ok(comp_fire)
    }
}

impl Repeat {
    fn new(lib: &mut Library, data_lib: &mut DataLibrary, repeat: &data::Repeat) -> (r: Result<
        Self,
        RepeatError,
    >)
        requires
            old(lib).agrees(*old(data_lib)),
        ensures
            final(lib).agrees(*final(data_lib)),
            match lower_action_refs(old(lib).names(), repeat.actions@, 0, Seq::empty()) {
                Ok((names, models)) => r matches Ok(compiled) && compiled.models() == models
                    && compiled.count() == repeat.times && final(lib).names() == names,
                Err(fault) => r matches Err(e) && e.fault() == fault,
            },
        decreases repeat, 0nat,
    {
        match actions_of(lib, data_lib, &repeat.actions) {
            Ok(actions) => Ok(Repeat { times: repeat.times.clone(), actions }),
            Err(source) => Err(RepeatError::Action { source }),
        }
    }

    /// How many times to repeat the actions.
    pub fn times(&self) -> (times: &Times)
        ensures
            *times == self.count(),
    {
        &self.times
    }

    /// A copy of the repetition that shares the actions.
    pub fn clone(&self) -> (r: Self)
        ensures
            r.count() == self.count(),
            r.models() == self.models(),
    {
        Repeat { times: self.times.clone(), actions: share_actions(&self.actions) }
    }
}

/// A list, `n` times over.
pub open spec fn repeated<A>(list: Seq<A>, n: nat) -> Seq<A>
    decreases n,
{
    if n == 0 {
        Seq::empty()
    } else {
        repeated(list, (n - 1) as nat) + list
    }
}

impl Repeat {
    /// The trees of the repeated actions, `count` times over: what a
    /// repetition puts below its node when it is run.
    pub fn new_steps(&self, count: usize) -> (nodes: Vec<Node<NodeStep>>)
        ensures
            programs(trees_of(nodes@)) == repeated(
                action_trees(self.models()),
                count as nat,
            ),
    {
        let ghost round = action_trees(self.models());
        let mut nodes: Vec<Node<NodeStep>> = Vec::new();
        let mut done: usize = 0;
        proof {
            assert(programs(trees_of(nodes@)) =~= repeated(round, 0));
        }
        while done < count
            invariant
                done <= count,
                round == action_trees(self.models()),
                round.len() == self.actions.len(),
                programs(trees_of(nodes@)) == repeated(round, done as nat),
            decreases count - done,
        {
            let mut i: usize = 0;
            proof {
                assert(round.subrange(0, 0) =~= Seq::empty());
                assert(repeated(round, done as nat) + round.subrange(0, 0) =~= repeated(
                    round,
                    done as nat,
                ));
            }
            while i < self.actions.len()
                invariant
                    i <= self.actions.len(),
                    round == action_trees(self.models()),
                    round.len() == self.actions.len(),
                    programs(trees_of(nodes@)) == repeated(round, done as nat) + round.subrange(
                        0,
                        i as int,
                    ),
                decreases self.actions.len() - i,
            {
                let node = Step::Action(share(&self.actions[i])).into_node();
                let ghost before = nodes@;
                nodes.push(node);
                proof {
                    assert(program(node@) == round[i as int]);
                    assert(programs(trees_of(nodes@)) =~= programs(trees_of(before)).push(
                        program(node@),
                    ));
                    assert(round.subrange(0, i + 1) =~= round.subrange(0, i as int).push(
                        round[i as int],
                    ));
                    assert(programs(trees_of(nodes@)) =~= repeated(round, done as nat)
                        + round.subrange(0, i + 1));
                }
                i += 1;
            }
            proof {
                assert(round.subrange(0, i as int) =~= round);
            }
            done += 1;
        }
        nodes
    }
}

/// The top-level BulletML entity, lowered: the tree of steps and the place
/// of the run in it.
#[derive(Debug)]
pub struct BulletML {
    /// The orientation of the game.
    pub orientation: Orientation,
    /// The actions which make up the entity.
    pub steps: ZipperIter<NodeStep>,
}

impl BulletML {
    /// Lowers a script.
    ///
    /// Bullets, fires and the actions that are not top-level are lowered in
    /// the order in which they stand, the top-level actions after them. The
    /// tree has a root with one child for each top-level action, and the run
    /// has not begun. The first label that is taken twice for one kind, or
    /// the first reference to a label that has not been lowered, is the
    /// error.
    pub fn new(bulletml: data::BulletML) -> (r: Result<Self, BulletMLError>)
        ensures
            match lower_script(bulletml) {
                Ok(tops) => r matches Ok(compiled) && compiled.steps.wf()
                    && compiled.orientation == bulletml.orientation
                    && compiled.steps.cursor().at_root() && !compiled.steps.started()
                    && !compiled.steps.finished() && program(compiled.steps.cursor().focus)
                    == script_tree(tops),
                Err(fault) => r matches Err(e) && e.fault() == fault,
            },
    {
        let mut library = Library::new();
        let mut data_library = DataLibrary::new();
        let mut top_actions: Vec<Rc<data::Action>> = Vec::new();
        let mut i: usize = 0;
        while i < bulletml.elements.len()
            invariant
                library.agrees(data_library),
                i <= bulletml.elements.len(),
                lower_elements(Names::empty(), bulletml.elements@, 0, Seq::empty())
                    == lower_elements(
                    library.names(),
                    bulletml.elements@,
                    i as int,
                    top_actions@,
                ),
            decreases bulletml.elements.len() - i,
        {
            match &bulletml.elements[i] {
                data::Element::Bullet(bullet) => {
                    match Bullet::new(&mut library, &mut data_library, share(bullet)) {
                        Ok(_) => {},
                        Err(source) => {
                            return Err(BulletMLError::Bullet { source });
                        },
                    }
                },
                data::Element::Fire(fire) => {
                    match Fire::new(&mut library, &mut data_library, share(fire)) {
                        Ok(_) => {},
                        Err(source) => {
                            return Err(BulletMLError::Fire { source });
                        },
                    }
                },
                data::Element::Action(action) => {
                    if marks_top(&action.label) {
                        top_actions.push(share(action));
                    } else {
                        match Action::new(&mut library, &mut data_library, share(action)) {
                            Ok(_) => {},
                            Err(source) => {
                                return Err(BulletMLError::Action { source });
                            },
                        }
                    }
                },
            }
            i += 1;
        }
        let ghost names = library.names();
        let mut actions: Vec<Rc<Action>> = Vec::new();
        let mut j: usize = 0;
        proof {
            assert(models_of(actions@) =~= Seq::empty());
        }
        while j < top_actions.len()
            invariant
                library.agrees(data_library),
                j <= top_actions.len(),
                lower_script(bulletml) == (match lower_tops(
                    library.names(),
                    top_actions@,
                    j as int,
                    models_of(actions@),
                ) {
                    Err(fault) => Err(fault),
                    Ok((_, lowered)) => Ok(lowered),
                }),
            decreases top_actions.len() - j,
        {
            match Action::new(&mut library, &mut data_library, share(&top_actions[j])) {
                Ok(compiled) => {
                    proof {
                        assert(models_of(actions@.push(compiled)) =~= models_of(actions@).push(
                            compiled.model(),
                        ));
                    }
                    actions.push(compiled);
                },
                Err(source) => {
                    return Err(BulletMLError::Action { source });
                },
            }
            j += 1;
        }
        let mut node = Node::new(NodeStep::Root);
        let mut k: usize = 0;
        while k < actions.len()
            invariant
                k <= actions.len(),
                node@.value == NodeStep::Root,
                node@.kids.len() == k,
                forall|n: int|
                    0 <= n < k ==> program(#[trigger] node@.kids[n]) == action_tree(
                        actions@[n].model(),
                    ),
            decreases actions.len() - k,
        {
            let child = actions[k].node();
            let ghost before = node@;
            node.add_child(child);
            proof {
                assert forall|n: int| 0 <= n < k + 1 implies program(#[trigger] node@.kids[n])
                    == action_tree(actions@[n].model()) by {
                    if n < k {
                        assert(node@.kids[n] == before.kids[n]);
                    }
                }
            }
            k += 1;
        }
        proof {
            assert(program(node@).kids =~= action_trees(models_of(actions@)));
        }
        Ok(BulletML { orientation: bulletml.orientation, steps: node.zipper().iter() })
    }
}

} // verus!
