//! Actions: what they are, and what applying one does.

use crate::actor::{actor_views, Actor, ActorView};
use crate::scene::{Scene, SceneOutput, SceneView};
use std::collections::hash_map::Entry;
use std::collections::HashMap;
use vstd::prelude::*;
use vstd::std_specs::iter::IteratorSpec;

verus! {

/// Whom an action that changes a resource is aimed at.
#[derive(Copy, Clone, Debug, PartialEq, Eq, Structural)]
pub enum ActionTarget {
    /// The actor that acts.
    Actor,
    /// The target that the action is bound to, if it is bound to one.
    Target,
    /// Every actor of the table but the one that acts.
    Others,
    /// Every actor of the table.
    All,
}

/// What an action asks of the list that runs it.
#[derive(Copy, Clone, Debug, PartialEq, Eq, Structural)]
pub enum NextAction {
    /// Run none of the actions that follow.
    Abort,
}

/// What a resource-changing action is to the contracts.
pub struct ChangeResourceView {
    pub source: Option<usize>,
    pub target: Option<usize>,
    pub target_type: ActionTarget,
    pub action_name: Seq<char>,
    pub resource_identifier: Seq<char>,
    pub amount: int,
    pub output: Seq<char>,
}

/// What an action is to the contracts.
pub enum ActionView {
    List(Seq<ActionView>),
    ChangeResource(ChangeResourceView),
    Print(Seq<char>),
}

/// Adds a signed amount to one resource of the actors it is aimed at, and
/// writes one record to the output log.
#[derive(Debug)]
pub struct ChangeResourceAction {
    source: Option<usize>,
    target: Option<usize>,
    target_type: ActionTarget,
    action_name: String,
    resource_identifier: String,
    amount: i64,
    output: SceneOutput,
}

/// Writes one record to the output log.
#[derive(Debug)]
pub struct PrintAction {
    value: SceneOutput,
}

/// Runs its actions one after the other.
#[derive(Debug)]
pub struct ActionList {
    actions: Vec<Action>,
}

/// A unit of behaviour, to be applied to the table of actors and the scene.
#[derive(Debug)]
pub enum Action {
    List(ActionList),
    ChangeResource(ChangeResourceAction),
    Print(PrintAction),
}

impl View for ChangeResourceAction {
    type V = ChangeResourceView;

    closed spec fn view(&self) -> ChangeResourceView {
        ChangeResourceView {
            source: self.source,
            target: self.target,
            target_type: self.target_type,
            action_name: self.action_name@,
            resource_identifier: self.resource_identifier@,
            amount: self.amount as int,
            output: self.output@,
        }
    }
}

impl View for PrintAction {
    type V = Seq<char>;

    closed spec fn view(&self) -> Seq<char> {
        self.value@
    }
}

impl View for ActionList {
    type V = Seq<ActionView>;

    closed spec fn view(&self) -> Seq<ActionView>
        decreases self,
    {
        Seq::new(
            self.actions.len() as nat,
            |i: int|
                if 0 <= i < self.actions.len() {
                    self.actions[i].view()
                } else {
                    arbitrary()
                },
        )
    }
}

impl View for Action {
    type V = ActionView;

    open spec fn view(&self) -> ActionView
        decreases self,
    {
        match self {
            Action::List(list) => ActionView::List(list.view()),
            Action::ChangeResource(change) => ActionView::ChangeResource(change.view()),
            Action::Print(print) => ActionView::Print(print.view()),
        }
    }
}

/// What a run of actions is to the contracts.
pub open spec fn action_views(actions: Seq<Action>) -> Seq<ActionView> {
    actions.map_values(|action: Action| action@)
}

/// What an action hands back: a signal for the list that runs it, and the
/// reactions, each with the id of the actor it is addressed to.
pub type ActionResult = (Option<NextAction>, Vec<(usize, Action)>);

/// What a run of reactions is to the contracts.
pub open spec fn reaction_views(reactions: Seq<(usize, Action)>) -> Seq<(usize, ActionView)> {
    reactions.map_values(|reaction: (usize, Action)| (reaction.0, reaction.1@))
}

/// The state that applying an action leaves, and what the action hands back.
pub struct Outcome {
    pub actors: Map<usize, ActorView>,
    pub scene: SceneView,
    pub signal: Option<NextAction>,
    pub reactions: Seq<(usize, ActionView)>,
}

impl Outcome {
    /// The outcome that leaves the given state and hands back nothing.
    pub open spec fn quiet(actors: Map<usize, ActorView>, scene: SceneView) -> Outcome {
        Outcome { actors, scene, signal: None, reactions: Seq::empty() }
    }

    /// The outcome of a list whose first action gave `self` and whose other
    /// actions, run on the state that `self` left, would give `rest`.
    ///
    /// Where `self` signals an abort, the other actions do not run: the state
    /// and the reactions are those of `self`. Otherwise the state is that of
    /// `rest`, and the reactions of `self` come before those of `rest`. The
    /// list itself never signals.
    pub open spec fn followed_by(self, rest: Outcome) -> Outcome {
        if self.signal is Some {
            Outcome { signal: None, ..self }
        } else {
            Outcome {
                actors: rest.actors,
                scene: rest.scene,
                signal: None,
                reactions: self.reactions + rest.reactions,
            }
        }
    }

    /// The outcome with `earlier` put in front of its reactions.
    pub open spec fn after(self, earlier: Seq<(usize, ActionView)>) -> Outcome {
        Outcome { reactions: earlier + self.reactions, ..self }
    }
}

/// The table in which `amount` was added to the resource `identifier` of every
/// actor whose id is in `targets`. Actors without that resource, and ids
/// without an actor, are passed over.
pub open spec fn change_resource_of(
    actors: Map<usize, ActorView>,
    targets: Set<usize>,
    identifier: Seq<char>,
    amount: int,
) -> Map<usize, ActorView> {
    Map::new(
        |id: usize| actors.contains_key(id),
        |id: usize|
            if targets.contains(id) {
                actors[id].change_resource(identifier, amount)
            } else {
                actors[id]
            },
    )
}

impl ChangeResourceView {
    /// The ids that the action is aimed at when `source` applies it: the
    /// source itself, the bound target (none where the action is bound to
    /// none), every id of the table but the source, or every id of the table.
    pub open spec fn targets(self, actors: Map<usize, ActorView>, source: usize) -> Set<usize> {
        match self.target_type {
            ActionTarget::Actor => set![source],
            ActionTarget::Target => match self.target {
                Some(target) => set![target],
                None => Set::empty(),
            },
            ActionTarget::Others => actors.dom().remove(source),
            ActionTarget::All => actors.dom(),
        }
    }

    /// What applying the action does: the resource of every actor it is aimed
    /// at changes by the amount, and the log gets the action's record, once.
    pub open spec fn apply(
        self,
        actors: Map<usize, ActorView>,
        source: usize,
        scene: SceneView,
    ) -> Outcome {
        Outcome::quiet(
            change_resource_of(
                actors,
                self.targets(actors, source),
                self.resource_identifier,
                self.amount,
            ),
            scene.push_output(self.output),
        )
    }
}

impl ActionView {
    /// What applying the action does when `source` applies it to the table
    /// `actors` and the scene `scene`.
    ///
    /// A list runs its actions in order. A print action writes its record to
    /// the log and touches nothing else. Neither these nor an action that
    /// changes a resource signal or hand back a reaction.
    pub open spec fn apply(
        self,
        actors: Map<usize, ActorView>,
        source: usize,
        scene: SceneView,
    ) -> Outcome
        decreases self, 0nat,
    {
        match self {
            ActionView::List(children) => run_children(children, 0, actors, source, scene),
            ActionView::ChangeResource(change) => change.apply(actors, source, scene),
            ActionView::Print(text) => Outcome::quiet(actors, scene.push_output(text)),
        }
    }

    /// The id that the action is bound to as its target, if any.
    pub open spec fn target(self) -> Option<usize> {
        match self {
            ActionView::ChangeResource(change) => change.target,
            _ => None,
        }
    }

    /// The name of the action.
    pub open spec fn name(self) -> Seq<char> {
        match self {
            ActionView::List(_) => "Unnamed Action List"@,
            ActionView::ChangeResource(change) => change.action_name,
            ActionView::Print(_) => Seq::empty(),
        }
    }

    /// The action bound to `target`.
    pub open spec fn with_target(self, target: Option<usize>) -> ActionView {
        match self {
            ActionView::ChangeResource(change) => ActionView::ChangeResource(
                ChangeResourceView { target, ..change },
            ),
            _ => self,
        }
    }

    /// The action bound to `source`.
    pub open spec fn with_source(self, source: Option<usize>) -> ActionView {
        match self {
            ActionView::ChangeResource(change) => ActionView::ChangeResource(
                ChangeResourceView { source, ..change },
            ),
            _ => self,
        }
    }
}

/// What the actions of `children` from place `from` on do, run in order.
pub open spec fn run_children(
    children: Seq<ActionView>,
    from: int,
    actors: Map<usize, ActorView>,
    source: usize,
    scene: SceneView,
) -> Outcome
    decreases children, children.len() - from,
{
    if 0 <= from < children.len() {
        let first = children[from].apply(actors, source, scene);
        first.followed_by(run_children(children, from + 1, first.actors, source, first.scene))
    } else {
        Outcome::quiet(actors, scene)
    }
}

/// The call left the table and the scene as `outcome` says, and handed back
/// what `outcome` says.
pub open spec fn carried_out(
    outcome: Outcome,
    actors: Map<usize, Actor>,
    scene: SceneView,
    result: ActionResult,
) -> bool {
    &&& actor_views(actors) == outcome.actors
    &&& scene == outcome.scene
    &&& result.0 == outcome.signal
    &&& reaction_views(result.1@) == outcome.reactions
}

/// Adds `amount` to the resource `identifier` of the actor `id`, where the
/// table has that actor.
fn change_resource_at(
    actors: &mut HashMap<usize, Actor>,
    id: usize,
    identifier: &str,
    amount: i64,
)
    ensures
        actor_views(final(actors)@) == change_resource_of(
            actor_views(old(actors)@),
            set![id],
            identifier@,
            amount as int,
        ),
{
    match actors.entry(id) {
        Entry::Occupied(mut held) => {
            held.get_mut().change_resource(identifier, amount);
        },
        Entry::Vacant(_) => {},
    }
    assert(actor_views(actors@) =~= change_resource_of(
        actor_views(old(actors)@),
        set![id],
        identifier@,
        amount as int,
    ));
}

/// One more element of a sequence without duplicates is one more element of
/// the set, and a new one.
proof fn lemma_take_one_more(ids: Seq<usize>, i: int)
    requires
        0 <= i < ids.len(),
        ids.no_duplicates(),
    ensures
        ids.take(i + 1).to_set() == ids.take(i).to_set().insert(ids[i]),
        !ids.take(i).to_set().contains(ids[i]),
{
    ids.lemma_take_succ_push(i);
    ids.take(i).lemma_push_to_set_commute(ids[i]);
    if ids.take(i).contains(ids[i]) {
        let j = choose|j: int| 0 <= j < i && #[trigger] ids.take(i)[j] == ids[i];
        assert(ids[j] == ids[i]);
    }
}

/// The ids of the table, each once, in no particular order.
fn table_ids(actors: &HashMap<usize, Actor>) -> (ids: Vec<usize>)
    ensures
        ids@.no_duplicates(),
        ids@.to_set() == actors@.dom(),
{
    let mut ids: Vec<usize> = Vec::new();
    for id in walk: actors.keys()
        invariant
            walk.seq() == actors.keys().remaining(),
            ids@ == walk.seq().unref().take(walk.index()),
    {
        ids.push(*id);
    }
    proof {
        vstd::std_specs::hash::axiom_spec_keys_iter(actors);
        assert(ids@ =~= actors.keys().remaining().unref());
    }
    ids
}

impl ChangeResourceAction {
    /// An action that adds `amount` to the resource `resource_identifier` of
    /// the actors that `target_type` picks, and writes `output` to the log.
    pub fn new(
        source: Option<usize>,
        target: Option<usize>,
        target_type: ActionTarget,
        action_name: String,
        resource_identifier: String,
        amount: i64,
        output: SceneOutput,
    ) -> (action: ChangeResourceAction)
        ensures
            action@ == (ChangeResourceView {
                source,
                target,
                target_type,
                action_name: action_name@,
                resource_identifier: resource_identifier@,
                amount: amount as int,
                output: output@,
            }),
    {
        ChangeResourceAction {
            source,
            target,
            target_type,
            action_name,
            resource_identifier,
            amount,
            output,
        }
    }

    /// The ids that the action is aimed at, each once.
    fn resolve_targets(&self, actors: &HashMap<usize, Actor>, source: usize) -> (targets: Vec<
        usize,
    >)
        ensures
            targets@.no_duplicates(),
            targets@.to_set() == self@.targets(actor_views(actors@), source),
    {
        match self.target_type {
            ActionTarget::Actor => {
                let targets = vec![source];
                assert(targets@.to_set() =~= set![source]);
                targets
            },
            ActionTarget::Target => match self.target {
                Some(target) => {
                    let targets = vec![target];
                    assert(targets@.to_set() =~= set![target]);
                    targets
                },
                None => {
                    let targets: Vec<usize> = Vec::new();
                    assert(targets@.to_set() =~= Set::<usize>::empty());
                    targets
                },
            },
            ActionTarget::Others => {
                let ids = table_ids(actors);
                let mut targets: Vec<usize> = Vec::new();
                let mut i: usize = 0;
                while i < ids.len()
                    invariant
                        i <= ids.len(),
                        ids@.no_duplicates(),
                        targets@.no_duplicates(),
                        targets@.to_set() == ids@.take(i as int).to_set().remove(source),
                    decreases ids.len() - i,
                {
                    let id = ids[i];
                    proof {
                        lemma_take_one_more(ids@, i as int);
                        targets@.lemma_push_to_set_commute(id);
                    }
                    if id != source {
                        assert(!targets@.to_set().contains(id));
                        targets.push(id);
                    }
                    assert(targets@.to_set() =~= ids@.take(i + 1).to_set().remove(source));
                    i += 1;
                }
                assert(ids@.take(ids.len() as int) =~= ids@);
                assert(actor_views(actors@).dom() =~= actors@.dom());
                targets
            },
            ActionTarget::All => {
                let ids = table_ids(actors);
                assert(actor_views(actors@).dom() =~= actors@.dom());
                ids
            },
        }
    }

    /// Adds the amount to the resource of every actor that the action is
    /// aimed at, then writes the action's record to the log, once. An id
    /// without an actor and an actor without the resource are passed over.
    /// Hands back no signal and no reaction.
    pub fn apply(
        &self,
        actors: &mut HashMap<usize, Actor>,
        source: usize,
        scene: &mut Scene,
    ) -> (result: ActionResult)
        ensures
            carried_out(
                self@.apply(actor_views(old(actors)@), source, old(scene)@),
                final(actors)@,
                final(scene)@,
                result,
            ),
    {
        let targets = self.resolve_targets(actors, source);
        let ghost before = actor_views(actors@);
        let ghost identifier = self.resource_identifier@;
        let ghost amount = self.amount as int;
        let mut i: usize = 0;
        while i < targets.len()
            invariant
                i <= targets.len(),
                targets@.no_duplicates(),
                identifier == self.resource_identifier@,
                amount == self.amount as int,
                actor_views(actors@) == change_resource_of(
                    before,
                    targets@.take(i as int).to_set(),
                    identifier,
                    amount,
                ),
            decreases targets.len() - i,
        {
            let id = targets[i];
            proof {
                lemma_take_one_more(targets@, i as int);
            }
            change_resource_at(actors, id, self.resource_identifier.as_str(), self.amount);
            proof {
                assert(actor_views(actors@) =~= change_resource_of(
                    before,
                    targets@.take(i + 1).to_set(),
                    identifier,
                    amount,
                ));
            }
            i += 1;
        }
        assert(targets@.take(targets.len() as int) =~= targets@);
        scene.push_output(self.output.clone());
        let reactions: Vec<(usize, Action)> = Vec::new();
        assert(reaction_views(reactions@) =~= Seq::empty());
        (None, reactions)
    }

    /// The id that the action is bound to as its target, if any.
    pub fn target(&self) -> (target: Option<usize>)
        ensures
            target == self@.target,
    {
        self.target
    }

    /// The name that the action was given.
    pub fn name(&self) -> (name: String)
        ensures
            name@ == self@.action_name,
    {
        self.action_name.clone()
    }

    /// Binds the action to a target, or to none.
    pub fn set_target(&mut self, target: Option<usize>)
        ensures
            final(self)@ == (ChangeResourceView { target, ..old(self)@ }),
    {
        self.target = target;
    }

    /// Binds the action to the actor that is to apply it, or to none.
    /// Applying the action goes by the source it is handed, not by this one.
    pub fn set_source(&mut self, source: Option<usize>)
        ensures
            final(self)@ == (ChangeResourceView { source, ..old(self)@ }),
    {
        self.source = source;
    }
}

impl Clone for ChangeResourceAction {
    fn clone(&self) -> (copy: ChangeResourceAction)
        ensures
            copy@ == self@,
    {
        ChangeResourceAction {
            source: self.source,
            target: self.target,
            target_type: self.target_type,
            action_name: self.action_name.clone(),
            resource_identifier: self.resource_identifier.clone(),
            amount: self.amount,
            output: self.output.clone(),
        }
    }
}

impl PrintAction {
    /// An action that writes `value` to the log.
    pub fn new(value: SceneOutput) -> (action: PrintAction)
        ensures
            action@ == value@,
    {
        PrintAction { value }
    }

    /// Writes the action's record to the log and touches nothing else. Hands
    /// back no signal and no reaction.
    pub fn apply(
        &self,
        actors: &mut HashMap<usize, Actor>,
        source: usize,
        scene: &mut Scene,
    ) -> (result: ActionResult)
        ensures
            final(actors)@ == old(actors)@,
            carried_out(
                ActionView::Print(self@).apply(actor_views(old(actors)@), source, old(scene)@),
                final(actors)@,
                final(scene)@,
                result,
            ),
    {
        scene.push_output(self.value.clone());
        let reactions: Vec<(usize, Action)> = Vec::new();
        assert(reaction_views(reactions@) =~= Seq::empty());
        (None, reactions)
    }

    /// A print action is bound to no target.
    pub fn target(&self) -> (target: Option<usize>)
        ensures
            target is None,
    {
        None
    }

    /// A print action has no name: the empty text.
    pub fn name(&self) -> (name: String)
        ensures
            name@ == Seq::<char>::empty(),
    {
        String::new()
    }

    /// Does nothing: a print action has no target to bind.
    pub fn set_target(&mut self, target: Option<usize>)
        ensures
            final(self)@ == old(self)@,
    {
    }

    /// Does nothing: a print action has no source to bind.
    pub fn set_source(&mut self, source: Option<usize>)
        ensures
            final(self)@ == old(self)@,
    {
    }
}

impl Clone for PrintAction {
    fn clone(&self) -> (copy: PrintAction)
        ensures
            copy@ == self@,
    {
        PrintAction { value: self.value.clone() }
    }
}

impl Default for ActionList {
    /// The list without actions.
    fn default() -> (list: ActionList)
        ensures
            list@ == Seq::<ActionView>::empty(),
    {
        let list = ActionList { actions: Vec::new() };
        assert(list@ =~= Seq::<ActionView>::empty());
        list
    }
}

impl ActionList {
    /// Adds `action` at the end of the list.
    pub fn add_action(&mut self, action: Action)
        ensures
            final(self)@ == old(self)@.push(action@),
    {
        self.actions.push(action);
        assert(self@ =~= old(self)@.push(action@));
    }

    /// Takes in what one action of a list handed back: its reactions go to
    /// the end of `reactions`, and the result says whether the list is to stop
    /// here, which is where the action signalled an abort.
    pub fn absorb(reactions: &mut Vec<(usize, Action)>, outcome: ActionResult) -> (stop: bool)
        ensures
            reaction_views(final(reactions)@) == reaction_views(old(reactions)@) + reaction_views(
                outcome.1@,
            ),
            stop == (outcome.0 is Some),
    {
        let (signal, mut handed_back) = outcome;
        reactions.append(&mut handed_back);
        assert(reaction_views(reactions@) =~= reaction_views(old(reactions)@) + reaction_views(
            outcome.1@,
        ));
        match signal {
            Some(NextAction::Abort) => true,
            None => false,
        }
    }

    /// Applies the actions in the order in which they were added, each to the
    /// state that the one before left and with the same source. The reactions
    /// of all that ran are handed back in that order. An action that signals
    /// an abort is the last to run; its reactions are still handed back. The
    /// list itself never signals.
    pub fn apply(
        &self,
        actors: &mut HashMap<usize, Actor>,
        source: usize,
        scene: &mut Scene,
    ) -> (result: ActionResult)
        ensures
            carried_out(
                ActionView::List(self@).apply(actor_views(old(actors)@), source, old(scene)@),
                final(actors)@,
                final(scene)@,
                result,
            ),
        decreases self,
    {
        let ghost whole = run_children(self@, 0, actor_views(actors@), source, scene@);
        let mut reactions: Vec<(usize, Action)> = Vec::new();
        let mut stop = false;
        let mut i: usize = 0;
        assert(reaction_views(reactions@) =~= Seq::empty());
        assert(whole.after(Seq::empty()) == whole);
        while i < self.actions.len() && !stop
            invariant
                i <= self.actions.len(),
                !stop ==> whole == run_children(
                    self@,
                    i as int,
                    actor_views(actors@),
                    source,
                    scene@,
                ).after(reaction_views(reactions@)),
                stop ==> whole == Outcome::quiet(actor_views(actors@), scene@).after(
                    reaction_views(reactions@),
                ),
            decreases self.actions.len() - i,
        {
            let ghost earlier = reaction_views(reactions@);
            let ghost rest = run_children(self@, i as int, actor_views(actors@), source, scene@);
            let ghost first = self@[i as int].apply(actor_views(actors@), source, scene@);
            let outcome = self.actions[i].apply(actors, source, scene);
            stop = ActionList::absorb(&mut reactions, outcome);
            i += 1;
            proof {
                let later = run_children(self@, i as int, first.actors, source, first.scene);
                assert(rest == first.followed_by(later));
                assert((earlier + first.reactions) + later.reactions =~= earlier + (
                first.reactions + later.reactions));
                assert((earlier + first.reactions) + Seq::empty() =~= earlier + first.reactions);
            }
        }
        (None, reactions)
    }

    /// A list is bound to no target.
    pub fn target(&self) -> (target: Option<usize>)
        ensures
            target is None,
    {
        None
    }

    /// Every list goes by the same name.
    pub fn name(&self) -> (name: String)
        ensures
            name@ == "Unnamed Action List"@,
    {
        "Unnamed Action List".to_owned()
    }

    /// Does nothing: a list has no target to bind, and its actions keep
    /// theirs.
    pub fn set_target(&mut self, target: Option<usize>)
        ensures
            final(self)@ == old(self)@,
    {
    }

    /// Does nothing: a list has no source to bind, and its actions keep
    /// theirs.
    pub fn set_source(&mut self, source: Option<usize>)
        ensures
            final(self)@ == old(self)@,
    {
    }
}

impl Clone for ActionList {
    fn clone(&self) -> (copy: ActionList)
        ensures
            copy@ == self@,
        decreases self,
    {
        let mut actions: Vec<Action> = Vec::new();
        let mut i: usize = 0;
        while i < self.actions.len()
            invariant
                i <= self.actions.len(),
                actions.len() == i,
                forall|j: int| 0 <= j < i ==> actions[j]@ == self.actions[j]@,
            decreases self.actions.len() - i,
        {
            actions.push(self.actions[i].clone());
            i += 1;
        }
        let copy = ActionList { actions };
        assert(copy@ =~= self@);
        copy
    }
}

impl Action {
    /// Applies the action: `source` is the actor that acts, `actors` the
    /// table of all actors, `scene` the scene. The table and the scene are
    /// changed as [`ActionView::apply`] says, and the signal and the reactions
    /// that it names are handed back.
    pub fn apply(
        &self,
        actors: &mut HashMap<usize, Actor>,
        source: usize,
        scene: &mut Scene,
    ) -> (result: ActionResult)
        ensures
            carried_out(
                self@.apply(actor_views(old(actors)@), source, old(scene)@),
                final(actors)@,
                final(scene)@,
                result,
            ),
        decreases self,
    {
        match self {
            Action::List(list) => list.apply(actors, source, scene),
            Action::ChangeResource(change) => change.apply(actors, source, scene),
            Action::Print(print) => print.apply(actors, source, scene),
        }
    }

    /// The id that the action is bound to as its target, if any. Only an
    /// action that changes a resource can be bound to one.
    pub fn target(&self) -> (target: Option<usize>)
        ensures
            target == self@.target(),
    {
        match self {
            Action::List(list) => list.target(),
            Action::ChangeResource(change) => change.target(),
            Action::Print(print) => print.target(),
        }
    }

    /// The name of the action, to show to a user.
    pub fn name(&self) -> (name: String)
        ensures
            name@ == self@.name(),
    {
        match self {
            Action::List(list) => list.name(),
            Action::ChangeResource(change) => change.name(),
            Action::Print(print) => print.name(),
        }
    }

    /// Binds the action to a target, or to none. Only an action that changes
    /// a resource takes it; the others stay as they are.
    pub fn set_target(&mut self, target: Option<usize>)
        ensures
            final(self)@ == old(self)@.with_target(target),
    {
        match self {
            Action::List(list) => list.set_target(target),
            Action::ChangeResource(change) => change.set_target(target),
            Action::Print(print) => print.set_target(target),
        }
    }

    /// Binds the action to the actor that is to apply it, or to none. Only an
    /// action that changes a resource takes it; the others stay as they are.
    pub fn set_source(&mut self, source: Option<usize>)
        ensures
            final(self)@ == old(self)@.with_source(source),
    {
        match self {
            Action::List(list) => list.set_source(source),
            Action::ChangeResource(change) => change.set_source(source),
            Action::Print(print) => print.set_source(source),
        }
    }
}

impl Clone for Action {
    /// An independent copy with the same parameters.
    fn clone(&self) -> (copy: Action)
        ensures
            copy@ == self@,
        decreases self,
    {
        match self {
            Action::List(list) => Action::List(list.clone()),
            Action::ChangeResource(change) => Action::ChangeResource(change.clone()),
            Action::Print(print) => Action::Print(print.clone()),
        }
    }
}

} // verus!
