//! The catalog of actions that may be offered to an actor, each gated by
//! requirements on the actor's state.

use crate::action::{action_views, Action, ActionView};
use crate::actor::{actor_views, Actor, ActorView, Status};
use crate::name_map::NameMap;
use crate::scene::{Scene, SceneView};
use crate::text::{decimal, decimal_text, decimal_value, lemma_decimal_round_trip};
use std::collections::HashMap;
use vstd::prelude::*;

verus! {

/// What a requirement is to the contracts.
pub enum RequirementView {
    ActorStatus(Seq<char>, Status),
    ActorResourceMin(Seq<char>, int),
    ActorResourceMax(Seq<char>, int),
    Target(Box<RequirementView>),
}

impl RequirementView {
    /// Whether the requirement is met for the actor `actor_id`.
    ///
    /// A bound on a resource is met where the actor's value keeps it, and by
    /// default where the table has no such actor or the actor no such
    /// resource. A status is asked for in name only: the requirement is met
    /// where the actor has the status, and by default where actor or status
    /// is missing, so it never fails. A requirement on the target is not
    /// looked into: it is always met.
    pub open spec fn holds(
        self,
        actors: Map<usize, ActorView>,
        actor_id: usize,
        scene: SceneView,
    ) -> bool {
        match self {
            RequirementView::ActorResourceMin(name, min) => {
                actors.contains_key(actor_id) && actors[actor_id].resources.contains_key(name)
                    ==> actors[actor_id].resources[name].value >= min
            },
            RequirementView::ActorResourceMax(name, max) => {
                actors.contains_key(actor_id) && actors[actor_id].resources.contains_key(name)
                    ==> actors[actor_id].resources[name].value <= max
            },
            RequirementView::ActorStatus(_, _) => true,
            RequirementView::Target(_) => true,
        }
    }
}

/// A condition on the state of an actor.
#[derive(Debug)]
pub enum ActionRequirement {
    /// The actor has the status of this name. The status that is carried
    /// along is not looked at.
    ActorStatus(String, Status),
    /// The actor's resource of this name is at least this much.
    ActorResourceMin(String, i64),
    /// The actor's resource of this name is at most this much.
    ActorResourceMax(String, i64),
    /// A requirement meant for the target of an action; always met.
    Target(Box<ActionRequirement>),
}

impl View for ActionRequirement {
    type V = RequirementView;

    open spec fn view(&self) -> RequirementView
        decreases self,
    {
        match self {
            ActionRequirement::ActorStatus(name, status) => RequirementView::ActorStatus(
                name@,
                *status,
            ),
            ActionRequirement::ActorResourceMin(name, min) => RequirementView::ActorResourceMin(
                name@,
                *min as int,
            ),
            ActionRequirement::ActorResourceMax(name, max) => RequirementView::ActorResourceMax(
                name@,
                *max as int,
            ),
            ActionRequirement::Target(inner) => RequirementView::Target(
                Box::new((**inner).view()),
            ),
        }
    }
}

/// What a run of requirements is to the contracts.
pub open spec fn requirement_views(requirements: Seq<ActionRequirement>) -> Seq<RequirementView> {
    requirements.map_values(|requirement: ActionRequirement| requirement@)
}

/// The value of the resource `name` of the actor `actor_id`, where there is
/// such an actor with such a resource.
fn resource_value(actors: &HashMap<usize, Actor>, actor_id: usize, name: &str) -> (value: Option<
    i64,
>)
    ensures
        ({
            let table = actor_views(actors@);
            match value {
                Some(v) => {
                    &&& table.contains_key(actor_id)
                    &&& table[actor_id].resources.contains_key(name@)
                    &&& table[actor_id].resources[name@].value == v
                },
                None => !(table.contains_key(actor_id) && table[actor_id].resources.contains_key(
                    name@,
                )),
            }
        }),
{
    assert(actor_views(actors@).contains_key(actor_id) == actors@.contains_key(actor_id));
    match actors.get(&actor_id) {
        Some(actor) => match actor.get_resource(name) {
            Some(resource) => Some(resource.value()),
            None => None,
        },
        None => None,
    }
}

impl ActionRequirement {
    /// Whether the requirement is met for the actor `actor_id`, see
    /// [`RequirementView::holds`].
    pub fn check(&self, actors: &HashMap<usize, Actor>, actor_id: usize, scene: &Scene) -> (met:
        bool)
        ensures
            met == self@.holds(actor_views(actors@), actor_id, scene@),
    {
        match self {
            ActionRequirement::ActorResourceMin(name, min) => {
                match resource_value(actors, actor_id, name.as_str()) {
                    Some(value) => value >= *min,
                    None => true,
                }
            },
            ActionRequirement::ActorResourceMax(name, max) => {
                match resource_value(actors, actor_id, name.as_str()) {
                    Some(value) => value <= *max,
                    None => true,
                }
            },
            ActionRequirement::ActorStatus(_, _) => true,
            ActionRequirement::Target(_) => true,
        }
    }
}

/// What a catalog entry is to the contracts.
pub struct PossibleView {
    pub action: ActionView,
    pub requirements: Seq<RequirementView>,
}

impl PossibleView {
    /// Whether the entry is offered to the actor `actor`: all of its
    /// requirements are met. An entry without requirements is always offered.
    pub open spec fn offered(
        self,
        actors: Map<usize, ActorView>,
        actor: usize,
        scene: SceneView,
    ) -> bool {
        forall|i: int|
            0 <= i < self.requirements.len() ==> (#[trigger] self.requirements[i]).holds(
                actors,
                actor,
                scene,
            )
    }
}

/// A catalog entry: an action to offer, and what has to hold for the offer.
#[derive(Debug)]
pub struct PossibleAction {
    action: Action,
    requirements: Vec<ActionRequirement>,
}

impl View for PossibleAction {
    type V = PossibleView;

    closed spec fn view(&self) -> PossibleView {
        PossibleView {
            action: self.action@,
            requirements: requirement_views(self.requirements@),
        }
    }
}

impl PossibleAction {
    /// An entry that offers `action` where all of `requirements` are met.
    pub fn new(action: Action, requirements: Vec<ActionRequirement>) -> (entry: PossibleAction)
        ensures
            entry@ == (PossibleView {
                action: action@,
                requirements: requirement_views(requirements@),
            }),
    {
        PossibleAction { action, requirements }
    }

    /// The action that the entry offers. It is a template: an offer is a copy
    /// of it.
    pub fn action(&self) -> (action: &Action)
        ensures
            action@ == self@.action,
    {
        &self.action
    }

    /// The requirements of the entry, in the order given.
    pub fn requirements(&self) -> (requirements: &Vec<ActionRequirement>)
        ensures
            requirement_views(requirements@) == self@.requirements,
    {
        &self.requirements
    }

    /// Whether the entry is offered to the actor `actor`, see
    /// [`PossibleView::offered`].
    pub fn check(&self, actors: &HashMap<usize, Actor>, actor: usize, scene: &Scene) -> (offered:
        bool)
        ensures
            offered == self@.offered(actor_views(actors@), actor, scene@),
    {
        let mut i: usize = 0;
        while i < self.requirements.len()
            invariant
                i <= self.requirements.len(),
                forall|j: int|
                    0 <= j < i ==> (#[trigger] self@.requirements[j]).holds(
                        actor_views(actors@),
                        actor,
                        scene@,
                    ),
            decreases self.requirements.len() - i,
        {
            assert(self@.requirements[i as int] == self.requirements[i as int]@);
            if !self.requirements[i].check(actors, actor, scene) {
                return false;
            }
            i += 1;
        }
        true
    }
}

/// The actions that a catalog offers to the actor `actor`: the actions of the
/// entries that are offered, in the order of the catalog.
pub open spec fn offers(
    catalog: Seq<PossibleView>,
    actors: Map<usize, ActorView>,
    actor: usize,
    scene: SceneView,
) -> Seq<ActionView> {
    catalog.filter(|entry: PossibleView| entry.offered(actors, actor, scene)).map_values(
        |entry: PossibleView| entry.action,
    )
}

/// What a run of catalog entries is to the contracts.
pub open spec fn possible_views(entries: Seq<PossibleAction>) -> Seq<PossibleView> {
    entries.map_values(|entry: PossibleAction| entry@)
}

/// The catalog: entries in the order in which they were added.
#[derive(Debug)]
pub struct PossibleActionSet {
    possible_actions: Vec<PossibleAction>,
}

impl View for PossibleActionSet {
    type V = Seq<PossibleView>;

    closed spec fn view(&self) -> Seq<PossibleView> {
        possible_views(self.possible_actions@)
    }
}

impl PossibleActionSet {
    /// The catalog without entries.
    pub fn new() -> (catalog: PossibleActionSet)
        ensures
            catalog@ == Seq::<PossibleView>::empty(),
    {
        let catalog = PossibleActionSet { possible_actions: Vec::new() };
        assert(catalog@ =~= Seq::<PossibleView>::empty());
        catalog
    }

    /// Adds an entry at the end of the catalog.
    pub fn add(&mut self, entry: PossibleAction)
        ensures
            final(self)@ == old(self)@.push(entry@),
    {
        self.possible_actions.push(entry);
        assert(self@ =~= old(self)@.push(entry@));
    }

    /// The actions that the catalog offers to the actor `actor` in the given
    /// state: a copy of the action of every entry whose requirements are all
    /// met, in the order of the catalog. The catalog stays as it is.
    pub fn build_action_set(
        &self,
        actors: &HashMap<usize, Actor>,
        actor: usize,
        scene: &Scene,
    ) -> (action_set: Vec<Action>)
        ensures
            action_views(action_set@) == offers(self@, actor_views(actors@), actor, scene@),
    {
        let ghost table = actor_views(actors@);
        let ghost scene_view = scene@;
        let ghost wanted = |entry: PossibleView| entry.offered(table, actor, scene_view);
        let ghost action_of = |entry: PossibleView| entry.action;
        let mut action_set: Vec<Action> = Vec::new();
        let mut i: usize = 0;
        assert(self@.take(0).filter(wanted) =~= Seq::<PossibleView>::empty()) by {
            reveal(Seq::filter);
        }
        assert(action_views(action_set@) =~= self@.take(0).filter(wanted).map_values(action_of));
        while i < self.possible_actions.len()
            invariant
                i <= self.possible_actions.len(),
                table == actor_views(actors@),
                scene_view == scene@,
                wanted == |entry: PossibleView| entry.offered(table, actor, scene_view),
                action_of == |entry: PossibleView| entry.action,
                action_views(action_set@) == self@.take(i as int).filter(wanted).map_values(
                    action_of,
                ),
            decreases self.possible_actions.len() - i,
        {
            let entry = &self.possible_actions[i];
            proof {
                assert(self@[i as int] == entry@);
                self@.lemma_take_succ_push(i as int);
                self@.take(i as int).lemma_filter_push(entry@, wanted);
            }
            let ghost before = action_set@;
            if entry.check(actors, actor, scene) {
                action_set.push(entry.action.clone());
                assert(action_views(action_set@) =~= action_views(before).push(entry@.action));
                assert(self@.take(i + 1).filter(wanted).map_values(action_of) =~= self@.take(
                    i as int,
                ).filter(wanted).map_values(action_of).push(entry@.action));
            }
            i += 1;
        }
        assert(self@.take(self@.len() as int) =~= self@);
        action_set
    }
}

/// The keys under which `count` offered actions are shown, each with the
/// place of its action: the places from 0 on, written in decimal.
pub open spec fn option_keys(count: nat) -> Map<Seq<char>, usize> {
    Map::new(
        |key: Seq<char>| exists|i: nat| i < count && #[trigger] decimal_text(i) == key,
        |key: Seq<char>| decimal_value(key) as usize,
    )
}

/// A map from what a user may type to the place of the action that is meant:
/// every place of `actions`, under its number written in decimal.
pub fn build_action_option_mapping(actions: &Vec<Action>) -> (mapping: NameMap<usize>)
    ensures
        mapping@ == option_keys(actions.len() as nat),
{
    let mut mapping: NameMap<usize> = NameMap::new();
    let mut i: usize = 0;
    assert(mapping@ =~= option_keys(0));
    while i < actions.len()
        invariant
            i <= actions.len(),
            mapping@ == option_keys(i as nat),
        decreases actions.len() - i,
    {
        mapping.insert(decimal(i), i);
        proof {
            lemma_decimal_round_trip(i as nat);
            let grown = option_keys((i + 1) as nat);
            let key = decimal_text(i as nat);
            assert forall|k: Seq<char>| grown.contains_key(k) <==> option_keys(
                i as nat,
            ).contains_key(k) || k == key by {
                if grown.contains_key(k) {
                    let j = choose|j: nat| j < i + 1 && #[trigger] decimal_text(j) == k;
                    if j < i {
                        assert(option_keys(i as nat).contains_key(k));
                    }
                }
                if option_keys(i as nat).contains_key(k) {
                    let j = choose|j: nat| j < i && #[trigger] decimal_text(j) == k;
                    assert(j < i + 1);
                }
                if k == key {
                    assert(decimal_text(i as nat) == k);
                }
            }
            assert(mapping@ =~= grown);
        }
        i += 1;
    }
    mapping
}

} // verus!
