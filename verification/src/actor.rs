//! The participants: a name, named resources and statuses, a bound target and
//! a queue of pending actions.

use crate::action::{action_views, Action, ActionView};
use crate::name_map::NameMap;
use crate::resource::{Resource, ResourceView};
use crate::text::{lowercase, to_lowercase};
use std::collections::VecDeque;
use vstd::prelude::*;

verus! {

/// A condition that an actor is in: a bare tag, or a tag with a number.
#[derive(Clone, Copy, Debug)]
pub enum Status {
    Tag,
    /// The number is kept with the status; no requirement reads it.
    Value(i64),
}

/// What an actor is to the contracts.
pub struct ActorView {
    pub name: Seq<char>,
    /// The pending actions, the next one first.
    pub actions: Seq<ActionView>,
    /// The resources by key. `insert_resource` keys a resource by the
    /// lower-case form of its name.
    pub resources: Map<Seq<char>, ResourceView>,
    pub statuses: Map<Seq<char>, Status>,
    pub target: Option<usize>,
}

impl ActorView {
    /// The actor after `amount` was added to the resource under `identifier`.
    /// An actor without such a resource stays as it is.
    pub open spec fn change_resource(self, identifier: Seq<char>, amount: int) -> ActorView {
        if self.resources.contains_key(identifier) {
            ActorView {
                resources: self.resources.insert(
                    identifier,
                    self.resources[identifier].change(amount),
                ),
                ..self
            }
        } else {
            self
        }
    }

    /// The actor with another queue of pending actions.
    pub open spec fn with_actions(self, actions: Seq<ActionView>) -> ActorView {
        ActorView { actions, ..self }
    }
}

/// What a map of resources is to the contracts.
pub open spec fn resource_views(resources: Map<Seq<char>, Resource>) -> Map<
    Seq<char>,
    ResourceView,
> {
    resources.map_values(|resource: Resource| resource@)
}

/// What a table of actors is to the contracts.
pub open spec fn actor_views(actors: Map<usize, Actor>) -> Map<usize, ActorView> {
    actors.map_values(|actor: Actor| actor@)
}

/// A participant of a scene.
pub struct Actor {
    name: String,
    actions: VecDeque<Action>,
    resources: NameMap<Resource>,
    statuses: NameMap<Status>,
    target: Option<usize>,
}

impl View for Actor {
    type V = ActorView;

    closed spec fn view(&self) -> ActorView {
        ActorView {
            name: self.name@,
            actions: action_views(self.actions@),
            resources: resource_views(self.resources@),
            statuses: self.statuses@,
            target: self.target,
        }
    }
}

impl Actor {
    /// An actor with the given name and nothing else: no resources, no
    /// statuses, no target, an empty queue.
    pub fn new(name: &str) -> (actor: Actor)
        ensures
            actor@ == (ActorView {
                name: name@,
                actions: Seq::empty(),
                resources: Map::empty(),
                statuses: Map::empty(),
                target: None,
            }),
    {
        let actor = Actor {
            name: name.to_owned(),
            actions: VecDeque::new(),
            resources: NameMap::new(),
            statuses: NameMap::new(),
            target: None,
        };
        assert(actor@.actions =~= Seq::empty());
        assert(actor@.resources =~= Map::empty());
        actor
    }

    /// The resources, to be read or changed in place. What the map holds at
    /// the end is what the actor has.
    pub fn resources_mut(&mut self) -> (resources: &mut NameMap<Resource>)
        ensures
            resource_views(resources@) == old(self)@.resources,
            final(self)@ == (ActorView {
                resources: resource_views(final(resources)@),
                ..old(self)@
            }),
    {
        &mut self.resources
    }

    /// Gives the actor `resource` under the lower-case form of its name. A
    /// resource that was there under that key is replaced.
    pub fn insert_resource(&mut self, resource: Resource)
        ensures
            final(self)@ == (ActorView {
                resources: old(self)@.resources.insert(lowercase(resource@.name), resource@),
                ..old(self)@
            }),
    {
        let key = to_lowercase(resource.name().as_str());
        self.resources.insert(key, resource);
        assert(resource_views(self.resources@) =~= resource_views(old(self).resources@).insert(
            key@,
            resource@,
        ));
    }

    /// The queue of pending actions, to be filled at the back and emptied at
    /// the front. What the queue holds at the end is what the actor has
    /// pending.
    pub fn actions_mut(&mut self) -> (queue: &mut VecDeque<Action>)
        ensures
            action_views(queue@) == old(self)@.actions,
            final(self)@ == old(self)@.with_actions(action_views(final(queue)@)),
    {
        &mut self.actions
    }

    pub fn name(&self) -> (name: &String)
        ensures
            name@ == self@.name,
    {
        &self.name
    }

    /// The id that the actor is bound to as its target, if any.
    pub fn get_target(&self) -> (target: Option<usize>)
        ensures
            target == self@.target,
    {
        self.target
    }

    /// Binds the actor to a target, or to none.
    pub fn set_target(&mut self, target: Option<usize>)
        ensures
            final(self)@ == (ActorView { target, ..old(self)@ }),
    {
        self.target = target;
    }

    /// Adds `amount` to the resource under `identifier`, clamped to that
    /// resource's range. Nothing happens where the actor has no such resource.
    pub fn change_resource(&mut self, identifier: &str, amount: i64)
        ensures
            final(self)@ == old(self)@.change_resource(identifier@, amount as int),
    {
        match self.resources.get_mut(identifier) {
            Some(resource) => {
                resource.change(amount);
            },
            None => {},
        }
        assert(resource_views(self.resources@) =~= old(self)@.change_resource(
            identifier@,
            amount as int,
        ).resources);
    }

    /// The resource under `identifier`, if the actor has one.
    pub fn get_resource(&self, identifier: &str) -> (found: Option<&Resource>)
        ensures
            match found {
                Some(resource) => self@.resources.contains_key(identifier@) && resource@
                    == self@.resources[identifier@],
                None => !self@.resources.contains_key(identifier@),
            },
    {
        self.resources.get(identifier)
    }

    /// Puts the actor into `status` under `identifier`. A status that was
    /// there under that key is replaced.
    pub fn insert_status(&mut self, identifier: &str, status: Status)
        ensures
            final(self)@ == (ActorView {
                statuses: old(self)@.statuses.insert(identifier@, status),
                ..old(self)@
            }),
    {
        self.statuses.insert(identifier.to_owned(), status);
    }

    /// The status under `identifier`, if the actor has one.
    pub fn get_status(&self, identifier: &str) -> (found: Option<&Status>)
        ensures
            match found {
                Some(status) => self@.statuses.contains_key(identifier@) && *status
                    == self@.statuses[identifier@],
                None => !self@.statuses.contains_key(identifier@),
            },
    {
        self.statuses.get(identifier)
    }
}

} // verus!
