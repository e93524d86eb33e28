//! The processing pass: every participant's queue is drained, in ascending
//! order of id.
//!
//! Reactions are taken one level deep: what an action hands back is applied
//! right after it, and what a reaction hands back in turn is dropped.

use crate::action::{action_views, reaction_views, Action, ActionView};
use crate::action_laws::{
    alike_but_queues, lemma_apply_frame, lemma_apply_ignores_queues, lemma_frames_compose,
    only_resources_and_log,
};
use crate::actor::{actor_views, Actor, ActorView};
use crate::order::{ascending_ids, ascending_order};
use crate::scene::{Scene, SceneStatus, SceneView};
use std::collections::hash_map::Entry;
use std::collections::HashMap;
use vstd::prelude::*;

verus! {

/// The table of actors and the scene, taken together.
pub struct World {
    pub actors: Map<usize, ActorView>,
    pub scene: SceneView,
}

/// The state after the reactions of `reactions` from place `from` on were
/// applied in order, each with the actor it is addressed to as its source. A
/// reaction addressed to an id without an actor is dropped, that one alone.
/// What a reaction hands back is dropped.
pub open spec fn after_reactions(
    reactions: Seq<(usize, ActionView)>,
    from: int,
    actors: Map<usize, ActorView>,
    scene: SceneView,
) -> World
    decreases reactions.len() - from,
{
    if 0 <= from < reactions.len() {
        let (id, action) = reactions[from];
        if actors.contains_key(id) {
            let applied = action.apply(actors, id, scene);
            after_reactions(reactions, from + 1, applied.actors, applied.scene)
        } else {
            after_reactions(reactions, from + 1, actors, scene)
        }
    } else {
        World { actors, scene }
    }
}

/// The state after the actions of `pending` from place `from` on were applied
/// in order with `id` as their source, each followed at once by its own
/// reactions.
pub open spec fn after_actions(
    pending: Seq<ActionView>,
    from: int,
    id: usize,
    actors: Map<usize, ActorView>,
    scene: SceneView,
) -> World
    decreases pending.len() - from,
{
    if 0 <= from < pending.len() {
        let applied = pending[from].apply(actors, id, scene);
        let reacted = after_reactions(applied.reactions, 0, applied.actors, applied.scene);
        after_actions(pending, from + 1, id, reacted.actors, reacted.scene)
    } else {
        World { actors, scene }
    }
}

/// The state after the turn of the actor `id`: its queue is empty, and what
/// was in it was applied in order. Nothing happens where the table has no
/// such actor.
pub open spec fn after_turn(actors: Map<usize, ActorView>, id: usize, scene: SceneView) -> World {
    if actors.contains_key(id) {
        after_actions(
            actors[id].actions,
            0,
            id,
            actors.insert(id, actors[id].with_actions(Seq::empty())),
            scene,
        )
    } else {
        World { actors, scene }
    }
}

/// The state after the turns of the ids of `order` from place `from` on.
pub open spec fn after_turns(
    order: Seq<usize>,
    from: int,
    actors: Map<usize, ActorView>,
    scene: SceneView,
) -> World
    decreases order.len() - from,
{
    if 0 <= from < order.len() {
        let turned = after_turn(actors, order[from], scene);
        after_turns(order, from + 1, turned.actors, turned.scene)
    } else {
        World { actors, scene }
    }
}

/// The state after one pass over the scene: the participants took their
/// turns from the smallest id to the largest, and the scene waits for the
/// user.
pub open spec fn after_pass(actors: Map<usize, ActorView>, scene: SceneView) -> World {
    let turned = after_turns(ascending_order(scene.actors), 0, actors, scene);
    World {
        actors: turned.actors,
        scene: turned.scene.with_status(SceneStatus::RequireUserInput),
    }
}

/// Reactions change nothing but resources and the end of the log.
pub proof fn lemma_reactions_frame(
    reactions: Seq<(usize, ActionView)>,
    from: int,
    actors: Map<usize, ActorView>,
    scene: SceneView,
)
    ensures
        ({
            let reacted = after_reactions(reactions, from, actors, scene);
            only_resources_and_log(actors, scene, reacted.actors, reacted.scene)
        }),
    decreases reactions.len() - from,
{
    if 0 <= from < reactions.len() {
        let (id, action) = reactions[from];
        if actors.contains_key(id) {
            let applied = action.apply(actors, id, scene);
            lemma_apply_frame(action, actors, id, scene);
            lemma_reactions_frame(reactions, from + 1, applied.actors, applied.scene);
            let reacted = after_reactions(reactions, from + 1, applied.actors, applied.scene);
            lemma_frames_compose(
                actors,
                scene,
                applied.actors,
                applied.scene,
                reacted.actors,
                reacted.scene,
            );
        } else {
            lemma_reactions_frame(reactions, from + 1, actors, scene);
        }
    } else {
        assert(scene.output.take(scene.output.len() as int) =~= scene.output);
    }
}

/// Reactions neither read nor write a queue.
pub proof fn lemma_reactions_ignore_queues(
    reactions: Seq<(usize, ActionView)>,
    from: int,
    a: Map<usize, ActorView>,
    b: Map<usize, ActorView>,
    scene: SceneView,
)
    requires
        alike_but_queues(a, b),
    ensures
        ({
            let x = after_reactions(reactions, from, a, scene);
            let y = after_reactions(reactions, from, b, scene);
            alike_but_queues(x.actors, y.actors) && x.scene == y.scene
        }),
    decreases reactions.len() - from,
{
    if 0 <= from < reactions.len() {
        let (id, action) = reactions[from];
        if a.contains_key(id) {
            assert(b.contains_key(id));
            let x = action.apply(a, id, scene);
            let y = action.apply(b, id, scene);
            lemma_apply_ignores_queues(action, a, b, id, scene);
            lemma_reactions_ignore_queues(reactions, from + 1, x.actors, y.actors, x.scene);
        } else {
            assert(!b.contains_key(id));
            lemma_reactions_ignore_queues(reactions, from + 1, a, b, scene);
        }
    }
}

/// Applies the reactions in the order given, each with the actor it is
/// addressed to as its source and looked up when its turn comes. A reaction
/// addressed to an id without an actor is dropped, that one alone. What a
/// reaction hands back is dropped.
pub fn apply_reactions(
    scene: &mut Scene,
    actors: &mut HashMap<usize, Actor>,
    reactions: &Vec<(usize, Action)>,
)
    ensures
        ({
            let reacted = after_reactions(
                reaction_views(reactions@),
                0,
                actor_views(old(actors)@),
                old(scene)@,
            );
            actor_views(final(actors)@) == reacted.actors && final(scene)@ == reacted.scene
        }),
{
    let ghost whole = after_reactions(
        reaction_views(reactions@),
        0,
        actor_views(actors@),
        scene@,
    );
    let mut i: usize = 0;
    while i < reactions.len()
        invariant
            i <= reactions.len(),
            whole == after_reactions(
                reaction_views(reactions@),
                i as int,
                actor_views(actors@),
                scene@,
            ),
        decreases reactions.len() - i,
    {
        let id = reactions[i].0;
        assert(reaction_views(reactions@)[i as int] == (id, reactions[i as int].1@));
        assert(actor_views(actors@).contains_key(id) == actors@.contains_key(id));
        if actors.contains_key(&id) {
            reactions[i].1.apply(actors, id, scene);
        }
        i += 1;
    }
}

/// Takes the next pending action of the actor `id` off its queue. There is
/// none where the queue is empty or the table has no such actor.
fn pop_action(actors: &mut HashMap<usize, Actor>, id: usize) -> (next: Option<Action>)
    ensures
        ({
            let before = actor_views(old(actors)@);
            match next {
                Some(action) => {
                    &&& before.contains_key(id)
                    &&& before[id].actions.len() > 0
                    &&& action@ == before[id].actions[0]
                    &&& actor_views(final(actors)@) == before.insert(
                        id,
                        before[id].with_actions(before[id].actions.skip(1)),
                    )
                },
                None => {
                    &&& before.contains_key(id) ==> before[id].actions.len() == 0
                    &&& actor_views(final(actors)@) == before
                },
            }
        }),
{
    let ghost before = actor_views(actors@);
    let next = match actors.entry(id) {
        Entry::Occupied(mut held) => {
            let queue = held.get_mut().actions_mut();
            let ghost queued = queue@;
            let next = queue.pop_front();
            proof {
                if next is Some {
                    assert(action_views(queue@) =~= action_views(queued).skip(1));
                }
            }
            next
        },
        Entry::Vacant(_) => None,
    };
    proof {
        if next is Some {
            assert(actor_views(actors@) =~= before.insert(
                id,
                before[id].with_actions(before[id].actions.skip(1)),
            ));
        } else {
            assert(actor_views(actors@) =~= before);
        }
    }
    next
}

/// The queues of the table `held` are those of `model`, but for the queue of
/// the actor `id`, which is `queue` in `held` and empty in `model`; apart from
/// queues the two tables are alike.
spec fn tracks(
    held: Map<usize, ActorView>,
    model: Map<usize, ActorView>,
    id: usize,
    queue: Seq<ActionView>,
) -> bool {
    &&& alike_but_queues(held, model)
    &&& held.contains_key(id)
    &&& held[id].actions == queue
    &&& model[id].actions == Seq::<ActionView>::empty()
    &&& forall|other: usize| #[trigger]
        held.contains_key(other) && other != id ==> held[other].actions == model[other].actions
}

/// A change of resources and log keeps what `tracks` says.
proof fn lemma_tracks_on(
    held: Map<usize, ActorView>,
    model: Map<usize, ActorView>,
    held_after: Map<usize, ActorView>,
    model_after: Map<usize, ActorView>,
    held_scene: SceneView,
    held_scene_after: SceneView,
    id: usize,
    queue: Seq<ActionView>,
)
    requires
        tracks(held, model, id, queue),
        alike_but_queues(held_after, model_after),
        only_resources_and_log(held, held_scene, held_after, held_scene_after),
        only_resources_and_log(model, held_scene, model_after, held_scene_after),
    ensures
        tracks(held_after, model_after, id, queue),
{
    assert(model.contains_key(id));
    assert forall|other: usize| #[trigger]
        held_after.contains_key(other) && other != id implies held_after[other].actions
        == model_after[other].actions by {
        assert(held.contains_key(other));
        assert(model.contains_key(other));
    }
}

/// A table tracks the table in which the queue of `id` was emptied.
proof fn lemma_tracks_start(start: Map<usize, ActorView>, id: usize)
    requires
        start.contains_key(id),
    ensures
        tracks(
            start,
            start.insert(id, start[id].with_actions(Seq::empty())),
            id,
            start[id].actions,
        ),
{
    let model = start.insert(id, start[id].with_actions(Seq::empty()));
    assert(start.dom() =~= model.dom());
}

/// Another queue for `id` in the table that is held keeps what `tracks` says.
proof fn lemma_tracks_requeue(
    held: Map<usize, ActorView>,
    model: Map<usize, ActorView>,
    id: usize,
    queue: Seq<ActionView>,
    new_queue: Seq<ActionView>,
)
    requires
        tracks(held, model, id, queue),
    ensures
        tracks(held.insert(id, held[id].with_actions(new_queue)), model, id, new_queue),
{
    let after = held.insert(id, held[id].with_actions(new_queue));
    assert(after.dom() =~= model.dom());
    assert forall|other: usize| #[trigger] after.contains_key(other) implies after[other].with_actions(
        Seq::empty(),
    ) == model[other].with_actions(Seq::empty()) by {
        assert(held.contains_key(other));
    }
    assert forall|other: usize| #[trigger]
        after.contains_key(other) && other != id implies after[other].actions
        == model[other].actions by {
        assert(held.contains_key(other));
    }
}

/// The turn of the actor `idx`: its queue is drained from the front, and each
/// action that comes off is applied with `idx` as its source and followed at
/// once by its own reactions, before the next action of the queue is
/// applied. The next action leaves the queue before the current one is
/// applied; no action reads a queue, so the result does not depend on it.
/// Nothing happens where the table has no actor `idx`.
pub fn process_actions(scene: &mut Scene, actors: &mut HashMap<usize, Actor>, idx: usize)
    ensures
        ({
            let turned = after_turn(actor_views(old(actors)@), idx, old(scene)@);
            actor_views(final(actors)@) == turned.actors && final(scene)@ == turned.scene
        }),
{
    assert(actor_views(actors@).contains_key(idx) == actors@.contains_key(idx));
    if !actors.contains_key(&idx) {
        return ;
    }
    let ghost start = actor_views(actors@);
    let ghost pending = start[idx].actions;
    let ghost whole = after_turn(start, idx, scene@);
    let ghost mut model = start.insert(idx, start[idx].with_actions(Seq::empty()));
    let ghost mut done: int = 0;
    let mut current = pop_action(actors, idx);
    proof {
        lemma_tracks_start(start, idx);
        assert(pending.skip(0) =~= pending);
        if current is Some {
            lemma_tracks_requeue(start, model, idx, pending, pending.skip(1));
        }
    }
    while current.is_some()
        invariant
            0 <= done <= pending.len(),
            current matches Some(action) ==> done < pending.len() && action@ == pending[done],
            current is None ==> done == pending.len(),
            tracks(
                actor_views(actors@),
                model,
                idx,
                pending.skip(if current is Some {
                    done + 1
                } else {
                    done
                }),
            ),
            whole == after_actions(pending, done, idx, model, scene@),
        decreases pending.len() - done,
    {
        let action = current.unwrap();
        let ghost before_pop = actor_views(actors@);
        current = pop_action(actors, idx);
        let ghost held = actor_views(actors@);
        let ghost queue = held[idx].actions;
        let ghost held_scene = scene@;
        proof {
            if current is Some {
                assert(pending.skip(done + 1).skip(1) =~= pending.skip(done + 2));
                assert(pending.skip(done + 1)[0] == pending[done + 1]);
                lemma_tracks_requeue(
                    before_pop,
                    model,
                    idx,
                    pending.skip(done + 1),
                    pending.skip(done + 2),
                );
            } else {
                assert(pending.skip(done + 1) =~= Seq::<ActionView>::empty());
            }
            assert(tracks(held, model, idx, queue));
        }
        let (_signal, reactions) = action.apply(actors, idx, scene);
        proof {
            let x = pending[done].apply(held, idx, held_scene);
            let y = pending[done].apply(model, idx, held_scene);
            lemma_apply_ignores_queues(pending[done], held, model, idx, held_scene);
            lemma_apply_frame(pending[done], held, idx, held_scene);
            lemma_apply_frame(pending[done], model, idx, held_scene);
            lemma_tracks_on(held, model, x.actors, y.actors, held_scene, x.scene, idx, queue);
            let rx = after_reactions(x.reactions, 0, x.actors, x.scene);
            let ry = after_reactions(y.reactions, 0, y.actors, y.scene);
            lemma_reactions_ignore_queues(x.reactions, 0, x.actors, y.actors, x.scene);
            lemma_reactions_frame(x.reactions, 0, x.actors, x.scene);
            lemma_reactions_frame(y.reactions, 0, y.actors, y.scene);
            lemma_tracks_on(x.actors, y.actors, rx.actors, ry.actors, x.scene, rx.scene, idx, queue);
            model = ry.actors;
            done = done + 1;
        }
        apply_reactions(scene, actors, &reactions);
    }
    proof {
        let held = actor_views(actors@);
        assert(pending.skip(done) =~= Seq::<ActionView>::empty());
        assert(held.dom() =~= model.dom());
        assert forall|id: usize| held.contains_key(id) implies held[id] == model[id] by {
            assert(held[id].with_actions(Seq::empty()) == model[id].with_actions(Seq::empty()));
            if id != idx {
                assert(held[id].actions == model[id].actions);
            }
        }
        assert(held =~= model);
    }
}

/// One pass over the scene. The participants take their turns from the
/// smallest id to the largest, whatever the order in which they were added or
/// in which the table holds them; a participant without an actor in the table
/// is passed over. Afterwards the scene waits for the user.
pub fn process_scene(scene: &mut Scene, actors: &mut HashMap<usize, Actor>)
    ensures
        ({
            let passed = after_pass(actor_views(old(actors)@), old(scene)@);
            actor_views(final(actors)@) == passed.actors && final(scene)@ == passed.scene
        }),
{
    let order = ascending_ids(scene.actors());
    let ghost whole = after_turns(order@, 0, actor_views(actors@), scene@);
    let mut i: usize = 0;
    while i < order.len()
        invariant
            i <= order.len(),
            whole == after_turns(order@, i as int, actor_views(actors@), scene@),
        decreases order.len() - i,
    {
        process_actions(scene, actors, order[i]);
        i += 1;
    }
    scene.set_status(SceneStatus::RequireUserInput);
}

} // verus!
