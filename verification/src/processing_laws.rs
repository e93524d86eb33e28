//! What holds of every turn and of every pass.

use crate::action::ActionView;
use crate::action_laws::{
    extends, lemma_apply_frame, lemma_frames_compose, only_resources_and_log, same_but_resources,
};
use crate::actor::ActorView;
use crate::order::{
    ascending, ascending_order, lemma_ascending_distinct, lemma_ascending_exists,
    lemma_ascending_unique,
};
use crate::processing::{
    after_actions, after_pass, after_reactions, after_turn, after_turns, lemma_reactions_frame,
    World,
};
use crate::scene::{SceneStatus, SceneView};
use vstd::prelude::*;

verus! {

/// The actor `after` is the actor `before` but for its resources and its
/// queue.
pub open spec fn same_but_resources_and_queue(after: ActorView, before: ActorView) -> bool {
    after == (ActorView { resources: after.resources, actions: after.actions, ..before })
}

/// Between `before` and `after` no actor came or went, and no name, status
/// or target changed; the participants stayed, and the log kept all it held.
pub open spec fn settled(
    before_actors: Map<usize, ActorView>,
    before_scene: SceneView,
    after: World,
) -> bool {
    &&& after.actors.dom() == before_actors.dom()
    &&& forall|id: usize| #[trigger]
        before_actors.contains_key(id) ==> same_but_resources_and_queue(
            after.actors[id],
            before_actors[id],
        )
    &&& after.scene.actors == before_scene.actors
    &&& extends(after.scene.output, before_scene.output)
}

/// The actions of a queue, with their reactions, change nothing but
/// resources and the end of the log.
pub proof fn lemma_actions_frame(
    pending: Seq<ActionView>,
    from: int,
    id: usize,
    actors: Map<usize, ActorView>,
    scene: SceneView,
)
    ensures
        ({
            let drained = after_actions(pending, from, id, actors, scene);
            only_resources_and_log(actors, scene, drained.actors, drained.scene)
        }),
    decreases pending.len() - from,
{
    if 0 <= from < pending.len() {
        let applied = pending[from].apply(actors, id, scene);
        lemma_apply_frame(pending[from], actors, id, scene);
        let reacted = after_reactions(applied.reactions, 0, applied.actors, applied.scene);
        lemma_reactions_frame(applied.reactions, 0, applied.actors, applied.scene);
        lemma_frames_compose(
            actors,
            scene,
            applied.actors,
            applied.scene,
            reacted.actors,
            reacted.scene,
        );
        let drained = after_actions(pending, from + 1, id, reacted.actors, reacted.scene);
        lemma_actions_frame(pending, from + 1, id, reacted.actors, reacted.scene);
        lemma_frames_compose(
            actors,
            scene,
            reacted.actors,
            reacted.scene,
            drained.actors,
            drained.scene,
        );
    } else {
        assert(scene.output.take(scene.output.len() as int) =~= scene.output);
    }
}

/// A turn empties the queue of the actor whose turn it is and leaves every
/// other queue as it was. Besides that it changes nothing but resources and
/// the end of the log.
pub proof fn lemma_turn_frame(actors: Map<usize, ActorView>, id: usize, scene: SceneView)
    ensures
        ({
            let turned = after_turn(actors, id, scene);
            &&& settled(actors, scene, turned)
            &&& turned.scene.status == scene.status
            &&& actors.contains_key(id) ==> turned.actors[id].actions == Seq::<ActionView>::empty()
            &&& forall|other: usize| #[trigger]
                actors.contains_key(other) && other != id ==> turned.actors[other].actions
                    == actors[other].actions
        }),
{
    let turned = after_turn(actors, id, scene);
    if actors.contains_key(id) {
        let emptied = actors.insert(id, actors[id].with_actions(Seq::empty()));
        lemma_actions_frame(actors[id].actions, 0, id, emptied, scene);
        assert(emptied.dom() =~= actors.dom());
        assert forall|other: usize| #[trigger] actors.contains_key(other) implies {
            &&& same_but_resources_and_queue(turned.actors[other], actors[other])
            &&& other != id ==> turned.actors[other].actions == actors[other].actions
        } by {
            assert(emptied.contains_key(other));
            assert(same_but_resources(turned.actors[other], emptied[other]));
        }
        assert(emptied.contains_key(id));
        assert(same_but_resources(turned.actors[id], emptied[id]));
    } else {
        assert(scene.output.take(scene.output.len() as int) =~= scene.output);
    }
}

/// What [`lemma_pass_frame`] says, of the turns of `order` from `from` on.
pub proof fn lemma_turns_frame(
    order: Seq<usize>,
    from: int,
    actors: Map<usize, ActorView>,
    scene: SceneView,
)
    requires
        order.no_duplicates(),
        0 <= from <= order.len(),
    ensures
        ({
            let turned = after_turns(order, from, actors, scene);
            &&& settled(actors, scene, turned)
            &&& turned.scene.status == scene.status
            &&& forall|id: usize| #[trigger]
                actors.contains_key(id) ==> turned.actors[id].actions == if order.skip(
                    from,
                ).contains(id) {
                    Seq::<ActionView>::empty()
                } else {
                    actors[id].actions
                }
        }),
    decreases order.len() - from,
{
    if from < order.len() {
        let first = order[from];
        let after_first = after_turn(actors, first, scene);
        lemma_turn_frame(actors, first, scene);
        lemma_turns_frame(order, from + 1, after_first.actors, after_first.scene);
        let turned = after_turns(order, from + 1, after_first.actors, after_first.scene);
        let here = order.skip(from);
        let tail = order.skip(from + 1);
        assert(here[0] == first);
        assert(!tail.contains(first)) by {
            if tail.contains(first) {
                let k = choose|k: int| 0 <= k < tail.len() && #[trigger] tail[k] == first;
                assert(order[from + 1 + k] == order[from]);
            }
        }
        assert forall|id: usize| #[trigger] actors.contains_key(id) implies {
            &&& same_but_resources_and_queue(turned.actors[id], actors[id])
            &&& turned.actors[id].actions == if here.contains(id) {
                Seq::<ActionView>::empty()
            } else {
                actors[id].actions
            }
        } by {
            assert(after_first.actors.contains_key(id));
            if tail.contains(id) {
                let k = choose|k: int| 0 <= k < tail.len() && #[trigger] tail[k] == id;
                assert(here[k + 1] == id);
            } else if here.contains(id) {
                let k = choose|k: int| 0 <= k < here.len() && #[trigger] here[k] == id;
                if k > 0 {
                    assert(tail[k - 1] == id);
                }
            }
        }
        assert(turned.scene.output.take(scene.output.len() as int) =~= scene.output) by {
            assert forall|k: int| 0 <= k < scene.output.len() implies turned.scene.output[k]
                == scene.output[k] by {
                assert(turned.scene.output.take(after_first.scene.output.len() as int)[k]
                    == after_first.scene.output[k]);
                assert(after_first.scene.output.take(scene.output.len() as int)[k]
                    == scene.output[k]);
            }
        }
    } else {
        assert(order.skip(from).len() == 0);
        assert(scene.output.take(scene.output.len() as int) =~= scene.output);
    }
}

/// After a pass over a scene with finitely many participants, the queue of
/// every participant is empty and every other queue is as it was. No actor
/// came or went, and no name, status or target changed; the participants
/// stayed, the log kept all it held, and the scene waits for the user.
pub proof fn lemma_pass_frame(actors: Map<usize, ActorView>, scene: SceneView)
    requires
        scene.actors.finite(),
    ensures
        ({
            let passed = after_pass(actors, scene);
            &&& settled(actors, scene, passed)
            &&& passed.scene.status == SceneStatus::RequireUserInput
            &&& forall|id: usize| #[trigger]
                actors.contains_key(id) ==> passed.actors[id].actions == if scene.actors.contains(
                    id,
                ) {
                    Seq::<ActionView>::empty()
                } else {
                    actors[id].actions
                }
        }),
{
    let order = ascending_order(scene.actors);
    lemma_ascending_exists(scene.actors);
    lemma_ascending_distinct(order);
    lemma_turns_frame(order, 0, actors, scene);
    assert(order.skip(0) =~= order);
}

/// In a pass over two participants the one with the smaller id takes its
/// turn first, and the other takes its turn on the state that the first left.
pub proof fn lemma_pass_of_two(
    low: usize,
    high: usize,
    actors: Map<usize, ActorView>,
    scene: SceneView,
)
    requires
        low < high,
        scene.actors == set![low, high],
    ensures
        ({
            let first = after_turn(actors, low, scene);
            let second = after_turn(first.actors, high, first.scene);
            after_pass(actors, scene) == (World {
                actors: second.actors,
                scene: second.scene.with_status(SceneStatus::RequireUserInput),
            })
        }),
{
    let order = seq![low, high];
    assert(order.to_set() =~= scene.actors) by {
        assert(order[0] == low && order[1] == high);
    }
    assert(ascending(order));
    lemma_ascending_exists(scene.actors);
    lemma_ascending_unique(order, ascending_order(scene.actors));
    reveal_with_fuel(after_turns, 3);
}

} // verus!
