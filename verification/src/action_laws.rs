//! What holds of every application of an action.

use crate::action::{
    run_children, ActionTarget, ActionView, ChangeResourceView, NextAction, Outcome,
};
use crate::actor::ActorView;
use crate::resource::clamp;
use crate::scene::SceneView;
use vstd::prelude::*;

verus! {

/// The log `later` starts with all of the log `earlier`.
pub open spec fn extends(later: Seq<Seq<char>>, earlier: Seq<Seq<char>>) -> bool {
    earlier.len() <= later.len() && later.take(earlier.len() as int) == earlier
}

/// The actor `after` is the actor `before` but for its resources.
pub open spec fn same_but_resources(after: ActorView, before: ActorView) -> bool {
    after == (ActorView { resources: after.resources, ..before })
}

/// Between `before` and `after` no actor came or went, and each is what it
/// was but for its resources; the scene is what it was but for records added
/// at the end of its log.
pub open spec fn only_resources_and_log(
    before_actors: Map<usize, ActorView>,
    before_scene: SceneView,
    after_actors: Map<usize, ActorView>,
    after_scene: SceneView,
) -> bool {
    &&& after_actors.dom() == before_actors.dom()
    &&& forall|id: usize| #[trigger]
        before_actors.contains_key(id) ==> same_but_resources(after_actors[id], before_actors[id])
    &&& after_scene.actors == before_scene.actors
    &&& after_scene.status == before_scene.status
    &&& extends(after_scene.output, before_scene.output)
}

/// The two tables have the same actors, and each actor is the same in both
/// but for its queue.
pub open spec fn alike_but_queues(a: Map<usize, ActorView>, b: Map<usize, ActorView>) -> bool {
    &&& a.dom() == b.dom()
    &&& forall|id: usize| #[trigger]
        a.contains_key(id) ==> a[id].with_actions(Seq::empty()) == b[id].with_actions(
            Seq::empty(),
        )
}

/// An action aimed at all changes the named resource of every actor that has
/// it by the amount, clamped to the resource's range, and adds exactly one
/// record to the log, however many actors there are.
pub proof fn lemma_change_all(
    change: ChangeResourceView,
    actors: Map<usize, ActorView>,
    source: usize,
    scene: SceneView,
)
    requires
        change.target_type == ActionTarget::All,
    ensures
        ({
            let outcome = ActionView::ChangeResource(change).apply(actors, source, scene);
            let name = change.resource_identifier;
            &&& outcome.actors.dom() == actors.dom()
            &&& forall|id: usize|
                actors.contains_key(id) && #[trigger] actors[id].resources.contains_key(name) ==> {
                    let before = actors[id].resources[name];
                    let after = outcome.actors[id].resources[name];
                    &&& outcome.actors[id].resources.contains_key(name)
                    &&& after.value == clamp(before.value + change.amount, before.min, before.max)
                    &&& after.min == before.min
                    &&& after.max == before.max
                    &&& after.name == before.name
                }
            &&& outcome.scene.output == scene.output.push(change.output)
            &&& outcome.scene.output.len() == scene.output.len() + 1
        }),
{
}

/// An action aimed at its target and bound to none leaves every actor as it
/// is, and still adds exactly one record to the log.
pub proof fn lemma_change_unbound_target(
    change: ChangeResourceView,
    actors: Map<usize, ActorView>,
    source: usize,
    scene: SceneView,
)
    requires
        change.target_type == ActionTarget::Target,
        change.target is None,
    ensures
        ({
            let outcome = ActionView::ChangeResource(change).apply(actors, source, scene);
            &&& outcome.actors == actors
            &&& outcome.scene == scene.push_output(change.output)
            &&& outcome.scene.output.len() == scene.output.len() + 1
            &&& outcome.signal is None
            &&& outcome.reactions.len() == 0
        }),
{
    let outcome = ActionView::ChangeResource(change).apply(actors, source, scene);
    assert(outcome.actors =~= actors);
}

/// Where an action of a list signals an abort, the actions after it do not
/// run: the state is the one that this action left, whatever the others
/// would have done, and the reactions that it handed back are handed on.
pub proof fn lemma_abort_skips_rest(first: Outcome, rest: Outcome)
    requires
        first.signal == Some(NextAction::Abort),
    ensures
        first.followed_by(rest).actors == first.actors,
        first.followed_by(rest).scene == first.scene,
        first.followed_by(rest).reactions == first.reactions,
        first.followed_by(rest).signal is None,
{
}

/// Where an action of a list does not signal, the actions after it run on the
/// state that it left, and its reactions come before theirs.
pub proof fn lemma_no_signal_runs_rest(first: Outcome, rest: Outcome)
    requires
        first.signal is None,
    ensures
        first.followed_by(rest).actors == rest.actors,
        first.followed_by(rest).scene == rest.scene,
        first.followed_by(rest).reactions == first.reactions + rest.reactions,
        first.followed_by(rest).signal is None,
{
}

/// A list runs its first action, then the others on the state that the first
/// left, see [`Outcome::followed_by`].
pub proof fn lemma_list_unfolds(
    children: Seq<ActionView>,
    actors: Map<usize, ActorView>,
    source: usize,
    scene: SceneView,
)
    requires
        children.len() > 0,
    ensures
        ({
            let first = children[0].apply(actors, source, scene);
            ActionView::List(children).apply(actors, source, scene) == first.followed_by(
                run_children(children, 1, first.actors, source, first.scene),
            )
        }),
{
}

/// Applying an action changes nothing but resources and the end of the log:
/// no actor comes or goes, no name, queue, status or target changes, and the
/// participants and the state of the scene stay.
pub proof fn lemma_apply_frame(
    action: ActionView,
    actors: Map<usize, ActorView>,
    source: usize,
    scene: SceneView,
)
    ensures
        ({
            let outcome = action.apply(actors, source, scene);
            only_resources_and_log(actors, scene, outcome.actors, outcome.scene)
        }),
    decreases action, 0nat,
{
    match action {
        ActionView::List(children) => {
            lemma_children_frame(children, 0, actors, source, scene);
        },
        ActionView::ChangeResource(change) => {
            let outcome = change.apply(actors, source, scene);
            assert(outcome.actors.dom() =~= actors.dom());
            assert(outcome.scene.output.take(scene.output.len() as int) =~= scene.output);
        },
        ActionView::Print(text) => {
            let outcome = action.apply(actors, source, scene);
            assert(outcome.scene.output.take(scene.output.len() as int) =~= scene.output);
        },
    }
}

/// What [`lemma_apply_frame`] says, of the actions of a list from `from` on.
pub proof fn lemma_children_frame(
    children: Seq<ActionView>,
    from: int,
    actors: Map<usize, ActorView>,
    source: usize,
    scene: SceneView,
)
    ensures
        ({
            let outcome = run_children(children, from, actors, source, scene);
            only_resources_and_log(actors, scene, outcome.actors, outcome.scene)
        }),
    decreases children, children.len() - from,
{
    if 0 <= from < children.len() {
        let first = children[from].apply(actors, source, scene);
        lemma_apply_frame(children[from], actors, source, scene);
        lemma_children_frame(children, from + 1, first.actors, source, first.scene);
        let rest = run_children(children, from + 1, first.actors, source, first.scene);
        let outcome = first.followed_by(rest);
        lemma_frames_compose(
            actors,
            scene,
            first.actors,
            first.scene,
            outcome.actors,
            outcome.scene,
        );
    } else {
        assert(scene.output.take(scene.output.len() as int) =~= scene.output);
    }
}

/// Two changes of resources and log, one after the other, are one.
pub proof fn lemma_frames_compose(
    actors0: Map<usize, ActorView>,
    scene0: SceneView,
    actors1: Map<usize, ActorView>,
    scene1: SceneView,
    actors2: Map<usize, ActorView>,
    scene2: SceneView,
)
    requires
        only_resources_and_log(actors0, scene0, actors1, scene1),
        only_resources_and_log(actors1, scene1, actors2, scene2) || (actors2 == actors1 && scene2
            == scene1),
    ensures
        only_resources_and_log(actors0, scene0, actors2, scene2),
{
    assert forall|id: usize| #[trigger] actors0.contains_key(id) implies same_but_resources(
        actors2[id],
        actors0[id],
    ) by {
        assert(actors1.contains_key(id));
    }
    assert(scene2.output.take(scene0.output.len() as int) =~= scene0.output) by {
        assert(scene1.output.take(scene0.output.len() as int) == scene0.output);
        assert(scene2.output.take(scene1.output.len() as int) == scene1.output);
        assert forall|k: int| 0 <= k < scene0.output.len() implies scene2.output[k]
            == scene0.output[k] by {
            assert(scene2.output.take(scene1.output.len() as int)[k] == scene1.output[k]);
            assert(scene1.output.take(scene0.output.len() as int)[k] == scene0.output[k]);
        }
    }
}

/// Applying an action neither reads nor writes a queue: on two tables that
/// differ in queues only, it hands back the same and leaves the same scene,
/// and tables that again differ in queues only.
pub proof fn lemma_apply_ignores_queues(
    action: ActionView,
    a: Map<usize, ActorView>,
    b: Map<usize, ActorView>,
    source: usize,
    scene: SceneView,
)
    requires
        alike_but_queues(a, b),
    ensures
        ({
            let x = action.apply(a, source, scene);
            let y = action.apply(b, source, scene);
            &&& alike_but_queues(x.actors, y.actors)
            &&& x.scene == y.scene
            &&& x.signal == y.signal
            &&& x.reactions == y.reactions
        }),
    decreases action, 0nat,
{
    match action {
        ActionView::List(children) => {
            lemma_children_ignore_queues(children, 0, a, b, source, scene);
        },
        ActionView::ChangeResource(change) => {
            let x = change.apply(a, source, scene);
            let y = change.apply(b, source, scene);
            assert(x.actors.dom() =~= y.actors.dom());
            assert forall|id: usize| #[trigger] x.actors.contains_key(id) implies x.actors[id].with_actions(
                Seq::empty(),
            ) == y.actors[id].with_actions(Seq::empty()) by {
                assert(a.contains_key(id));
                assert(a[id].with_actions(Seq::empty()) == b[id].with_actions(Seq::empty()));
                assert(a[id].resources == b[id].resources);
            }
        },
        ActionView::Print(text) => {},
    }
}

/// What [`lemma_apply_ignores_queues`] says, of the actions of a list from
/// `from` on.
pub proof fn lemma_children_ignore_queues(
    children: Seq<ActionView>,
    from: int,
    a: Map<usize, ActorView>,
    b: Map<usize, ActorView>,
    source: usize,
    scene: SceneView,
)
    requires
        alike_but_queues(a, b),
    ensures
        ({
            let x = run_children(children, from, a, source, scene);
            let y = run_children(children, from, b, source, scene);
            &&& alike_but_queues(x.actors, y.actors)
            &&& x.scene == y.scene
            &&& x.signal == y.signal
            &&& x.reactions == y.reactions
        }),
    decreases children, children.len() - from,
{
    if 0 <= from < children.len() {
        let x = children[from].apply(a, source, scene);
        let y = children[from].apply(b, source, scene);
        lemma_apply_ignores_queues(children[from], a, b, source, scene);
        lemma_children_ignore_queues(children, from + 1, x.actors, y.actors, source, x.scene);
    }
}

} // verus!
