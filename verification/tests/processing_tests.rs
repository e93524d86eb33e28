use scene_engine::action::{Action, ActionList, ActionTarget, ChangeResourceAction, PrintAction};
use scene_engine::actor::Actor;
use scene_engine::order::ascending_ids;
use scene_engine::processing::{apply_reactions, process_actions, process_scene};
use scene_engine::resource::Resource;
use scene_engine::scene::{Scene, SceneOutput, SceneStatus};
use std::collections::{HashMap, HashSet};

fn actor_with_health(name: &str, health: i64) -> Actor {
    let mut actor = Actor::new(name);
    actor.insert_resource(Resource::new("Health", health, 0, 100));
    actor
}

fn health(actors: &HashMap<usize, Actor>, id: usize) -> i64 {
    actors.get(&id).unwrap().get_resource("health").unwrap().value()
}

fn change(target: Option<usize>, target_type: ActionTarget, amount: i64) -> Action {
    Action::ChangeResource(ChangeResourceAction::new(
        None,
        target,
        target_type,
        String::new(),
        "health".to_string(),
        amount,
        SceneOutput::new("Changing resource by 10"),
    ))
}

fn print(text: &str) -> Action {
    Action::Print(PrintAction::new(SceneOutput::new(text)))
}

fn log(scene: &Scene) -> Vec<String> {
    scene.output().iter().map(|o| o.content().clone()).collect()
}

#[test]
fn ascending_ids_sorts() {
    let mut ids: HashSet<usize> = HashSet::new();
    for id in [5usize, 3, 9, 1, 7, 0, 1000, 4] {
        ids.insert(id);
    }
    assert_eq!(ascending_ids(&ids), vec![0, 1, 3, 4, 5, 7, 9, 1000]);
    let none: HashSet<usize> = HashSet::new();
    assert!(ascending_ids(&none).is_empty());
}

#[test]
fn process_scene_takes_actor_1_before_actor_2() {
    let mut scene = Scene::default();
    scene.add_actor(2);
    scene.add_actor(1);
    let mut actors: HashMap<usize, Actor> = HashMap::new();
    let mut two = Actor::new("Two");
    two.actions_mut().push_back(print("two"));
    actors.insert(2, two);
    let mut one = Actor::new("One");
    one.actions_mut().push_back(print("one"));
    actors.insert(1, one);
    process_scene(&mut scene, &mut actors);
    assert_eq!(log(&scene), vec!["one", "two"]);
}

#[test]
fn process_scene_goes_by_id_for_many_actors() {
    let mut scene = Scene::default();
    let mut actors: HashMap<usize, Actor> = HashMap::new();
    for id in [40usize, 7, 23, 1, 99, 15, 3] {
        scene.add_actor(id);
        let mut actor = Actor::new("actor");
        actor.actions_mut().push_back(print(&id.to_string()));
        actors.insert(id, actor);
    }
    process_scene(&mut scene, &mut actors);
    assert_eq!(log(&scene), vec!["1", "3", "7", "15", "23", "40", "99"]);
}

#[test]
fn process_scene_end_to_end() {
    let mut scene = Scene::default();
    scene.set_status(SceneStatus::Ready);
    let mut actor1 = actor_with_health("One", 100);
    let mut actor2 = actor_with_health("Two", 100);
    actor2.actions_mut().push_back(change(Some(1), ActionTarget::Target, -10));
    actor1.actions_mut().push_back(change(None, ActionTarget::All, -10));
    let mut actors: HashMap<usize, Actor> = HashMap::new();
    actors.insert(1, actor1);
    actors.insert(2, actor2);
    scene.add_actor(1);
    scene.add_actor(2);
    process_scene(&mut scene, &mut actors);
    assert_eq!(health(&actors, 1), 80);
    assert_eq!(health(&actors, 2), 90);
    assert_eq!(scene.output().len(), 2);
    assert_eq!(scene.status(), SceneStatus::RequireUserInput);
    assert!(actors.get_mut(&1).unwrap().actions_mut().is_empty());
    assert!(actors.get_mut(&2).unwrap().actions_mut().is_empty());
}

#[test]
fn scene_test() {
    let mut scene = Scene::default();
    let mut actor1 = actor_with_health("One", 100);
    let mut actor2 = actor_with_health("Two", 100);
    let mut action_list = ActionList::default();
    action_list.add_action(change(Some(1), ActionTarget::Target, 10));
    action_list.add_action(change(Some(1), ActionTarget::Target, 10));
    actor2.actions_mut().push_back(change(Some(1), ActionTarget::Target, -10));
    actor2.actions_mut().push_back(Action::List(action_list));
    actor1.actions_mut().push_back(change(None, ActionTarget::All, -10));
    let mut actors: HashMap<usize, Actor> = HashMap::new();
    actors.insert(1, actor1);
    actors.insert(2, actor2);
    scene.add_actor(1);
    scene.add_actor(2);
    scene.set_status(SceneStatus::Ready);
    process_scene(&mut scene, &mut actors);
    assert_eq!(health(&actors, 1), 100);
    assert_eq!(health(&actors, 2), 90);
    assert_eq!(scene.output().len(), 4);
    assert_eq!(scene.status(), SceneStatus::RequireUserInput);
}

#[test]
fn process_scene_forces_the_status_whatever_it_was() {
    for status in [SceneStatus::RequireUserInput, SceneStatus::RequireAIInput, SceneStatus::Ready] {
        let mut scene = Scene::default();
        scene.set_status(status);
        let mut actors: HashMap<usize, Actor> = HashMap::new();
        process_scene(&mut scene, &mut actors);
        assert_eq!(scene.status(), SceneStatus::RequireUserInput);
    }
}

#[test]
fn process_scene_passes_over_a_participant_without_an_actor() {
    let mut scene = Scene::default();
    scene.add_actor(1);
    scene.add_actor(2);
    scene.add_actor(3);
    let mut actors: HashMap<usize, Actor> = HashMap::new();
    let mut one = Actor::new("One");
    one.actions_mut().push_back(print("one"));
    actors.insert(1, one);
    let mut three = Actor::new("Three");
    three.actions_mut().push_back(print("three"));
    actors.insert(3, three);
    process_scene(&mut scene, &mut actors);
    assert_eq!(log(&scene), vec!["one", "three"]);
    assert_eq!(actors.len(), 2);
}

#[test]
fn process_scene_leaves_the_queue_of_a_non_participant() {
    let mut scene = Scene::default();
    scene.add_actor(1);
    let mut actors: HashMap<usize, Actor> = HashMap::new();
    let mut one = Actor::new("One");
    one.actions_mut().push_back(print("one"));
    actors.insert(1, one);
    let mut two = Actor::new("Two");
    two.actions_mut().push_back(print("two"));
    actors.insert(2, two);
    process_scene(&mut scene, &mut actors);
    assert_eq!(log(&scene), vec!["one"]);
    assert_eq!(actors.get_mut(&2).unwrap().actions_mut().len(), 1);
}

#[test]
fn process_actions_does_nothing_for_an_absent_actor() {
    let mut scene = Scene::default();
    let mut actors: HashMap<usize, Actor> = HashMap::new();
    let mut one = actor_with_health("One", 50);
    one.actions_mut().push_back(print("one"));
    actors.insert(1, one);
    process_actions(&mut scene, &mut actors, 5);
    assert!(scene.output().is_empty());
    assert_eq!(health(&actors, 1), 50);
    assert_eq!(actors.get_mut(&1).unwrap().actions_mut().len(), 1);
    assert_eq!(actors.len(), 1);
}

#[test]
fn process_actions_drains_the_queue_in_order() {
    let mut scene = Scene::default();
    scene.set_status(SceneStatus::Ready);
    let mut actors: HashMap<usize, Actor> = HashMap::new();
    let mut one = actor_with_health("One", 50);
    one.actions_mut().push_back(print("a"));
    one.actions_mut().push_back(change(None, ActionTarget::Actor, 70));
    one.actions_mut().push_back(change(None, ActionTarget::Actor, -30));
    one.actions_mut().push_back(print("b"));
    actors.insert(1, one);
    process_actions(&mut scene, &mut actors, 1);
    assert_eq!(
        log(&scene),
        vec!["a", "Changing resource by 10", "Changing resource by 10", "b"]
    );
    assert_eq!(health(&actors, 1), 70);
    assert!(actors.get_mut(&1).unwrap().actions_mut().is_empty());
    assert_eq!(scene.status(), SceneStatus::Ready);
}

#[test]
fn apply_reactions_goes_in_order_with_the_addressed_actor_as_source() {
    let mut scene = Scene::default();
    let mut actors: HashMap<usize, Actor> = HashMap::new();
    actors.insert(1, actor_with_health("One", 50));
    actors.insert(2, actor_with_health("Two", 50));
    let reactions: Vec<(usize, Action)> = vec![
        (2, change(None, ActionTarget::Actor, 60)),
        (1, print("one reacts")),
        (2, change(None, ActionTarget::Actor, -20)),
    ];
    apply_reactions(&mut scene, &mut actors, &reactions);
    assert_eq!(health(&actors, 1), 50);
    assert_eq!(health(&actors, 2), 80);
    assert_eq!(
        log(&scene),
        vec!["Changing resource by 10", "one reacts", "Changing resource by 10"]
    );
}

#[test]
fn apply_reactions_drops_the_one_addressed_to_a_missing_actor() {
    let mut scene = Scene::default();
    let mut actors: HashMap<usize, Actor> = HashMap::new();
    actors.insert(1, actor_with_health("One", 50));
    let reactions: Vec<(usize, Action)> = vec![
        (1, print("first")),
        (9, print("dropped")),
        (9, change(None, ActionTarget::All, -10)),
        (1, print("last")),
    ];
    apply_reactions(&mut scene, &mut actors, &reactions);
    assert_eq!(log(&scene), vec!["first", "last"]);
    assert_eq!(health(&actors, 1), 50);
}
