use scene_engine::action::{Action, PrintAction};
use scene_engine::actor::{Actor, Status};
use scene_engine::resource::Resource;
use scene_engine::scene::{Scene, SceneOutput, SceneStatus};

fn print(text: &str) -> Action {
    Action::Print(PrintAction::new(SceneOutput::new(text)))
}

#[test]
fn a_new_actor_has_a_name_and_nothing_else() {
    let mut actor = Actor::new("One");
    assert_eq!(actor.name(), "One");
    assert_eq!(actor.get_target(), None);
    assert!(actor.get_resource("health").is_none());
    assert!(actor.get_status("poisoned").is_none());
    assert!(actor.actions_mut().is_empty());
}

#[test]
fn insert_resource_keys_by_the_lower_case_name() {
    let mut actor = Actor::new("One");
    actor.insert_resource(Resource::new("Health", 100, 0, 100));
    assert!(actor.get_resource("Health").is_none());
    let found = actor.get_resource("health").expect("keyed in lower case");
    assert_eq!(found.name(), "Health");
    assert_eq!(found.value(), 100);
}

#[test]
fn insert_resource_replaces_under_the_same_key() {
    let mut actor = Actor::new("One");
    actor.insert_resource(Resource::new("Health", 100, 0, 100));
    actor.insert_resource(Resource::new("HEALTH", 7, 0, 10));
    let found = actor.get_resource("health").expect("still there");
    assert_eq!(found.name(), "HEALTH");
    assert_eq!(found.value(), 7);
    assert_eq!(found.max(), 10);
}

#[test]
fn change_resource_clamps() {
    let mut actor = Actor::new("One");
    actor.insert_resource(Resource::new("health", 95, 0, 100));
    actor.insert_resource(Resource::new("mana", 5, 0, 50));
    actor.change_resource("health", 10);
    assert_eq!(actor.get_resource("health").unwrap().value(), 100);
    actor.change_resource("mana", -10);
    assert_eq!(actor.get_resource("mana").unwrap().value(), 0);
    assert_eq!(actor.get_resource("health").unwrap().value(), 100);
}

#[test]
fn change_resource_passes_over_a_missing_resource() {
    let mut actor = Actor::new("One");
    actor.insert_resource(Resource::new("health", 50, 0, 100));
    actor.change_resource("stamina", 10);
    actor.change_resource("Health", 10);
    assert_eq!(actor.get_resource("health").unwrap().value(), 50);
    assert!(actor.get_resource("stamina").is_none());
}

#[test]
fn resources_mut_reaches_the_resources() {
    let mut actor = Actor::new("One");
    actor.insert_resource(Resource::new("health", 50, 0, 100));
    match actor.resources_mut().get_mut("health") {
        Some(resource) => resource.change_to(60),
        None => panic!("health is there"),
    }
    actor.resources_mut().insert("Raw".to_string(), Resource::new("Raw", 1, 0, 1));
    assert_eq!(actor.get_resource("health").unwrap().value(), 60);
    assert_eq!(actor.get_resource("Raw").unwrap().value(), 1);
}

#[test]
fn statuses_are_kept_by_name() {
    let mut actor = Actor::new("One");
    actor.insert_status("poisoned", Status::Tag);
    actor.insert_status("burning", Status::Value(3));
    assert!(matches!(actor.get_status("poisoned"), Some(Status::Tag)));
    assert!(matches!(actor.get_status("burning"), Some(Status::Value(3))));
    assert!(actor.get_status("Poisoned").is_none());
    actor.insert_status("burning", Status::Value(4));
    assert!(matches!(actor.get_status("burning"), Some(Status::Value(4))));
}

#[test]
fn the_target_can_be_bound_and_unbound() {
    let mut actor = Actor::new("One");
    actor.set_target(Some(4));
    assert_eq!(actor.get_target(), Some(4));
    actor.set_target(None);
    assert_eq!(actor.get_target(), None);
}

#[test]
fn the_queue_is_first_in_first_out() {
    let mut actor = Actor::new("One");
    actor.actions_mut().push_back(print("first"));
    actor.actions_mut().push_back(print("second"));
    assert_eq!(actor.actions_mut().len(), 2);
    let a = actor.actions_mut().pop_front().expect("two are queued");
    match a {
        Action::Print(_) => {}
        _ => panic!("a print action was queued"),
    }
    assert_eq!(actor.actions_mut().len(), 1);
}

#[test]
fn a_default_scene_is_empty_and_waits_for_the_user() {
    let scene = Scene::default();
    assert!(scene.actors().is_empty());
    assert_eq!(scene.status(), SceneStatus::RequireUserInput);
    assert!(scene.output().is_empty());
    assert_eq!(SceneStatus::default(), SceneStatus::RequireUserInput);
}

#[test]
fn add_actor_registers_each_id_once() {
    let mut scene = Scene::default();
    scene.add_actor(2);
    scene.add_actor(1);
    scene.add_actor(2);
    assert_eq!(scene.actors().len(), 2);
    assert!(scene.actors().contains(&1));
    assert!(scene.actors().contains(&2));
    assert!(!scene.actors().contains(&3));
}

#[test]
fn the_status_goes_round_in_a_cycle() {
    assert_eq!(SceneStatus::RequireUserInput.next(), SceneStatus::RequireAIInput);
    assert_eq!(SceneStatus::RequireAIInput.next(), SceneStatus::Ready);
    assert_eq!(SceneStatus::Ready.next(), SceneStatus::RequireUserInput);
    let mut scene = Scene::default();
    scene.set_status(SceneStatus::Ready);
    assert_eq!(scene.status(), SceneStatus::Ready);
}

#[test]
fn the_output_log_is_appended_to() {
    let mut scene = Scene::default();
    scene.push_output(SceneOutput::new("one"));
    scene.push_output(SceneOutput::new("two"));
    scene.push_output(SceneOutput::default());
    let texts: Vec<&str> = scene.output().iter().map(|o| o.content().as_str()).collect();
    assert_eq!(texts, vec!["one", "two", ""]);
    let copy = scene.output()[0].clone();
    assert_eq!(copy.content(), "one");
}
