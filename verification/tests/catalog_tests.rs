use scene_engine::action::{Action, ActionTarget, ChangeResourceAction, PrintAction};
use scene_engine::action_collection::ChangeResourceDummy;
use scene_engine::actor::{Actor, Status};
use scene_engine::catalog::{
    build_action_option_mapping, ActionRequirement, PossibleAction, PossibleActionSet,
};
use scene_engine::resource::Resource;
use scene_engine::scene::{Scene, SceneOutput};
use std::collections::HashMap;

fn actor_with_health(health: i64) -> Actor {
    let mut actor = Actor::new("actor");
    actor.insert_resource(Resource::new("Health", health, 0, 100));
    actor
}

fn print(text: &str) -> Action {
    Action::Print(PrintAction::new(SceneOutput::new(text)))
}

fn heal() -> Action {
    Action::ChangeResource(ChangeResourceAction::new(
        None,
        None,
        ActionTarget::Actor,
        "test".to_string(),
        "health".to_string(),
        10,
        SceneOutput::new("Changing resource by 10"),
    ))
}

fn min_health(min: i64) -> ActionRequirement {
    ActionRequirement::ActorResourceMin("health".to_string(), min)
}

fn max_health(max: i64) -> ActionRequirement {
    ActionRequirement::ActorResourceMax("health".to_string(), max)
}

fn names(actions: &Vec<Action>) -> Vec<String> {
    actions.iter().map(|a| a.name()).collect()
}

#[test]
fn resource_min_fails_below_and_holds_at_or_above() {
    let scene = Scene::default();
    let mut actors: HashMap<usize, Actor> = HashMap::new();
    actors.insert(1, actor_with_health(10));
    actors.insert(2, actor_with_health(60));
    actors.insert(3, actor_with_health(50));
    assert!(!min_health(50).check(&actors, 1, &scene));
    assert!(min_health(50).check(&actors, 2, &scene));
    assert!(min_health(50).check(&actors, 3, &scene));
}

#[test]
fn resource_max_fails_above_and_holds_at_or_below() {
    let scene = Scene::default();
    let mut actors: HashMap<usize, Actor> = HashMap::new();
    actors.insert(1, actor_with_health(10));
    actors.insert(2, actor_with_health(60));
    actors.insert(3, actor_with_health(50));
    assert!(max_health(50).check(&actors, 1, &scene));
    assert!(!max_health(50).check(&actors, 2, &scene));
    assert!(max_health(50).check(&actors, 3, &scene));
}

#[test]
fn a_missing_actor_meets_every_requirement() {
    let scene = Scene::default();
    let actors: HashMap<usize, Actor> = HashMap::new();
    assert!(min_health(50).check(&actors, 1, &scene));
    assert!(max_health(50).check(&actors, 1, &scene));
    assert!(ActionRequirement::ActorStatus("poisoned".to_string(), Status::Tag).check(&actors, 1, &scene));
}

#[test]
fn a_missing_resource_meets_the_requirement() {
    let scene = Scene::default();
    let mut actors: HashMap<usize, Actor> = HashMap::new();
    actors.insert(1, Actor::new("bare"));
    assert!(min_health(50).check(&actors, 1, &scene));
    assert!(max_health(-5).check(&actors, 1, &scene));
    let mut other = Actor::new("mana only");
    other.insert_resource(Resource::new("mana", 0, 0, 10));
    actors.insert(2, other);
    assert!(min_health(50).check(&actors, 2, &scene));
}

#[test]
fn a_status_requirement_is_met_with_and_without_the_status() {
    let scene = Scene::default();
    let mut actors: HashMap<usize, Actor> = HashMap::new();
    let mut poisoned = Actor::new("poisoned");
    poisoned.insert_status("poisoned", Status::Value(2));
    actors.insert(1, poisoned);
    actors.insert(2, Actor::new("healthy"));
    let requirement = ActionRequirement::ActorStatus("poisoned".to_string(), Status::Tag);
    assert!(requirement.check(&actors, 1, &scene));
    assert!(requirement.check(&actors, 2, &scene));
}

#[test]
fn a_requirement_on_the_target_is_always_met() {
    let scene = Scene::default();
    let mut actors: HashMap<usize, Actor> = HashMap::new();
    actors.insert(1, actor_with_health(10));
    let requirement = ActionRequirement::Target(Box::new(min_health(50)));
    assert!(!min_health(50).check(&actors, 1, &scene));
    assert!(requirement.check(&actors, 1, &scene));
}

#[test]
fn an_entry_is_offered_where_all_requirements_are_met() {
    let scene = Scene::default();
    let mut actors: HashMap<usize, Actor> = HashMap::new();
    actors.insert(1, actor_with_health(10));
    actors.insert(2, actor_with_health(40));
    actors.insert(3, actor_with_health(90));
    let entry = PossibleAction::new(heal(), vec![min_health(20), max_health(50)]);
    assert!(!entry.check(&actors, 1, &scene));
    assert!(entry.check(&actors, 2, &scene));
    assert!(!entry.check(&actors, 3, &scene));
    assert_eq!(entry.requirements().len(), 2);
    assert_eq!(entry.action().name(), "test");
}

#[test]
fn an_entry_without_requirements_is_always_offered() {
    let scene = Scene::default();
    let actors: HashMap<usize, Actor> = HashMap::new();
    let entry = PossibleAction::new(heal(), Vec::new());
    assert!(entry.check(&actors, 1, &scene));
}

#[test]
fn build_action_set_excludes_health_10_and_includes_health_60() {
    let scene = Scene::default();
    let mut catalog = PossibleActionSet::new();
    catalog.add(PossibleAction::new(heal(), vec![min_health(50)]));
    let mut actors: HashMap<usize, Actor> = HashMap::new();
    actors.insert(1, actor_with_health(10));
    actors.insert(2, actor_with_health(60));
    assert_eq!(catalog.build_action_set(&actors, 1, &scene).len(), 0);
    let offered = catalog.build_action_set(&actors, 2, &scene);
    assert_eq!(names(&offered), vec!["test"]);
}

#[test]
fn build_action_set_offers_to_an_actor_that_is_absent() {
    let scene = Scene::default();
    let mut catalog = PossibleActionSet::new();
    catalog.add(PossibleAction::new(heal(), vec![min_health(50)]));
    let mut actors: HashMap<usize, Actor> = HashMap::new();
    actors.insert(1, actor_with_health(10));
    let offered = catalog.build_action_set(&actors, 7, &scene);
    assert_eq!(names(&offered), vec!["test"]);
}

#[test]
fn build_action_set_keeps_the_order_of_the_catalog() {
    let scene = Scene::default();
    let mut catalog = PossibleActionSet::new();
    let named = |name: &str| {
        Action::ChangeResource(ChangeResourceAction::new(
            None,
            None,
            ActionTarget::Actor,
            name.to_string(),
            "health".to_string(),
            1,
            SceneOutput::new(""),
        ))
    };
    catalog.add(PossibleAction::new(named("a"), Vec::new()));
    catalog.add(PossibleAction::new(named("b"), vec![min_health(50)]));
    catalog.add(PossibleAction::new(named("c"), vec![max_health(50)]));
    catalog.add(PossibleAction::new(named("d"), vec![min_health(5), max_health(20)]));
    catalog.add(PossibleAction::new(print("e"), Vec::new()));
    let mut actors: HashMap<usize, Actor> = HashMap::new();
    actors.insert(1, actor_with_health(10));
    actors.insert(2, actor_with_health(60));
    assert_eq!(names(&catalog.build_action_set(&actors, 1, &scene)), vec!["a", "c", "d", ""]);
    assert_eq!(names(&catalog.build_action_set(&actors, 2, &scene)), vec!["a", "b", ""]);
    assert_eq!(names(&catalog.build_action_set(&actors, 1, &scene)), vec!["a", "c", "d", ""]);
}

#[test]
fn an_offer_is_a_copy_of_the_template() {
    let scene = Scene::default();
    let mut catalog = PossibleActionSet::new();
    catalog.add(ChangeResourceDummy::build());
    let mut actors: HashMap<usize, Actor> = HashMap::new();
    actors.insert(1, actor_with_health(50));
    let mut offered = catalog.build_action_set(&actors, 1, &scene);
    assert_eq!(offered.len(), 1);
    let mut scene = Scene::default();
    offered[0].apply(&mut actors, 1, &mut scene);
    offered.clear();
    let again = catalog.build_action_set(&actors, 1, &scene);
    assert_eq!(again.len(), 1);
    assert_eq!(again[0].name(), "Unnamed Action List");
}

#[test]
fn action_list_test() {
    let scene = Scene::default();
    let mut catalog = PossibleActionSet::new();
    catalog.add(PossibleAction::new(heal(), vec![max_health(50)]));
    let mut actors: HashMap<usize, Actor> = HashMap::new();
    actors.insert(1, actor_with_health(100));
    actors.insert(2, actor_with_health(0));
    assert_eq!(catalog.build_action_set(&actors, 1, &scene).len(), 0);
    assert_eq!(catalog.build_action_set(&actors, 2, &scene).len(), 1);
}

#[test]
fn the_option_mapping_keys_each_place_by_its_number() {
    let actions: Vec<Action> = (0..12).map(|_| print("x")).collect();
    let mapping = build_action_option_mapping(&actions);
    for i in 0..12usize {
        assert_eq!(mapping.get(&i.to_string()), Some(&i));
    }
    assert_eq!(mapping.get("12"), None);
    assert_eq!(mapping.get("00"), None);
    assert_eq!(mapping.get(""), None);
    assert_eq!(mapping.get("one"), None);
}

#[test]
fn the_option_mapping_of_no_actions_is_empty() {
    let actions: Vec<Action> = Vec::new();
    let mapping = build_action_option_mapping(&actions);
    assert_eq!(mapping.get("0"), None);
}

#[test]
fn the_dummy_takes_ten_off_the_health_of_its_target() {
    let entry = ChangeResourceDummy::build();
    assert_eq!(entry.requirements().len(), 0);
    let mut actors: HashMap<usize, Actor> = HashMap::new();
    actors.insert(1, actor_with_health(50));
    actors.insert(2, actor_with_health(50));
    let mut scene = Scene::default();
    entry.action().apply(&mut actors, 1, &mut scene);
    assert_eq!(actors.get(&1).unwrap().get_resource("health").unwrap().value(), 50);
    assert_eq!(actors.get(&2).unwrap().get_resource("health").unwrap().value(), 50);
    assert_eq!(scene.output().len(), 1);
    assert_eq!(scene.output()[0].content(), "Reducing Resource by 10");
    let bound = ChangeResourceAction::new(
        None,
        Some(2),
        ActionTarget::Target,
        "ChangeResourceDummy".to_string(),
        "health".to_string(),
        -10,
        SceneOutput::new("Reducing Resource by 10"),
    );
    bound.apply(&mut actors, 1, &mut scene);
    assert_eq!(actors.get(&2).unwrap().get_resource("health").unwrap().value(), 40);
}
