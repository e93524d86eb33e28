use scene_engine::resource::Resource;

#[test]
fn new_keeps_what_it_is_given() {
    let r = Resource::new("Health", 150, 0, 100);
    assert_eq!(r.name(), "Health");
    assert_eq!(r.value(), 150);
    assert_eq!(r.min(), 0);
    assert_eq!(r.max(), 100);
}

#[test]
fn default_is_unnamed_zero_of_hundred() {
    let r = Resource::default();
    assert_eq!(r.name(), "");
    assert_eq!(r.value(), 0);
    assert_eq!(r.min(), 0);
    assert_eq!(r.max(), 100);
}

#[test]
fn change_adds_within_the_range() {
    let mut r = Resource::new("health", 50, 0, 100);
    r.change(25);
    assert_eq!(r.value(), 75);
    r.change(-70);
    assert_eq!(r.value(), 5);
}

#[test]
fn change_lands_exactly_on_the_max() {
    let mut r = Resource::new("health", 95, 0, 100);
    r.change(10);
    assert_eq!(r.value(), 100);
}

#[test]
fn change_lands_exactly_on_the_min() {
    let mut r = Resource::new("health", 5, 0, 100);
    r.change(-10);
    assert_eq!(r.value(), 0);
}

#[test]
fn change_saturates_where_the_sum_leaves_the_machine_range() {
    let mut r = Resource::new("gold", i64::MAX - 1, i64::MIN, i64::MAX);
    r.change(i64::MAX);
    assert_eq!(r.value(), i64::MAX);
    let mut s = Resource::new("debt", i64::MIN + 1, i64::MIN, i64::MAX);
    s.change(i64::MIN);
    assert_eq!(s.value(), i64::MIN);
    let mut t = Resource::new("health", i64::MAX, 0, 100);
    t.change(i64::MAX);
    assert_eq!(t.value(), 100);
}

#[test]
fn change_to_clamps_to_the_own_range() {
    let mut r = Resource::new("health", 50, 10, 90);
    r.change_to(500);
    assert_eq!(r.value(), 90);
    r.change_to(-3);
    assert_eq!(r.value(), 10);
    r.change_to(42);
    assert_eq!(r.value(), 42);
}

#[test]
fn change_minmax_uses_the_given_range() {
    let mut r = Resource::new("health", 90, 0, 100);
    r.change_minmax(30, (0, 150));
    assert_eq!(r.value(), 120);
    r.change_minmax(100, (0, 150));
    assert_eq!(r.value(), 150);
    r.change_minmax(-500, (-20, 150));
    assert_eq!(r.value(), -20);
    assert_eq!(r.min(), 0);
    assert_eq!(r.max(), 100);
}

#[test]
fn change_to_minmax_uses_the_given_range() {
    let mut r = Resource::new("health", 50, 0, 100);
    r.change_to_minmax(130, (0, 120));
    assert_eq!(r.value(), 120);
    r.change_to_minmax(-5, (-1, 120));
    assert_eq!(r.value(), -1);
    r.change_to_minmax(7, (0, 120));
    assert_eq!(r.value(), 7);
}

#[test]
fn an_empty_range_looks_at_the_upper_bound_first() {
    let mut r = Resource::new("odd", 0, 0, 100);
    r.change_to_minmax(50, (60, 40));
    assert_eq!(r.value(), 40);
    r.change_to_minmax(30, (60, 40));
    assert_eq!(r.value(), 60);
}

#[test]
fn an_out_of_range_start_is_pulled_in_by_the_first_change() {
    let mut r = Resource::new("health", 150, 0, 100);
    r.change(0);
    assert_eq!(r.value(), 100);
    let mut s = Resource::new("health", -40, 0, 100);
    s.change(10);
    assert_eq!(s.value(), 0);
}

#[test]
fn every_sequence_of_changes_stays_in_range() {
    let mut r = Resource::new("health", 250, 0, 100);
    let steps: [i64; 8] = [40, -500, 1000, -1, 3, i64::MAX, i64::MIN, 17];
    for (k, step) in steps.iter().enumerate() {
        if k % 2 == 0 {
            r.change(*step);
        } else {
            r.change_to(*step);
        }
        assert!(r.min() <= r.value() && r.value() <= r.max());
    }
    assert_eq!(r.value(), 17);
}
