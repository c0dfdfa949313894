use petitc::environment::Environment;

#[test]
fn the_innermost_binding_wins() {
    let mut env: Environment<&str> = Environment::new();
    env.begin_frame();
    env.insert(1, "outer");
    env.insert(2, "two");
    env.begin_frame();
    env.insert(1, "inner");
    assert_eq!(env.get(&1), Some((0, &"inner")));
    assert_eq!(env.get(&2), Some((1, &"two")));
    assert_eq!(env.get(&3), None);
    env.end_frame();
    assert_eq!(env.get(&1), Some((0, &"outer")));
}

#[test]
fn a_later_binding_in_a_frame_hides_an_earlier_one() {
    let mut env: Environment<u8> = Environment::new();
    env.begin_frame();
    env.insert(5, 1);
    env.insert(5, 2);
    assert_eq!(env.get(&5), Some((0, &2)));
}

#[test]
fn an_empty_environment_binds_nothing() {
    let mut env: Environment<u8> = Environment::new();
    assert_eq!(env.get(&0), None);
    env.begin_frame();
    assert_eq!(env.get(&0), None);
}
