use spatial_game::strategy::Strategy;

#[test]
fn strategy_test_new() {
    let cooperator = Strategy::new(true);
    assert!(matches!(cooperator, Strategy::CC(0)), "New cooperator should be CC variant with fitness 0");

    let defector = Strategy::new(false);
    assert!(matches!(defector, Strategy::DD(0)), "New defector should be DD variant with fitness 0");
}

#[test]
fn strategy_test_is_cooperator() {
    assert!(Strategy::CC(0).is_cooperator(), "CC should be cooperator");
    assert!(Strategy::DC(20).is_cooperator(), "DC should be cooperator");
    assert!(!Strategy::CD(-10).is_cooperator(), "CD should be defector");
    assert!(!Strategy::DD(-0).is_cooperator(), "DD should be defector");
}

#[test]
fn strategy_test_get_fitness() {
    assert_eq!(Strategy::CC(10).get_fitness(), 10, "Fitness of CC should be 10");
    assert_eq!(Strategy::CD(20).get_fitness(), 20, "Fitness of CD should be 20");
    assert_eq!(Strategy::DC(-10).get_fitness(), -10, "Fitness of DC should be -10");
    assert_eq!(Strategy::DD(-20).get_fitness(), -20, "Fitness of DD should be -20");
}

#[test]
fn strategy_test_set_fitness() {
    let mut strategy = Strategy::CC(5);

    strategy.set_fitness(20);
    assert_eq!(strategy.get_fitness(), 20, "Fitness should be 20");

    strategy.set_fitness(-2);
    assert_eq!(strategy.get_fitness(), -2, "Fitness should be -2");
}

#[test]
fn strategy_test_increment_fitness() {
    let mut strategy = Strategy::DC(5);

    strategy.increment_fitness(20);
    assert_eq!(strategy.get_fitness(), 25, "Fitness should be 25");

    strategy.increment_fitness(-25);
    assert_eq!(strategy.get_fitness(), 0, "Fitness should be 0");

    strategy.increment_fitness(-25);
    assert_eq!(strategy.get_fitness(), -25, "Fitness should be -25");
}

#[test]
fn strategy_keeps_its_variant_when_fitness_changes() {
    let mut record = Strategy::CD(1);
    record.set_fitness(9);
    assert_eq!(record, Strategy::CD(9));
    record.increment_fitness(-10);
    assert_eq!(record, Strategy::CD(-1));

    let mut record = Strategy::DD(0);
    record.set_fitness(3);
    assert_eq!(record, Strategy::DD(3));
}
