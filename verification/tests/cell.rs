use spatial_game::cell::Cell;

#[test]
fn cell_test_new() {
    let cooperator = Cell::new(true);
    assert!(matches!(cooperator, Cell::CC(0)), "New cooperator should be CC variant with fitness 0");

    let defector = Cell::new(false);
    assert!(matches!(defector, Cell::DD(0)), "New defector should be DD variant with fitness 0");
}

#[test]
fn cell_test_is_cooperator() {
    assert!(Cell::CC(0).is_cooperator(), "CC should be cooperator");
    assert!(Cell::DC(20).is_cooperator(), "DC should be cooperator");
    assert!(!Cell::CD(-10).is_cooperator(), "CD should be defector");
    assert!(!Cell::DD(-0).is_cooperator(), "DD should be defector");
}

#[test]
fn cell_test_get_fitness() {
    assert_eq!(Cell::CC(10).get_fitness(), 10, "Fitness of CC should be 10");
    assert_eq!(Cell::CD(20).get_fitness(), 20, "Fitness of CD should be 20");
    assert_eq!(Cell::DC(-10).get_fitness(), -10, "Fitness of DC should be -10");
    assert_eq!(Cell::DD(-20).get_fitness(), -20, "Fitness of DD should be -20");
}

#[test]
fn cell_test_set_fitness() {
    let mut strategy = Cell::CC(5);

    strategy.set_fitness(20);
    assert_eq!(strategy.get_fitness(), 20, "Fitness should be 20");

    strategy.set_fitness(-2);
    assert_eq!(strategy.get_fitness(), -2, "Fitness should be -2");
}

#[test]
fn cell_test_increment_fitness() {
    let mut strategy = Cell::DC(5);

    strategy.increment_fitness(20);
    assert_eq!(strategy.get_fitness(), 25, "Fitness should be 25");

    strategy.increment_fitness(-25);
    assert_eq!(strategy.get_fitness(), 0, "Fitness should be 0");

    strategy.increment_fitness(-25);
    assert_eq!(strategy.get_fitness(), -25, "Fitness should be -25");
}

#[test]
fn cell_test_update_strategy() {
    let mut cell = Cell::CC(100);

    cell.update_strategy(false);
    assert_eq!(cell, Cell::CD(100));

    cell.update_strategy(false);
    assert_eq!(cell, Cell::DD(100));

    cell.update_strategy(true);
    assert_eq!(cell, Cell::DC(100));

    cell.update_strategy(true);
    assert_eq!(cell, Cell::CC(100));
}

#[test]
fn test_cell_new() {
    assert_eq!(Cell::new(true), Cell::CC(0));
    assert_eq!(Cell::new(false), Cell::DD(0))
}

#[test]
fn test_cell_is_cooperator() {
    assert!(Cell::CC(0).is_cooperator());
    assert!(Cell::DC(0).is_cooperator());
    assert!(!Cell::CD(0).is_cooperator());
    assert!(!Cell::DD(0).is_cooperator());
}

#[test]
fn test_cell_get_fitness() {
    assert_eq!(Cell::CC(5).get_fitness(), 5);
    assert_eq!(Cell::CD(3).get_fitness(), 3);
    assert_eq!(Cell::DD(1).get_fitness(), 1);
    assert_eq!(Cell::DC(7).get_fitness(), 7);
}

#[test]
fn test_cell_set_fitness() {
    let mut cell_cc = Cell::CC(0);
    let mut cell_cd = Cell::CD(1);
    let mut cell_dd = Cell::DD(2);
    let mut cell_dc = Cell::DC(3);

    cell_cc.set_fitness(10);
    cell_cd.set_fitness(20);
    cell_dd.set_fitness(30);
    cell_dc.set_fitness(40);

    assert_eq!(cell_cc.get_fitness(), 10);
    assert_eq!(cell_cd.get_fitness(), 20);
    assert_eq!(cell_dd.get_fitness(), 30);
    assert_eq!(cell_dc.get_fitness(), 40);

    assert_eq!(cell_cc, Cell::CC(10));
    assert_eq!(cell_cd, Cell::CD(20));
    assert_eq!(cell_dd, Cell::DD(30));
    assert_eq!(cell_dc, Cell::DC(40));
}

#[test]
fn test_cell_update_strategy() {
    // test transitions to cooperator
    let mut cell = Cell::DD(5);
    cell.update_strategy(true);
    assert_eq!(cell, Cell::DC(5));

    cell = Cell::CD(5);
    cell.update_strategy(true);
    assert_eq!(cell, Cell::DC(5));

    cell = Cell::CC(5);
    cell.update_strategy(true);
    assert_eq!(cell, Cell::CC(5));

    cell = Cell::DC(5);
    cell.update_strategy(true);
    assert_eq!(cell, Cell::CC(5));

    // test transitions to defector
    cell = Cell::CC(5);
    cell.update_strategy(false);
    assert_eq!(cell, Cell::CD(5));

    cell = Cell::DC(5);
    cell.update_strategy(false);
    assert_eq!(cell, Cell::CD(5));

    cell = Cell::DD(5);
    cell.update_strategy(false);
    assert_eq!(cell, Cell::DD(5));

    cell = Cell::CD(5);
    cell.update_strategy(false);
    assert_eq!(cell, Cell::DD(5));
}

#[test]
fn test_cell_fitness_preservation() {
    let mut cell = Cell::CC(42);
    cell.update_strategy(false);
    assert_eq!(cell.get_fitness(), 42);
    cell.update_strategy(true);
    assert_eq!(cell.get_fitness(), 42);
}

#[test]
fn test_cell_multiple_transitions() {
    let mut cell = Cell::CC(10);

    cell.update_strategy(false);
    assert_eq!(cell, Cell::CD(10));

    cell.update_strategy(false);
    assert_eq!(cell, Cell::DD(10));

    cell.update_strategy(true);
    assert_eq!(cell, Cell::DC(10));

    cell.update_strategy(true);
    assert_eq!(cell, Cell::CC(10));
}

#[test]
fn fitness_survives_any_run_of_transitions() {
    for start in [Cell::CC(-7), Cell::CD(i32::MAX), Cell::DD(i32::MIN), Cell::DC(0)] {
        let fitness = start.get_fitness();
        let mut cell = start;
        let mut pattern: u32 = 0b1011_0010_1110_0001;
        for _ in 0..16 {
            let before = cell.is_cooperator();
            let to_cooperator = pattern & 1 == 1;
            cell.update_strategy(to_cooperator);
            assert_eq!(cell.get_fitness(), fitness);
            assert_eq!(cell.is_cooperator(), to_cooperator);
            assert_eq!(matches!(cell, Cell::CC(_) | Cell::CD(_)), before);
            pattern >>= 1;
        }
    }
}

#[test]
fn increment_fitness_reaches_both_ends() {
    let mut cell = Cell::CD(i32::MAX - 1);
    cell.increment_fitness(1);
    assert_eq!(cell, Cell::CD(i32::MAX));
    cell.increment_fitness(i32::MIN);
    assert_eq!(cell, Cell::CD(-1));
    cell.increment_fitness(i32::MIN + 1);
    assert_eq!(cell, Cell::CD(i32::MIN));
}
