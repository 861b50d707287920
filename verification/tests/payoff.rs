use spatial_game::cell::Cell;
use spatial_game::payoff::{Payoff, PayoffMatrix, SpatialPayoff};

#[test]
fn test_get_payoff() {
    let cooperator = Cell::new(true);
    let defector = Cell::new(false);

    let payoff_mat = PayoffMatrix::new(50, -50, 100, 0);
    let both = |first: &Cell, second: &Cell| {
        (payoff_mat.get_payoff(first, second), payoff_mat.get_payoff(second, first))
    };
    assert_eq!(both(&cooperator, &cooperator), (50, 50), "Invalid payoff");
    assert_eq!(both(&cooperator, &defector), (-50, 100), "Invalid payoff");
    assert_eq!(both(&defector, &cooperator), (100, -50), "Invalid payoff");
    assert_eq!(both(&defector, &defector), (0, 0), "Invalid payoff");
}

struct SumPayoff;

impl SpatialPayoff for SumPayoff {
    fn calculate(&self, _num_rows: usize, _num_cols: usize, row: usize, col: usize) -> i32 {
        (row + col) as i32
    }
}

#[test]
fn test_sum_payoff() {
    let payoff = SumPayoff;
    assert_eq!(payoff.calculate(5, 5, 0, 0), 0);
    assert_eq!(payoff.calculate(5, 5, 2, 3), 5);
    assert_eq!(payoff.calculate(5, 5, 4, 4), 8);
}

struct CircleAtCenterPayoff {
    radius_squared: f32,
    inside: i32,
    outside: i32,
}

impl CircleAtCenterPayoff {
    fn new(radius: f32, inside: i32, outside: i32) -> Self {
        Self { radius_squared: radius.powi(2), inside, outside }
    }
}

impl SpatialPayoff for CircleAtCenterPayoff {
    fn calculate(&self, num_rows: usize, num_cols: usize, row: usize, col: usize) -> i32 {
        let center_row = num_rows as f32 / 2.0;
        let center_col = num_cols as f32 / 2.0;

        let dx = center_col - col as f32;
        let dy = center_row - row as f32;
        let distance_squared = dx.powi(2) + dy.powi(2);

        if distance_squared <= self.radius_squared {
            self.inside
        } else {
            self.outside
        }
    }
}

#[test]
fn test_circle_at_center_payoff() {
    let payoff = CircleAtCenterPayoff::new(2.0, 1, 0);

    assert_eq!(payoff.calculate(5, 5, 2, 2), 1);
    assert_eq!(payoff.calculate(5, 5, 0, 0), 0);
}

#[test]
fn test_matrix_new() {
    let matrix = PayoffMatrix::new(3, 0, 5, 1);
    assert_eq!(matrix.c_c, 3);
    assert_eq!(matrix.c_d, 0);
    assert_eq!(matrix.d_c, 5);
    assert_eq!(matrix.d_d, 1);
}

#[test]
fn test_matrix_get_payoff() {
    let matrix = PayoffMatrix::new(3, 0, 5, 1);

    let cooperator = Cell::new(true);
    let defector = Cell::new(false);

    assert_eq!(matrix.get_payoff(&cooperator, &cooperator), 3);
    assert_eq!(matrix.get_payoff(&cooperator, &defector), 0);
    assert_eq!(matrix.get_payoff(&defector, &cooperator), 5);
    assert_eq!(matrix.get_payoff(&defector, &defector), 1);
}

#[test]
fn test_payoff_new() {
    let payoff = Payoff::new(PayoffMatrix::new(3, 0, 5, 1));

    let cooperator = Cell::new(true);
    let defector = Cell::new(false);

    assert_eq!(payoff.get_payoff(&cooperator, &cooperator, None), 3);
    assert_eq!(payoff.get_payoff(&cooperator, &defector, None), 0);
    assert_eq!(payoff.get_payoff(&defector, &cooperator, None), 5);
    assert_eq!(payoff.get_payoff(&defector, &defector, None), 1);
}

#[test]
fn payoff_reads_current_strategy_only() {
    let matrix = PayoffMatrix::new(3, 0, 5, 1);
    let cooperators = [Cell::CC(9), Cell::DC(-4)];
    let defectors = [Cell::DD(2), Cell::CD(77)];
    for c in &cooperators {
        for d in &defectors {
            assert_eq!(matrix.get_payoff(c, d), 0);
            assert_eq!(matrix.get_payoff(d, c), 5);
        }
        for other in &cooperators {
            assert_eq!(matrix.get_payoff(c, other), 3);
        }
    }
    for d in &defectors {
        for other in &defectors {
            assert_eq!(matrix.get_payoff(d, other), 1);
        }
    }
}

#[test]
fn payoff_ignores_coordinates() {
    let payoff = Payoff::new(PayoffMatrix::new(-1, 2, -3, 4));
    assert_eq!(payoff.matrix, PayoffMatrix::new(-1, 2, -3, 4));
    let cooperator = Cell::new(true);
    let defector = Cell::new(false);
    assert_eq!(payoff.get_payoff(&cooperator, &defector, Some((3, 4))), 2);
    assert_eq!(payoff.get_payoff(&cooperator, &defector, Some((-1, 0))), 2);
    assert_eq!(payoff.get_payoff(&defector, &cooperator, Some((0, 0))), -3);
}
