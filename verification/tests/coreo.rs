//! The reference edit/query scenario under complete semantics, run once
//! against the dynamic incremental backend and once against the batch
//! backend.

use ipafair_solver::BackendChoice;
use ipafair_solver::IpafairSolver;
use ipafair_solver::IpafairSolverSemantics;

fn coreo_scenario_co(mut s: IpafairSolver) {
    s.set_semantics(IpafairSolverSemantics::CO);
    s.add_argument(1);
    s.add_argument(2);
    s.add_attack(1, 2);
    s.add_assumption(1);
    assert!(s.check_credulous_acceptance_of_assumptions());
    assert!(s.check_presence_in_last_certificate(1));
    assert!(!s.check_presence_in_last_certificate(2));
    s.add_assumption(2);
    assert!(!s.check_credulous_acceptance_of_assumptions());

    s.remove_attack(1, 2);
    s.add_assumption(1);
    assert!(s.check_credulous_acceptance_of_assumptions());
    assert!(s.check_presence_in_last_certificate(1));
    assert!(s.check_presence_in_last_certificate(2));
    s.add_assumption(2);
    assert!(s.check_credulous_acceptance_of_assumptions());
    assert!(s.check_presence_in_last_certificate(1));
    assert!(s.check_presence_in_last_certificate(2));

    s.add_argument(3);
    s.add_attack(3, 2);
    s.add_attack(2, 1);
    s.add_assumption(1);
    assert!(s.check_credulous_acceptance_of_assumptions());
    assert!(s.check_presence_in_last_certificate(1));
    assert!(!s.check_presence_in_last_certificate(2));
    assert!(s.check_presence_in_last_certificate(3));
    s.add_assumption(2);
    assert!(!s.check_credulous_acceptance_of_assumptions());
    s.add_assumption(3);
    assert!(s.check_credulous_acceptance_of_assumptions());
    assert!(s.check_presence_in_last_certificate(1));
    assert!(!s.check_presence_in_last_certificate(2));
    assert!(s.check_presence_in_last_certificate(3));

    s.remove_argument(1);
    s.add_argument(4);
    s.add_attack(4, 3);
    s.add_attack(3, 4);
    s.add_assumption(2);
    assert!(s.check_credulous_acceptance_of_assumptions());
    assert!(s.check_presence_in_last_certificate(4));
    assert!(s.check_presence_in_last_certificate(2));
    assert!(!s.check_presence_in_last_certificate(3));
    s.add_assumption(3);
    assert!(s.check_credulous_acceptance_of_assumptions());
    assert!(!s.check_presence_in_last_certificate(4));
    assert!(!s.check_presence_in_last_certificate(2));
    assert!(s.check_presence_in_last_certificate(3));
    s.add_assumption(4);
    assert!(s.check_credulous_acceptance_of_assumptions());
    assert!(s.check_presence_in_last_certificate(4));
    assert!(s.check_presence_in_last_certificate(2));
    assert!(!s.check_presence_in_last_certificate(3));
}

#[test]
fn coreo_test_co() {
    coreo_scenario_co(IpafairSolver::default());
}

#[test]
fn coreo_test_co_dummy() {
    coreo_scenario_co(IpafairSolver::new_with_factory(BackendChoice::Batch));
}

#[test]
fn coreo_test_co_attacks() {
    coreo_scenario_co(IpafairSolver::new_with_factory(BackendChoice::DynamicAttacks {
        factor: 2,
    }));
}
