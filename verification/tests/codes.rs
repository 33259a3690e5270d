//! The boundary-protocol semantics codes and the remaining small surface of
//! the library: code decoding, the factory for external SAT solvers, and
//! the engine state getters.

use ipafair_solver::BackendChoice;
use ipafair_solver::ExternalSatSolverFactory;
use ipafair_solver::IpafairSolver;
use ipafair_solver::IpafairSolverSemantics;

#[test]
fn semantics_codes_decode() {
    assert!(matches!(
        IpafairSolverSemantics::from_ipafair_code(1),
        Some(IpafairSolverSemantics::CO)
    ));
    assert!(matches!(
        IpafairSolverSemantics::from_ipafair_code(2),
        Some(IpafairSolverSemantics::PR)
    ));
    assert!(matches!(
        IpafairSolverSemantics::from_ipafair_code(3),
        Some(IpafairSolverSemantics::ST)
    ));
    assert!(IpafairSolverSemantics::from_ipafair_code(0).is_none());
    assert!(IpafairSolverSemantics::from_ipafair_code(4).is_none());
}

#[test]
fn semantics_codes_round_trip() {
    for code in [1u32, 2, 3] {
        let sem = IpafairSolverSemantics::from_ipafair_code(code).unwrap();
        assert_eq!(sem.ipafair_code(), code);
    }
}

#[test]
fn external_factory_keeps_the_program() {
    let f = ExternalSatSolverFactory::new(String::from("/usr/bin/some-sat-solver"));
    assert_eq!(f.program, "/usr/bin/some-sat-solver");
}

#[test]
fn external_backend_accepts_edits() {
    // Construction and edits never reach the external process; only a query
    // would spawn it.
    let f = ExternalSatSolverFactory::new(String::from("/nonexistent/sat-solver"));
    let mut s = IpafairSolver::new_with_factory(BackendChoice::External { factory: f });
    s.set_semantics(IpafairSolverSemantics::CO);
    s.add_argument(1);
    s.add_argument(2);
    s.add_attack(1, 2);
    s.remove_attack(1, 2);
    s.remove_argument(2);
    assert!(s.has_argument(1));
    assert!(!s.has_argument(2));
}

#[test]
fn external_backend_accepts_preferred_semantics() {
    let f = ExternalSatSolverFactory::new(String::from("/nonexistent/sat-solver"));
    let mut s = IpafairSolver::new_with_factory(BackendChoice::External { factory: f });
    s.set_semantics(IpafairSolverSemantics::PR);
    s.add_argument(1);
    s.add_argument(2);
    s.add_attack(1, 2);
    assert!(s.has_attack(1, 2));
}

#[test]
fn attacks_backend_accepts_preferred_semantics() {
    // The attack-scaled strategy answers preferred queries through the
    // complete encoding (credulous) and the batch preferred search
    // (skeptical): a chain 1 -> 2 has the single preferred extension {1}.
    let mut s = IpafairSolver::new_with_factory(BackendChoice::DynamicAttacks { factor: 2 });
    s.set_semantics(IpafairSolverSemantics::PR);
    s.add_argument(1);
    s.add_argument(2);
    s.add_attack(1, 2);
    s.add_assumption(1);
    assert!(s.check_credulous_acceptance_of_assumptions());
    assert!(s.check_presence_in_last_certificate(1));
    s.add_assumption(2);
    assert!(!s.check_credulous_acceptance_of_assumptions());
    s.add_assumption(1);
    assert!(s.check_skeptical_acceptance_of_assumptions());
    s.add_assumption(2);
    assert!(!s.check_skeptical_acceptance_of_assumptions());
    assert!(s.check_presence_in_last_certificate(1));
    assert!(!s.check_presence_in_last_certificate(2));
}

#[test]
fn engine_state_getters() {
    let mut s = IpafairSolver::default();
    assert!(!s.is_initialized());
    s.set_semantics(IpafairSolverSemantics::CO);
    assert!(s.is_initialized());
    s.add_argument(5);
    assert!(s.has_argument(5));
    assert!(!s.has_argument(6));
    s.add_argument(6);
    s.add_attack(5, 6);
    assert!(s.has_attack(5, 6));
    assert!(!s.has_attack(6, 5));
    assert!(!s.has_pending_assumption());
    s.add_assumption(5);
    assert!(s.has_pending_assumption());
    assert_eq!(s.pending_assumption(), Some(5));
    assert!(!s.has_certificate());
    assert!(s.check_credulous_acceptance_of_assumptions());
    assert!(!s.has_pending_assumption());
    assert!(s.has_certificate());
    assert!(s.check_presence_in_last_certificate(5));
    assert!(!s.check_presence_in_last_certificate(6));
}

#[test]
fn removed_argument_drops_incident_attacks() {
    let mut s = IpafairSolver::new_with_factory(BackendChoice::Batch);
    s.set_semantics(IpafairSolverSemantics::CO);
    s.add_argument(1);
    s.add_argument(2);
    s.add_argument(3);
    s.add_attack(1, 2);
    s.add_attack(2, 3);
    s.add_attack(3, 1);
    s.remove_argument(2);
    assert!(!s.has_attack(1, 2));
    assert!(!s.has_attack(2, 3));
    assert!(s.has_attack(3, 1));
    // With 2 gone, only 3 -> 1 remains: the grounded extension is {3}.
    s.add_assumption(3);
    assert!(s.check_skeptical_acceptance_of_assumptions());
    s.add_assumption(1);
    assert!(!s.check_skeptical_acceptance_of_assumptions());
}
