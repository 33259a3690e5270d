//! Behavioural properties of the engine on concrete frameworks:
//! determinism, agreement of the backends, certificate soundness, the
//! stable skeptical/credulous relation, and the verdict flip after an
//! attack retraction.

use ipafair_solver::BackendChoice;
use ipafair_solver::IpafairSolver;
use ipafair_solver::IpafairSolverSemantics;

/// A fresh engine over arguments {1, 2, 3} with attacks 1->2 and 2->3.
fn chain_framework(choice: BackendChoice, sem: IpafairSolverSemantics) -> IpafairSolver {
    let mut s = IpafairSolver::new_with_factory(choice);
    s.set_semantics(sem);
    s.add_argument(1);
    s.add_argument(2);
    s.add_argument(3);
    s.add_attack(1, 2);
    s.add_attack(2, 3);
    s
}

#[test]
fn determinism_under_batch_backend() {
    let mut s = chain_framework(BackendChoice::Batch, IpafairSolverSemantics::CO);
    let mut verdicts: Vec<bool> = Vec::new();
    for _ in 0..3 {
        s.add_assumption(2);
        verdicts.push(s.check_credulous_acceptance_of_assumptions());
    }
    assert_eq!(verdicts, vec![false, false, false]);
    for _ in 0..3 {
        s.add_assumption(3);
        verdicts.push(s.check_credulous_acceptance_of_assumptions());
    }
    assert_eq!(verdicts, vec![false, false, false, true, true, true]);
}

#[test]
fn incremental_and_batch_backends_agree() {
    let choices = [
        BackendChoice::Batch,
        BackendChoice::Dynamic,
        BackendChoice::DynamicAttacks { factor: 1 },
        BackendChoice::DynamicAttacks { factor: 3 },
    ];
    for sem in [IpafairSolverSemantics::CO, IpafairSolverSemantics::ST] {
        let mut verdicts: Vec<Vec<bool>> = Vec::new();
        for choice in choices.clone() {
            let mut s = chain_framework(choice, sem);
            let mut run: Vec<bool> = Vec::new();
            for arg in [1, 2, 3] {
                s.add_assumption(arg);
                run.push(s.check_credulous_acceptance_of_assumptions());
            }
            s.remove_attack(1, 2);
            for arg in [1, 2, 3] {
                s.add_assumption(arg);
                run.push(s.check_credulous_acceptance_of_assumptions());
            }
            for arg in [1, 2, 3] {
                s.add_assumption(arg);
                run.push(s.check_skeptical_acceptance_of_assumptions());
            }
            verdicts.push(run);
        }
        assert_eq!(verdicts[0], verdicts[1]);
        assert_eq!(verdicts[0], verdicts[2]);
        assert_eq!(verdicts[0], verdicts[3]);
    }
}

#[test]
fn credulous_certificate_contains_the_assumption() {
    // In the chain 1 -> 2 -> 3 the only complete extension is {1, 3}: the
    // accepted arguments must come back inside their own certificates.
    for choice in [BackendChoice::Batch, BackendChoice::Dynamic] {
        let mut s = chain_framework(choice, IpafairSolverSemantics::CO);
        s.add_assumption(1);
        assert!(s.check_credulous_acceptance_of_assumptions());
        assert!(s.check_presence_in_last_certificate(1));
        assert!(!s.check_presence_in_last_certificate(2));
        assert!(s.check_presence_in_last_certificate(3));
        s.add_assumption(3);
        assert!(s.check_credulous_acceptance_of_assumptions());
        assert!(s.check_presence_in_last_certificate(3));
    }
}

#[test]
fn stable_skeptical_implies_credulous() {
    // The chain 1 -> 2 -> 3 has the unique stable extension {1, 3}: under
    // stable semantics every skeptically accepted argument must also be
    // credulously accepted.
    for arg in [1, 2, 3] {
        let mut s = chain_framework(BackendChoice::Dynamic, IpafairSolverSemantics::ST);
        s.add_assumption(arg);
        let skeptical = s.check_skeptical_acceptance_of_assumptions();
        s.add_assumption(arg);
        let credulous = s.check_credulous_acceptance_of_assumptions();
        if skeptical {
            assert!(credulous);
        }
    }
}

#[test]
fn stable_mutual_attack_verdicts() {
    // 1 and 2 attack each other: stable extensions {1} and {2}; both are
    // credulously accepted, neither is skeptically accepted, and each
    // skeptical rejection carries the other extension as counterexample.
    let mut s = IpafairSolver::new_with_factory(BackendChoice::Dynamic);
    s.set_semantics(IpafairSolverSemantics::ST);
    s.add_argument(1);
    s.add_argument(2);
    s.add_attack(1, 2);
    s.add_attack(2, 1);
    s.add_assumption(1);
    assert!(s.check_credulous_acceptance_of_assumptions());
    assert!(s.check_presence_in_last_certificate(1));
    assert!(!s.check_presence_in_last_certificate(2));
    s.add_assumption(1);
    assert!(!s.check_skeptical_acceptance_of_assumptions());
    assert!(!s.check_presence_in_last_certificate(1));
    assert!(s.check_presence_in_last_certificate(2));
    s.add_assumption(2);
    assert!(!s.check_skeptical_acceptance_of_assumptions());
    assert!(!s.check_presence_in_last_certificate(2));
    assert!(s.check_presence_in_last_certificate(1));
}

#[test]
fn retracting_the_blocking_attack_flips_the_verdict() {
    // The attack 1 -> 2 is the sole reason 2 is rejected: removing it must
    // flip the credulous verdict from rejected to accepted.
    for choice in [BackendChoice::Batch, BackendChoice::Dynamic] {
        let mut s = IpafairSolver::new_with_factory(choice);
        s.set_semantics(IpafairSolverSemantics::CO);
        s.add_argument(1);
        s.add_argument(2);
        s.add_attack(1, 2);
        s.add_assumption(2);
        assert!(!s.check_credulous_acceptance_of_assumptions());
        s.remove_attack(1, 2);
        s.add_assumption(2);
        assert!(s.check_credulous_acceptance_of_assumptions());
        assert!(s.check_presence_in_last_certificate(1));
        assert!(s.check_presence_in_last_certificate(2));
    }
}

#[test]
fn grounded_answers_skeptical_complete_queries() {
    // In the chain 1 -> 2 -> 3 the grounded extension is {1, 3}: skeptical
    // complete acceptance holds for 1 and 3 and fails for 2, whose
    // certificate is the grounded extension itself.
    for choice in [BackendChoice::Batch, BackendChoice::Dynamic] {
        let mut s = chain_framework(choice, IpafairSolverSemantics::CO);
        s.add_assumption(1);
        assert!(s.check_skeptical_acceptance_of_assumptions());
        s.add_assumption(3);
        assert!(s.check_skeptical_acceptance_of_assumptions());
        s.add_assumption(2);
        assert!(!s.check_skeptical_acceptance_of_assumptions());
        assert!(s.check_presence_in_last_certificate(1));
        assert!(!s.check_presence_in_last_certificate(2));
        assert!(s.check_presence_in_last_certificate(3));
    }
}

#[test]
fn preferred_semantics_queries() {
    // 1 and 2 attack each other: the preferred extensions are {1} and {2}.
    // Credulous acceptance (through the complete search) holds for both;
    // skeptical acceptance fails for both, with the other extension as
    // counterexample.
    for choice in [
        BackendChoice::Batch,
        BackendChoice::Dynamic,
        BackendChoice::DynamicAttacks { factor: 2 },
    ] {
        let mut s = IpafairSolver::new_with_factory(choice);
        s.set_semantics(IpafairSolverSemantics::PR);
        s.add_argument(1);
        s.add_argument(2);
        s.add_attack(1, 2);
        s.add_attack(2, 1);
        s.add_assumption(1);
        assert!(s.check_credulous_acceptance_of_assumptions());
        s.add_assumption(2);
        assert!(s.check_credulous_acceptance_of_assumptions());
        s.add_assumption(1);
        assert!(!s.check_skeptical_acceptance_of_assumptions());
        assert!(s.check_presence_in_last_certificate(2));
        assert!(!s.check_presence_in_last_certificate(1));
        // A second skeptical rejection, with no intervening edit, must again
        // come with a counterexample that excludes the queried argument.
        s.add_assumption(2);
        assert!(!s.check_skeptical_acceptance_of_assumptions());
        assert!(s.check_presence_in_last_certificate(1));
        assert!(!s.check_presence_in_last_certificate(2));
    }
}

#[test]
fn no_stable_extension_makes_skeptical_vacuous() {
    // A single self-attacking argument admits no stable extension: the
    // skeptical query holds vacuously while the credulous query fails, the
    // one shape of framework on which skeptical acceptance does not imply
    // credulous acceptance under stable semantics.
    let mut s = IpafairSolver::new_with_factory(BackendChoice::Dynamic);
    s.set_semantics(IpafairSolverSemantics::ST);
    s.add_argument(1);
    s.add_attack(1, 1);
    s.add_assumption(1);
    assert!(s.check_skeptical_acceptance_of_assumptions());
    assert!(!s.has_certificate());
    s.add_assumption(1);
    assert!(!s.check_credulous_acceptance_of_assumptions());
    assert!(!s.has_certificate());
}

#[test]
fn self_attacker_is_rejected_under_complete_semantics() {
    let mut s = IpafairSolver::new_with_factory(BackendChoice::Batch);
    s.set_semantics(IpafairSolverSemantics::CO);
    s.add_argument(1);
    s.add_argument(2);
    s.add_attack(1, 1);
    s.add_assumption(1);
    assert!(!s.check_credulous_acceptance_of_assumptions());
    s.add_assumption(2);
    assert!(s.check_credulous_acceptance_of_assumptions());
    assert!(s.check_presence_in_last_certificate(2));
    assert!(!s.check_presence_in_last_certificate(1));
}

#[test]
fn preferred_skeptical_accepts_the_unattacked() {
    // A single unattacked argument lies in the only preferred extension.
    let mut s = IpafairSolver::new_with_factory(BackendChoice::Dynamic);
    s.set_semantics(IpafairSolverSemantics::PR);
    s.add_argument(7);
    s.add_assumption(7);
    assert!(s.check_skeptical_acceptance_of_assumptions());
}
