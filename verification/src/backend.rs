//! The backend solving strategies, behind trusted wrappers around the
//! `crustabri` argumentation library.
//!
//! A backend handle owns the solver state of one engine instance: a
//! `crustabri` framework that mirrors the engine's framework store and, for
//! the incremental strategies, dynamic solvers fed with the same edits.
//! Four uninterpreted names describe a handle to the verifier: the arguments
//! and attacks it holds, the semantics its dynamic solver was built for, and
//! the family of the strategy.  Every wrapper states over these names what
//! the `crustabri` source shows of the call it makes.
//!
//! Families: `0` batch (re-solve from the framework on every query),
//! `1` dynamic incremental, `2` dynamic incremental with attack-count
//! scaling, `3` dynamic incremental on an external search process.  The
//! verdicts of family `3` depend on a separately spawned program, so nothing
//! is stated about them.

use vstd::prelude::*;
use crate::semantics::IpafairSolverSemantics;
use crate::semantics::cred_code_verdict;
use crate::semantics::skept_code_verdict;
use crate::semantics::cred_cert_ok;
use crate::semantics::skept_cert_ok;
use crate::semantics::sem_code;
use crustabri::aa::AAFramework;
use crustabri::dynamics::DynamicCompleteSemanticsSolver;
use crustabri::dynamics::DynamicPreferredSemanticsSolver;
use crustabri::dynamics::DynamicStableSemanticsSolver;
use crustabri::dynamics::DynamicSolver;
use crustabri::dynamics::assumptions_on_attacks::DynamicCompleteSemanticsSolverAttacks;
use crustabri::dynamics::assumptions_on_attacks::DynamicStableSemanticsSolverAttacks;
use crustabri::sat::ExternalSatSolver;
use crustabri::solvers::CompleteSemanticsSolver;
use crustabri::solvers::CredulousAcceptanceComputer;
use crustabri::solvers::GroundedSemanticsSolver;
use crustabri::solvers::PreferredSemanticsSolver;
use crustabri::solvers::SkepticalAcceptanceComputer;
use crustabri::solvers::StableSemanticsSolver;

verus! {

/// A factory for SAT solvers run as an external process, identified by the
/// path to the executable.
#[derive(Clone)]
pub struct ExternalSatSolverFactory {
    /// The path to the external SAT solver executable.
    pub program: String,
}

impl ExternalSatSolverFactory {
    /// Builds a factory for external SAT solvers run from the given path.
    pub fn new(program: String) -> (r: Self)
        ensures
            r.program == program,
    {
        ExternalSatSolverFactory { program }
    }
}

/// Which backend strategy an engine instance is bound to.  The choice is
/// made at construction and never changes afterwards.
#[derive(Clone)]
pub enum BackendChoice {
    /// Re-solve from the live framework on every query.
    Batch,
    /// Keep a persistent encoding across queries and edits.
    Dynamic,
    /// As `Dynamic`, with the attack encoding grouped by the given factor,
    /// which must be at least one.
    DynamicAttacks { factor: u32 },
    /// As `Dynamic`, with every search delegated to an external SAT solver
    /// process.
    External { factory: ExternalSatSolverFactory },
}

/// The family code of a backend choice, as the backend handle reports it.
pub open spec fn family_code(c: BackendChoice) -> int {
    match c {
        BackendChoice::Batch => 0,
        BackendChoice::Dynamic => 1,
        BackendChoice::DynamicAttacks { .. } => 2,
        BackendChoice::External { .. } => 3,
    }
}

/// The solver state of one engine instance: a `crustabri` framework fed
/// with every edit and, for the incremental families, dynamic solvers
/// built once for the chosen semantics.
#[verifier::external_body]
pub struct BackendHandle {
    af: AAFramework<usize>,
    dyn_co: Option<DynamicCompleteSemanticsSolver<usize>>,
    dyn_st: Option<DynamicStableSemanticsSolver<usize>>,
    dyn_pr: Option<DynamicPreferredSemanticsSolver<usize>>,
    att_co: Option<DynamicCompleteSemanticsSolverAttacks<usize>>,
    att_st: Option<DynamicStableSemanticsSolverAttacks<usize>>,
}

/// The arguments a backend handle currently holds.
pub uninterp spec fn backend_args(b: BackendHandle) -> Set<usize>;

/// The attacks a backend handle currently holds.
pub uninterp spec fn backend_atts(b: BackendHandle) -> Set<(usize, usize)>;

/// The code of the semantics the handle's dynamic solver was built for;
/// meaningless for the batch family, which builds a solver per query.
pub uninterp spec fn backend_sem(b: BackendHandle) -> int;

/// The family code of the strategy the handle was built for.
pub uninterp spec fn backend_family(b: BackendHandle) -> int;

/// Relies on crustabri's `AAFramework`: a default framework holds no
/// argument and no attack.
#[verifier::external_body]
pub(crate) fn new_batch_backend() -> (r: BackendHandle)
    ensures
        backend_args(r) == Set::<usize>::empty(),
        backend_atts(r) == Set::<(usize, usize)>::empty(),
        backend_family(r) == 0,
{
    BackendHandle {
        af: AAFramework::default(),
        dyn_co: None,
        dyn_st: None,
        dyn_pr: None,
        att_co: None,
        att_st: None,
    }
}

/// Relies on crustabri's dynamic solvers: a freshly built
/// `DynamicCompleteSemanticsSolver` or `DynamicStableSemanticsSolver` holds
/// no argument and no attack.  For the preferred semantics the complete
/// encoding is kept: credulous preferred queries reduce to it, and
/// skeptical preferred queries run the batch preferred search on the
/// handle's framework.
#[verifier::external_body]
pub(crate) fn new_dynamic_backend(sem: IpafairSolverSemantics) -> (r: BackendHandle)
    ensures
        backend_args(r) == Set::<usize>::empty(),
        backend_atts(r) == Set::<(usize, usize)>::empty(),
        backend_sem(r) == sem_code(sem),
        backend_family(r) == 1,
{
    let mut r = new_batch_backend();
    match sem {
        IpafairSolverSemantics::CO => r.dyn_co = Some(DynamicCompleteSemanticsSolver::new()),
        IpafairSolverSemantics::PR => r.dyn_co = Some(DynamicCompleteSemanticsSolver::new()),
        IpafairSolverSemantics::ST => r.dyn_st = Some(DynamicStableSemanticsSolver::new()),
    }
    r
}

/// Relies on crustabri's `DynamicCompleteSemanticsSolverAttacks` and
/// `DynamicStableSemanticsSolverAttacks`: a freshly built solver holds no
/// argument and no attack.  The factor scales how many attacks share one
/// encoding variable.  For the preferred semantics the complete encoding is
/// kept, as in `new_dynamic_backend`.
#[verifier::external_body]
pub(crate) fn new_attacks_backend(sem: IpafairSolverSemantics, factor: u32) -> (r: BackendHandle)
    requires
        factor >= 1,
    ensures
        backend_args(r) == Set::<usize>::empty(),
        backend_atts(r) == Set::<(usize, usize)>::empty(),
        backend_sem(r) == sem_code(sem),
        backend_family(r) == 2,
{
    let mut r = new_batch_backend();
    match sem {
        IpafairSolverSemantics::CO | IpafairSolverSemantics::PR => {
            r.att_co = Some(DynamicCompleteSemanticsSolverAttacks::new_with_arg_factor(factor.into()))
        },
        IpafairSolverSemantics::ST => {
            r.att_st = Some(DynamicStableSemanticsSolverAttacks::new_with_arg_factor(factor.into()))
        },
    }
    r
}

/// Relies on crustabri's dynamic solvers built over `ExternalSatSolver`:
/// a freshly built solver holds no argument and no attack; every search is
/// delegated to the external program, so nothing is stated about verdicts.
/// For the preferred semantics two solvers are kept: the complete encoding
/// answers credulous queries, the preferred solver skeptical ones.
#[verifier::external_body]
pub(crate) fn new_external_backend(
    sem: IpafairSolverSemantics,
    factory: &ExternalSatSolverFactory,
) -> (r: BackendHandle)
    ensures
        backend_args(r) == Set::<usize>::empty(),
        backend_atts(r) == Set::<(usize, usize)>::empty(),
        backend_sem(r) == sem_code(sem),
        backend_family(r) == 3,
{
    let mut r = new_batch_backend();
    let (p1, p2) = (factory.program.clone(), factory.program.clone());
    let f1: Box<crustabri::sat::SatSolverFactoryFn> =
        Box::new(move || Box::new(ExternalSatSolver::new(p1.clone(), vec![])));
    let f2: Box<crustabri::sat::SatSolverFactoryFn> =
        Box::new(move || Box::new(ExternalSatSolver::new(p2.clone(), vec![])));
    match sem {
        IpafairSolverSemantics::CO => r.dyn_co = Some(DynamicCompleteSemanticsSolver::new_with_sat_solver_factory(f1)),
        IpafairSolverSemantics::ST => r.dyn_st = Some(DynamicStableSemanticsSolver::new_with_sat_solver_factory(f1)),
        IpafairSolverSemantics::PR => {
            r.dyn_co = Some(DynamicCompleteSemanticsSolver::new_with_sat_solver_factory(f1));
            r.dyn_pr = Some(DynamicPreferredSemanticsSolver::new_with_sat_solver_factory(f2));
        },
    }
    r
}

/// Relies on `AAFramework::new_argument` and on the `DynamicSolver`
/// implementations' `new_argument`: an argument not held yet is added, and
/// nothing else changes.
#[verifier::external_body]
pub(crate) fn backend_new_argument(b: &mut BackendHandle, arg: usize)
    requires
        !backend_args(*old(b)).contains(arg),
    ensures
        backend_args(*final(b)) == backend_args(*old(b)).insert(arg),
        backend_atts(*final(b)) == backend_atts(*old(b)),
        backend_sem(*final(b)) == backend_sem(*old(b)),
        backend_family(*final(b)) == backend_family(*old(b)),
{
    b.af.new_argument(arg);
    if let Some(s) = b.dyn_co.as_mut() { s.new_argument(arg) }
    if let Some(s) = b.dyn_st.as_mut() { s.new_argument(arg) }
    if let Some(s) = b.dyn_pr.as_mut() { s.new_argument(arg) }
    if let Some(s) = b.att_co.as_mut() { s.new_argument(arg) }
    if let Some(s) = b.att_st.as_mut() { s.new_argument(arg) }
}

/// Relies on `AAFramework::remove_argument` and on the `DynamicSolver`
/// implementations' `remove_argument`: a held argument is removed together
/// with every attack in which it stands, and nothing else changes.
#[verifier::external_body]
pub(crate) fn backend_remove_argument(b: &mut BackendHandle, arg: usize)
    requires
        backend_args(*old(b)).contains(arg),
    ensures
        backend_args(*final(b)) == backend_args(*old(b)).remove(arg),
        backend_atts(*final(b)) == Set::new(
            |p: (usize, usize)| backend_atts(*old(b)).contains(p) && p.0 != arg && p.1 != arg,
        ),
        backend_sem(*final(b)) == backend_sem(*old(b)),
        backend_family(*final(b)) == backend_family(*old(b)),
{
    b.af.remove_argument(&arg).unwrap();
    if let Some(s) = b.dyn_co.as_mut() { s.remove_argument(&arg).unwrap() }
    if let Some(s) = b.dyn_st.as_mut() { s.remove_argument(&arg).unwrap() }
    if let Some(s) = b.dyn_pr.as_mut() { s.remove_argument(&arg).unwrap() }
    if let Some(s) = b.att_co.as_mut() { s.remove_argument(&arg).unwrap() }
    if let Some(s) = b.att_st.as_mut() { s.remove_argument(&arg).unwrap() }
}

/// Relies on `AAFramework::new_attack` and on the `DynamicSolver`
/// implementations' `new_attack`: an attack between held arguments is
/// added, and nothing else changes.
#[verifier::external_body]
pub(crate) fn backend_new_attack(b: &mut BackendHandle, attacker: usize, attacked: usize)
    requires
        backend_args(*old(b)).contains(attacker),
        backend_args(*old(b)).contains(attacked),
        !backend_atts(*old(b)).contains((attacker, attacked)),
    ensures
        backend_args(*final(b)) == backend_args(*old(b)),
        backend_atts(*final(b)) == backend_atts(*old(b)).insert((attacker, attacked)),
        backend_sem(*final(b)) == backend_sem(*old(b)),
        backend_family(*final(b)) == backend_family(*old(b)),
{
    b.af.new_attack(&attacker, &attacked).unwrap();
    if let Some(s) = b.dyn_co.as_mut() { s.new_attack(&attacker, &attacked).unwrap() }
    if let Some(s) = b.dyn_st.as_mut() { s.new_attack(&attacker, &attacked).unwrap() }
    if let Some(s) = b.dyn_pr.as_mut() { s.new_attack(&attacker, &attacked).unwrap() }
    if let Some(s) = b.att_co.as_mut() { s.new_attack(&attacker, &attacked).unwrap() }
    if let Some(s) = b.att_st.as_mut() { s.new_attack(&attacker, &attacked).unwrap() }
}

/// Relies on `AAFramework::remove_attack` and on the `DynamicSolver`
/// implementations' `remove_attack`: a held attack is removed, and nothing
/// else changes.
#[verifier::external_body]
pub(crate) fn backend_remove_attack(b: &mut BackendHandle, attacker: usize, attacked: usize)
    requires
        backend_atts(*old(b)).contains((attacker, attacked)),
    ensures
        backend_args(*final(b)) == backend_args(*old(b)),
        backend_atts(*final(b)) == backend_atts(*old(b)).remove((attacker, attacked)),
        backend_sem(*final(b)) == backend_sem(*old(b)),
        backend_family(*final(b)) == backend_family(*old(b)),
{
    b.af.remove_attack(&attacker, &attacked).unwrap();
    if let Some(s) = b.dyn_co.as_mut() { s.remove_attack(&attacker, &attacked).unwrap() }
    if let Some(s) = b.dyn_st.as_mut() { s.remove_attack(&attacker, &attacked).unwrap() }
    if let Some(s) = b.dyn_pr.as_mut() { s.remove_attack(&attacker, &attacked).unwrap() }
    if let Some(s) = b.att_co.as_mut() { s.remove_attack(&attacker, &attacked).unwrap() }
    if let Some(s) = b.att_st.as_mut() { s.remove_attack(&attacker, &attacked).unwrap() }
}

/// Relies on the `is_credulously_accepted_with_certificate` of crustabri's
/// dynamic complete and stable solvers: for the intrinsic families the
/// verdict is credulous acceptance under the credulous procedure of the
/// handle's semantics — the complete encoding for the complete and the
/// preferred semantics, to which credulous preferred acceptance reduces,
/// the stable encoding for the stable semantics — and a certificate
/// accompanies exactly the accepted verdicts, as an extension of that
/// procedure's semantics containing the queried argument.  Nothing is
/// stated for the external family.
#[verifier::external_body]
pub(crate) fn backend_credulous(b: &mut BackendHandle, arg: usize) -> (r: (bool, Option<Vec<usize>>))
    requires
        backend_args(*old(b)).contains(arg),
        1 <= backend_family(*old(b)) <= 3,
    ensures
        backend_args(*final(b)) == backend_args(*old(b)),
        backend_atts(*final(b)) == backend_atts(*old(b)),
        backend_sem(*final(b)) == backend_sem(*old(b)),
        backend_family(*final(b)) == backend_family(*old(b)),
        backend_family(*old(b)) != 3 ==> r.0 == cred_code_verdict(
            backend_sem(*old(b)),
            backend_args(*old(b)),
            backend_atts(*old(b)),
            arg,
        ),
        r.0 <==> r.1 is Some,
        backend_family(*old(b)) != 3 ==> (r.1 matches Some(c) ==> cred_cert_ok(
            backend_sem(*old(b)),
            backend_args(*old(b)),
            backend_atts(*old(b)),
            c@,
            arg,
        )),
{
    let (v, c) = if let Some(s) = b.dyn_co.as_mut() {
        s.is_credulously_accepted_with_certificate(&arg)
    } else if let Some(s) = b.dyn_st.as_mut() {
        s.is_credulously_accepted_with_certificate(&arg)
    } else if let Some(s) = b.att_co.as_mut() {
        s.is_credulously_accepted_with_certificate(&arg)
    } else {
        b.att_st.as_mut().unwrap().is_credulously_accepted_with_certificate(&arg)
    };
    (v, c.map(|e| e.iter().map(|l| *l.label()).collect()))
}

/// Relies on the `is_skeptically_accepted_with_certificate` of crustabri's
/// dynamic stable solvers: for the intrinsic families — which reach this
/// wrapper for the stable semantics only — the verdict is skeptical
/// acceptance under stable semantics, and a certificate accompanies exactly
/// the rejected verdicts, as a stable extension without the queried
/// argument.  The external family may also stand a preferred solver here;
/// nothing is stated for that family, and its preferred result cache can
/// return a counterexample that does contain the queried argument, which is
/// why the intrinsic families answer preferred skeptical queries with the
/// uncached batch search instead.
#[verifier::external_body]
pub(crate) fn backend_skeptical(b: &mut BackendHandle, arg: usize) -> (r: (bool, Option<Vec<usize>>))
    requires
        backend_args(*old(b)).contains(arg),
        1 <= backend_family(*old(b)) <= 3,
        backend_sem(*old(b)) == 3 || (backend_sem(*old(b)) == 2 && backend_family(*old(b)) == 3),
    ensures
        backend_args(*final(b)) == backend_args(*old(b)),
        backend_atts(*final(b)) == backend_atts(*old(b)),
        backend_sem(*final(b)) == backend_sem(*old(b)),
        backend_family(*final(b)) == backend_family(*old(b)),
        backend_family(*old(b)) != 3 ==> r.0 == skept_code_verdict(
            backend_sem(*old(b)),
            backend_args(*old(b)),
            backend_atts(*old(b)),
            arg,
        ),
        r.0 <==> r.1 is None,
        backend_family(*old(b)) != 3 ==> (r.1 matches Some(c) ==> skept_cert_ok(
            backend_sem(*old(b)),
            backend_args(*old(b)),
            backend_atts(*old(b)),
            c@,
            arg,
        )),
{
    let (v, c) = if let Some(s) = b.dyn_st.as_mut() {
        s.is_skeptically_accepted_with_certificate(&arg)
    } else if let Some(s) = b.dyn_pr.as_mut() {
        s.is_skeptically_accepted_with_certificate(&arg)
    } else {
        b.att_st.as_mut().unwrap().is_skeptically_accepted_with_certificate(&arg)
    };
    (v, c.map(|e| e.iter().map(|l| *l.label()).collect()))
}

/// Relies on crustabri's batch `CompleteSemanticsSolver`, built on the
/// handle's framework: the verdict is credulous acceptance under complete
/// semantics, and a certificate accompanies exactly the accepted verdicts,
/// as a complete extension containing the queried argument.
#[verifier::external_body]
pub(crate) fn batch_complete_credulous(b: &BackendHandle, arg: usize) -> (r: (
    bool,
    Option<Vec<usize>>,
))
    requires
        backend_args(*b).contains(arg),
    ensures
        r.0 == cred_code_verdict(1, backend_args(*b), backend_atts(*b), arg),
        r.0 <==> r.1 is Some,
        r.1 matches Some(c) ==> cred_cert_ok(1, backend_args(*b), backend_atts(*b), c@, arg),
{
    let mut s = CompleteSemanticsSolver::new(&b.af);
    let (v, c) = s.is_credulously_accepted_with_certificate(&arg);
    (v, c.map(|e| e.iter().map(|l| *l.label()).collect()))
}

/// Relies on crustabri's batch `StableSemanticsSolver`, built on the
/// handle's framework: the verdict is credulous acceptance under stable
/// semantics, and a certificate accompanies exactly the accepted verdicts,
/// as a stable extension containing the queried argument.
#[verifier::external_body]
pub(crate) fn batch_stable_credulous(b: &BackendHandle, arg: usize) -> (r: (
    bool,
    Option<Vec<usize>>,
))
    requires
        backend_args(*b).contains(arg),
    ensures
        r.0 == cred_code_verdict(3, backend_args(*b), backend_atts(*b), arg),
        r.0 <==> r.1 is Some,
        r.1 matches Some(c) ==> cred_cert_ok(3, backend_args(*b), backend_atts(*b), c@, arg),
{
    let mut s = StableSemanticsSolver::new(&b.af);
    let (v, c) = s.is_credulously_accepted_with_certificate(&arg);
    (v, c.map(|e| e.iter().map(|l| *l.label()).collect()))
}

/// Relies on crustabri's `GroundedSemanticsSolver`, built on the handle's
/// framework: the verdict is membership in the grounded extension, and a
/// certificate accompanies exactly the rejected verdicts, as the grounded
/// extension itself.
#[verifier::external_body]
pub(crate) fn batch_grounded_skeptical(b: &BackendHandle, arg: usize) -> (r: (
    bool,
    Option<Vec<usize>>,
))
    requires
        backend_args(*b).contains(arg),
    ensures
        r.0 == skept_code_verdict(1, backend_args(*b), backend_atts(*b), arg),
        r.0 <==> r.1 is None,
        r.1 matches Some(c) ==> skept_cert_ok(1, backend_args(*b), backend_atts(*b), c@, arg),
{
    let mut s = GroundedSemanticsSolver::new(&b.af);
    let (v, c) = s.is_skeptically_accepted_with_certificate(&arg);
    (v, c.map(|e| e.iter().map(|l| *l.label()).collect()))
}

/// Relies on crustabri's batch `PreferredSemanticsSolver`, built on the
/// handle's framework: the verdict is skeptical acceptance under preferred
/// semantics, and a certificate accompanies exactly the rejected verdicts,
/// as a preferred extension without the queried argument.
#[verifier::external_body]
pub(crate) fn batch_preferred_skeptical(b: &BackendHandle, arg: usize) -> (r: (
    bool,
    Option<Vec<usize>>,
))
    requires
        backend_args(*b).contains(arg),
    ensures
        r.0 == skept_code_verdict(2, backend_args(*b), backend_atts(*b), arg),
        r.0 <==> r.1 is None,
        r.1 matches Some(c) ==> skept_cert_ok(2, backend_args(*b), backend_atts(*b), c@, arg),
{
    let mut s = PreferredSemanticsSolver::new(&b.af);
    let (v, c) = s.is_skeptically_accepted_with_certificate(&arg);
    (v, c.map(|e| e.iter().map(|l| *l.label()).collect()))
}

/// Relies on crustabri's batch `StableSemanticsSolver`, built on the
/// handle's framework: the verdict is skeptical acceptance under stable
/// semantics, and a certificate accompanies exactly the rejected verdicts,
/// as a stable extension without the queried argument.
#[verifier::external_body]
pub(crate) fn batch_stable_skeptical(b: &BackendHandle, arg: usize) -> (r: (
    bool,
    Option<Vec<usize>>,
))
    requires
        backend_args(*b).contains(arg),
    ensures
        r.0 == skept_code_verdict(3, backend_args(*b), backend_atts(*b), arg),
        r.0 <==> r.1 is None,
        r.1 matches Some(c) ==> skept_cert_ok(3, backend_args(*b), backend_atts(*b), c@, arg),
{
    let mut s = StableSemanticsSolver::new(&b.af);
    let (v, c) = s.is_skeptically_accepted_with_certificate(&arg);
    (v, c.map(|e| e.iter().map(|l| *l.label()).collect()))
}

} // verus!
