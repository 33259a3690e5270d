//! The acceptance engine: the orchestrator that owns the framework store,
//! dispatches edits and queries to the backend strategy, and manages the
//! one-assumption-per-query and certificate lifecycle.
//!
//! An engine starts uninitialized; setting the semantics once constructs the
//! backend bound at construction.  Edits are forwarded to the backend and
//! mirrored in the verified framework store, which the backend contents
//! provably track.  A query consumes the staged assumption, returns the
//! acceptance verdict of the selected search procedure, and replaces the
//! cached certificate.

use vstd::prelude::*;
use crate::backend::BackendChoice;
use crate::backend::BackendHandle;
use crate::backend::backend_args;
use crate::backend::backend_atts;
use crate::backend::backend_credulous;
use crate::backend::backend_family;
use crate::backend::backend_new_argument;
use crate::backend::backend_new_attack;
use crate::backend::backend_remove_argument;
use crate::backend::backend_remove_attack;
use crate::backend::backend_sem;
use crate::backend::backend_skeptical;
use crate::backend::batch_complete_credulous;
use crate::backend::batch_grounded_skeptical;
use crate::backend::batch_preferred_skeptical;
use crate::backend::batch_stable_credulous;
use crate::backend::batch_stable_skeptical;
use crate::backend::family_code;
use crate::backend::new_attacks_backend;
use crate::backend::new_batch_backend;
use crate::backend::new_dynamic_backend;
use crate::backend::new_external_backend;
use crate::framework::Framework;
use crate::semantics::IpafairSolverSemantics;
use crate::semantics::cred_acceptable;
use crate::semantics::cred_cert_ok;
use crate::semantics::sem_code;
use crate::semantics::skept_acceptable;
use crate::semantics::skept_cert_ok;

verus! {

/// The incremental acceptance-query engine.
pub struct IpafairSolver {
    /// The verified framework store: the authoritative structural state.
    pub framework: Framework,
    /// The semantics, set exactly once.
    pub semantics: Option<IpafairSolverSemantics>,
    /// The staged assumption awaiting the next query, at most one.
    pub assumption: Option<usize>,
    /// The witness extension of the last query, if that query produced one.
    pub certificate: Option<Vec<usize>>,
    /// The backend strategy bound at construction.
    pub factory: BackendChoice,
    /// The backend solver state, constructed when the semantics is set.
    pub backend: Option<BackendHandle>,
}

impl IpafairSolver {
    /// Well-formedness: the backend exists exactly from the moment the
    /// semantics is set, holds the same arguments and attacks as the
    /// framework store, and was built for the bound strategy and the chosen
    /// semantics.
    pub open spec fn wf(self) -> bool {
        &&& self.framework.wf()
        &&& (self.semantics is Some) <==> (self.backend is Some)
        &&& (self.semantics is None ==> self.framework.args_set() == Set::<usize>::empty()
            && self.framework.atts_set() == Set::<(usize, usize)>::empty())
        &&& (self.backend matches Some(b) ==> {
            &&& backend_args(b) == self.framework.args_set()
            &&& backend_atts(b) == self.framework.atts_set()
            &&& backend_family(b) == family_code(self.factory)
            &&& (backend_family(b) != 0 ==> backend_sem(b) == sem_code(self.semantics->Some_0))
        })
        &&& (self.factory matches BackendChoice::DynamicAttacks { factor } ==> factor >= 1)
    }

    /// Builds an engine bound to the given backend strategy; the semantics
    /// is not set yet and no assumption or certificate is staged.
    pub fn new_with_factory(factory: BackendChoice) -> (r: Self)
        requires
            (factory matches BackendChoice::DynamicAttacks { factor } ==> factor >= 1),
        ensures
            r.wf(),
            r.semantics is None,
            r.assumption is None,
            r.certificate is None,
            r.factory == factory,
    {
        IpafairSolver {
            framework: Framework::new(),
            semantics: None,
            assumption: None,
            certificate: None,
            factory,
            backend: None,
        }
    }

    /// Chooses the semantics, once, and constructs the backend.  Calling it
    /// a second time is a protocol violation ruled out by the precondition.
    pub fn set_semantics(&mut self, sem: IpafairSolverSemantics)
        requires
            old(self).wf(),
            old(self).semantics is None,
        ensures
            final(self).wf(),
            final(self).semantics == Some(sem),
            final(self).backend is Some,
            final(self).framework == old(self).framework,
            final(self).assumption == old(self).assumption,
            final(self).certificate == old(self).certificate,
            final(self).factory == old(self).factory,
    {
        let b: BackendHandle = match &self.factory {
            BackendChoice::Batch => new_batch_backend(),
            BackendChoice::Dynamic => new_dynamic_backend(sem),
            BackendChoice::DynamicAttacks { factor } => new_attacks_backend(sem, *factor),
            BackendChoice::External { factory } => new_external_backend(sem, factory),
        };
        self.backend = Some(b);
        self.semantics = Some(sem);
    }

    /// Inserts a new argument and forwards it to the backend.  The argument
    /// must not be present yet.
    pub fn add_argument(&mut self, arg: usize)
        requires
            old(self).wf(),
            old(self).semantics is Some,
            !old(self).framework.args_set().contains(arg),
        ensures
            final(self).wf(),
            final(self).framework.args_set() == old(self).framework.args_set().insert(arg),
            final(self).framework.atts_set() == old(self).framework.atts_set(),
            final(self).semantics == old(self).semantics,
            final(self).assumption == old(self).assumption,
            final(self).certificate == old(self).certificate,
            final(self).factory == old(self).factory,
    {
        self.framework.add_argument(arg);
        match &mut self.backend {
            Some(b) => backend_new_argument(b, arg),
            None => proof { assert(false) },
        }
    }

    /// Removes a present argument together with every attack in which it
    /// stands, and forwards the removal to the backend.
    pub fn remove_argument(&mut self, arg: usize)
        requires
            old(self).wf(),
            old(self).semantics is Some,
            old(self).framework.args_set().contains(arg),
        ensures
            final(self).wf(),
            final(self).framework.args_set() == old(self).framework.args_set().remove(arg),
            final(self).framework.atts_set() == Set::new(
                |p: (usize, usize)|
                    old(self).framework.atts_set().contains(p) && p.0 != arg && p.1 != arg,
            ),
            final(self).semantics == old(self).semantics,
            final(self).assumption == old(self).assumption,
            final(self).certificate == old(self).certificate,
            final(self).factory == old(self).factory,
    {
        self.framework.remove_argument(arg);
        match &mut self.backend {
            Some(b) => {
                backend_remove_argument(b, arg);
                proof {
                    assert(backend_atts(*b) =~= final(self).framework.atts_set());
                }
            },
            None => proof { assert(false) },
        }
    }

    /// Inserts a new attack between two present arguments and forwards it
    /// to the backend.  The exact pair must not be present yet.
    pub fn add_attack(&mut self, attacker: usize, attacked: usize)
        requires
            old(self).wf(),
            old(self).semantics is Some,
            old(self).framework.args_set().contains(attacker),
            old(self).framework.args_set().contains(attacked),
            !old(self).framework.atts_set().contains((attacker, attacked)),
        ensures
            final(self).wf(),
            final(self).framework.args_set() == old(self).framework.args_set(),
            final(self).framework.atts_set() == old(self).framework.atts_set().insert(
                (attacker, attacked),
            ),
            final(self).semantics == old(self).semantics,
            final(self).assumption == old(self).assumption,
            final(self).certificate == old(self).certificate,
            final(self).factory == old(self).factory,
    {
        self.framework.add_attack(attacker, attacked);
        match &mut self.backend {
            Some(b) => backend_new_attack(b, attacker, attacked),
            None => proof { assert(false) },
        }
    }

    /// Removes a present attack and forwards the removal to the backend.
    pub fn remove_attack(&mut self, attacker: usize, attacked: usize)
        requires
            old(self).wf(),
            old(self).semantics is Some,
            old(self).framework.atts_set().contains((attacker, attacked)),
        ensures
            final(self).wf(),
            final(self).framework.args_set() == old(self).framework.args_set(),
            final(self).framework.atts_set() == old(self).framework.atts_set().remove(
                (attacker, attacked),
            ),
            final(self).semantics == old(self).semantics,
            final(self).assumption == old(self).assumption,
            final(self).certificate == old(self).certificate,
            final(self).factory == old(self).factory,
    {
        self.framework.remove_attack(attacker, attacked);
        match &mut self.backend {
            Some(b) => backend_remove_attack(b, attacker, attacked),
            None => proof { assert(false) },
        }
    }

    /// Stages the assumption for the next query.  At most one assumption
    /// may be pending; staging a second one is a protocol violation ruled
    /// out by the precondition.
    pub fn add_assumption(&mut self, arg: usize)
        requires
            old(self).wf(),
            old(self).semantics is Some,
            old(self).assumption is None,
        ensures
            final(self).wf(),
            final(self).assumption == Some(arg),
            final(self).framework == old(self).framework,
            final(self).semantics == old(self).semantics,
            final(self).certificate == old(self).certificate,
            final(self).factory == old(self).factory,
            final(self).backend == old(self).backend,
    {
        self.assumption = Some(arg);
    }

    /// Checks the credulous acceptance of the staged assumption, consuming
    /// it.  The assumed argument must still be present in the framework.
    /// For the intrinsic backend families the verdict is credulous
    /// acceptance of the argument under the credulous procedure of the
    /// chosen semantics, and the cached certificate is replaced by a
    /// witness extension exactly when the verdict is positive.
    pub fn check_credulous_acceptance_of_assumptions(&mut self) -> (r: bool)
        requires
            old(self).wf(),
            old(self).semantics is Some,
            old(self).assumption is Some,
            old(self).framework.args_set().contains(old(self).assumption->Some_0),
        ensures
            final(self).wf(),
            final(self).framework == old(self).framework,
            final(self).semantics == old(self).semantics,
            final(self).factory == old(self).factory,
            final(self).assumption is None,
            family_code(old(self).factory) != 3 ==> r == cred_acceptable(
                old(self).semantics->Some_0,
                old(self).framework.args_set(),
                old(self).framework.atts_set(),
                old(self).assumption->Some_0,
            ),
            r <==> final(self).certificate is Some,
            family_code(old(self).factory) != 3 ==> (final(self).certificate matches Some(c)
                ==> cred_cert_ok(
                sem_code(old(self).semantics->Some_0),
                old(self).framework.args_set(),
                old(self).framework.atts_set(),
                c@,
                old(self).assumption->Some_0,
            )),
    {
        let arg = self.assumption.unwrap();
        self.assumption = None;
        let sem = self.semantics.unwrap();
        let is_batch = matches!(&self.factory, BackendChoice::Batch);
        let outcome: (bool, Option<Vec<usize>>) = match &mut self.backend {
            Some(b) => {
                if is_batch {
                    match sem {
                        // Credulous acceptance under preferred semantics
                        // reduces to the complete-semantics search.
                        IpafairSolverSemantics::CO | IpafairSolverSemantics::PR => {
                            batch_complete_credulous(b, arg)
                        },
                        IpafairSolverSemantics::ST => batch_stable_credulous(b, arg),
                    }
                } else {
                    backend_credulous(b, arg)
                }
            },
            None => {
                proof {
                    assert(false);
                }
                (false, None)
            },
        };
        self.certificate = outcome.1;
        outcome.0
    }

    /// Checks the skeptical acceptance of the staged assumption, consuming
    /// it.  The assumed argument must still be present in the framework.
    /// For the intrinsic backend families the verdict is skeptical
    /// acceptance of the argument under the skeptical procedure of the
    /// chosen semantics, and the cached certificate is replaced by a
    /// counterexample extension exactly when the verdict is negative.
    pub fn check_skeptical_acceptance_of_assumptions(&mut self) -> (r: bool)
        requires
            old(self).wf(),
            old(self).semantics is Some,
            old(self).assumption is Some,
            old(self).framework.args_set().contains(old(self).assumption->Some_0),
        ensures
            final(self).wf(),
            final(self).framework == old(self).framework,
            final(self).semantics == old(self).semantics,
            final(self).factory == old(self).factory,
            final(self).assumption is None,
            family_code(old(self).factory) != 3 ==> r == skept_acceptable(
                old(self).semantics->Some_0,
                old(self).framework.args_set(),
                old(self).framework.atts_set(),
                old(self).assumption->Some_0,
            ),
            r <==> final(self).certificate is None,
            family_code(old(self).factory) != 3 ==> (final(self).certificate matches Some(c)
                ==> skept_cert_ok(
                sem_code(old(self).semantics->Some_0),
                old(self).framework.args_set(),
                old(self).framework.atts_set(),
                c@,
                old(self).assumption->Some_0,
            )),
    {
        let arg = self.assumption.unwrap();
        self.assumption = None;
        let sem = self.semantics.unwrap();
        let is_batch = matches!(&self.factory, BackendChoice::Batch);
        let is_external = matches!(&self.factory, BackendChoice::External { .. });
        let outcome: (bool, Option<Vec<usize>>) = match &mut self.backend {
            Some(b) => {
                match sem {
                    // Skeptical acceptance under complete semantics is
                    // answered by the cheaper grounded search, which is
                    // sound for it: the grounded extension is the least
                    // complete extension.
                    IpafairSolverSemantics::CO => batch_grounded_skeptical(b, arg),
                    // The intrinsic families answer preferred skeptical
                    // queries with the uncached batch search; only the
                    // external family delegates them to its own solver.
                    IpafairSolverSemantics::PR => {
                        if is_external {
                            backend_skeptical(b, arg)
                        } else {
                            batch_preferred_skeptical(b, arg)
                        }
                    },
                    IpafairSolverSemantics::ST => {
                        if is_batch {
                            batch_stable_skeptical(b, arg)
                        } else {
                            backend_skeptical(b, arg)
                        }
                    },
                }
            },
            None => {
                proof {
                    assert(false);
                }
                (false, None)
            },
        };
        self.certificate = outcome.1;
        outcome.0
    }

    /// Whether the given argument stands in the certificate of the last
    /// query.  The last query must have produced a certificate.
    pub fn check_presence_in_last_certificate(&self, label: usize) -> (r: bool)
        requires
            self.certificate is Some,
        ensures
            r == (self.certificate->Some_0)@.contains(label),
    {
        let cert: &Vec<usize> = match &self.certificate {
            Some(c) => c,
            None => {
                proof {
                    assert(false);
                }
                unreached()
            },
        };
        let mut i: usize = 0;
        while i < cert.len()
            invariant
                self.certificate is Some,
                cert == &(self.certificate->Some_0),
                i <= cert.len(),
                forall|j: int| 0 <= j < i ==> cert@[j] != label,
            decreases cert.len() - i,
        {
            if cert[i] == label {
                return true;
            }
            i += 1;
        }
        false
    }

    /// Whether the semantics has been set.
    pub fn is_initialized(&self) -> (r: bool)
        ensures
            r == (self.semantics is Some),
    {
        self.semantics.is_some()
    }

    /// Whether an assumption is staged and awaiting a query.
    pub fn has_pending_assumption(&self) -> (r: bool)
        ensures
            r == (self.assumption is Some),
    {
        self.assumption.is_some()
    }

    /// The staged assumption, if any.
    pub fn pending_assumption(&self) -> (r: Option<usize>)
        ensures
            r == self.assumption,
    {
        self.assumption
    }

    /// Whether the last query produced a certificate.
    pub fn has_certificate(&self) -> (r: bool)
        ensures
            r == (self.certificate is Some),
    {
        self.certificate.is_some()
    }

    /// Whether the given argument is currently present.
    pub fn has_argument(&self, arg: usize) -> (r: bool)
        ensures
            r == self.framework.args_set().contains(arg),
    {
        self.framework.has_argument(arg)
    }

    /// Whether the given attack is currently present.
    pub fn has_attack(&self, attacker: usize, attacked: usize) -> (r: bool)
        ensures
            r == self.framework.atts_set().contains((attacker, attacked)),
    {
        self.framework.has_attack(attacker, attacked)
    }
}

impl Default for IpafairSolver {
    /// The default engine is bound to the dynamic incremental backend.
    fn default() -> (r: Self)
        ensures
            r.wf(),
            r.semantics is None,
            r.assumption is None,
            r.certificate is None,
            r.factory == BackendChoice::Dynamic,
    {
        IpafairSolver::new_with_factory(BackendChoice::Dynamic)
    }
}

} // verus!
