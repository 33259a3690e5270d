//! The three acceptance semantics offered by the engine, and the
//! mathematical definitions of the extensions they rely on.
//!
//! A framework is modelled as a set of argument identifiers together with a
//! set of ordered attack pairs.  The spec functions below give the textbook
//! definitions of conflict-freeness, defence, admissibility and of the
//! complete, stable, preferred and grounded extensions, and derive from them
//! the verdict of every credulous and skeptical acceptance query.

use vstd::prelude::*;

verus! {

/// The semantics an engine instance answers queries under.  It is chosen
/// exactly once per instance and is immutable afterwards.
#[derive(Clone, Copy, PartialEq, Eq, Structural)]
pub enum IpafairSolverSemantics {
    /// Complete semantics.
    CO,
    /// Preferred semantics.
    PR,
    /// Stable semantics.
    ST,
}

/// The numeric code of a semantics in the boundary protocol.
pub open spec fn sem_code(sem: IpafairSolverSemantics) -> int {
    match sem {
        IpafairSolverSemantics::CO => 1,
        IpafairSolverSemantics::PR => 2,
        IpafairSolverSemantics::ST => 3,
    }
}

impl IpafairSolverSemantics {
    /// Decodes a boundary-protocol semantics code; codes other than the
    /// three defined ones yield `None`.
    pub fn from_ipafair_code(code: u32) -> (r: Option<Self>)
        ensures
            r == (if code == 1 {
                Some(IpafairSolverSemantics::CO)
            } else if code == 2 {
                Some(IpafairSolverSemantics::PR)
            } else if code == 3 {
                Some(IpafairSolverSemantics::ST)
            } else {
                None::<IpafairSolverSemantics>
            }),
    {
        match code {
            1 => Some(IpafairSolverSemantics::CO),
            2 => Some(IpafairSolverSemantics::PR),
            3 => Some(IpafairSolverSemantics::ST),
            _ => None,
        }
    }

    /// The boundary-protocol code of this semantics.
    pub fn ipafair_code(&self) -> (r: u32)
        ensures
            r == sem_code(*self),
    {
        match self {
            IpafairSolverSemantics::CO => 1,
            IpafairSolverSemantics::PR => 2,
            IpafairSolverSemantics::ST => 3,
        }
    }
}

/// A set of arguments is conflict-free when it lies inside the framework's
/// arguments and no member attacks another member.
pub open spec fn conflict_free(
    args: Set<usize>,
    atts: Set<(usize, usize)>,
    ext: Set<usize>,
) -> bool {
    &&& ext.subset_of(args)
    &&& forall|a: usize, b: usize|
        #![trigger atts.contains((a, b))]
        ext.contains(a) && ext.contains(b) ==> !atts.contains((a, b))
}

/// The set `ext` attacks the argument `x`: some member of `ext` attacks `x`.
pub open spec fn set_attacks(atts: Set<(usize, usize)>, ext: Set<usize>, x: usize) -> bool {
    exists|y: usize| #![trigger atts.contains((y, x))] ext.contains(y) && atts.contains((y, x))
}

/// The set `ext` defends `x`: every attacker of `x` is attacked by `ext`.
pub open spec fn defends(atts: Set<(usize, usize)>, ext: Set<usize>, x: usize) -> bool {
    forall|y: usize|
        #![trigger atts.contains((y, x))]
        atts.contains((y, x)) ==> set_attacks(atts, ext, y)
}

/// A conflict-free set that defends each of its members.
pub open spec fn admissible(
    args: Set<usize>,
    atts: Set<(usize, usize)>,
    ext: Set<usize>,
) -> bool {
    &&& conflict_free(args, atts, ext)
    &&& forall|x: usize| #![trigger ext.contains(x)] ext.contains(x) ==> defends(atts, ext, x)
}

/// A complete extension: an admissible set that contains every argument it
/// defends.
pub open spec fn is_complete_extension(
    args: Set<usize>,
    atts: Set<(usize, usize)>,
    ext: Set<usize>,
) -> bool {
    &&& admissible(args, atts, ext)
    &&& forall|x: usize|
        #![trigger defends(atts, ext, x)]
        args.contains(x) && defends(atts, ext, x) ==> ext.contains(x)
}

/// A stable extension: a conflict-free set that attacks every argument
/// outside of it.
pub open spec fn is_stable_extension(
    args: Set<usize>,
    atts: Set<(usize, usize)>,
    ext: Set<usize>,
) -> bool {
    &&& conflict_free(args, atts, ext)
    &&& forall|x: usize|
        #![trigger args.contains(x)]
        args.contains(x) && !ext.contains(x) ==> set_attacks(atts, ext, x)
}

/// A preferred extension: a complete extension that no other complete
/// extension strictly contains.
pub open spec fn is_preferred_extension(
    args: Set<usize>,
    atts: Set<(usize, usize)>,
    ext: Set<usize>,
) -> bool {
    &&& is_complete_extension(args, atts, ext)
    &&& forall|other: Set<usize>|
        #![trigger is_complete_extension(args, atts, other)]
        is_complete_extension(args, atts, other) && ext.subset_of(other) ==> other == ext
}

/// One step of the characteristic function: the arguments the set `ext`
/// defends.
pub open spec fn char_step(
    args: Set<usize>,
    atts: Set<(usize, usize)>,
    ext: Set<usize>,
) -> Set<usize> {
    Set::new(|x: usize| args.contains(x) && defends(atts, ext, x))
}

/// The characteristic function iterated `n` times from the empty set.
pub open spec fn char_iter(args: Set<usize>, atts: Set<(usize, usize)>, n: nat) -> Set<usize>
    decreases n,
{
    if n == 0 {
        Set::<usize>::empty()
    } else {
        char_step(args, atts, char_iter(args, atts, (n - 1) as nat))
    }
}

/// The grounded extension: the least fixed point of the characteristic
/// function, reached after at most as many iterations as there are
/// arguments.  It is the unique minimal complete extension.
pub open spec fn grounded_extension(args: Set<usize>, atts: Set<(usize, usize)>) -> Set<usize> {
    char_iter(args, atts, args.len())
}

/// The verdict of a credulous query, keyed by the semantics code.  The
/// credulous procedure for the complete and the preferred semantics is the
/// complete-semantics search (credulous acceptance under preferred semantics
/// reduces to it); for the stable semantics it is the stable-semantics
/// search.
pub open spec fn cred_code_verdict(
    code: int,
    args: Set<usize>,
    atts: Set<(usize, usize)>,
    a: usize,
) -> bool {
    if code == 3 {
        exists|e: Set<usize>|
            #![trigger is_stable_extension(args, atts, e)]
            is_stable_extension(args, atts, e) && e.contains(a)
    } else {
        exists|e: Set<usize>|
            #![trigger is_complete_extension(args, atts, e)]
            is_complete_extension(args, atts, e) && e.contains(a)
    }
}

/// The verdict of a skeptical query, keyed by the semantics code.  The
/// skeptical procedure for the complete semantics is the grounded-semantics
/// search (the grounded extension is the least complete extension, so
/// membership in it is sound for skeptical complete acceptance); preferred
/// and stable queries quantify over their own extensions.
pub open spec fn skept_code_verdict(
    code: int,
    args: Set<usize>,
    atts: Set<(usize, usize)>,
    a: usize,
) -> bool {
    if code == 1 {
        grounded_extension(args, atts).contains(a)
    } else if code == 2 {
        forall|e: Set<usize>|
            #![trigger is_preferred_extension(args, atts, e)]
            is_preferred_extension(args, atts, e) ==> e.contains(a)
    } else {
        forall|e: Set<usize>|
            #![trigger is_stable_extension(args, atts, e)]
            is_stable_extension(args, atts, e) ==> e.contains(a)
    }
}

/// The verdict a credulous acceptance query must return.
pub open spec fn cred_acceptable(
    sem: IpafairSolverSemantics,
    args: Set<usize>,
    atts: Set<(usize, usize)>,
    a: usize,
) -> bool {
    cred_code_verdict(sem_code(sem), args, atts, a)
}

/// The verdict a skeptical acceptance query must return.
pub open spec fn skept_acceptable(
    sem: IpafairSolverSemantics,
    args: Set<usize>,
    atts: Set<(usize, usize)>,
    a: usize,
) -> bool {
    skept_code_verdict(sem_code(sem), args, atts, a)
}

/// What the certificate of a successful credulous query certifies: a witness
/// extension of the credulous procedure's semantics that contains the
/// queried argument.
pub open spec fn cred_cert_ok(
    code: int,
    args: Set<usize>,
    atts: Set<(usize, usize)>,
    cert: Seq<usize>,
    a: usize,
) -> bool {
    &&& if code == 3 {
        is_stable_extension(args, atts, cert.to_set())
    } else {
        is_complete_extension(args, atts, cert.to_set())
    }
    &&& cert.contains(a)
}

/// What the certificate of a failed skeptical query certifies: a
/// counterexample extension of the skeptical procedure's semantics that does
/// not contain the queried argument.
pub open spec fn skept_cert_ok(
    code: int,
    args: Set<usize>,
    atts: Set<(usize, usize)>,
    cert: Seq<usize>,
    a: usize,
) -> bool {
    &&& if code == 1 {
        cert.to_set() == grounded_extension(args, atts)
    } else if code == 2 {
        is_preferred_extension(args, atts, cert.to_set())
    } else {
        is_stable_extension(args, atts, cert.to_set())
    }
    &&& !cert.contains(a)
}

/// Determinism of queries: the acceptance verdict is a function of the
/// framework, the semantics and the assumed argument alone, so two queries
/// of the same argument against the same framework — in particular repeated
/// queries with no intervening edit — return the same verdict.
pub proof fn lemma_query_determinism(
    sem: IpafairSolverSemantics,
    args: Set<usize>,
    atts: Set<(usize, usize)>,
    a: usize,
    r1: bool,
    r2: bool,
)
    requires
        r1 == cred_acceptable(sem, args, atts, a),
        r2 == cred_acceptable(sem, args, atts, a),
    ensures
        r1 == r2,
{
}

/// Backend agreement: any two backends whose verdicts meet the acceptance
/// contract — in particular the batch and the dynamic incremental backends
/// — agree on every credulous and every skeptical verdict over the same
/// framework, semantics and argument.
pub proof fn lemma_backend_agreement(
    sem: IpafairSolverSemantics,
    args: Set<usize>,
    atts: Set<(usize, usize)>,
    a: usize,
    cred1: bool,
    cred2: bool,
    skept1: bool,
    skept2: bool,
)
    requires
        cred1 == cred_acceptable(sem, args, atts, a),
        cred2 == cred_acceptable(sem, args, atts, a),
        skept1 == skept_acceptable(sem, args, atts, a),
        skept2 == skept_acceptable(sem, args, atts, a),
    ensures
        cred1 == cred2,
        skept1 == skept2,
{
}

/// Under stable semantics, skeptical acceptance implies credulous
/// acceptance on every framework that has at least one stable extension.
/// The hypothesis cannot be dropped: on a framework without stable
/// extensions skeptical acceptance holds vacuously while credulous
/// acceptance fails.
pub proof fn lemma_stable_skeptical_implies_credulous(
    args: Set<usize>,
    atts: Set<(usize, usize)>,
    a: usize,
)
    requires
        exists|e: Set<usize>| is_stable_extension(args, atts, e),
    ensures
        skept_acceptable(IpafairSolverSemantics::ST, args, atts, a) ==> cred_acceptable(
            IpafairSolverSemantics::ST,
            args,
            atts,
            a,
        ),
{
    if skept_acceptable(IpafairSolverSemantics::ST, args, atts, a) {
        let e = choose|e: Set<usize>| is_stable_extension(args, atts, e);
        assert(is_stable_extension(args, atts, e));
        assert(e.contains(a));
        assert(is_stable_extension(args, atts, e) && e.contains(a));
    }
}

/// Defence is monotone in the defending set.
proof fn lemma_defends_monotone(
    atts: Set<(usize, usize)>,
    s: Set<usize>,
    t: Set<usize>,
    x: usize,
)
    requires
        s.subset_of(t),
        defends(atts, s, x),
    ensures
        defends(atts, t, x),
{
    assert forall|y: usize| #[trigger] atts.contains((y, x)) implies set_attacks(atts, t, y) by {
        assert(set_attacks(atts, s, y));
        let z = choose|z: usize| s.contains(z) && atts.contains((z, y));
        assert(t.contains(z) && atts.contains((z, y)));
    }
}

/// The characteristic function is monotone.
proof fn lemma_char_step_monotone(
    args: Set<usize>,
    atts: Set<(usize, usize)>,
    s: Set<usize>,
    t: Set<usize>,
)
    requires
        s.subset_of(t),
    ensures
        char_step(args, atts, s).subset_of(char_step(args, atts, t)),
{
    assert forall|x: usize| char_step(args, atts, s).contains(x) implies char_step(
        args,
        atts,
        t,
    ).contains(x) by {
        lemma_defends_monotone(atts, s, t, x);
    }
}

/// The iterates of the characteristic function form an increasing chain.
proof fn lemma_char_iter_increasing(args: Set<usize>, atts: Set<(usize, usize)>, n: nat)
    ensures
        char_iter(args, atts, n).subset_of(char_iter(args, atts, n + 1)),
    decreases n,
{
    if n > 0 {
        lemma_char_iter_increasing(args, atts, (n - 1) as nat);
        lemma_char_step_monotone(
            args,
            atts,
            char_iter(args, atts, (n - 1) as nat),
            char_iter(args, atts, n),
        );
    }
}

/// Every iterate of the characteristic function lies inside the arguments.
proof fn lemma_char_iter_in_args(args: Set<usize>, atts: Set<(usize, usize)>, n: nat)
    ensures
        char_iter(args, atts, n).subset_of(args),
    decreases n,
{
    if n > 0 {
        lemma_char_iter_in_args(args, atts, (n - 1) as nat);
    }
}

/// Every iterate of the characteristic function is admissible.
proof fn lemma_char_iter_admissible(args: Set<usize>, atts: Set<(usize, usize)>, n: nat)
    ensures
        admissible(args, atts, char_iter(args, atts, n)),
    decreases n,
{
    if n > 0 {
        lemma_char_iter_admissible(args, atts, (n - 1) as nat);
        let s = char_iter(args, atts, (n - 1) as nat);
        let f = char_iter(args, atts, n);
        assert(s.subset_of(f)) by {
            lemma_char_iter_increasing(args, atts, (n - 1) as nat);
        }
        assert(conflict_free(args, atts, f)) by {
            assert forall|a: usize, b: usize|
                #![trigger atts.contains((a, b))]
                f.contains(a) && f.contains(b) implies !atts.contains((a, b)) by {
                if atts.contains((a, b)) {
                    assert(defends(atts, s, b));
                    assert(set_attacks(atts, s, a));
                    let z = choose|z: usize| s.contains(z) && atts.contains((z, a));
                    assert(defends(atts, s, a));
                    assert(set_attacks(atts, s, z));
                    let t = choose|t: usize| s.contains(t) && atts.contains((t, z));
                    assert(false);
                }
            }
        }
        assert forall|x: usize| #[trigger] f.contains(x) implies defends(atts, f, x) by {
            lemma_defends_monotone(atts, s, f, x);
        }
    }
}

/// Once two consecutive iterates agree, every later iterate equals them.
proof fn lemma_char_iter_stable(args: Set<usize>, atts: Set<(usize, usize)>, n: nat, m: nat)
    requires
        char_iter(args, atts, n) == char_iter(args, atts, n + 1),
        n <= m,
    ensures
        char_iter(args, atts, m) == char_iter(args, atts, n),
    decreases m,
{
    if m > n {
        lemma_char_iter_stable(args, atts, n, (m - 1) as nat);
    }
}

/// Over a finite argument set the iteration reaches its fixed point within
/// as many steps as there are arguments: the grounded extension satisfies
/// the characteristic function's equation.
proof fn lemma_grounded_is_fixpoint(args: Set<usize>, atts: Set<(usize, usize)>)
    requires
        args.finite(),
    ensures
        char_step(args, atts, grounded_extension(args, atts)) == grounded_extension(args, atts),
{
    let bound = args.len();
    lemma_char_iter_counting(args, atts, bound);
    if exists|k: nat|
        #![trigger char_iter(args, atts, k)]
        k <= bound && char_iter(args, atts, k) == char_iter(args, atts, k + 1) {
        let k = choose|k: nat|
            #![trigger char_iter(args, atts, k)]
            k <= bound && char_iter(args, atts, k) == char_iter(args, atts, k + 1);
        lemma_char_iter_stable(args, atts, k, bound);
        lemma_char_iter_stable(args, atts, k, bound + 1);
        assert(char_iter(args, atts, bound + 1) == char_iter(args, atts, bound));
    } else {
        lemma_char_iter_in_args(args, atts, bound);
        vstd::set_lib::lemma_len_subset(char_iter(args, atts, bound), args);
        vstd::set_lib::lemma_subset_equality(char_iter(args, atts, bound), args);
        lemma_char_iter_in_args(args, atts, bound + 1);
        lemma_char_iter_increasing(args, atts, bound);
        assert(char_iter(args, atts, bound + 1) =~= char_iter(args, atts, bound));
    }
}

/// Either some early pair of consecutive iterates already agrees, or the
/// chain has grown by at least one argument per step.
proof fn lemma_char_iter_counting(args: Set<usize>, atts: Set<(usize, usize)>, n: nat)
    requires
        args.finite(),
    ensures
        (exists|k: nat|
            #![trigger char_iter(args, atts, k)]
            k <= n && char_iter(args, atts, k) == char_iter(args, atts, k + 1)) || char_iter(
            args,
            atts,
            n,
        ).len() >= n,
    decreases n,
{
    if n > 0 {
        lemma_char_iter_counting(args, atts, (n - 1) as nat);
        let prev = char_iter(args, atts, (n - 1) as nat);
        let cur = char_iter(args, atts, n);
        if exists|k: nat|
            #![trigger char_iter(args, atts, k)]
            k <= n - 1 && char_iter(args, atts, k) == char_iter(args, atts, k + 1) {
        } else {
            assert(prev.len() >= n - 1);
            if prev == cur {
                assert(char_iter(args, atts, ((n - 1) as nat) + 1) == char_iter(
                    args,
                    atts,
                    (n - 1) as nat,
                ));
            } else {
                lemma_char_iter_increasing(args, atts, (n - 1) as nat);
                lemma_char_iter_in_args(args, atts, n);
                vstd::set_lib::lemma_len_subset(cur, args);
                assert(!(cur =~= prev));
                let e = choose|e: usize| cur.contains(e) != prev.contains(e);
                assert(cur.contains(e) && !prev.contains(e));
                prev.lemma_subset_not_in_lt(cur, e);
            }
        }
    }
}

/// The grounded extension is a complete extension.  Together with the
/// soundness lemma below it is the least one, which is what lets the
/// grounded search answer skeptical queries under complete semantics.
pub proof fn lemma_grounded_is_complete_extension(args: Set<usize>, atts: Set<(usize, usize)>)
    requires
        args.finite(),
    ensures
        is_complete_extension(args, atts, grounded_extension(args, atts)),
{
    let g = grounded_extension(args, atts);
    lemma_char_iter_admissible(args, atts, args.len());
    lemma_grounded_is_fixpoint(args, atts);
    assert forall|x: usize| args.contains(x) && defends(atts, g, x) implies g.contains(x) by {
        assert(char_step(args, atts, g).contains(x));
    }
}

/// Every iterate of the characteristic function from the empty set stays
/// inside every complete extension.
proof fn lemma_char_iter_subset_of_complete(
    args: Set<usize>,
    atts: Set<(usize, usize)>,
    e: Set<usize>,
    n: nat,
)
    requires
        is_complete_extension(args, atts, e),
    ensures
        char_iter(args, atts, n).subset_of(e),
    decreases n,
{
    if n > 0 {
        lemma_char_iter_subset_of_complete(args, atts, e, (n - 1) as nat);
        let s = char_iter(args, atts, (n - 1) as nat);
        assert forall|x: usize| char_iter(args, atts, n).contains(x) implies e.contains(x) by {
            assert(args.contains(x) && defends(atts, s, x));
            lemma_defends_monotone(atts, s, e, x);
        }
    }
}

/// Soundness of the grounded substitution in the selector table: the
/// grounded extension lies inside every complete extension, so a skeptical
/// verdict obtained by the grounded search under complete semantics holds
/// of every complete extension.
pub proof fn lemma_grounded_sound_for_skeptical_complete(
    args: Set<usize>,
    atts: Set<(usize, usize)>,
    a: usize,
)
    ensures
        skept_acceptable(IpafairSolverSemantics::CO, args, atts, a) ==> forall|e: Set<usize>|
            #![trigger is_complete_extension(args, atts, e)]
            is_complete_extension(args, atts, e) ==> e.contains(a),
{
    if skept_acceptable(IpafairSolverSemantics::CO, args, atts, a) {
        assert forall|e: Set<usize>| #[trigger]
            is_complete_extension(args, atts, e) implies e.contains(a) by {
            lemma_char_iter_subset_of_complete(args, atts, e, args.len());
            assert(grounded_extension(args, atts).contains(a));
        }
    }
}

} // verus!
