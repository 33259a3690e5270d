//! The framework store: the current argument set and attack relation.
//!
//! The store is the authoritative structural state of the engine.  Arguments
//! are held without duplicates, attacks are held without duplicates and only
//! between present arguments; removing an argument also removes every attack
//! it takes part in.

use vstd::prelude::*;

verus! {

broadcast use vstd::seq_lib::group_seq_properties;

/// Pushing an element a sequence does not contain keeps it free of
/// duplicates.
proof fn lemma_push_keeps_no_duplicates<A>(s: Seq<A>, x: A)
    requires
        s.no_duplicates(),
        !s.contains(x),
    ensures
        s.push(x).no_duplicates(),
{
    let t = s.push(x);
    assert forall|i: int, j: int|
        0 <= i < t.len() && 0 <= j < t.len() && i != j implies t[i] != t[j] by {
        if i == s.len() as int {
            assert(s.contains(s[j]));
        } else if j == s.len() as int {
            assert(s.contains(s[i]));
        }
    }
}

/// The set of arguments and the attack relation of an abstract
/// argumentation framework.
pub struct Framework {
    /// The arguments currently present, each exactly once.
    pub args: Vec<usize>,
    /// The attacks currently present, each exactly once, as ordered
    /// (attacker, attacked) pairs over present arguments.
    pub atts: Vec<(usize, usize)>,
}

impl Framework {
    /// The arguments, as a set.
    pub open spec fn args_set(self) -> Set<usize> {
        self.args@.to_set()
    }

    /// The attacks, as a set of ordered pairs.
    pub open spec fn atts_set(self) -> Set<(usize, usize)> {
        self.atts@.to_set()
    }

    /// Well-formedness: no duplicate argument, no duplicate attack, and
    /// every attack endpoint present.
    pub open spec fn wf(self) -> bool {
        &&& self.args@.no_duplicates()
        &&& self.atts@.no_duplicates()
        &&& forall|i: int|
            #![trigger self.atts@[i]]
            0 <= i < self.atts@.len() ==> self.args@.contains(self.atts@[i].0)
                && self.args@.contains(self.atts@[i].1)
    }

    /// Builds an empty framework.
    pub fn new() -> (r: Self)
        ensures
            r.wf(),
            r.args_set() == Set::<usize>::empty(),
            r.atts_set() == Set::<(usize, usize)>::empty(),
    {
        let r = Framework { args: Vec::new(), atts: Vec::new() };
        proof {
            assert(r.args_set() =~= Set::<usize>::empty());
            assert(r.atts_set() =~= Set::<(usize, usize)>::empty());
        }
        r
    }

    /// Whether the argument `a` is currently present.
    pub fn has_argument(&self, a: usize) -> (r: bool)
        ensures
            r == self.args_set().contains(a),
    {
        let mut i: usize = 0;
        while i < self.args.len()
            invariant
                i <= self.args.len(),
                forall|j: int| 0 <= j < i ==> self.args@[j] != a,
            decreases self.args.len() - i,
        {
            if self.args[i] == a {
                return true;
            }
            i += 1;
        }
        false
    }

    /// Whether the attack `(attacker, attacked)` is currently present.
    pub fn has_attack(&self, attacker: usize, attacked: usize) -> (r: bool)
        ensures
            r == self.atts_set().contains((attacker, attacked)),
    {
        let mut i: usize = 0;
        while i < self.atts.len()
            invariant
                i <= self.atts.len(),
                forall|j: int| 0 <= j < i ==> self.atts@[j] != (attacker, attacked),
            decreases self.atts.len() - i,
        {
            if self.atts[i].0 == attacker && self.atts[i].1 == attacked {
                return true;
            }
            i += 1;
        }
        false
    }

    /// Inserts a new argument.  The argument must not be present yet.
    pub fn add_argument(&mut self, a: usize)
        requires
            old(self).wf(),
            !old(self).args_set().contains(a),
        ensures
            final(self).wf(),
            final(self).args_set() == old(self).args_set().insert(a),
            final(self).atts_set() == old(self).atts_set(),
    {
        self.args.push(a);
        proof {
            assert(final(self).args_set() =~= old(self).args_set().insert(a));
            assert(final(self).atts_set() =~= old(self).atts_set());
        }
    }

    /// Removes a present argument together with every attack in which it
    /// stands as attacker or as attacked.
    #[verifier::rlimit(60)]
    pub fn remove_argument(&mut self, a: usize)
        requires
            old(self).wf(),
            old(self).args_set().contains(a),
        ensures
            final(self).wf(),
            final(self).args_set() == old(self).args_set().remove(a),
            final(self).atts_set() == Set::new(
                |p: (usize, usize)|
                    old(self).atts_set().contains(p) && p.0 != a && p.1 != a,
            ),
    {
        let ghost old_args = self.args@;
        let ghost old_atts = self.atts@;
        let mut new_args: Vec<usize> = Vec::new();
        let mut i: usize = 0;
        while i < self.args.len()
            invariant
                i <= self.args@.len(),
                self.args@ == old_args,
                new_args@.no_duplicates(),
                forall|x: usize|
                    #![trigger new_args@.contains(x)]
                    new_args@.contains(x) <==> (old_args.take(i as int).contains(x) && x != a),
                old_args.no_duplicates(),
            decreases self.args.len() - i,
        {
            let x = self.args[i];
            if x != a {
                proof {
                    assert(!old_args.take(i as int).contains(x));
                    lemma_push_keeps_no_duplicates(new_args@, x);
                }
                new_args.push(x);
            }
            proof {
                assert(old_args.take(i as int + 1) =~= old_args.take(i as int).push(old_args[i as int]));
                assert forall|y: usize| #[trigger] new_args@.contains(y) implies
                    old_args.take(i as int + 1).contains(y) && y != a by {
                    assert(old_args.take(i as int + 1).contains(y) == (old_args.take(
                        i as int,
                    ).contains(y) || y == old_args[i as int]));
                }
            }
            i += 1;
        }
        proof {
            assert(old_args.take(old_args.len() as int) =~= old_args);
        }
        let mut new_atts: Vec<(usize, usize)> = Vec::new();
        let mut k: usize = 0;
        while k < self.atts.len()
            invariant
                k <= self.atts@.len(),
                self.atts@ == old_atts,
                new_atts@.no_duplicates(),
                forall|p: (usize, usize)|
                    #![trigger new_atts@.contains(p)]
                    new_atts@.contains(p) <==> (old_atts.take(k as int).contains(p) && p.0 != a
                        && p.1 != a),
                old_atts.no_duplicates(),
            decreases self.atts.len() - k,
        {
            let p = self.atts[k];
            if p.0 != a && p.1 != a {
                proof {
                    assert(!old_atts.take(k as int).contains(p));
                    lemma_push_keeps_no_duplicates(new_atts@, p);
                }
                new_atts.push(p);
            }
            proof {
                assert(old_atts.take(k as int + 1) =~= old_atts.take(k as int).push(old_atts[k as int]));
                assert forall|q: (usize, usize)| #[trigger] new_atts@.contains(q) implies
                    old_atts.take(k as int + 1).contains(q) && q.0 != a && q.1 != a by {
                    assert(old_atts.take(k as int + 1).contains(q) == (old_atts.take(
                        k as int,
                    ).contains(q) || q == old_atts[k as int]));
                }
            }
            k += 1;
        }
        proof {
            assert(old_atts.take(old_atts.len() as int) =~= old_atts);
        }
        self.args = new_args;
        self.atts = new_atts;
        proof {
            assert(final(self).args_set() =~= old(self).args_set().remove(a));
            assert(final(self).atts_set() =~= Set::new(
                |p: (usize, usize)|
                    old(self).atts_set().contains(p) && p.0 != a && p.1 != a,
            ));
            assert forall|i2: int| 0 <= i2 < final(self).atts@.len() implies final(self).args@.contains(
                #[trigger] final(self).atts@[i2].0,
            ) && final(self).args@.contains(final(self).atts@[i2].1) by {
                let q = final(self).atts@[i2];
                assert(final(self).atts@.contains(q));
                assert(old_atts.contains(q));
                let j = choose|j: int| 0 <= j < old_atts.len() && old_atts[j] == q;
                assert(old_args.contains(q.0) && old_args.contains(q.1));
                assert(final(self).args@.contains(q.0));
                assert(final(self).args@.contains(q.1));
            }
            assert(final(self).args@.no_duplicates());
            assert(final(self).atts@.no_duplicates());
            assert(final(self).wf());
        }
    }

    /// Inserts a new attack between two present arguments.  The exact pair
    /// must not be present yet.
    pub fn add_attack(&mut self, attacker: usize, attacked: usize)
        requires
            old(self).wf(),
            old(self).args_set().contains(attacker),
            old(self).args_set().contains(attacked),
            !old(self).atts_set().contains((attacker, attacked)),
        ensures
            final(self).wf(),
            final(self).args_set() == old(self).args_set(),
            final(self).atts_set() == old(self).atts_set().insert((attacker, attacked)),
    {
        proof {
            lemma_push_keeps_no_duplicates(self.atts@, (attacker, attacked));
        }
        self.atts.push((attacker, attacked));
        proof {
            assert(final(self).args_set() =~= old(self).args_set());
            assert(final(self).atts_set() =~= old(self).atts_set().insert(
                (attacker, attacked),
            ));
        }
    }

    /// Removes a present attack.
    #[verifier::rlimit(60)]
    pub fn remove_attack(&mut self, attacker: usize, attacked: usize)
        requires
            old(self).wf(),
            old(self).atts_set().contains((attacker, attacked)),
        ensures
            final(self).wf(),
            final(self).args_set() == old(self).args_set(),
            final(self).atts_set() == old(self).atts_set().remove((attacker, attacked)),
    {
        let ghost old_atts = self.atts@;
        let mut new_atts: Vec<(usize, usize)> = Vec::new();
        let mut k: usize = 0;
        while k < self.atts.len()
            invariant
                k <= self.atts@.len(),
                self.atts@ == old_atts,
                new_atts@.no_duplicates(),
                forall|p: (usize, usize)|
                    #![trigger new_atts@.contains(p)]
                    new_atts@.contains(p) <==> (old_atts.take(k as int).contains(p) && p != (
                    attacker,
                    attacked,
                    )),
                old_atts.no_duplicates(),
            decreases self.atts.len() - k,
        {
            let p = self.atts[k];
            if p.0 != attacker || p.1 != attacked {
                proof {
                    assert(!old_atts.take(k as int).contains(p));
                    lemma_push_keeps_no_duplicates(new_atts@, p);
                }
                new_atts.push(p);
            }
            proof {
                assert(old_atts.take(k as int + 1) =~= old_atts.take(k as int).push(old_atts[k as int]));
                assert forall|q: (usize, usize)| #[trigger] new_atts@.contains(q) implies
                    old_atts.take(k as int + 1).contains(q) && q != (attacker, attacked) by {
                    assert(old_atts.take(k as int + 1).contains(q) == (old_atts.take(
                        k as int,
                    ).contains(q) || q == old_atts[k as int]));
                }
            }
            k += 1;
        }
        proof {
            assert(old_atts.take(old_atts.len() as int) =~= old_atts);
        }
        self.atts = new_atts;
        proof {
            assert(final(self).atts_set() =~= old(self).atts_set().remove((attacker, attacked)));
            assert forall|i2: int| 0 <= i2 < final(self).atts@.len() implies final(self).args@.contains(
                #[trigger] final(self).atts@[i2].0,
            ) && final(self).args@.contains(final(self).atts@[i2].1) by {
                let q = final(self).atts@[i2];
                assert(final(self).atts@.contains(q));
                assert(old_atts.contains(q));
                let j = choose|j: int| 0 <= j < old_atts.len() && old_atts[j] == q;
            }
            assert(final(self).args@.no_duplicates());
            assert(final(self).atts@.no_duplicates());
            assert(final(self).wf());
        }
    }
}

} // verus!
