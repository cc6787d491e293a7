//! Anchor registry and uniqueness suffixing: a slugified heading text becomes
//! a collision-free anchor by appending `-1`, `-2`, ... until the candidate is
//! free, and the chosen anchor is recorded for the rest of the document parse.

use vstd::prelude::*;
use vstd::seq_lib::*;
use vstd::set_lib::lemma_len_subset;
use crate::digits::{dec_digits, dec_string, lemma_dec_digits_len, lemma_dec_digits_injective};
use crate::slug::{slug_base, slug_base_spec};

verus! {

/// The `k`-th candidate anchor for a base slug: the base itself for `k == 0`,
/// and the base with a `-k` suffix afterwards.
pub open spec fn candidate_k(base: Seq<char>, k: nat) -> Seq<char> {
    if k == 0 {
        base
    } else {
        base + "-"@ + dec_digits(k)
    }
}

/// `k` is the first counter whose candidate is not yet taken.
pub open spec fn is_first_free(reg: Seq<Seq<char>>, base: Seq<char>, k: nat) -> bool {
    &&& !reg.contains(candidate_k(base, k))
    &&& forall|j: nat| j < k ==> reg.contains(#[trigger] candidate_k(base, j))
}

/// The anchor assigned for a base slug against a registry: the first free
/// candidate.
pub open spec fn pick_anchor(reg: Seq<Seq<char>>, base: Seq<char>) -> Seq<char> {
    candidate_k(base, choose|k: nat| is_first_free(reg, base, k))
}

/// Distinct counters give distinct candidates.
pub proof fn lemma_candidate_injective(base: Seq<char>, j: nat, k: nat)
    requires
        j != k,
    ensures
        candidate_k(base, j) != candidate_k(base, k),
{
    reveal_strlit("-");
    if j == 0 || k == 0 {
        lemma_dec_digits_len(if j == 0 { k } else { j });
    } else {
        lemma_dec_digits_len(j);
        lemma_dec_digits_len(k);
        if candidate_k(base, j) == candidate_k(base, k) {
            let cj = candidate_k(base, j);
            let dj = dec_digits(j);
            let dk = dec_digits(k);
            assert(cj.len() == base.len() + 1 + dj.len());
            assert(cj.len() == base.len() + 1 + dk.len());
            assert(dj =~= dk) by {
                assert forall|i: int| 0 <= i < dj.len() implies dj[i] == dk[i] by {
                    assert(candidate_k(base, j)[base.len() + 1 + i] == dj[i]);
                    assert(candidate_k(base, k)[base.len() + 1 + i] == dk[i]);
                }
            }
            lemma_dec_digits_injective(j, k);
        }
    }
}

/// The set of the first `n` candidates.
spec fn cand_set(base: Seq<char>, n: nat) -> Set<Seq<char>> {
    Set::new(|s: Seq<char>| exists|k: nat| k < n && s == candidate_k(base, k))
}

proof fn lemma_cand_set_card(base: Seq<char>, n: nat)
    ensures
        cand_set(base, n).finite(),
        cand_set(base, n).len() == n,
    decreases n,
{
    broadcast use vstd::set::group_set_axioms;

    if n == 0 {
        assert(cand_set(base, 0) =~= Set::<Seq<char>>::empty());
    } else {
        let prev = (n - 1) as nat;
        lemma_cand_set_card(base, prev);
        assert forall|j: nat| j < prev implies candidate_k(base, j) != candidate_k(
            base,
            prev,
        ) by {
            lemma_candidate_injective(base, j, prev);
        }
        assert(!cand_set(base, prev).contains(candidate_k(base, prev)));
        assert(cand_set(base, n) =~= cand_set(base, prev).insert(candidate_k(base, prev)));
    }
}

/// If every one of the first `k` candidates is taken, the registry holds at
/// least `k` distinct anchors.
proof fn lemma_occupied_prefix_bound(reg: Seq<Seq<char>>, base: Seq<char>, k: nat)
    requires
        forall|j: nat| j < k ==> reg.contains(#[trigger] candidate_k(base, j)),
    ensures
        k <= reg.len(),
{
    broadcast use vstd::set::group_set_axioms;

    lemma_cand_set_card(base, k);
    reg.lemma_cardinality_of_set();
    assert(cand_set(base, k).subset_of(reg.to_set()));
    lemma_len_subset(cand_set(base, k), reg.to_set());
}

/// Some candidate is always free, and hence a first free one exists.
proof fn lemma_exists_first_free(reg: Seq<Seq<char>>, base: Seq<char>, k: nat)
    requires
        !reg.contains(candidate_k(base, k)),
    ensures
        exists|f: nat| is_first_free(reg, base, f),
    decreases k,
{
    if forall|j: nat| j < k ==> reg.contains(#[trigger] candidate_k(base, j)) {
        assert(is_first_free(reg, base, k));
    } else {
        let j = choose|j: nat| j < k && !reg.contains(#[trigger] candidate_k(base, j));
        lemma_exists_first_free(reg, base, j);
    }
}

/// There is exactly one first free counter.
proof fn lemma_first_free_unique(reg: Seq<Seq<char>>, base: Seq<char>, k1: nat, k2: nat)
    requires
        is_first_free(reg, base, k1),
        is_first_free(reg, base, k2),
    ensures
        k1 == k2,
{
}

/// Some candidate for a base is always free: there are more candidates than
/// registry entries.
proof fn lemma_some_candidate_free(reg: Seq<Seq<char>>, base: Seq<char>)
    ensures
        exists|k: nat| !reg.contains(#[trigger] candidate_k(base, k)),
{
    if forall|j: nat| j < reg.len() + 1 ==> reg.contains(#[trigger] candidate_k(base, j)) {
        lemma_occupied_prefix_bound(reg, base, (reg.len() + 1) as nat);
        assert(false);
    }
}

/// The anchor picked for a base slug is never one the registry already holds.
pub proof fn lemma_pick_anchor_fresh(reg: Seq<Seq<char>>, base: Seq<char>)
    ensures
        !reg.contains(pick_anchor(reg, base)),
{
    lemma_some_candidate_free(reg, base);
    let k = choose|k: nat| !reg.contains(#[trigger] candidate_k(base, k));
    lemma_exists_first_free(reg, base, k);
    let f = choose|f: nat| is_first_free(reg, base, f);
    assert(is_first_free(reg, base, f));
}

/// The set of anchors already assigned during one document parse.  Reset at
/// the start of every recomputation; never shared between parses.
pub struct AnchorRegistry {
    names: Vec<String>,
}

impl View for AnchorRegistry {
    type V = Seq<Seq<char>>;

    closed spec fn view(&self) -> Seq<Seq<char>> {
        self.names.deep_view()
    }
}

impl AnchorRegistry {
    /// A registry holding no anchors.
    pub fn new() -> (r: AnchorRegistry)
        ensures
            r@ == Seq::<Seq<char>>::empty(),
    {
        let r = AnchorRegistry { names: Vec::new() };
        proof {
            assert(r@ =~= Seq::<Seq<char>>::empty());
        }
        r
    }

    /// How many anchors have been assigned so far.
    pub fn len(&self) -> (n: usize)
        ensures
            n == self@.len(),
    {
        self.names.len()
    }

    /// Whether an anchor is already taken.
    pub fn contains(&self, s: &String) -> (r: bool)
        ensures
            r == self@.contains(s@),
    {
        let n = self.names.len();
        let mut i: usize = 0;
        while i < n
            invariant
                n == self.names.len(),
                i <= n,
                self@ == self.names.deep_view(),
                forall|j: int| 0 <= j < i ==> self@[j] != s@,
            decreases n - i,
        {
            if self.names[i].eq(s) {
                assert(self@[i as int] == s@);
                return true;
            }
            i = i + 1;
        }
        false
    }

    fn record(&mut self, s: String)
        ensures
            final(self)@ == old(self)@.push(s@),
    {
        self.names.push(s);
        proof {
            assert(self@ =~= old(self)@.push(s@));
        }
    }
}

/// Builds the `k`-th candidate anchor string for a base slug.
fn make_candidate(base: &String, k: usize) -> (r: String)
    ensures
        r@ == candidate_k(base@, k as nat),
{
    if k == 0 {
        base.clone()
    } else {
        let mut r = base.clone();
        r.append("-");
        let d = dec_string(k);
        r.append(d.as_str());
        r
    }
}

/// Slugifies a heading text and resolves it to an anchor that is unique
/// within the registry, recording the anchor before returning it.  A heading
/// that slugifies to the empty string still participates in uniqueness: the
/// empty string is itself a candidate and collisions get suffixed.
pub fn slug(text: &str, registry: &mut AnchorRegistry) -> (anchor: String)
    ensures
        anchor@ == pick_anchor(old(registry)@, slug_base_spec(text@)),
        !old(registry)@.contains(anchor@),
        final(registry)@ == old(registry)@.push(anchor@),
{
    let base = slug_base(text);
    let cap = registry.len();
    let mut k: usize = 0;
    let mut cand = make_candidate(&base, 0);
    while registry.contains(&cand)
        invariant
            base@ == slug_base_spec(text@),
            cap == registry@.len(),
            *registry == *old(registry),
            k <= cap,
            cand@ == candidate_k(base@, k as nat),
            forall|j: nat| j < k as nat ==> registry@.contains(#[trigger] candidate_k(base@, j)),
        decreases cap - k,
    {
        proof {
            assert(registry@.contains(candidate_k(base@, k as nat)));
            lemma_occupied_prefix_bound(registry@, base@, (k + 1) as nat);
        }
        k = k + 1;
        cand = make_candidate(&base, k);
    }
    proof {
        assert(is_first_free(registry@, base@, k as nat));
        let f = choose|f: nat| is_first_free(registry@, base@, f);
        lemma_exists_first_free(registry@, base@, k as nat);
        assert(is_first_free(registry@, base@, f));
        lemma_first_free_unique(registry@, base@, k as nat, f);
        assert(cand@ == pick_anchor(registry@, base@));
    }
    let anchor = cand.clone();
    registry.record(cand);
    anchor
}

} // verus!
