//! The supply of pieces: a bag that holds each kind once, in random order,
//! and is filled again when the last kind has left it.

use crate::engine::piece::Kind;
use rand::rngs::StdRng;
use rand::seq::SliceRandom;
use rand::SeedableRng;
use vstd::prelude::*;

verus! {

/// `rand`'s standard random number generator. Its state is not looked into.
#[verifier::external_type_specification]
#[verifier::external_body]
pub struct ExStdRng(rand::rngs::StdRng);

/// A generator seeded by the operating system, from `rand`'s
/// `SeedableRng::from_entropy`. Nothing is claimed of it.
#[verifier::external_body]
pub(crate) fn entropy_rng() -> (rng: StdRng) {
    StdRng::from_entropy()
}

/// `rand`'s `SliceRandom::shuffle` on the kinds, which only swaps elements
/// of the slice: whatever the generator gives, the same kinds are there
/// afterwards, each as often as before.
#[verifier::external_body]
fn shuffle(kinds: &mut Vec<Kind>, rng: &mut StdRng)
    ensures
        final(kinds)@.to_multiset() == old(kinds)@.to_multiset(),
{
    kinds.shuffle(rng);
}

/// Every kind occurs exactly once in `order`.
pub open spec fn is_cycle(order: Seq<Kind>) -> bool {
    forall|kind: Kind| #[trigger] order.to_multiset().count(kind) == 1
}

/// What one draw does to a bag: from an empty bag it takes the last kind of
/// a fresh cycle and leaves the other six; from any other bag it takes the
/// last kind.
pub open spec fn draws(before: Seq<Kind>, kind: Kind, after: Seq<Kind>) -> bool {
    if before.len() == 0 {
        is_cycle(after.push(kind))
    } else {
        before == after.push(kind)
    }
}

/// The listing of all kinds is a cycle.
pub proof fn lemma_all_is_cycle()
    ensures
        is_cycle(Kind::all()),
{
    broadcast use vstd::seq_lib::group_to_multiset_ensures;

    let s0 = Seq::<Kind>::empty();
    let s1 = s0.push(Kind::O);
    let s2 = s1.push(Kind::I);
    let s3 = s2.push(Kind::T);
    let s4 = s3.push(Kind::L);
    let s5 = s4.push(Kind::J);
    let s6 = s5.push(Kind::S);
    let s7 = s6.push(Kind::Z);
    assert(s7 =~= Kind::all());
    assert(s0.to_multiset() =~= vstd::multiset::Multiset::<Kind>::empty());
    assert forall|kind: Kind| #[trigger] s7.to_multiset().count(kind) == 1 by {
        assert(s1.to_multiset().count(kind) == if kind == Kind::O { 1nat } else { 0nat });
    }
}

/// A cycle holds seven kinds, none of them twice.
pub proof fn lemma_cycle_is_duplicate_free(order: Seq<Kind>)
    requires
        is_cycle(order),
    ensures
        order.len() == 7,
        order.no_duplicates(),
{
    broadcast use vstd::seq_lib::group_to_multiset_ensures;

    lemma_all_is_cycle();
    assert(order.to_multiset() =~= Kind::all().to_multiset());
    assert(order.to_multiset().len() == Kind::all().to_multiset().len());
    order.lemma_multiset_has_no_duplicates_conv();
}

/// Seven draws in a row that begin on an empty bag hand out every kind
/// exactly once and leave the bag empty again. `bags` holds the bag before
/// the first draw and after each draw, `drawn` the kinds in the order in which
/// they came.
pub proof fn lemma_seven_draws_make_a_cycle(bags: Seq<Seq<Kind>>, drawn: Seq<Kind>)
    requires
        bags.len() == 8,
        drawn.len() == 7,
        bags[0].len() == 0,
        forall|i: int| 0 <= i < 7 ==> draws(#[trigger] bags[i], drawn[i], bags[i + 1]),
    ensures
        is_cycle(drawn),
        bags[7].len() == 0,
{
    let cycle = bags[1].push(drawn[0]);
    assert(draws(bags[0], drawn[0], bags[1]));
    lemma_cycle_is_duplicate_free(cycle);
    assert(draws(bags[1], drawn[1], bags[2]));
    assert(draws(bags[2], drawn[2], bags[3]));
    assert(draws(bags[3], drawn[3], bags[4]));
    assert(draws(bags[4], drawn[4], bags[5]));
    assert(draws(bags[5], drawn[5], bags[6]));
    assert(draws(bags[6], drawn[6], bags[7]));
    assert(cycle =~= drawn.reverse());
    drawn.lemma_reverse_to_multiset();
}

/// The kinds that are still to come before the next refill.
pub struct Bag {
    kinds: Vec<Kind>,
}

impl View for Bag {
    type V = Seq<Kind>;

    closed spec fn view(&self) -> Seq<Kind> {
        self.kinds@
    }
}

impl Bag {
    #[verifier::type_invariant]
    spec fn duplicate_free(self) -> bool {
        self.kinds@.no_duplicates()
    }

    /// An empty bag.
    pub fn new() -> (bag: Bag)
        ensures
            bag@.len() == 0,
    {
        Bag { kinds: Vec::new() }
    }

    /// How many kinds are left.
    pub fn len(&self) -> (len: usize)
        ensures
            len == self@.len(),
    {
        self.kinds.len()
    }

    /// Fills the empty bag with all seven kinds in an order that the
    /// generator decides.
    pub fn refill(&mut self, rng: &mut StdRng)
        requires
            old(self)@.len() == 0,
        ensures
            is_cycle(final(self)@),
    {
        let mut cycle: Vec<Kind> = Vec::new();
        let mut i: usize = 0;
        while i < 7
            invariant
                0 <= i <= 7,
                cycle@ == Kind::all().subrange(0, i as int),
            decreases 7 - i,
        {
            cycle.push(Kind::ALL[i]);
            i = i + 1;
            assert(cycle@ =~= Kind::all().subrange(0, i as int));
        }
        assert(cycle@ =~= Kind::all());
        shuffle(&mut cycle, rng);
        proof {
            lemma_all_is_cycle();
            lemma_cycle_is_duplicate_free(cycle@);
        }
        self.kinds = cycle;
    }

    /// Takes the next kind out of the bag, after filling the bag if it was
    /// empty. The kind that left does not come again before the next refill.
    pub fn draw(&mut self, rng: &mut StdRng) -> (kind: Kind)
        ensures
            draws(old(self)@, kind, final(self)@),
            final(self)@.no_duplicates(),
            !final(self)@.contains(kind),
    {
        proof {
            use_type_invariant(&*self);
        }
        if self.kinds.len() == 0 {
            self.refill(rng);
            proof {
                lemma_cycle_is_duplicate_free(self@);
            }
        }
        let ghost filled = self@;
        let mut kinds: Vec<Kind> = Vec::new();
        std::mem::swap(&mut kinds, &mut self.kinds);
        let popped = kinds.pop();
        assert(filled =~= kinds@.push(popped->0));
        self.kinds = kinds;
        popped.unwrap()
    }
}

} // verus!
