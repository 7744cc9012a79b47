//! The refractive-index stack carried by a ray through nested transparent
//! media, and the transition that a single intersection applies to it.
//!
//! A ray remembers the indices of the media it is currently inside, outermost
//! first; the bottom entry is the surrounding medium and is expected to stay.
//! On hitting a surface of index `k` the ray either enters the new medium
//! (no entry of the stack matches `k`) or exits one it is already in. The
//! caller decides which stack entries match `k` — index equality is a
//! measurement on the host's side — and hands the verdicts in as a vector of
//! booleans, one per entry.

use vstd::prelude::*;

verus! {

/// The pair of refractive indices in force at one intersection: `n1` for the
/// medium the ray leaves, `n2` for the medium it enters, and whether the ray
/// is entering the intersected object rather than exiting it.
#[derive(Debug, Clone, Copy, PartialEq, Eq, Structural)]
pub struct RefractionState {
    pub n1: u64,
    pub n2: u64,
    pub is_entering: bool,
}

/// The stack of refractive indices a ray is currently traversing,
/// outermost medium first.
#[derive(Debug, Clone)]
pub struct IndexStack {
    indices: Vec<u64>,
}

/// True when no entry of the stack matches the intersected object's index,
/// i.e. the ray is entering that object.
pub open spec fn spec_is_entering(matches: Seq<bool>) -> bool {
    forall|i: int| 0 <= i < matches.len() ==> !matches[i]
}

/// The topmost stack entry that does not match the object's index, if any:
/// the medium the ray returns to when it exits the object.
pub open spec fn spec_last_non_match(stack: Seq<u64>, matches: Seq<bool>) -> Option<u64>
    decreases stack.len(),
{
    if stack.len() == 0 || matches.len() != stack.len() {
        None
    } else if !matches.last() {
        Some(stack.last())
    } else {
        spec_last_non_match(stack.drop_last(), matches.drop_last())
    }
}

/// The index of the medium entered at the intersection: the object's own
/// index when entering, otherwise the medium the ray returns to (or the
/// current one, if every entry matches).
pub open spec fn spec_n2(stack: Seq<u64>, matches: Seq<bool>, current_index: u64) -> u64 {
    if spec_is_entering(matches) {
        current_index
    } else {
        match spec_last_non_match(stack, matches) {
            Some(n) => n,
            None => stack.last(),
        }
    }
}

/// The stack with every entry equal to `k` removed.
pub open spec fn spec_remove_index(stack: Seq<u64>, k: u64) -> Seq<u64> {
    stack.filter(|n: u64| n != k)
}

/// The stack after the intersection: entering pushes the object's index,
/// exiting removes every entry equal to it.
pub open spec fn spec_stack_after(stack: Seq<u64>, current_index: u64, entering: bool) -> Seq<u64> {
    if entering {
        stack.push(current_index)
    } else {
        spec_remove_index(stack, current_index)
    }
}

impl IndexStack {
    /// The stack's contents, bottom (outermost medium) first.
    pub closed spec fn view(&self) -> Seq<u64> {
        self.indices@
    }

    /// A ray starts inside the surrounding medium alone.
    pub fn new(outside: u64) -> (r: IndexStack)
        ensures
            r@ == seq![outside],
    {
        let mut indices: Vec<u64> = Vec::new();
        indices.push(outside);
        proof {
            assert(indices@ =~= seq![outside]);
        }
        IndexStack { indices }
    }

    /// The stack as a vector, bottom first.
    pub fn get_indices(&self) -> (r: &Vec<u64>)
        ensures
            r@ == self@,
    {
        &self.indices
    }

    pub fn len(&self) -> (r: usize)
        ensures
            r == self@.len(),
    {
        self.indices.len()
    }

    /// The ray entered a new medium: remember its index.
    pub fn add_index(&mut self, refractive_index: u64)
        ensures
            final(self)@ == old(self)@.push(refractive_index),
    {
        self.indices.push(refractive_index);
    }

    /// The ray left a medium: forget every entry equal to its index.
    pub fn remove_index(&mut self, refractive_index: u64)
        ensures
            final(self)@ == spec_remove_index(old(self)@, refractive_index),
    {
        let mut kept: Vec<u64> = Vec::new();
        let mut i: usize = 0;
        while i < self.indices.len()
            invariant
                0 <= i <= self.indices.len(),
                kept@ == spec_remove_index(self.indices@.take(i as int), refractive_index),
            decreases self.indices.len() - i,
        {
            let n = self.indices[i];
            proof {
                assert(self.indices@.take(i + 1).drop_last() =~= self.indices@.take(i as int));
                assert(self.indices@.take(i + 1).last() == n);
                reveal(Seq::filter);
            }
            if n != refractive_index {
                kept.push(n);
            }
            i += 1;
        }
        proof {
            assert(self.indices@.take(self.indices@.len() as int) =~= self.indices@);
        }
        self.indices = kept;
    }
}

/// Works out `n1`, `n2` and the entering flag for one intersection, from the
/// ray's index stack, the per-entry match verdicts against the intersected
/// object's refractive index, and that index itself. The stack is left
/// unchanged; the caller applies [`IndexStack::add_index`] or
/// [`IndexStack::remove_index`] according to the flag.
pub fn calculate_refraction_state(
    stack: &IndexStack,
    matches: &Vec<bool>,
    current_index: u64,
) -> (r: RefractionState)
    requires
        stack@.len() > 0,
        matches@.len() == stack@.len(),
    ensures
        r.is_entering == spec_is_entering(matches@),
        r.n1 == stack@.last(),
        r.n2 == spec_n2(stack@, matches@, current_index),
{
    let n = stack.len();
    let indices = stack.get_indices();
    let mut is_entering: bool = true;
    let mut i: usize = 0;
    proof {
        assert(matches@.take(0) =~= Seq::<bool>::empty());
    }
    while i < n
        invariant
            0 <= i <= n,
            n == matches@.len(),
            is_entering == spec_is_entering(matches@.take(i as int)),
        decreases n - i,
    {
        proof {
            assert(matches@.take(i + 1).drop_last() =~= matches@.take(i as int));
            assert(matches@.take(i + 1).last() == matches@[i as int]);
        }
        if matches[i] {
            is_entering = false;
        }
        i += 1;
    }
    proof {
        assert(matches@.take(n as int) =~= matches@);
    }
    let n1 = indices[n - 1];
    if is_entering {
        return RefractionState { n1, n2: current_index, is_entering: true };
    }
    // Exiting: scan from the top for the first medium that does not match.
    let mut j: usize = n;
    let mut n2: u64 = n1;
    let mut found: bool = false;
    proof {
        assert(stack@.take(n as int) =~= stack@);
        assert(matches@.take(n as int) =~= matches@);
    }
    while j > 0 && !found
        invariant
            0 <= j <= n,
            n == matches@.len(),
            n == stack@.len(),
            indices@ == stack@,
            !found ==> spec_last_non_match(stack@, matches@)
                == spec_last_non_match(stack@.take(j as int), matches@.take(j as int)),
            found ==> Some(n2) == spec_last_non_match(stack@, matches@),
        decreases j + (if found { 0int } else { 1int }),
    {
        proof {
            assert(stack@.take(j as int).drop_last() =~= stack@.take(j - 1));
            assert(matches@.take(j as int).drop_last() =~= matches@.take(j - 1));
            assert(stack@.take(j as int).last() == stack@[j - 1]);
            assert(matches@.take(j as int).last() == matches@[j - 1]);
        }
        if !matches[j - 1] {
            n2 = indices[j - 1];
            found = true;
        } else {
            j -= 1;
        }
    }
    if !found {
        // Every entry matches: fall back to the current medium.
        proof {
            assert(stack@.take(0) =~= Seq::<u64>::empty());
            assert(matches@.take(0) =~= Seq::<bool>::empty());
        }
        n2 = n1;
    }
    RefractionState { n1, n2, is_entering: false }
}

/// The full transition one intersection applies to a ray's index stack:
/// works out the [`RefractionState`] and then pushes the object's index
/// (entering) or removes every entry equal to it (exiting).
pub fn prepare_refraction(
    stack: &mut IndexStack,
    matches: &Vec<bool>,
    current_index: u64,
) -> (r: RefractionState)
    requires
        old(stack)@.len() > 0,
        matches@.len() == old(stack)@.len(),
    ensures
        r.is_entering == spec_is_entering(matches@),
        r.n1 == old(stack)@.last(),
        r.n2 == spec_n2(old(stack)@, matches@, current_index),
        final(stack)@ == spec_stack_after(old(stack)@, current_index, r.is_entering),
{
    let state = calculate_refraction_state(stack, matches, current_index);
    if state.is_entering {
        stack.add_index(current_index);
    } else {
        stack.remove_index(current_index);
    }
    state
}

/// Law: when an entry matches the object's index exactly when it equals it,
/// and the outermost medium is not the object's own, then the ray is entering
/// if and only if the index is absent from the stack, the stack stays
/// non-empty through the transition, and the medium entered (`n2`) is exactly
/// the top of the stack after the transition — so the stack always names the
/// medium the ray is travelling through.
pub proof fn lemma_refraction_tracks_media(stack: Seq<u64>, matches: Seq<bool>, current_index: u64)
    requires
        stack.len() > 0,
        matches.len() == stack.len(),
        forall|i: int| 0 <= i < stack.len() ==> matches[i] == (stack[i] == current_index),
        stack[0] != current_index,
    ensures
        spec_is_entering(matches) == !stack.contains(current_index),
        spec_stack_after(stack, current_index, spec_is_entering(matches)).len() > 0,
        spec_n2(stack, matches, current_index)
            == spec_stack_after(stack, current_index, spec_is_entering(matches)).last(),
{
    let entering = spec_is_entering(matches);
    if entering {
        assert(!stack.contains(current_index)) by {
            assert forall|i: int| 0 <= i < stack.len() implies stack[i] != current_index by {
                assert(!matches[i]);
            }
        }
        assert(stack.push(current_index).last() == current_index);
    } else {
        let w = choose|i: int| 0 <= i < matches.len() && matches[i];
        assert(stack[w] == current_index);
        assert(stack.contains(current_index));
        lemma_filter_keeps_last_non_match(stack, matches, current_index, 0);
    }
}

/// Removing every entry equal to `k` leaves a non-empty stack whose top is
/// the topmost entry that differed from `k`, provided some entry (the one at
/// `witness`) differs from `k`.
proof fn lemma_filter_keeps_last_non_match(
    stack: Seq<u64>,
    matches: Seq<bool>,
    k: u64,
    witness: int,
)
    requires
        matches.len() == stack.len(),
        forall|i: int| 0 <= i < stack.len() ==> matches[i] == (stack[i] == k),
        0 <= witness < stack.len(),
        stack[witness] != k,
    ensures
        spec_remove_index(stack, k).len() > 0,
        spec_last_non_match(stack, matches) == Some(spec_remove_index(stack, k).last()),
    decreases stack.len(),
{
    reveal(Seq::filter);
    if stack.last() == k {
        assert(witness < stack.len() - 1);
        assert(stack.drop_last()[witness] == stack[witness]);
        lemma_filter_keeps_last_non_match(stack.drop_last(), matches.drop_last(), k, witness);
        assert(spec_remove_index(stack, k) == spec_remove_index(stack.drop_last(), k));
    } else {
        assert(spec_remove_index(stack, k)
            == spec_remove_index(stack.drop_last(), k).push(stack.last()));
    }
}

} // verus!
