//! The counting discipline of the Mandelbrot escape loop: where the loop
//! stops as a function of its per-iteration escape tests and its budget,
//! with the laws that classification obeys.

use vstd::prelude::*;

verus! {

/// The Mandelbrot loop iterates `z = z * z + c` and stops at the first
/// iteration whose escape test (`|z|^2 > 4`) fires, or when the iteration
/// budget runs out. For one fixed point `c` the iterates, and so the
/// per-iteration test outcomes, form one fixed sequence; `escaped[k]` here
/// stands for the outcome of the test before iteration `k`. This function
/// is the index at which the loop stops: the first true entry of
/// `escaped`, capped at `budget` (entries past `escaped` never fire).
pub open spec fn spec_escape_count(escaped: Seq<bool>, budget: nat) -> nat
    decreases budget,
{
    if budget == 0 {
        0
    } else if escaped.len() == 0 {
        budget
    } else if escaped[0] {
        0
    } else {
        (1 + spec_escape_count(escaped.skip(1), (budget - 1) as nat)) as nat
    }
}

/// Runs the loop's counting discipline over a fixed sequence of escape
/// test outcomes: the returned index is the first one whose test fired,
/// capped at the budget; entries past the sequence never fire.
pub fn escape_count(escaped: &Vec<bool>, budget: usize) -> (n: usize)
    ensures
        n == spec_escape_count(escaped@, budget as nat),
{
    let len: usize = escaped.len();
    let mut i: usize = 0;
    proof {
        assert(escaped@.skip(0) =~= escaped@);
    }
    while i < budget && i < len
        invariant
            i <= budget,
            i <= len,
            len == escaped.len(),
            forall|k: int| 0 <= k < i ==> !escaped[k],
            spec_escape_count(escaped@, budget as nat) == i + spec_escape_count(
                escaped@.skip(i as int),
                (budget - i) as nat,
            ),
        decreases budget - i,
    {
        if escaped[i] {
            proof {
                assert(escaped@.skip(i as int)[0] == escaped[i as int]);
            }
            return i;
        }
        proof {
            assert(escaped@.skip(i as int)[0] == escaped[i as int]);
            assert(escaped@.skip(i as int).skip(1) =~= escaped@.skip(i as int + 1));
        }
        i = i + 1;
    }
    proof {
        if i < budget {
            assert(escaped@.skip(i as int).len() == 0);
        }
    }
    budget
}

/// Law: the loop stops within its budget; every test before the stopping
/// index was false; and stopping strictly before the budget happens exactly
/// on a test that fired. A point that stops at the full budget is the one
/// classified in-set.
pub proof fn lemma_escape_count_characterizes(escaped: Seq<bool>, budget: nat)
    ensures
        spec_escape_count(escaped, budget) <= budget,
        forall|k: int|
            0 <= k < spec_escape_count(escaped, budget) && k < escaped.len() ==> !escaped[k],
        spec_escape_count(escaped, budget) < budget ==> spec_escape_count(escaped, budget)
            < escaped.len() && escaped[spec_escape_count(escaped, budget) as int],
    decreases budget,
{
    if budget == 0 || escaped.len() == 0 {
    } else if escaped[0] {
    } else {
        lemma_escape_count_characterizes(escaped.skip(1), (budget - 1) as nat);
        let n = spec_escape_count(escaped, budget);
        assert forall|k: int| 0 <= k < n && k < escaped.len() implies !escaped[k] by {
            if k > 0 {
                assert(!escaped.skip(1)[k - 1]);
            }
        }
    }
}

/// Law: enlarging the iteration budget never changes the classification of
/// a point that escaped within the smaller budget: the loop stops at the
/// same index, so the escape iteration count is the same.
pub proof fn lemma_escape_count_monotonic(escaped: Seq<bool>, small: nat, large: nat)
    requires
        small <= large,
        spec_escape_count(escaped, small) < small,
    ensures
        spec_escape_count(escaped, large) == spec_escape_count(escaped, small),
    decreases small,
{
    if small == 0 || escaped.len() == 0 {
    } else if escaped[0] {
    } else {
        lemma_escape_count_monotonic(escaped.skip(1), (small - 1) as nat, (large - 1) as nat);
    }
}

/// Law: a point whose escape test never fires runs the full budget, for
/// every budget: it is classified in-set no matter how large
/// `max_iterations` is.
pub proof fn lemma_never_escaping_runs_full_budget(escaped: Seq<bool>, budget: nat)
    requires
        forall|k: int| 0 <= k < escaped.len() ==> !escaped[k],
    ensures
        spec_escape_count(escaped, budget) == budget,
    decreases budget,
{
    if budget == 0 || escaped.len() == 0 {
    } else {
        assert(!escaped[0]);
        assert forall|k: int| 0 <= k < escaped.skip(1).len() implies !escaped.skip(1)[k] by {
            assert(!escaped[k + 1]);
        }
        lemma_never_escaping_runs_full_budget(escaped.skip(1), (budget - 1) as nat);
    }
}

} // verus!
