//! The seam between the game and whatever is choosing.
//!
//! The game's side of it ends at a flag per deed, by the deed's number: may
//! it be done this tick. The other side answers with one number, or none.
//! Two minds are here: [`Nothing`] stands still, and [`FirstAllowed`] takes
//! the first deed it may, which is a poor bot and a useful floor.

use vstd::prelude::*;

verus! {

/// The first number whose flag is up, if any is.
pub open spec fn first_up(allowed: Seq<bool>) -> Option<int>
    decreases allowed.len(),
{
    if allowed.len() == 0 {
        None
    } else if allowed.last() && first_up(allowed.drop_last()) is None {
        Some(allowed.len() - 1)
    } else {
        first_up(allowed.drop_last())
    }
}

/// [`first_up`] names a flag that is up, and none before it is.
pub proof fn lemma_first_up_is_first(allowed: Seq<bool>)
    ensures
        first_up(allowed) matches Some(i) ==> 0 <= i < allowed.len() && allowed[i] && forall|j: int|
            0 <= j < i ==> !allowed[j],
        first_up(allowed) is None ==> forall|j: int| 0 <= j < allowed.len() ==> !allowed[j],
    decreases allowed.len(),
{
    if allowed.len() > 0 {
        let rest = allowed.drop_last();
        lemma_first_up_is_first(rest);
        assert forall|j: int| 0 <= j < rest.len() implies rest[j] == allowed[j] by {}
        if first_up(rest) is None {
            assert forall|j: int| 0 <= j < allowed.len() - 1 implies !allowed[j] by {
                assert(rest[j] == allowed[j]);
            }
        } else {
            let i = first_up(rest)->0;
            assert forall|j: int| 0 <= j < i implies !allowed[j] by {
                assert(rest[j] == allowed[j]);
            }
            assert(allowed[i] == rest[i]);
        }
    }
}

/// Whatever chooses a deed.
pub trait Mind {
    /// Which deed, by its number; `None` means no order this tick. A number
    /// whose flag is down is a mistake on the mind's part, which the caller
    /// drops.
    fn choose_deed(&mut self, allowed: &[bool]) -> Option<usize>;

    /// Told when a match begins, for anything that keeps a memory.
    fn starting(&mut self) {
    }
}

/// A mind that does nothing at all.
pub struct Nothing;

impl Mind for Nothing {
    fn choose_deed(&mut self, allowed: &[bool]) -> (deed: Option<usize>)
        ensures
            deed is None,
    {
        None
    }
}

/// A mind that takes the first deed it is allowed.
///
/// It stands still for ever where standing is the first deed it may do,
/// which is the point of it: a mind that has learned nothing should do no
/// better.
pub struct FirstAllowed;

impl Mind for FirstAllowed {
    fn choose_deed(&mut self, allowed: &[bool]) -> (deed: Option<usize>)
        ensures
            deed == match first_up(allowed@) {
                Some(i) => Some(i as usize),
                None => None::<usize>,
            },
    {
        let mut i: usize = 0;
        while i < allowed.len()
            invariant
                i <= allowed@.len(),
                first_up(allowed@.take(i as int)) is None,
            decreases allowed@.len() - i,
        {
            proof {
                assert(allowed@.take(i as int + 1).drop_last() =~= allowed@.take(i as int));
            }
            if allowed[i] {
                proof {
                    lemma_first_up_prefix(allowed@, i as int);
                }
                return Some(i);
            }
            i += 1;
        }
        proof {
            assert(allowed@.take(i as int) =~= allowed@);
        }
        None
    }
}

/// Where no flag before `i` is up and the flag at `i` is, `i` is the first.
proof fn lemma_first_up_prefix(allowed: Seq<bool>, i: int)
    requires
        0 <= i < allowed.len(),
        allowed[i],
        first_up(allowed.take(i)) is None,
    ensures
        first_up(allowed) == Some(i),
{
    lemma_first_up_is_first(allowed.take(i));
    lemma_first_up_is_first(allowed);
    assert forall|j: int| 0 <= j < i implies !allowed[j] by {
        assert(allowed.take(i)[j] == allowed[j]);
    }
    if let Some(k) = first_up(allowed) {
        if k > i {
        } else if k < i {
            assert(allowed.take(i)[k] == allowed[k]);
        }
    }
}

} // verus!
