//! What holds of every list, stated over the sequences that lists are viewed as.

use crate::list::{front_of, with_front, without_front};
use vstd::prelude::*;

verus! {

/// The sequence `s` after its first element was left out `n` times.
pub open spec fn without_front_times<T>(s: Seq<T>, n: nat) -> Seq<T>
    decreases n,
{
    if n == 0 {
        s
    } else {
        without_front_times(without_front(s), (n - 1) as nat)
    }
}

/// Putting an element in front and leaving the first element out again
/// gives back the elements one started with.
pub proof fn lemma_tail_of_append<T>(s: Seq<T>, elem: T)
    ensures
        without_front(with_front(s, elem)) == s,
{
    assert(with_front(s, elem).drop_first() =~= s);
}

/// The first element of a list is the one that was put in front last.
pub proof fn lemma_head_of_append<T>(s: Seq<T>, elem: T)
    ensures
        front_of(with_front(s, elem)) == Some(elem),
{
}

/// The empty list has no first element.
pub proof fn lemma_head_of_empty<T>()
    ensures
        front_of(Seq::<T>::empty()) is None,
{
}

/// Leaving the first element out of the empty list gives the empty list,
/// however often it is done.
pub proof fn lemma_tail_of_empty<T>(n: nat)
    ensures
        without_front(Seq::<T>::empty()) == Seq::<T>::empty(),
        without_front_times(Seq::<T>::empty(), n) == Seq::<T>::empty(),
    decreases n,
{
    if n > 0 {
        lemma_tail_of_empty::<T>((n - 1) as nat);
    }
}

/// Leaving the first element out `n` times leaves the elements from the
/// `n`-th on, in their order, and nothing once `n` reaches the length. So a
/// cursor yields the elements front to back, the one put in front last
/// first, and yields nothing from then on.
pub proof fn lemma_without_front_times<T>(s: Seq<T>, n: nat)
    ensures
        n <= s.len() ==> without_front_times(s, n) == s.subrange(n as int, s.len() as int),
        n >= s.len() ==> without_front_times(s, n) == Seq::<T>::empty(),
        front_of(without_front_times(s, n)) == if n < s.len() {
            Some(s[n as int])
        } else {
            None
        },
    decreases n,
{
    if n == 0 {
        assert(s.subrange(0, s.len() as int) =~= s);
        if s.len() == 0 {
            assert(s =~= Seq::<T>::empty());
        }
    } else {
        let rest = without_front(s);
        lemma_without_front_times(rest, (n - 1) as nat);
        if s.len() > 0 {
            if n <= s.len() {
                assert(rest.subrange(n - 1, rest.len() as int) =~= s.subrange(
                    n as int,
                    s.len() as int,
                ));
            }
        }
    }
}

} // verus!
