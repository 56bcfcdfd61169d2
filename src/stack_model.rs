//! The mathematical model shared by the stacks: a stack is the sequence of
//! its values, the top first.
use vstd::prelude::*;

verus! {

/// The value that `pop` returns on a stack holding `s`.
pub open spec fn top<T>(s: Seq<T>) -> Option<T> {
    if s.len() == 0 {
        None
    } else {
        Some(s[0])
    }
}

/// The value that an optional view points at.
pub open spec fn target_of<T>(r: Option<&T>) -> Option<T> {
    match r {
        Some(x) => Some(*x),
        None => None,
    }
}

/// What a stack holding `s` holds after one `pop`.
pub open spec fn popped<T>(s: Seq<T>) -> Seq<T> {
    if s.len() == 0 {
        s
    } else {
        s.drop_first()
    }
}

/// What a stack holding `s` holds after pushing the values of `vs`, the
/// first of them first.
pub open spec fn after_pushes<T>(s: Seq<T>, vs: Seq<T>) -> Seq<T>
    decreases vs.len(),
{
    if vs.len() == 0 {
        s
    } else {
        seq![vs.last()] + after_pushes(s, vs.drop_last())
    }
}

/// The results of `n` successive pops on a stack holding `s`.
pub open spec fn pops<T>(s: Seq<T>, n: nat) -> Seq<Option<T>>
    decreases n,
{
    if n == 0 {
        Seq::empty()
    } else {
        seq![top(s)] + pops(popped(s), (n - 1) as nat)
    }
}

/// Pushing `v1, ..., vn` onto any stack and then popping `n` times yields
/// `vn, ..., v1`: last in, first out.
pub proof fn lemma_pops_reverse_pushes<T>(s: Seq<T>, vs: Seq<T>)
    ensures
        pops(after_pushes(s, vs), vs.len()) == vs.reverse().map_values(|v: T| Some(v)),
    decreases vs.len(),
{
    if vs.len() > 0 {
        let rest = vs.drop_last();
        lemma_pops_reverse_pushes(s, rest);
        let a = after_pushes(s, vs);
        assert(popped(a) =~= after_pushes(s, rest));
        assert(pops(a, vs.len()) =~= vs.reverse().map_values(|v: T| Some(v)));
    } else {
        assert(pops(after_pushes(s, vs), vs.len()) =~= vs.reverse().map_values(|v: T| Some(v)));
    }
}

/// Popping an empty stack yields nothing and leaves it empty, however many
/// times it is done.
pub proof fn lemma_pops_on_empty<T>(n: nat)
    ensures
        pops(Seq::<T>::empty(), n) == Seq::new(n, |i: int| None::<T>),
    decreases n,
{
    if n > 0 {
        lemma_pops_on_empty::<T>((n - 1) as nat);
        assert(popped(Seq::<T>::empty()) =~= Seq::<T>::empty());
    }
    assert(pops(Seq::<T>::empty(), n) =~= Seq::new(n, |i: int| None::<T>));
}

/// Writing `w` over the top of a non-empty stack through the view that
/// `peek_mut` gives makes `w` what `peek` and `pop` see next.
pub proof fn lemma_write_through_top<T>(s: Seq<T>, w: T)
    requires
        s.len() > 0,
    ensures
        top(s.update(0, w)) == Some(w),
        popped(s.update(0, w)) == popped(s),
{
    assert(popped(s.update(0, w)) =~= popped(s));
}

} // verus!
