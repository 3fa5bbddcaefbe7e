//! Flattening a sequence of sequences, from both ends.
//!
//! A `Source` hands out the items of a finite sequence from its front and
//! from its back. `Flatten` turns a source of sources into the source of
//! their items, one level deep.
use std::collections::VecDeque;
use vstd::prelude::*;

verus! {

/// Something that hands out the items of a finite sequence, from either end.
pub trait Source: Sized {
    /// What is handed out.
    type Item;

    /// The items that are still to come, in order from the front.
    spec fn remaining(&self) -> Seq<Self::Item>;

    /// Hands out the item at the front, if one is left.
    fn next(&mut self) -> (item: Option<Self::Item>)
        ensures
            old(self).remaining().len() == 0 ==> item is None,
            old(self).remaining().len() == 0 ==> final(self).remaining() == old(self).remaining(),
            old(self).remaining().len() > 0 ==> item == Some(old(self).remaining().first()),
            old(self).remaining().len() > 0 ==> final(self).remaining() == old(
                self,
            ).remaining().drop_first(),
    ;

    /// Hands out the item at the back, if one is left.
    fn next_back(&mut self) -> (item: Option<Self::Item>)
        ensures
            old(self).remaining().len() == 0 ==> item is None,
            old(self).remaining().len() == 0 ==> final(self).remaining() == old(self).remaining(),
            old(self).remaining().len() > 0 ==> item == Some(old(self).remaining().last()),
            old(self).remaining().len() > 0 ==> final(self).remaining() == old(
                self,
            ).remaining().drop_last(),
    ;
}

/// Something that can be turned into a source of its items.
pub trait IntoSource: Sized {
    /// What the source hands out.
    type Item;

    /// The source that this turns into.
    type Src: Source<Item = Self::Item>;

    /// The items that the source will hand out, in order from the front.
    spec fn items(&self) -> Seq<Self::Item>;

    /// Turns this into the source of its items.
    fn into_source(self) -> (source: Self::Src)
        ensures
            source.remaining() == self.items(),
    ;
}

impl<T> Source for VecDeque<T> {
    type Item = T;

    open spec fn remaining(&self) -> Seq<T> {
        self@
    }

    fn next(&mut self) -> (item: Option<T>) {
        let item = self.pop_front();
        proof {
            if old(self)@.len() > 0 {
                assert(self@ =~= old(self)@.drop_first());
            }
        }
        item
    }

    fn next_back(&mut self) -> (item: Option<T>) {
        let item = self.pop_back();
        proof {
            if old(self)@.len() > 0 {
                assert(self@ =~= old(self)@.drop_last());
            }
        }
        item
    }
}

impl<T> IntoSource for VecDeque<T> {
    type Item = T;

    type Src = VecDeque<T>;

    open spec fn items(&self) -> Seq<T> {
        self@
    }

    fn into_source(self) -> (source: VecDeque<T>) {
        self
    }
}

impl<T> IntoSource for Vec<T> {
    type Item = T;

    type Src = VecDeque<T>;

    open spec fn items(&self) -> Seq<T> {
        self@
    }

    fn into_source(self) -> (source: VecDeque<T>) {
        let mut rest = self;
        let mut source: VecDeque<T> = VecDeque::new();
        while rest.len() > 0
            invariant
                rest@ + source@ == self@,
            decreases rest.len(),
        {
            let ghost before = rest@;
            let ghost moved = source@;
            let last = rest.pop();
            source.push_front(last.unwrap());
            proof {
                assert(rest@ + source@ =~= before + moved);
            }
        }
        proof {
            assert(source@ =~= rest@ + source@);
        }
        source
    }
}

/// The numbers from `from` up to `to`, without `to` itself.
pub open spec fn numbers(from: int, to: int) -> Seq<u64> {
    Seq::new(
        if from <= to {
            (to - from) as nat
        } else {
            0
        },
        |i: int| (from + i) as u64,
    )
}

/// The numbers from one bound up to another, handed out one by one without
/// ever being stored.
pub struct Numbers {
    next: u64,
    end: u64,
}

impl Numbers {
    /// The numbers from `from` up to `to`, without `to` itself; none where
    /// `to` is not above `from`.
    pub fn new(from: u64, to: u64) -> (all: Self)
        ensures
            all.remaining() == numbers(from as int, to as int),
    {
        Numbers { next: from, end: to }
    }

    /// The numbers from `from` on, for as long as numbers have a successor:
    /// more than can ever be asked for.
    pub fn from(from: u64) -> (all: Self)
        ensures
            all.remaining() == numbers(from as int, u64::MAX as int),
    {
        Numbers { next: from, end: u64::MAX }
    }
}

impl Source for Numbers {
    type Item = u64;

    closed spec fn remaining(&self) -> Seq<u64> {
        numbers(self.next as int, self.end as int)
    }

    fn next(&mut self) -> (item: Option<u64>) {
        if self.next < self.end {
            let n = self.next;
            self.next = n + 1;
            proof {
                assert(self.remaining() =~= old(self).remaining().drop_first());
            }
            Some(n)
        } else {
            None
        }
    }

    fn next_back(&mut self) -> (item: Option<u64>) {
        if self.next < self.end {
            self.end = self.end - 1;
            proof {
                assert(self.remaining() =~= old(self).remaining().drop_last());
            }
            Some(self.end)
        } else {
            None
        }
    }
}

impl IntoSource for Numbers {
    type Item = u64;

    type Src = Numbers;

    open spec fn items(&self) -> Seq<u64> {
        self.remaining()
    }

    fn into_source(self) -> (source: Numbers) {
        self
    }
}

/// What `f` makes of `a`, where `f` is a function.
pub open spec fn image<A, B, F: Fn(A) -> B>(f: F, a: A) -> B {
    choose|b: B| call_ensures(f, (a,), b)
}

/// Whether `f` is a function: it takes every value, and what it returns is
/// decided by what it is given.
pub open spec fn is_function<A, B, F: Fn(A) -> B>(f: F) -> bool {
    &&& forall|a: A| call_requires(f, (a,))
    &&& forall|a: A, b: B, c: B|
        call_ensures(f, (a,), b) && call_ensures(f, (a,), c) ==> b == c
}

/// A function, kept together with the fact that it is one.
#[verifier::reject_recursive_types(A)]
#[verifier::reject_recursive_types(B)]
pub struct Function<A, B, F: Fn(A) -> B> {
    f: F,
    made: std::marker::PhantomData<(A, B)>,
}

impl<A, B, F: Fn(A) -> B> Function<A, B, F> {
    #[verifier::type_invariant]
    spec fn function_is_kept(self) -> bool {
        is_function(self.f)
    }

    /// What the function makes of `a`.
    pub closed spec fn of(&self, a: A) -> B {
        image(self.f, a)
    }

    fn new(f: F) -> (kept: Self)
        requires
            is_function(f),
        ensures
            forall|a: A| #[trigger] kept.of(a) == image(f, a),
    {
        Function { f, made: std::marker::PhantomData }
    }

    fn apply(&self, a: A) -> (b: B)
        ensures
            b == self.of(a),
    {
        proof {
            use_type_invariant(self);
        }
        (self.f)(a)
    }
}

/// The source of what a function makes of the items of another source. The
/// function is applied to an item when the item is asked for, not before.
#[verifier::reject_recursive_types(B)]
pub struct Mapped<S: Source, B, F: Fn(S::Item) -> B> {
    source: S,
    f: Function<S::Item, B, F>,
}

/// The source of what `f` makes of the items of `source`, in their order.
/// Nothing is taken from `source` yet.
pub fn map<S: Source, B, F: Fn(S::Item) -> B>(source: S, f: F) -> (mapped: Mapped<S, B, F>)
    requires
        is_function(f),
    ensures
        mapped.remaining() == source.remaining().map_values(|a: S::Item| image(f, a)),
{
    let mapped = Mapped { source, f: Function::new(f) };
    proof {
        assert(mapped.remaining() =~= source.remaining().map_values(|a: S::Item| image(f, a)));
    }
    mapped
}

impl<S: Source, B, F: Fn(S::Item) -> B> Source for Mapped<S, B, F> {
    type Item = B;

    closed spec fn remaining(&self) -> Seq<B> {
        self.source.remaining().map_values(|a: S::Item| self.f.of(a))
    }

    fn next(&mut self) -> (item: Option<B>) {
        match self.source.next() {
            Some(a) => {
                let b = self.f.apply(a);
                proof {
                    assert(self.remaining() =~= old(self).remaining().drop_first());
                }
                Some(b)
            },
            None => None,
        }
    }

    fn next_back(&mut self) -> (item: Option<B>) {
        match self.source.next_back() {
            Some(a) => {
                let b = self.f.apply(a);
                proof {
                    assert(self.remaining() =~= old(self).remaining().drop_last());
                }
                Some(b)
            },
            None => None,
        }
    }
}

impl<S: Source, B, F: Fn(S::Item) -> B> IntoSource for Mapped<S, B, F> {
    type Item = B;

    type Src = Mapped<S, B, F>;

    open spec fn items(&self) -> Seq<B> {
        self.remaining()
    }

    fn into_source(self) -> (source: Mapped<S, B, F>) {
        self
    }
}

/// The items of all the sequences in `outer`, one sequence after the other.
pub open spec fn flat<I: IntoSource>(outer: Seq<I>) -> Seq<I::Item>
    decreases outer.len(),
{
    if outer.len() == 0 {
        Seq::empty()
    } else {
        outer.first().items() + flat(outer.drop_first())
    }
}

/// `flat` taken from the back: the last sequence comes last.
pub proof fn lemma_flat_from_back<I: IntoSource>(outer: Seq<I>)
    requires
        outer.len() > 0,
    ensures
        flat(outer) == flat(outer.drop_last()) + outer.last().items(),
    decreases outer.len(),
{
    if outer.len() == 1 {
        assert(outer.drop_last() =~= outer.drop_first());
        assert(flat(outer) =~= flat(outer.drop_last()) + outer.last().items());
    } else {
        let inner = outer.drop_first();
        lemma_flat_from_back(inner);
        assert(inner.drop_last() =~= outer.drop_last().drop_first());
        assert(flat(outer) =~= flat(outer.drop_last()) + outer.last().items());
    }
}

/// Flattening passes over what is empty: where sequence `k` is the first in
/// `outer` that is not empty, the flattened items begin with its first item.
pub proof fn lemma_flat_begins<I: IntoSource>(outer: Seq<I>, k: int)
    requires
        0 <= k < outer.len(),
        forall|j: int| 0 <= j < k ==> (#[trigger] outer[j]).items().len() == 0,
        outer[k].items().len() > 0,
    ensures
        flat(outer).len() > 0,
        flat(outer).first() == outer[k].items().first(),
    decreases k,
{
    let rest = outer.drop_first();
    if k > 0 {
        assert(rest[k - 1] == outer[k]);
        assert forall|j: int| 0 <= j < k - 1 implies (#[trigger] rest[j]).items().len() == 0 by {
            assert(rest[j] == outer[j + 1]);
        }
        lemma_flat_begins(rest, k - 1);
        assert(outer[0].items().len() == 0);
        assert(flat(outer) =~= flat(rest));
    }
}

/// What a source that may be absent has yet to hand out.
pub open spec fn left_in<S: Source>(source: Option<S>) -> Seq<S::Item> {
    match source {
        Some(s) => s.remaining(),
        None => Seq::empty(),
    }
}

/// The source of the items of the sequences that `outer` hands out. Nothing
/// is taken from `outer` before an item is asked for, and no sequence is
/// taken before the one before it is used up.
pub struct Flatten<O: Source> where O::Item: IntoSource {
    outer: O,
    front_iter: Option<<O::Item as IntoSource>::Src>,
    back_iter: Option<<O::Item as IntoSource>::Src>,
}

impl<O: Source> Flatten<O> where O::Item: IntoSource {
    /// The source of the sequences that are not begun yet.
    pub closed spec fn outer(&self) -> O {
        self.outer
    }

    /// The sequence that is being handed out from the front, if one is
    /// begun.
    pub closed spec fn front(&self) -> Option<<O::Item as IntoSource>::Src> {
        self.front_iter
    }

    /// The sequence that is being handed out from the back, if one is begun.
    pub closed spec fn back(&self) -> Option<<O::Item as IntoSource>::Src> {
        self.back_iter
    }

    fn new(iter: O) -> (f: Self)
        ensures
            f.outer() == iter,
            f.front() is None,
            f.back() is None,
            f.remaining() == flat(iter.remaining()),
    {
        let f = Flatten { outer: iter, front_iter: None, back_iter: None };
        proof {
            assert(f.remaining() =~= flat(iter.remaining()));
        }
        f
    }
}

impl<O: Source> Source for Flatten<O> where O::Item: IntoSource {
    type Item = <O::Item as IntoSource>::Item;

    closed spec fn remaining(&self) -> Seq<Self::Item> {
        left_in(self.front_iter) + flat(self.outer.remaining()) + left_in(self.back_iter)
    }

    fn next(&mut self) -> (item: Option<Self::Item>) {
        loop
            invariant
                self.remaining() == old(self).remaining(),
            decreases
                    2 * self.outer.remaining().len() + if self.front_iter is Some {
                        1nat
                    } else {
                        0nat
                    },
        {
            let ghost before = self.remaining();
            match &mut self.front_iter {
                Some(front) => {
                    let got = front.next();
                    if got.is_some() {
                        proof {
                            assert(self.remaining() =~= before.drop_first());
                        }
                        return got;
                    }
                },
                None => {},
            }
            self.front_iter = None;
            proof {
                assert(self.remaining() =~= before);
            }
            match self.outer.next() {
                Some(inner) => {
                    self.front_iter = Some(inner.into_source());
                    proof {
                        assert(self.remaining() =~= before);
                    }
                },
                None => {
                    let ghost back_before = self.back_iter;
                    let got = match &mut self.back_iter {
                        Some(back) => back.next(),
                        None => None,
                    };
                    proof {
                        assert(before =~= left_in(back_before));
                        if before.len() > 0 {
                            assert(self.remaining() =~= before.drop_first());
                        } else {
                            assert(self.remaining() =~= before);
                        }
                    }
                    return got;
                },
            }
        }
    }

    fn next_back(&mut self) -> (item: Option<Self::Item>) {
        loop
            invariant
                self.remaining() == old(self).remaining(),
            decreases
                    2 * self.outer.remaining().len() + if self.back_iter is Some {
                        1nat
                    } else {
                        0nat
                    },
        {
            let ghost before = self.remaining();
            match &mut self.back_iter {
                Some(back) => {
                    let got = back.next_back();
                    if got.is_some() {
                        proof {
                            assert(self.remaining() =~= before.drop_last());
                        }
                        return got;
                    }
                },
                None => {},
            }
            self.back_iter = None;
            proof {
                assert(self.remaining() =~= before);
            }
            let ghost outer_before = self.outer.remaining();
            match self.outer.next_back() {
                Some(inner) => {
                    self.back_iter = Some(inner.into_source());
                    proof {
                        lemma_flat_from_back(outer_before);
                        assert(self.remaining() =~= before);
                    }
                },
                None => {
                    let ghost front_before = self.front_iter;
                    let got = match &mut self.front_iter {
                        Some(front) => front.next_back(),
                        None => None,
                    };
                    proof {
                        assert(before =~= left_in(front_before));
                        if before.len() > 0 {
                            assert(self.remaining() =~= before.drop_last());
                        } else {
                            assert(self.remaining() =~= before);
                        }
                    }
                    return got;
                },
            }
        }
    }
}

impl<O: Source> IntoSource for Flatten<O> where O::Item: IntoSource {
    type Item = <O::Item as IntoSource>::Item;

    type Src = Flatten<O>;

    open spec fn items(&self) -> Seq<Self::Item> {
        self.remaining()
    }

    fn into_source(self) -> (source: Flatten<O>) {
        self
    }
}

/// The source of the items of the sequences in `iter`, in order. Nothing is
/// taken from `iter` yet and no sequence is begun.
pub fn flatten<I>(iter: I) -> (f: Flatten<I::Src>) where
    I: IntoSource,
    I::Item: IntoSource,

    ensures
        f.remaining() == flat(iter.items()),
        f.outer().remaining() == iter.items(),
        f.front() is None,
        f.back() is None,
{
    Flatten::new(iter.into_source())
}

/// `flatten` as a method of every source of sequences.
pub trait IteratorExt: Source {
    /// The source of the items of the sequences that this source hands out.
    /// Nothing is taken from this source yet and no sequence is begun.
    fn our_flatten(self) -> (f: Flatten<Self>) where Self: Sized, Self::Item: IntoSource
        ensures
            f.remaining() == flat(self.remaining()),
            f.outer() == self,
            f.front() is None,
            f.back() is None,
    ;
}

impl<T: Source> IteratorExt for T {
    fn our_flatten(self) -> (f: Flatten<Self>) where Self: Sized, Self::Item: IntoSource {
        Flatten::new(self)
    }
}

} // verus!
