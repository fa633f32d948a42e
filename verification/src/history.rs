//! A fixed-length buffer of the most recent samples, newest first.

use std::collections::VecDeque;
use vstd::prelude::*;
use vstd::std_specs::iter::IteratorSpec;

verus! {

/// The most recent samples of some measurement. Index 0 holds the newest
/// sample; the number of samples never changes after construction.
#[derive(Debug, Clone)]
pub struct History<T>(VecDeque<T>);

impl<T> View for History<T> {
    type V = Seq<T>;

    closed spec fn view(&self) -> Seq<T> {
        self.0@
    }
}

/// What a buffer holds after `value` is pushed onto `before`: the new value
/// in front, and the oldest sample dropped so that the length is kept.
pub open spec fn pushed<T>(before: Seq<T>, value: T) -> Seq<T> {
    (seq![value] + before).subrange(0, before.len() as int)
}

/// What a buffer that starts as `start` holds after every value of `values`
/// has been pushed, first to last.
pub open spec fn pushed_all<T>(start: Seq<T>, values: Seq<T>) -> Seq<T>
    decreases values.len(),
{
    if values.len() == 0 {
        start
    } else {
        pushed(pushed_all(start, values.drop_last()), values.last())
    }
}

/// Pushing `values`, no more of them than the buffer holds, leaves them in
/// front, newest first, followed by as many of the samples that were there
/// before, from the front, as still fit.
pub proof fn lemma_pushed_all<T>(start: Seq<T>, values: Seq<T>)
    requires
        values.len() <= start.len(),
    ensures
        pushed_all(start, values) == values.reverse() + start.take(start.len() - values.len()),
    decreases values.len(),
{
    if values.len() == 0 {
        assert(pushed_all(start, values) =~= values.reverse() + start.take(
            start.len() - values.len(),
        ));
    } else {
        let front = values.drop_last();
        lemma_pushed_all(start, front);
        assert(pushed(front.reverse() + start.take(start.len() - front.len()), values.last())
            =~= values.reverse() + start.take(start.len() - values.len()));
    }
}

/// After as many pushes as the buffer holds samples, the buffer holds the
/// pushed values and nothing else, the most recent first.
pub proof fn lemma_pushes_fill_newest_first<T>(start: Seq<T>, values: Seq<T>)
    requires
        values.len() == start.len(),
    ensures
        pushed_all(start, values) == values.reverse(),
        pushed_all(start, values).len() == start.len(),
{
    lemma_pushed_all(start, values);
    assert(values.reverse() + start.take(0) =~= values.reverse());
}

/// One push more onto a buffer that holds `values`, newest first, drops the
/// first of them, moves every other one back by one place and keeps the
/// length.
pub proof fn lemma_push_evicts_oldest<T>(values: Seq<T>, value: T)
    requires
        values.len() > 0,
    ensures
        pushed(values.reverse(), value) == values.drop_first().push(value).reverse(),
        pushed(values.reverse(), value).len() == values.len(),
{
    assert(pushed(values.reverse(), value) =~= values.drop_first().push(value).reverse());
}

impl<T: Default + Clone> History<T> {
    /// A history of `len` samples, each the default value of `T`.
    pub fn new(len: usize) -> (history: Self)
        ensures
            history@.len() == len,
            forall|i: int| 0 <= i < len ==> call_ensures(T::default, (), #[trigger] history@[i]),
    {
        let mut samples: VecDeque<T> = VecDeque::new();
        let mut n: usize = 0;
        while n < len
            invariant
                n <= len,
                samples@.len() == n,
                forall|i: int| 0 <= i < n ==> call_ensures(T::default, (), #[trigger] samples@[i]),
            decreases len - n,
        {
            samples.push_back(T::default());
            n += 1;
        }
        History(samples)
    }
}

/// The number of samples of a history that is made without saying how many.
pub const DEFAULT_LEN: usize = 120;

impl<T: Default + Clone> Default for History<T> {
    /// A history of 120 samples, each the default value of `T`.
    fn default() -> (history: Self)
        ensures
            history@.len() == DEFAULT_LEN,
            forall|i: int|
                0 <= i < DEFAULT_LEN ==> call_ensures(T::default, (), #[trigger] history@[i]),
    {
        Self::new(DEFAULT_LEN)
    }
}

impl<T> History<T> {
    /// Records `value` as the newest sample and forgets the oldest one.
    pub fn push(&mut self, value: T)
        ensures
            final(self)@ == pushed(old(self)@, value),
            final(self)@.len() == old(self)@.len(),
            forall|i: int| 0 < i < old(self)@.len() ==> final(self)@[i] == old(self)@[i - 1],
            old(self)@.len() > 0 ==> final(self)@[0] == value,
    {
        let len = self.0.len();
        self.0.push_front(value);
        self.0.truncate(len);
    }

    /// The samples, newest first.
    pub fn iter(&self) -> (samples: std::collections::vec_deque::Iter<'_, T>)
        ensures
            samples.remaining() == self@.as_ref(),
    {
        broadcast use vstd::std_specs::vecdeque::group_vec_dequeue_axioms;
        self.0.iter()
    }

    /// The sample at `index`, counted from the newest.
    pub fn get(&self, index: usize) -> (sample: &T)
        requires
            index < self@.len(),
        ensures
            *sample == self@[index as int],
    {
        &self.0[index]
    }

    /// The number of samples held.
    pub fn len(&self) -> (len: usize)
        ensures
            len == self@.len(),
    {
        self.0.len()
    }
}

} // verus!
