//! A buffer of bounded depth that keeps the elements pushed last.

use vstd::arithmetic::div_mod::lemma_fundamental_div_mod;
use vstd::arithmetic::div_mod::lemma_fundamental_div_mod_converse;
use vstd::prelude::*;

verus! {

/// A ring that holds at most `max_depth` elements and overwrites the oldest one when full.
///
/// Its view is the sequence of the elements it holds, in the order they were pushed.
pub struct CircularBuffer<T> {
    buffer: Vec<T>,
    next_write_pos: usize,
    max_depth: usize,
}

/// The last `depth` elements of `s`, or all of them if there are no more.
pub open spec fn latest<T>(s: Seq<T>, depth: nat) -> Seq<T> {
    if s.len() <= depth {
        s
    } else {
        s.skip(s.len() - depth)
    }
}

impl<T> View for CircularBuffer<T> {
    type V = Seq<T>;

    closed spec fn view(&self) -> Seq<T> {
        if self.next_write_pos <= self.max_depth {
            self.buffer@
        } else {
            let wrap = self.next_write_pos as int % self.max_depth as int;
            self.buffer@.skip(wrap) + self.buffer@.take(wrap)
        }
    }
}

impl<T> CircularBuffer<T> {
    /// The number of stored elements is the number of pushed ones, up to the depth.
    pub closed spec fn wf(&self) -> bool {
        &&& self.next_write_pos <= self.max_depth ==> self.buffer@.len() == self.next_write_pos
        &&& self.next_write_pos > self.max_depth ==> self.max_depth > 0 && self.buffer@.len()
            == self.max_depth
    }

    /// How many elements the buffer can hold.
    pub closed spec fn depth(&self) -> nat {
        self.max_depth as nat
    }

    /// How many elements were pushed since the buffer was made or last emptied by `take`.
    pub closed spec fn total(&self) -> nat {
        self.next_write_pos as nat
    }

    /// A buffer holds all that was pushed until its depth is reached, and is full from then on.
    pub proof fn lemma_len(&self)
        requires
            self.wf(),
        ensures
            self@.len() == if self.total() <= self.depth() {
                self.total()
            } else {
                self.depth()
            },
            self.depth() <= usize::MAX,
            self.total() <= usize::MAX,
    {
        if self.next_write_pos > self.max_depth {
            lemma_fundamental_div_mod(self.next_write_pos as int, self.max_depth as int);
        }
    }

    /// Create a new CircularBuffer, which can hold max_depth elements
    pub fn new(max_depth: usize) -> (r: CircularBuffer<T>)
        ensures
            r.wf(),
            r@ == Seq::<T>::empty(),
            r.depth() == max_depth,
            r.total() == 0,
    {
        CircularBuffer { buffer: Vec::new(), next_write_pos: 0, max_depth }
    }

    /// Return the number of elements present in the buffer
    pub fn len(&self) -> (r: usize)
        requires
            self.wf(),
        ensures
            r == self@.len(),
            r <= self.depth(),
    {
        proof {
            self.lemma_len();
        }
        self.buffer.len()
    }

    pub fn is_empty(&self) -> (r: bool)
        requires
            self.wf(),
        ensures
            r == (self@.len() == 0),
    {
        proof {
            self.lemma_len();
        }
        self.buffer.len() == 0
    }

    pub fn capacity(&self) -> (r: usize)
        ensures
            r == self.depth(),
    {
        self.max_depth
    }

    /// Push a new element into the buffer.
    /// Until the capacity is reached, elements are pushed.
    /// Afterwards the oldest elements will be overwritten.
    pub fn push(&mut self, elem: T)
        requires
            old(self).wf(),
            old(self).depth() > 0,
            old(self).total() < usize::MAX,
        ensures
            final(self).wf(),
            final(self)@ == latest(old(self)@.push(elem), old(self).depth()),
            final(self).depth() == old(self).depth(),
            final(self).total() == old(self).total() + 1,
    {
        let ghost before = self.buffer@;
        let ghost depth = self.max_depth as int;
        let ghost n = self.next_write_pos as int;
        if self.buffer.len() < self.max_depth {
            self.buffer.push(elem);
        } else {
            let pos: usize = self.next_write_pos % self.max_depth;
            self.buffer.set(pos, elem);
        }
        self.next_write_pos = self.next_write_pos + 1;
        proof {
            if before.len() == depth {
                lemma_fundamental_div_mod(n, depth);
                let w = n % depth;
                let q = n / depth;
                let full = before.skip(w) + before.take(w);
                if n == depth {
                    lemma_fundamental_div_mod_converse(n, depth, 1, 0);
                }
                assert(full =~= old(self)@);
                if w + 1 < depth {
                    lemma_fundamental_div_mod_converse(n + 1, depth, q, w + 1);
                } else {
                    assert(n + 1 == depth * (q + 1) + 0) by (nonlinear_arith)
                        requires
                            n == depth * q + w,
                            w + 1 == depth,
                    ;
                    lemma_fundamental_div_mod_converse(n + 1, depth, q + 1, 0);
                }
                assert(self@ =~= latest(full.push(elem), depth as nat));
            }
        }
    }

    /// Take out all elements from the buffer, leaving an empty buffer behind
    pub fn take(&mut self) -> (r: Vec<T>)
        requires
            old(self).wf(),
        ensures
            final(self).wf(),
            r@ == old(self)@,
            final(self)@ == Seq::<T>::empty(),
            final(self).depth() == old(self).depth(),
            final(self).total() == 0,
    {
        let ghost before = self.buffer@;
        let mut consumed: Vec<T> = Vec::new();
        if self.max_depth == 0 || self.buffer.len() < self.max_depth {
            consumed.append(&mut self.buffer);
        } else {
            let pos: usize = self.next_write_pos % self.max_depth;
            let mut newest: Vec<T> = self.buffer.split_off(pos);
            consumed.append(&mut newest);
            consumed.append(&mut self.buffer);
            proof {
                if self.next_write_pos == self.max_depth {
                    lemma_fundamental_div_mod_converse(
                        self.next_write_pos as int,
                        self.max_depth as int,
                        1,
                        0,
                    );
                }
            }
        }
        self.next_write_pos = 0;
        assert(consumed@ =~= old(self)@);
        consumed
    }

    /// Total number of elements pushed into the buffer.
    pub fn total_elements(&self) -> (r: usize)
        ensures
            r == self.total(),
    {
        self.next_write_pos
    }

    /// If has_wrapped() is true, then elements have been overwritten
    pub fn has_wrapped(&self) -> (r: bool)
        ensures
            r == (self.total() > self.depth()),
    {
        self.next_write_pos > self.max_depth
    }

    /// Return all elements in the sequence, as these have been pushed (FIFO)
    pub fn iter(&self) -> (r: Vec<&T>)
        requires
            self.wf(),
        ensures
            r@.len() == self@.len(),
            forall|i: int| 0 <= i < r@.len() ==> *(#[trigger] r@[i]) == self@[i],
    {
        proof {
            self.lemma_len();
        }
        let len: usize = self.buffer.len();
        let wrap: usize = if self.next_write_pos <= self.max_depth {
            0
        } else {
            self.next_write_pos % self.max_depth
        };
        let mut out: Vec<&T> = Vec::new();
        let mut i: usize = wrap;
        while i < len
            invariant
                self.wf(),
                len == self.buffer@.len(),
                wrap <= i <= len,
                wrap <= len,
                out@.len() == i - wrap,
                forall|k: int| 0 <= k < out@.len() ==> *(#[trigger] out@[k]) == self.buffer@[wrap + k],
            decreases len - i,
        {
            out.push(&self.buffer[i]);
            i = i + 1;
        }
        let mut j: usize = 0;
        while j < wrap
            invariant
                self.wf(),
                len == self.buffer@.len(),
                wrap <= len,
                j <= wrap,
                out@.len() == len - wrap + j,
                forall|k: int|
                    0 <= k < len - wrap ==> *(#[trigger] out@[k]) == self.buffer@[wrap + k],
                forall|k: int|
                    len - wrap <= k < out@.len() ==> *(#[trigger] out@[k]) == self.buffer@[k - (len
                        - wrap)],
            decreases wrap - j,
        {
            out.push(&self.buffer[j]);
            j = j + 1;
        }
        out
    }

    /// Return all elements in the reverse sequence, as these have been pushed (LIFO)
    pub fn rev_iter(&self) -> (r: Vec<&T>)
        requires
            self.wf(),
        ensures
            r@.len() == self@.len(),
            forall|i: int|
                0 <= i < r@.len() ==> *(#[trigger] r@[i]) == self@[self@.len() - 1 - i],
    {
        let forward: Vec<&T> = self.iter();
        let mut out: Vec<&T> = Vec::new();
        let mut i: usize = forward.len();
        while i > 0
            invariant
                i <= forward@.len(),
                out@.len() == forward@.len() - i,
                forall|k: int|
                    0 <= k < out@.len() ==> *(#[trigger] out@[k]) == *forward@[forward@.len() - 1
                        - k],
            decreases i,
        {
            i = i - 1;
            out.push(forward[i]);
        }
        out
    }
}

/// Pushing onto a full buffer forgets only what is older than its depth: what a buffer keeps
/// of a history and one more element is what it would keep of the whole.
pub proof fn law_keeps_latest<T>(history: Seq<T>, elem: T, depth: nat)
    requires
        depth > 0,
    ensures
        latest(latest(history, depth).push(elem), depth) == latest(history.push(elem), depth),
{
    assert(latest(latest(history, depth).push(elem), depth) =~= latest(
        history.push(elem),
        depth,
    ));
}

/// What a buffer holds that held `start` and into which all of `elems` were pushed in turn.
pub open spec fn pushed_all<T>(start: Seq<T>, elems: Seq<T>, depth: nat) -> Seq<T>
    decreases elems.len(),
{
    if elems.len() == 0 {
        start
    } else {
        latest(pushed_all(start, elems.drop_last(), depth).push(elems.last()), depth)
    }
}

/// A new buffer into which a sequence is pushed holds the last `depth` elements of it, in the
/// order of the pushes.
pub proof fn law_holds_latest_of_all<T>(elems: Seq<T>, depth: nat)
    requires
        depth > 0,
    ensures
        pushed_all(Seq::<T>::empty(), elems, depth) == latest(elems, depth),
    decreases elems.len(),
{
    if elems.len() > 0 {
        law_holds_latest_of_all(elems.drop_last(), depth);
        law_keeps_latest(elems.drop_last(), elems.last(), depth);
        assert(elems.drop_last().push(elems.last()) =~= elems);
    }
}

/// The latest elements of a sequence are its end: as many as there are, up to the depth.
pub proof fn law_latest_is_the_end<T>(s: Seq<T>, depth: nat, i: int)
    ensures
        latest(s, depth).len() == if s.len() < depth {
            s.len()
        } else {
            depth
        },
        0 <= i < latest(s, depth).len() ==> latest(s, depth)[i] == s[s.len() - latest(
            s,
            depth,
        ).len() + i],
{
}

/// A push adds its element at the end. It forgets nothing while there is room, and otherwise
/// only the oldest element.
pub proof fn law_push_forgets_only_the_oldest<T>(elem: T)
    ensures
        forall|b: &mut CircularBuffer<T>|
            (#[trigger] call_ensures(CircularBuffer::<T>::push, (b, elem), ()) && b@.len()
                <= b.depth() && b.depth() > 0) ==> {
                &&& final(b)@.len() > 0 && final(b)@.last() == elem
                &&& b@.len() < b.depth() ==> final(b)@.drop_last() == b@
                &&& b@.len() == b.depth() ==> final(b)@.drop_last() == b@.drop_first()
                &&& final(b).depth() == b.depth()
                &&& final(b).total() == b.total() + 1
            },
{
    assert forall|b: &mut CircularBuffer<T>|
        (#[trigger] call_ensures(CircularBuffer::<T>::push, (b, elem), ()) && b@.len()
            <= b.depth() && b.depth() > 0) implies ({
        &&& final(b)@.len() > 0 && final(b)@.last() == elem
        &&& b@.len() < b.depth() ==> final(b)@.drop_last() == b@
        &&& b@.len() == b.depth() ==> final(b)@.drop_last() == b@.drop_first()
        &&& final(b).depth() == b.depth()
        &&& final(b).total() == b.total() + 1
    }) by {
        if b@.len() < b.depth() {
            assert(final(b)@.drop_last() =~= b@);
        } else {
            assert(final(b)@.drop_last() =~= b@.drop_first());
        }
    }
}

/// `take` gives what `iter` shows, and `rev_iter` shows the same backwards. What is shown is what
/// `len` counts. After `take` nothing is left.
pub proof fn law_readings_agree<T>(b: CircularBuffer<T>)
    ensures
        forall|forward: Vec<&T>, backward: Vec<&T>|
            (#[trigger] call_ensures(CircularBuffer::<T>::iter, (&b,), forward) && #[trigger]
                call_ensures(CircularBuffer::<T>::rev_iter, (&b,), backward)) ==> backward@
                == forward@.reverse(),
        forall|forward: Vec<&T>, n: usize, none: bool|
            (#[trigger] call_ensures(CircularBuffer::<T>::iter, (&b,), forward) && #[trigger]
                call_ensures(CircularBuffer::<T>::len, (&b,), n) && #[trigger] call_ensures(
                CircularBuffer::<T>::is_empty,
                (&b,),
                none,
            )) ==> n == forward@.len() && (none <==> forward@.len() == 0),
        forall|taken: &mut CircularBuffer<T>, forward: Vec<&T>, all: Vec<T>|
            (*taken == b && #[trigger] call_ensures(CircularBuffer::<T>::iter, (&b,), forward)
                && #[trigger] call_ensures(CircularBuffer::<T>::take, (taken,), all)) ==> {
                &&& all@.len() == forward@.len()
                &&& forall|i: int|
                    0 <= i < all@.len() ==> #[trigger] all@[i] == *forward@[i]
                &&& final(taken)@.len() == 0
                &&& final(taken).total() == 0
                &&& final(taken).depth() == b.depth()
            },
{
    assert forall|forward: Vec<&T>, backward: Vec<&T>|
        (#[trigger] call_ensures(CircularBuffer::<T>::iter, (&b,), forward) && #[trigger]
            call_ensures(CircularBuffer::<T>::rev_iter, (&b,), backward)) implies backward@
        == forward@.reverse() by {
        assert(backward@ =~= forward@.reverse());
    }
}

/// A new buffer is empty and has the depth that was asked for, and elements have been overwritten
/// once more were pushed than it can hold.
pub proof fn law_depth_is_as_asked<T>(depth: usize, b: CircularBuffer<T>)
    ensures
        forall|r: CircularBuffer<T>| #[trigger]
            call_ensures(CircularBuffer::<T>::new, (depth,), r) ==> r.wf() && r@.len() == 0
                && r.depth() == depth && r.total() == 0,
        forall|r: usize| #[trigger]
            call_ensures(CircularBuffer::<T>::capacity, (&b,), r) ==> r == b.depth(),
        forall|r: usize| #[trigger]
            call_ensures(CircularBuffer::<T>::total_elements, (&b,), r) ==> r == b.total(),
        forall|r: bool| #[trigger]
            call_ensures(CircularBuffer::<T>::has_wrapped, (&b,), r) ==> (r <==> b.depth()
                < b.total()),
{
}

} // verus!
