use std::ops::Bound;
use std::sync::Arc;

use vstd::prelude::*;

verus! {

/// `Arc::make_mut`: the vector behind `a`, to change; where other handles
/// share it, it is first copied, so the contents are the same either way,
/// and the handle holds what the caller leaves in the vector.
#[verifier::external_body]
fn arc_make_mut<V: Copy>(a: &mut Arc<Vec<V>>) -> (r: &mut Vec<V>)
    ensures
        r@ == old(a)@,
        final(a)@ == final(r)@,
{
    Arc::make_mut(a)
}

/// Copies `v[st..en]` into a new vector.
pub fn copy_window<V: Copy>(v: &Vec<V>, st: usize, en: usize) -> (r: Vec<V>)
    requires
        st <= en <= v.len(),
    ensures
        r@ == v@.subrange(st as int, en as int),
{
    let mut r: Vec<V> = Vec::new();
    let mut i: usize = st;
    while i < en
        invariant
            st <= i <= en <= v.len(),
            r@ == v@.subrange(st as int, i as int),
        decreases en - i,
    {
        r.push(v[i]);
        i += 1;
        assert(r@ == v@.subrange(st as int, i as int));
    }
    r
}

/// A window `[st, en)` onto backing storage, shared with the subsequences
/// taken of it. Subsequences share the whole backing storage and only move
/// the window; modifying a window that does not reach the end of its storage
/// first moves it to storage of its own, and modifying shared storage first
/// copies it.
#[derive(Debug, Eq, PartialEq, Ord, PartialOrd, Hash, Clone)]
pub struct SeriesInner<V: Copy> {
    data: Arc<Vec<V>>,
    st: usize,
    en: usize,
}

impl<V: Copy> View for SeriesInner<V> {
    type V = Seq<V>;

    /// The elements in the window.
    closed spec fn view(&self) -> Seq<V> {
        self.data@.subrange(self.st as int, self.en as int)
    }
}

impl<V: Copy> SeriesInner<V> {
    /// The window lies within the backing storage.
    pub closed spec fn wf(&self) -> bool {
        self.st <= self.en <= self.data@.len()
    }

    /// The whole backing storage.
    pub closed spec fn backing(&self) -> Seq<V> {
        self.data@
    }

    /// Where the window starts in the backing storage.
    pub closed spec fn start(&self) -> int {
        self.st as int
    }

    /// Where the window ends (exclusive) in the backing storage.
    pub closed spec fn end(&self) -> int {
        self.en as int
    }

    pub proof fn lemma_view(&self)
        requires
            self.wf(),
        ensures
            self@ == self.backing().subrange(self.start(), self.end()),
            0 <= self.start() <= self.end() <= self.backing().len(),
    {
    }

    pub fn new(data: Vec<V>) -> (r: Self)
        ensures
            r.wf(),
            r@ == data@,
            r.backing() == data@,
            r.start() == 0,
    {
        let en = data.len();
        let r = Self { data: Arc::new(data), st: 0, en };
        assert(r@ == r.data@);
        r
    }

    pub fn empty() -> (r: Self)
        ensures
            r.wf(),
            r@ == Seq::<V>::empty(),
            r.backing() == Seq::<V>::empty(),
            r.start() == 0,
    {
        Self::new(Vec::new())
    }

    pub fn len(&self) -> (r: usize)
        requires
            self.wf(),
        ensures
            r == self@.len(),
    {
        self.en - self.st
    }

    pub fn is_empty(&self) -> (r: bool)
        requires
            self.wf(),
        ensures
            r == (self@.len() == 0),
    {
        self.len() == 0
    }

    pub fn slice(&self) -> (r: &[V])
        requires
            self.wf(),
        ensures
            r@ == self@,
    {
        let v: &Vec<V> = &*self.data;
        &v.as_slice()[self.st..self.en]
    }

    /// The backing storage, for inspection.
    pub fn data(&self) -> (r: &Vec<V>)
        ensures
            r@ == self.backing(),
    {
        &*self.data
    }

    /// Where the window starts in the backing storage.
    pub fn st(&self) -> (r: usize)
        ensures
            r == self.start(),
    {
        self.st
    }

    /// Where the window ends (exclusive) in the backing storage.
    pub fn en(&self) -> (r: usize)
        ensures
            r == self.end(),
    {
        self.en
    }

    /// Moves the window to storage of its own, if it does not already cover
    /// all of its storage.
    fn detach(&mut self)
        requires
            old(self).wf(),
        ensures
            final(self).wf(),
            final(self)@ == old(self)@,
            final(self).start() == 0,
            final(self).end() == final(self).backing().len(),
            old(self).start() == 0 && old(self).end() == old(self).backing().len() ==> *final(self)
                == *old(self),
    {
        if self.st != 0 || self.en != self.data.len() {
            let v = copy_window(&*self.data, self.st, self.en);
            let n = v.len();
            self.data = Arc::new(v);
            self.st = 0;
            self.en = n;
        }
    }

    /// The storage, moved to storage of its own first if the window does not
    /// cover all of it. The window then ends where it ended before, whatever
    /// the caller does to the storage.
    pub fn data_mut(&mut self) -> (r: &mut Vec<V>)
        requires
            old(self).wf(),
        ensures
            r@ == old(self)@,
            final(self).backing() == final(r)@,
            final(self).start() == 0,
            final(self).end() == old(self)@.len(),
    {
        self.detach();
        arc_make_mut(&mut self.data)
    }

    pub fn push(&mut self, elt: V)
        requires
            old(self).wf(),
        ensures
            final(self).wf(),
            final(self)@ == old(self)@.push(elt),
            old(self).end() == old(self).backing().len() ==> final(self).start() == old(self).start() && final(self).backing() == old(self).backing().push(elt),
            old(self).end() != old(self).backing().len() ==> final(self).start() == 0
                && final(self).backing() == old(self)@.push(elt),
    {
        if self.en != self.data.len() {
            self.detach();
        }
        let v = arc_make_mut(&mut self.data);
        v.push(elt);
        let _ = self.data.len();
        self.en += 1;
        assert(self@ == old(self)@.push(elt));
    }

    pub fn pop(&mut self) -> (r: Option<V>)
        requires
            old(self).wf(),
        ensures
            final(self).wf(),
            old(self)@.len() == 0 ==> r is None && *final(self) == *old(self),
            old(self)@.len() > 0 ==> r == Some(old(self)@.last()) && final(self)@ == old(self)@.drop_last(),
            old(self)@.len() > 0 && old(self).end() == old(self).backing().len() ==> final(self).start() == old(self).start() && final(self).backing() == old(self).backing().drop_last(),
            old(self)@.len() > 0 && old(self).end() != old(self).backing().len() ==> final(self).start() == 0 && final(self).backing() == old(self)@.drop_last(),
    {
        if self.is_empty() {
            return None;
        }
        if self.en != self.data.len() {
            self.detach();
        }
        let v = arc_make_mut(&mut self.data);
        let ret = v.pop();
        self.en -= 1;
        assert(self@ == old(self)@.drop_last());
        ret
    }

    /// Inserts `elt` at position `idx` of the window. A window that does not
    /// cover all of its storage is first moved to storage of its own.
    pub fn insert(&mut self, idx: usize, elt: V)
        requires
            old(self).wf(),
            idx <= old(self)@.len(),
        ensures
            final(self).wf(),
            final(self)@ == old(self)@.insert(idx as int, elt),
    {
        self.detach();
        let v = arc_make_mut(&mut self.data);
        v.insert(idx, elt);
        let _ = self.data.len();
        self.en += 1;
        assert(self@ == old(self)@.insert(idx as int, elt));
    }

    /// The window `range` of this window, counted from its start; the result
    /// may reach past this window's end into the backing storage.
    pub fn subseq(&self, range: (Bound<usize>, Bound<usize>)) -> (r: Self)
        requires
            self.wf(),
            subseq_bounds(self.start(), self.end(), range).0 <= subseq_bounds(
                self.start(),
                self.end(),
                range,
            ).1 <= self.backing().len(),
        ensures
            r.wf(),
            r.backing() == self.backing(),
            (r.start(), r.end()) == subseq_bounds(self.start(), self.end(), range),
            r@ == self.backing().subrange(r.start(), r.end()),
    {
        let _ = self.data.len();
        let st = match range.0 {
            Bound::Included(st) => self.st + st,
            Bound::Excluded(st) => self.st + st + 1,
            Bound::Unbounded => self.st,
        };
        let en = match range.1 {
            Bound::Included(en) => self.st + en + 1,
            Bound::Excluded(en) => self.st + en,
            Bound::Unbounded => self.en,
        };
        Self { data: Arc::clone(&self.data), st, en }
    }
}

/// Where a subsequence `range` of the window `[st, en)` starts and ends in the
/// backing storage.
pub open spec fn subseq_bounds(st: int, en: int, range: (Bound<usize>, Bound<usize>)) -> (
    int,
    int,
) {
    (
        match range.0 {
            Bound::Included(s) => st + s,
            Bound::Excluded(s) => st + s + 1,
            Bound::Unbounded => st,
        },
        match range.1 {
            Bound::Included(e) => st + e + 1,
            Bound::Excluded(e) => st + e,
            Bound::Unbounded => en,
        },
    )
}

impl<V: Copy> Default for SeriesInner<V> {
    fn default() -> (r: Self)
        ensures
            r.wf(),
            r@ == Seq::<V>::empty(),
    {
        Self::empty()
    }
}

} // verus!
