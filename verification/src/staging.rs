//! The staging area: an ordered, height-keyed store of not-yet-applied
//! headers.  The header fetcher fills it, the verifier walks it, the
//! block applier drains it.  It is owned exclusively by one sync run.

use vstd::prelude::*;

use crate::header::Header;

verus! {

/// Heights strictly increase along the sequence: the store holds at most
/// one header per height, in height order.
pub open spec fn sorted_by_height(s: Seq<Header>) -> bool {
    forall|i: int, j: int| 0 <= i < j < s.len() ==> s[i].height < s[j].height
}

/// Index of the first entry with height strictly above `h`.
pub open spec fn cut(s: Seq<Header>, h: u32) -> int
    decreases s.len(),
{
    if s.len() == 0 {
        0
    } else if s[0].height > h {
        0
    } else {
        1 + cut(s.drop_first(), h)
    }
}

/// The store after one header is keyed in: placed at its height, in
/// order, replacing any entry already at that height.
pub open spec fn insert_one(s: Seq<Header>, h: Header) -> Seq<Header>
    decreases s.len(),
{
    if s.len() == 0 {
        seq![h]
    } else if h.height < s[0].height {
        seq![h] + s
    } else if h.height == s[0].height {
        seq![h] + s.drop_first()
    } else {
        seq![s[0]] + insert_one(s.drop_first(), h)
    }
}

/// The store after a whole batch is keyed in, first to last.
pub open spec fn insert_all(s: Seq<Header>, hs: Seq<Header>) -> Seq<Header>
    decreases hs.len(),
{
    if hs.len() == 0 {
        s
    } else {
        insert_all(insert_one(s, hs[0]), hs.drop_first())
    }
}

/// The heights of a run of headers, in the same order.
pub open spec fn heights_of(s: Seq<Header>) -> Seq<u32> {
    s.map_values(|h: Header| h.height)
}

/// The store after every header whose height is listed in `hs` is
/// dropped; the rest keep their order.
pub open spec fn without_heights(s: Seq<Header>, hs: Seq<u32>) -> Seq<Header>
    decreases s.len(),
{
    if s.len() == 0 {
        s
    } else if hs.contains(s[0].height) {
        without_heights(s.drop_first(), hs)
    } else {
        seq![s[0]] + without_heights(s.drop_first(), hs)
    }
}

/// Pins `cut` to the boundary index that a left-to-right scan finds.
pub(crate) proof fn lemma_cut_at(s: Seq<Header>, h: u32, i: int)
    requires
        0 <= i <= s.len(),
        forall|j: int| 0 <= j < i ==> s[j].height <= h,
        i == s.len() || s[i].height > h,
    ensures
        cut(s, h) == i,
    decreases s.len(),
{
    if s.len() > 0 && s[0].height <= h {
        assert(i >= 1);
        lemma_cut_at(s.drop_first(), h, i - 1);
    }
}

/// Every entry of `insert_one(s, h)` is `h` or an entry of `s`.
proof fn lemma_insert_one_members(s: Seq<Header>, h: Header)
    ensures
        forall|k: int|
            0 <= k < insert_one(s, h).len() ==> insert_one(s, h)[k] == h || s.contains(
                insert_one(s, h)[k],
            ),
    decreases s.len(),
{
    if s.len() > 0 && h.height > s[0].height {
        lemma_insert_one_members(s.drop_first(), h);
        assert forall|k: int| 0 <= k < insert_one(s, h).len() implies insert_one(s, h)[k] == h
            || s.contains(insert_one(s, h)[k]) by {
            if k > 0 {
                let x = insert_one(s, h)[k];
                assert(x == insert_one(s.drop_first(), h)[k - 1]);
                if x != h {
                    let j = choose|j: int|
                        0 <= j < s.drop_first().len() && s.drop_first()[j] == x;
                    assert(s[j + 1] == x);
                }
            }
        }
    }
}

/// Keying one header in keeps the store sorted.
proof fn lemma_insert_one_sorted(s: Seq<Header>, h: Header)
    requires
        sorted_by_height(s),
    ensures
        sorted_by_height(insert_one(s, h)),
    decreases s.len(),
{
    if s.len() == 0 {
    } else if h.height < s[0].height {
    } else if h.height == s[0].height {
    } else {
        assert(sorted_by_height(s.drop_first()));
        lemma_insert_one_sorted(s.drop_first(), h);
        lemma_insert_one_members(s.drop_first(), h);
        let t = insert_one(s, h);
        assert forall|i: int, j: int| 0 <= i < j < t.len() implies t[i].height < t[j].height by {
            if i == 0 {
                let x = t[j];
                assert(x == insert_one(s.drop_first(), h)[j - 1]);
                if x != h {
                    let m = choose|m: int|
                        0 <= m < s.drop_first().len() && s.drop_first()[m] == x;
                    assert(s[m + 1] == x);
                }
            } else {
                assert(t[i] == insert_one(s.drop_first(), h)[i - 1]);
                assert(t[j] == insert_one(s.drop_first(), h)[j - 1]);
            }
        }
    }
}

/// What `insert_one` yields at the scan position `i`: the prefix below
/// `h.height`, then `h`, then the rest (its own height dropped if it was
/// already present).
proof fn lemma_insert_one_at(s: Seq<Header>, h: Header, i: int)
    requires
        0 <= i <= s.len(),
        forall|j: int| 0 <= j < i ==> s[j].height < h.height,
        i == s.len() || s[i].height >= h.height,
    ensures
        insert_one(s, h) == if i < s.len() && s[i].height == h.height {
            s.update(i, h)
        } else {
            s.take(i) + seq![h] + s.skip(i)
        },
    decreases s.len(),
{
    if s.len() == 0 {
        assert(insert_one(s, h) =~= s.take(0) + seq![h] + s.skip(0));
    } else if i == 0 {
        if s[0].height == h.height {
            assert(seq![h] + s.drop_first() =~= s.update(0, h));
        } else {
            assert(seq![h] + s =~= s.take(0) + seq![h] + s.skip(0));
        }
    } else {
        lemma_insert_one_at(s.drop_first(), h, i - 1);
        if i < s.len() && s[i].height == h.height {
            assert(s.drop_first()[i - 1].height == h.height);
            assert(seq![s[0]] + s.drop_first().update(i - 1, h) =~= s.update(i, h));
        } else {
            assert(seq![s[0]] + (s.drop_first().take(i - 1) + seq![h] + s.drop_first().skip(i - 1))
                =~= s.take(i) + seq![h] + s.skip(i));
        }
    }
}

/// Every entry that survives the removal is an entry of the store.
proof fn lemma_without_heights_members(s: Seq<Header>, hs: Seq<u32>)
    ensures
        forall|k: int|
            0 <= k < without_heights(s, hs).len() ==> s.contains(
                #[trigger] without_heights(s, hs)[k],
            ),
    decreases s.len(),
{
    if s.len() > 0 {
        lemma_without_heights_members(s.drop_first(), hs);
        assert forall|k: int| 0 <= k < without_heights(s, hs).len() implies s.contains(
            #[trigger] without_heights(s, hs)[k],
        ) by {
            let x = without_heights(s, hs)[k];
            if !(!hs.contains(s[0].height) && k == 0) {
                let d = if hs.contains(s[0].height) {
                    k
                } else {
                    k - 1
                };
                assert(x == without_heights(s.drop_first(), hs)[d]);
                let m = choose|m: int| 0 <= m < s.drop_first().len() && s.drop_first()[m] == x;
                assert(s[m + 1] == x);
            }
        }
    }
}

/// Removal keeps the store sorted.
proof fn lemma_without_heights_sorted(s: Seq<Header>, hs: Seq<u32>)
    requires
        sorted_by_height(s),
    ensures
        sorted_by_height(without_heights(s, hs)),
    decreases s.len(),
{
    if s.len() > 0 {
        assert(sorted_by_height(s.drop_first()));
        lemma_without_heights_sorted(s.drop_first(), hs);
        lemma_without_heights_members(s.drop_first(), hs);
        if !hs.contains(s[0].height) {
            let t = without_heights(s, hs);
            assert forall|i: int, j: int|
                0 <= i < j < t.len() implies t[i].height < t[j].height by {
                if i == 0 {
                    let x = t[j];
                    assert(x == without_heights(s.drop_first(), hs)[j - 1]);
                    let m = choose|m: int|
                        0 <= m < s.drop_first().len() && s.drop_first()[m] == x;
                    assert(s[m + 1] == x);
                } else {
                    assert(t[i] == without_heights(s.drop_first(), hs)[i - 1]);
                    assert(t[j] == without_heights(s.drop_first(), hs)[j - 1]);
                }
            }
        }
    }
}

/// A removal list that hits exactly the first `k` entries leaves the
/// rest of the store.
proof fn lemma_without_heights_is_suffix(s: Seq<Header>, hs: Seq<u32>, k: int)
    requires
        0 <= k <= s.len(),
        forall|i: int| 0 <= i < k ==> hs.contains(#[trigger] s[i].height),
        forall|i: int| k <= i < s.len() ==> !hs.contains(#[trigger] s[i].height),
    ensures
        without_heights(s, hs) == s.skip(k),
    decreases s.len(),
{
    if s.len() == 0 {
        assert(without_heights(s, hs) =~= s.skip(0));
    } else if k > 0 {
        lemma_without_heights_is_suffix(s.drop_first(), hs, k - 1);
        assert(without_heights(s, hs) =~= s.skip(k));
    } else {
        lemma_without_heights_is_suffix(s.drop_first(), hs, 0);
        assert(seq![s[0]] + s.drop_first().skip(0) =~= s.skip(0));
        assert(without_heights(s, hs) =~= s.skip(0));
    }
}

/// The ordered staging area.  Headers are keyed by height; the sequence
/// view lists them in strictly ascending height order.
pub struct HeaderStaging {
    entries: Vec<Header>,
}

impl View for HeaderStaging {
    type V = Seq<Header>;

    closed spec fn view(&self) -> Seq<Header> {
        self.entries@
    }
}

impl HeaderStaging {
    /// The store's invariant: at most one header per height, in order.
    pub open spec fn wf(&self) -> bool {
        sorted_by_height(self@)
    }

    /// An empty staging area.
    pub fn new() -> (r: HeaderStaging)
        ensures
            r@ == Seq::<Header>::empty(),
            r.wf(),
    {
        HeaderStaging { entries: Vec::new() }
    }

    /// How many headers are staged.
    pub fn len(&self) -> (n: usize)
        ensures
            n == self@.len(),
    {
        self.entries.len()
    }

    /// Whether nothing is staged.
    pub fn is_empty(&self) -> (r: bool)
        ensures
            r == (self@.len() == 0),
    {
        self.entries.len() == 0
    }

    /// The staged header of least height, if any.
    pub fn get_first(&self) -> (r: Option<Header>)
        ensures
            match r {
                Some(h) => self@.len() > 0 && h == self@[0],
                None => self@.len() == 0,
            },
    {
        if self.entries.len() == 0 {
            None
        } else {
            Some(self.entries[0])
        }
    }

    /// The staged header of greatest height, if any.
    pub fn get_last(&self) -> (r: Option<Header>)
        ensures
            match r {
                Some(h) => self@.len() > 0 && h == self@[self@.len() - 1],
                None => self@.len() == 0,
            },
    {
        if self.entries.len() == 0 {
            None
        } else {
            Some(self.entries[self.entries.len() - 1])
        }
    }

    /// Keys one header in at its height, replacing any entry already
    /// there.
    pub fn insert(&mut self, h: &Header)
        requires
            old(self).wf(),
        ensures
            final(self).wf(),
            final(self)@ == insert_one(old(self)@, *h),
    {
        let ghost s = self@;
        let mut i: usize = 0;
        while i < self.entries.len() && self.entries[i].height < h.height
            invariant
                i <= s.len(),
                self@ == s,
                forall|j: int| 0 <= j < i ==> s[j].height < h.height,
            decreases self.entries.len() - i,
        {
            i += 1;
        }
        proof {
            lemma_insert_one_at(s, *h, i as int);
        }
        if i < self.entries.len() && self.entries[i].height == h.height {
            self.entries.remove(i);
            self.entries.insert(i, *h);
            assert(self@ =~= s.update(i as int, *h));
        } else {
            self.entries.insert(i, *h);
            assert(self@ =~= s.take(i as int) + seq![*h] + s.skip(i as int));
        }
        proof {
            lemma_insert_one_sorted(s, *h);
        }
    }

    /// Keys a whole batch in, first to last.
    pub fn insert_batch(&mut self, hs: &Vec<Header>)
        requires
            old(self).wf(),
        ensures
            final(self).wf(),
            final(self)@ == insert_all(old(self)@, hs@),
    {
        let ghost s0 = self@;
        proof {
            assert(hs@.skip(0) =~= hs@);
        }
        let mut k: usize = 0;
        while k < hs.len()
            invariant
                k <= hs.len(),
                self.wf(),
                insert_all(s0, hs@) == insert_all(self@, hs@.skip(k as int)),
            decreases hs.len() - k,
        {
            let ghost before = self@;
            let ghost rest = hs@.skip(k as int);
            self.insert(&hs[k]);
            proof {
                assert(rest[0] == hs@[k as int]);
                assert(rest.drop_first() =~= hs@.skip(k as int + 1));
                assert(insert_all(before, rest) == insert_all(
                    insert_one(before, hs@[k as int]),
                    hs@.skip(k as int + 1),
                ));
            }
            k += 1;
        }
        proof {
            assert(hs@.skip(hs@.len() as int) =~= Seq::<Header>::empty());
            assert(insert_all(s0, hs@) == self@);
        }
    }

    /// The first `limit` staged headers with height strictly above `h`,
    /// in height order.
    pub fn get_after(&self, h: u32, limit: usize) -> (r: Vec<Header>)
        requires
            self.wf(),
        ensures
            r@ == self@.subrange(cut(self@, h), cut(self@, h) + r@.len()),
            r@.len() == if limit <= self@.len() - cut(self@, h) {
                limit as int
            } else {
                self@.len() - cut(self@, h)
            },
    {
        let ghost s = self@;
        let mut i: usize = 0;
        while i < self.entries.len() && self.entries[i].height <= h
            invariant
                i <= s.len(),
                self@ == s,
                forall|j: int| 0 <= j < i ==> s[j].height <= h,
            decreases self.entries.len() - i,
        {
            i += 1;
        }
        proof {
            lemma_cut_at(s, h, i as int);
        }
        let mut r: Vec<Header> = Vec::new();
        let mut j: usize = i;
        while j < self.entries.len() && r.len() < limit
            invariant
                i <= j <= s.len(),
                self@ == s,
                r@.len() == j - i,
                r@.len() <= limit,
                r@ == s.subrange(i as int, j as int),
            decreases self.entries.len() - j,
        {
            r.push(self.entries[j]);
            j += 1;
            assert(r@ =~= s.subrange(i as int, j as int));
        }
        r
    }

    /// The first `limit` staged headers, in height order.
    pub fn prefix(&self, limit: usize) -> (r: Vec<Header>)
        ensures
            r@ == self@.take(r@.len() as int),
            r@.len() == if limit <= self@.len() {
                limit as int
            } else {
                self@.len() as int
            },
    {
        let mut r: Vec<Header> = Vec::new();
        let mut j: usize = 0;
        while j < self.entries.len() && j < limit
            invariant
                j <= self@.len(),
                j <= limit,
                r@.len() == j,
                r@ == self@.take(j as int),
            decreases self.entries.len() - j,
        {
            r.push(self.entries[j]);
            j += 1;
            assert(r@ =~= self@.take(j as int));
        }
        r
    }

    /// Removes every staged header whose height is listed.
    pub fn remove(&mut self, heights: &Vec<u32>)
        requires
            old(self).wf(),
        ensures
            final(self).wf(),
            final(self)@ == without_heights(old(self)@, heights@),
    {
        let ghost s = self@;
        let mut out: Vec<Header> = Vec::new();
        let mut k: usize = 0;
        proof {
            assert(s.skip(0) =~= s);
        }
        while k < self.entries.len()
            invariant
                k <= s.len(),
                self@ == s,
                without_heights(s, heights@) == out@ + without_heights(
                    s.skip(k as int),
                    heights@,
                ),
            decreases self.entries.len() - k,
        {
            let ghost before = out@;
            let x = self.entries[k];
            let keep = !contains_height(heights, x.height);
            if keep {
                out.push(x);
            }
            k += 1;
            proof {
                let rest = s.skip(k as int - 1);
                assert(rest[0] == s[k as int - 1]);
                assert(rest.drop_first() =~= s.skip(k as int));
                if keep {
                    assert(out@ =~= before + seq![x]);
                    assert(before + (seq![x] + without_heights(s.skip(k as int), heights@))
                        =~= out@ + without_heights(s.skip(k as int), heights@));
                }
            }
        }
        proof {
            assert(s.skip(s.len() as int) =~= Seq::<Header>::empty());
            assert(out@ + Seq::<Header>::empty() =~= out@);
            lemma_without_heights_sorted(s, heights@);
        }
        self.entries = out;
    }

    /// Removes exactly the first `count` staged headers.  `count` must
    /// name the heights actually staged there, which the caller has just
    /// read; the store keeps the rest.
    pub fn remove_prefix(&mut self, count: usize)
        requires
            old(self).wf(),
            count <= old(self)@.len(),
        ensures
            final(self).wf(),
            final(self)@ == old(self)@.skip(count as int),
    {
        let ghost s = self@;
        let mut heights: Vec<u32> = Vec::new();
        let mut k: usize = 0;
        while k < count
            invariant
                k <= count <= s.len(),
                self@ == s,
                self.wf(),
                heights@ == heights_of(s.take(k as int)),
            decreases count - k,
        {
            heights.push(self.entries[k].height);
            k += 1;
            assert(heights@ =~= heights_of(s.take(k as int)));
        }
        self.remove(&heights);
        proof {
            let hs = heights_of(s.take(count as int));
            assert forall|i: int| 0 <= i < count implies hs.contains(#[trigger] s[i].height) by {
                assert(hs[i] == s[i].height);
            }
            assert forall|i: int| count <= i < s.len() implies !hs.contains(
                #[trigger] s[i].height,
            ) by {
                if hs.contains(s[i].height) {
                    let m = choose|m: int| 0 <= m < hs.len() && hs[m] == s[i].height;
                    assert(s.take(count as int)[m].height == s[i].height);
                    assert(s[m].height == s[i].height);
                }
            }
            lemma_without_heights_is_suffix(s, hs, count as int);
        }
    }

    /// Purges the whole staging area.
    pub fn remove_all(&mut self)
        ensures
            final(self).wf(),
            final(self)@ == Seq::<Header>::empty(),
    {
        self.entries.clear();
    }
}

/// Whether `h` occurs in `heights`.
fn contains_height(heights: &Vec<u32>, h: u32) -> (r: bool)
    ensures
        r == heights@.contains(h),
{
    let mut i: usize = 0;
    while i < heights.len()
        invariant
            i <= heights@.len(),
            forall|j: int| 0 <= j < i ==> heights@[j] != h,
        decreases heights.len() - i,
    {
        if heights[i] == h {
            return true;
        }
        i += 1;
    }
    false
}

} // verus!
