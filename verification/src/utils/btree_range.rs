//! A map from half-open ranges of addresses to values, found again by any
//! address inside a range.

use vstd::prelude::*;

verus! {

/// A value together with the address at which its range ends (exclusive).
#[derive(Debug, Clone)]
pub struct RangeItem<T> {
    pub data: T,
    pub end: usize,
}

impl<T> RangeItem<T> {
    pub fn new(data: T, end: usize) -> (item: Self)
        ensures
            item.data == data,
            item.end == end,
    {
        Self { data, end }
    }
}

/// One end of a range of addresses.
#[derive(Debug, Clone, Copy, PartialEq, Eq, Structural)]
pub enum Bound {
    Included(usize),
    Excluded(usize),
    Unbounded,
}

/// The first address of a range that starts at `bound`.
pub open spec fn start_of(bound: Bound) -> int {
    match bound {
        Bound::Excluded(n) => n + 1,
        Bound::Included(n) => n as int,
        Bound::Unbounded => 0,
    }
}

/// The first address after a range that ends at `bound`.
pub open spec fn end_of(bound: Bound) -> int {
    match bound {
        Bound::Excluded(n) => n as int,
        Bound::Included(n) => n + 1,
        Bound::Unbounded => usize::MAX as int,
    }
}

/// Ranges keyed by their first address. The entries are kept in the order of
/// their keys.
#[derive(Debug, Clone)]
pub struct BTreeRange<T> {
    entries: Vec<(usize, RangeItem<T>)>,
}

/// Whether the keys grow strictly along the sequence.
pub open spec fn sorted<T>(s: Seq<(usize, RangeItem<T>)>) -> bool {
    forall|i: int, j: int| 0 <= i < j < s.len() ==> s[i].0 < s[j].0
}

/// Whether some entry has the key `k`.
pub open spec fn has_key<T>(s: Seq<(usize, RangeItem<T>)>, k: usize) -> bool {
    exists|i: int| 0 <= i < s.len() && (#[trigger] s[i]).0 == k
}

/// The entries as a map from key to item.
pub open spec fn entries_map<T>(s: Seq<(usize, RangeItem<T>)>) -> Map<usize, RangeItem<T>> {
    Map::new(
        |k: usize| has_key(s, k),
        |k: usize| s[choose|i: int| 0 <= i < s.len() && (#[trigger] s[i]).0 == k].1,
    )
}

/// The greatest key that is not above `index`, where there is one.
pub open spec fn is_floor<T>(m: Map<usize, RangeItem<T>>, index: usize, k: usize) -> bool {
    &&& m.contains_key(k)
    &&& k <= index
    &&& forall|k2: usize| #[trigger] m.contains_key(k2) && k2 <= index ==> k2 <= k
}

/// The key of the range that holds `index`: the greatest key not above it,
/// provided that range has not ended before `index`.
pub open spec fn covers<T>(m: Map<usize, RangeItem<T>>, index: usize, k: usize) -> bool {
    is_floor(m, index, k) && index < m[k].end
}

/// Whether the interval `[first, last]` reaches the range from `start` up to
/// `end`: whether the two have an index in common.
pub open spec fn touches(start: usize, end: usize, first: usize, last: usize) -> bool {
    first <= last && start < end && first < end && start <= last
}

/// An interval reaches a range exactly if some index lies in both.
pub proof fn lemma_touches_is_intersection(start: usize, end: usize, first: usize, last: usize)
    ensures
        touches(start, end, first, last) <==> exists|x: usize|
            #![trigger in_both(start, end, first, last, x)]
            in_both(start, end, first, last, x),
{
    if touches(start, end, first, last) {
        let x = if start >= first {
            start
        } else {
            first
        };
        assert(in_both(start, end, first, last, x));
    }
}

/// Whether `x` lies in the range from `start` up to `end` and in the
/// interval `[first, last]`.
pub open spec fn in_both(start: usize, end: usize, first: usize, last: usize, x: usize) -> bool {
    start <= x < end && first <= x <= last
}

/// The keys of the ranges that the interval `[first, last]` reaches.
pub open spec fn touched_keys<T>(m: Map<usize, RangeItem<T>>, first: usize, last: usize) -> Set<
    usize,
> {
    Set::new(|k: usize| m.contains_key(k) && touches(k, m[k].end, first, last))
}

/// The entries that the interval `[first, last]` does not reach, in order.
pub open spec fn kept_entries<T>(s: Seq<(usize, RangeItem<T>)>, first: usize, last: usize) -> Seq<
    (usize, RangeItem<T>),
>
    decreases s.len(),
{
    if s.len() == 0 {
        seq![]
    } else if touches(s.last().0, s.last().1.end, first, last) {
        kept_entries(s.drop_last(), first, last)
    } else {
        kept_entries(s.drop_last(), first, last).push(s.last())
    }
}

/// Key and value of the entries that the interval `[first, last]` reaches, in
/// order.
pub open spec fn dropped_entries<T>(
    s: Seq<(usize, RangeItem<T>)>,
    first: usize,
    last: usize,
) -> Seq<(usize, T)>
    decreases s.len(),
{
    if s.len() == 0 {
        seq![]
    } else if touches(s.last().0, s.last().1.end, first, last) {
        dropped_entries(s.drop_last(), first, last).push((s.last().0, s.last().1.data))
    } else {
        dropped_entries(s.drop_last(), first, last)
    }
}

/// In a sorted sequence every entry is found under its own key.
pub proof fn lemma_entries_map_index<T>(s: Seq<(usize, RangeItem<T>)>, i: int)
    requires
        sorted(s),
        0 <= i < s.len(),
    ensures
        entries_map(s).contains_key(s[i].0),
        entries_map(s)[s[i].0] == s[i].1,
{
    let k = s[i].0;
    assert(has_key(s, k));
    let j = choose|j: int| 0 <= j < s.len() && (#[trigger] s[j]).0 == k;
    if j < i {
        assert(s[j].0 < s[i].0);
    }
    if i < j {
        assert(s[i].0 < s[j].0);
    }
}

/// At most one range holds a given address.
pub proof fn lemma_covers_unique<T>(m: Map<usize, RangeItem<T>>, index: usize, a: usize, b: usize)
    requires
        is_floor(m, index, a),
        is_floor(m, index, b),
    ensures
        a == b,
{
}

impl<T> View for BTreeRange<T> {
    type V = Map<usize, RangeItem<T>>;

    closed spec fn view(&self) -> Map<usize, RangeItem<T>> {
        entries_map(self.entries@)
    }
}

impl<T> BTreeRange<T> {
    /// The keys grow strictly along the entries.
    pub closed spec fn wf(&self) -> bool {
        sorted(self.entries@)
    }

    pub fn new() -> (r: Self)
        ensures
            r.wf(),
            r@ == Map::<usize, RangeItem<T>>::empty(),
    {
        let r = Self { entries: Vec::new() };
        assert(r@ =~= Map::<usize, RangeItem<T>>::empty());
        r
    }

    /// The number of ranges.
    pub fn len(&self) -> (n: usize)
        requires
            self.wf(),
        ensures
            n == self@.len(),
            self@.dom().finite(),
    {
        proof {
            self.lemma_len();
        }
        self.entries.len()
    }

    proof fn lemma_len(&self)
        requires
            self.wf(),
        ensures
            self@.dom().finite(),
            self@.len() == self.entries@.len(),
    {
        lemma_entries_len(self.entries@);
    }

    /// The position of the first entry whose key is not below `key`.
    fn lower_bound(&self, key: usize) -> (pos: usize)
        requires
            self.wf(),
        ensures
            pos <= self.entries@.len(),
            forall|i: int| 0 <= i < pos ==> self.entries@[i].0 < key,
            forall|i: int| pos <= i < self.entries@.len() ==> self.entries@[i].0 >= key,
    {
        let mut lo: usize = 0;
        let mut hi: usize = self.entries.len();
        while lo < hi
            invariant
                lo <= hi <= self.entries@.len(),
                sorted(self.entries@),
                forall|i: int| 0 <= i < lo ==> self.entries@[i].0 < key,
                forall|i: int| hi <= i < self.entries@.len() ==> self.entries@[i].0 >= key,
            decreases hi - lo,
        {
            let mid = lo + (hi - lo) / 2;
            if self.entries[mid].0 < key {
                lo = mid + 1;
            } else {
                hi = mid;
            }
        }
        lo
    }

    /// Maps the range `[start, end)` to `value`. A range that was stored
    /// under the same first address is replaced.
    pub fn insert_range(&mut self, start: usize, end: usize, value: T)
        requires
            old(self).wf(),
        ensures
            final(self).wf(),
            final(self)@ == old(self)@.insert(start, RangeItem { data: value, end }),
    {
        let pos = self.lower_bound(start);
        let item = RangeItem::new(value, end);
        let ghost before = self.entries@;
        if pos < self.entries.len() && self.entries[pos].0 == start {
            self.entries[pos] = (start, item);
            proof {
                lemma_update_map(before, pos as int, start, item);
            }
        } else {
            self.entries.insert(pos, (start, item));
            proof {
                lemma_insert_map(before, pos as int, start, item);
            }
        }
    }

    /// Maps the range between the two bounds to `value`.
    pub fn insert(&mut self, start: Bound, end: Bound, value: T)
        requires
            old(self).wf(),
            start_of(start) <= usize::MAX,
            end_of(end) <= usize::MAX,
        ensures
            final(self).wf(),
            final(self)@ == old(self)@.insert(
                start_of(start) as usize,
                RangeItem { data: value, end: end_of(end) as usize },
            ),
    {
        let first = match start {
            Bound::Excluded(n) => n + 1,
            Bound::Included(n) => n,
            Bound::Unbounded => 0,
        };
        let last = match end {
            Bound::Excluded(n) => n,
            Bound::Included(n) => n + 1,
            Bound::Unbounded => usize::MAX,
        };
        self.insert_range(first, last, value);
    }

    /// The position of the entry whose range holds `index`.
    fn covering_position(&self, index: usize) -> (r: Option<usize>)
        requires
            self.wf(),
        ensures
            match r {
                Some(pos) => pos < self.entries@.len() && covers(
                    self@,
                    index,
                    self.entries@[pos as int].0,
                ),
                None => forall|k: usize| !covers(self@, index, k),
            },
    {
        // the first entry that starts above `index` follows the candidate
        let mut lo: usize = 0;
        let mut hi: usize = self.entries.len();
        while lo < hi
            invariant
                lo <= hi <= self.entries@.len(),
                sorted(self.entries@),
                forall|i: int| 0 <= i < lo ==> self.entries@[i].0 <= index,
                forall|i: int| hi <= i < self.entries@.len() ==> self.entries@[i].0 > index,
            decreases hi - lo,
        {
            let mid = lo + (hi - lo) / 2;
            if self.entries[mid].0 <= index {
                lo = mid + 1;
            } else {
                hi = mid;
            }
        }
        if lo == 0 {
            proof {
                assert forall|k: usize| !covers(self@, index, k) by {
                    if covers(self@, index, k) {
                        let i = choose|i: int|
                            0 <= i < self.entries@.len() && (#[trigger] self.entries@[i]).0 == k;
                    }
                }
            }
            return None;
        }
        let pos = lo - 1;
        proof {
            let s = self.entries@;
            let key = s[pos as int].0;
            lemma_entries_map_index(s, pos as int);
            assert forall|k2: usize| #[trigger] self@.contains_key(k2) && k2 <= index implies k2
                <= key by {
                let j = choose|j: int| 0 <= j < s.len() && (#[trigger] s[j]).0 == k2;
                if j > pos {
                    assert(s[j].0 > index);
                }
                if j < pos {
                    assert(s[j].0 < s[pos as int].0);
                }
            }
            assert(is_floor(self@, index, key));
        }
        if index < self.entries[pos].1.end {
            Some(pos)
        } else {
            proof {
                let key = self.entries@[pos as int].0;
                assert forall|k: usize| !covers(self@, index, k) by {
                    if covers(self@, index, k) {
                        lemma_covers_unique(self@, index, k, key);
                    }
                }
            }
            None
        }
    }

    /// The value of the range that holds `index`, with the distance of
    /// `index` from the start of that range.
    pub fn get_offset_value(&self, index: usize) -> (r: Option<(usize, &T)>)
        requires
            self.wf(),
        ensures
            match r {
                Some((offset, data)) => offset <= index && covers(
                    self@,
                    index,
                    (index - offset) as usize,
                ) && *data == self@[(index - offset) as usize].data,
                None => forall|k: usize| !covers(self@, index, k),
            },
    {
        match self.covering_position(index) {
            Some(pos) => {
                proof {
                    lemma_entries_map_index(self.entries@, pos as int);
                }
                let entry = &self.entries[pos];
                Some((index - entry.0, &entry.1.data))
            },
            None => None,
        }
    }

    /// The value of the range that holds `index`.
    pub fn get(&self, index: usize) -> (r: Option<&T>)
        requires
            self.wf(),
        ensures
            match r {
                Some(data) => exists|k: usize| covers(self@, index, k) && *data == self@[k].data,
                None => forall|k: usize| !covers(self@, index, k),
            },
    {
        match self.get_offset_value(index) {
            Some((offset, value)) => {
                assert(covers(self@, index, (index - offset) as usize));
                Some(value)
            },
            None => None,
        }
    }

    /// The value of the range that holds `index`, to be changed in place, with
    /// the distance of `index` from the start of that range.
    pub fn get_offset_value_mut(&mut self, index: usize) -> (r: Option<(usize, &mut T)>)
        requires
            old(self).wf(),
        ensures
            final(self).wf(),
            match r {
                Some((offset, data)) => {
                    let k = (index - offset) as usize;
                    &&& offset <= index
                    &&& covers(old(self)@, index, k)
                    &&& *data == old(self)@[k].data
                    &&& final(self)@ == old(self)@.insert(
                        k,
                        RangeItem { data: *final(data), end: old(self)@[k].end },
                    )
                },
                None => final(self)@ == old(self)@ && forall|k: usize|
                    !covers(old(self)@, index, k),
            },
    {
        match self.covering_position(index) {
            Some(pos) => {
                let ghost before = self.entries@;
                proof {
                    lemma_entries_map_index(before, pos as int);
                }
                let entry = &mut self.entries[pos];
                let offset = index - entry.0;
                let data = &mut entry.1.data;
                proof {
                    lemma_update_map(
                        before,
                        pos as int,
                        before[pos as int].0,
                        RangeItem { data: *final(data), end: before[pos as int].1.end },
                    );
                }
                Some((offset, data))
            },
            None => None,
        }
    }

    /// The value of the range that holds `index`, to be changed in place.
    pub fn get_mut(&mut self, index: usize) -> (r: Option<&mut T>)
        requires
            old(self).wf(),
        ensures
            final(self).wf(),
            match r {
                Some(data) => exists|k: usize|
                    {
                        &&& covers(old(self)@, index, k)
                        &&& *data == old(self)@[k].data
                        &&& final(self)@ == old(self)@.insert(
                            k,
                            RangeItem { data: *final(data), end: old(self)@[k].end },
                        )
                    },
                None => final(self)@ == old(self)@ && forall|k: usize|
                    !covers(old(self)@, index, k),
            },
    {
        match self.get_offset_value_mut(index) {
            Some((offset, value)) => {
                assert(covers(old(self)@, index, (index - offset) as usize));
                Some(value)
            },
            None => None,
        }
    }

    /// The value of the range that starts exactly at `index`.
    pub fn get_exact(&self, index: usize) -> (r: Option<&T>)
        requires
            self.wf(),
        ensures
            match r {
                Some(data) => self@.contains_key(index) && *data == self@[index].data,
                None => !self@.contains_key(index),
            },
    {
        let pos = self.lower_bound(index);
        if pos < self.entries.len() && self.entries[pos].0 == index {
            proof {
                lemma_entries_map_index(self.entries@, pos as int);
            }
            Some(&self.entries[pos].1.data)
        } else {
            proof {
                if self@.contains_key(index) {
                    let s = self.entries@;
                    let j = choose|j: int| 0 <= j < s.len() && (#[trigger] s[j]).0 == index;
                    if j < pos {
                        assert(s[j].0 < index);
                    } else if j > pos {
                        assert(s[pos as int].0 < s[j].0);
                    }
                }
            }
            None
        }
    }

    /// Removes every range that the interval `[first, last]` reaches, and
    /// hands back the key and the value of each, in the order of the keys.
    pub fn remove_touching(&mut self, first: usize, last: usize) -> (removed: Vec<(usize, T)>)
        requires
            old(self).wf(),
        ensures
            final(self).wf(),
            final(self)@ == old(self)@.remove_keys(touched_keys(old(self)@, first, last)),
            forall|r: int|
                0 <= r < removed@.len() ==> {
                    &&& touched_keys(old(self)@, first, last).contains((#[trigger] removed@[r]).0)
                    &&& removed@[r].1 == old(self)@[removed@[r].0].data
                },
            forall|k: usize|
                touched_keys(old(self)@, first, last).contains(k) ==> exists|r: int|
                    0 <= r < removed@.len() && (#[trigger] removed@[r]).0 == k,
            forall|r: int, q: int| 0 <= r < q < removed@.len() ==> removed@[r].0 < removed@[q].0,
    {
        let ghost before = self.entries@;
        let mut removed: Vec<(usize, T)> = Vec::new();
        let mut i: usize = 0;
        let ghost mut p: int = 0;
        while i < self.entries.len()
            invariant
                0 <= p <= before.len(),
                i <= self.entries@.len(),
                i == kept_entries(before.take(p), first, last).len(),
                self.entries@ == kept_entries(before.take(p), first, last) + before.skip(p),
                removed@ == dropped_entries(before.take(p), first, last),
            decreases self.entries@.len() - i,
        {
            let ghost cur = self.entries@;
            let start = self.entries[i].0;
            let end = self.entries[i].1.end;
            proof {
                assert(cur[i as int] == before.skip(p)[0]);
                assert(before.take(p + 1).drop_last() =~= before.take(p));
                assert(before.take(p + 1).last() == before[p]);
            }
            if first <= last && start < end && first < end && start <= last {
                let (key, item) = self.entries.remove(i);
                removed.push((key, item.data));
                proof {
                    assert(self.entries@ =~= kept_entries(before.take(p + 1), first, last)
                        + before.skip(p + 1));
                }
            } else {
                proof {
                    assert(self.entries@ =~= kept_entries(before.take(p + 1), first, last)
                        + before.skip(p + 1));
                }
                i = i + 1;
            }
            proof {
                p = p + 1;
            }
        }
        proof {
            assert(before.skip(p).len() == 0);
            assert(before.take(p) =~= before);
            assert(self.entries@ =~= kept_entries(before, first, last));
            lemma_kept_entries(before, first, last);
            lemma_dropped_entries(before, first, last);
        }
        removed
    }

    /// Whether a range starts exactly at `index`.
    pub fn contains_exact(&self, index: usize) -> (b: bool)
        requires
            self.wf(),
        ensures
            b == self@.contains_key(index),
    {
        self.get_exact(index).is_some()
    }
}

/// Entry `q` of `s` is `e`, and the interval does not reach it.
pub open spec fn kept_from<T>(
    s: Seq<(usize, RangeItem<T>)>,
    first: usize,
    last: usize,
    e: (usize, RangeItem<T>),
    q: int,
) -> bool {
    0 <= q < s.len() && e == s[q] && !touches(s[q].0, s[q].1.end, first, last)
}

/// Entry `q` of `s` has the key and value `e`, and the interval reaches it.
pub open spec fn dropped_from<T>(
    s: Seq<(usize, RangeItem<T>)>,
    first: usize,
    last: usize,
    e: (usize, T),
    q: int,
) -> bool {
    0 <= q < s.len() && e == (s[q].0, s[q].1.data) && touches(s[q].0, s[q].1.end, first, last)
}

/// Entry `q` of `s` exists and the interval does not reach it.
pub open spec fn spared<T>(s: Seq<(usize, RangeItem<T>)>, first: usize, last: usize, q: int) -> bool {
    0 <= q < s.len() && !touches(s[q].0, s[q].1.end, first, last)
}

/// Entry `q` of `s` exists and the interval reaches it.
pub open spec fn struck<T>(s: Seq<(usize, RangeItem<T>)>, first: usize, last: usize, q: int) -> bool {
    0 <= q < s.len() && touches(s[q].0, s[q].1.end, first, last)
}

/// Position `j` of the sequence `k` holds `e`.
pub open spec fn found_at<A>(k: Seq<A>, e: A, j: int) -> bool {
    0 <= j < k.len() && k[j] == e
}

/// A prefix of a sorted sequence is sorted.
pub proof fn lemma_sorted_drop_last<T>(s: Seq<(usize, RangeItem<T>)>)
    requires
        sorted(s),
        s.len() > 0,
    ensures
        sorted(s.drop_last()),
{
    let h = s.drop_last();
    assert forall|i: int, j: int| 0 <= i < j < h.len() implies h[i].0 < h[j].0 by {
        assert(s[i].0 < s[j].0);
    }
}

/// Where the kept entries come from: each is an entry that is not struck,
/// and every such entry is kept.
pub proof fn lemma_kept_origin<T>(s: Seq<(usize, RangeItem<T>)>, first: usize, last: usize)
    ensures
        forall|e: (usize, RangeItem<T>), j: int| #[trigger]
            found_at(kept_entries(s, first, last), e, j) ==> exists|q: int| #[trigger]
                kept_from(s, first, last, e, q),
        forall|q: int|
            #[trigger] spared(s, first, last, q) ==> exists|j: int|
                #[trigger] found_at(kept_entries(s, first, last), s[q], j),
    decreases s.len(),
{
    if s.len() > 0 {
        let h = s.drop_last();
        lemma_kept_origin(h, first, last);
        let kh = kept_entries(h, first, last);
        let k = kept_entries(s, first, last);
        assert forall|e: (usize, RangeItem<T>), j: int| #[trigger]
            found_at(k, e, j) implies exists|q: int| #[trigger] kept_from(s, first, last, e, q) by {
            if j < kh.len() {
                assert(found_at(kh, e, j));
                let q = choose|q: int| #[trigger] kept_from(h, first, last, e, q);
                assert(kept_from(s, first, last, e, q));
            } else {
                assert(kept_from(s, first, last, e, s.len() - 1));
            }
        }
        assert forall|q: int| #[trigger] spared(s, first, last, q) implies exists|j: int|
            #[trigger] found_at(k, s[q], j) by {
            if q < h.len() {
                assert(h[q] == s[q]);
                assert(spared(h, first, last, q));
                let j = choose|j: int| #[trigger] found_at(kh, h[q], j);
                assert(found_at(k, s[q], j));
            } else {
                assert(found_at(k, s[q], k.len() - 1));
            }
        }
    } else {
        assert(kept_entries(s, first, last).len() == 0);
    }
}

/// The kept entries of a sorted sequence are sorted.
pub proof fn lemma_kept_sorted<T>(s: Seq<(usize, RangeItem<T>)>, first: usize, last: usize)
    requires
        sorted(s),
    ensures
        sorted(kept_entries(s, first, last)),
    decreases s.len(),
{
    if s.len() > 0 {
        let h = s.drop_last();
        lemma_sorted_drop_last(s);
        lemma_kept_sorted(h, first, last);
        lemma_kept_origin(h, first, last);
        let kh = kept_entries(h, first, last);
        let k = kept_entries(s, first, last);
        assert forall|i: int, j: int| 0 <= i < j < k.len() implies k[i].0 < k[j].0 by {
            if j < kh.len() {
                assert(kh[i].0 < kh[j].0);
            } else {
                assert(found_at(kh, kh[i], i));
                let q = choose|q: int| #[trigger] kept_from(h, first, last, kh[i], q);
                assert(s[q].0 < s[s.len() - 1].0);
            }
        }
    }
}

/// As a map, the kept entries are the old map without the keys that were
/// struck.
pub proof fn lemma_kept_entries<T>(s: Seq<(usize, RangeItem<T>)>, first: usize, last: usize)
    requires
        sorted(s),
    ensures
        sorted(kept_entries(s, first, last)),
        entries_map(kept_entries(s, first, last)) == entries_map(s).remove_keys(
            touched_keys(entries_map(s), first, last),
        ),
{
    let k = kept_entries(s, first, last);
    lemma_kept_origin(s, first, last);
    lemma_kept_sorted(s, first, last);
    let m = entries_map(s);
    let gone = touched_keys(m, first, last);
    let target = m.remove_keys(gone);
    assert forall|key: usize| #[trigger] entries_map(k).contains_key(key) implies target.contains_key(
        key,
    ) && entries_map(k)[key] == target[key] by {
        let j = choose|j: int| 0 <= j < k.len() && (#[trigger] k[j]).0 == key;
        lemma_entries_map_index(k, j);
        assert(found_at(k, k[j], j));
        let q = choose|q: int| #[trigger] kept_from(s, first, last, k[j], q);
        lemma_entries_map_index(s, q);
    }
    assert forall|key: usize| #[trigger] target.contains_key(key) implies entries_map(
        k,
    ).contains_key(key) by {
        let q = choose|q: int| 0 <= q < s.len() && (#[trigger] s[q]).0 == key;
        lemma_entries_map_index(s, q);
        assert(spared(s, first, last, q));
        let j = choose|j: int| #[trigger] found_at(k, s[q], j);
        assert(k[j].0 == key);
    }
    assert forall|key: usize| entries_map(k).dom().contains(key) <==> target.dom().contains(
        key,
    ) by {
        assert(entries_map(k).contains_key(key) ==> target.contains_key(key));
        assert(target.contains_key(key) ==> entries_map(k).contains_key(key));
    }
    assert(entries_map(k).dom() =~= target.dom());
    assert(entries_map(k) =~= target);
}

/// Where the dropped entries come from: each is an entry that is struck, and
/// every such entry is dropped.
pub proof fn lemma_dropped_origin<T>(s: Seq<(usize, RangeItem<T>)>, first: usize, last: usize)
    ensures
        forall|e: (usize, T), r: int| #[trigger]
            found_at(dropped_entries(s, first, last), e, r) ==> exists|q: int| #[trigger]
                dropped_from(s, first, last, e, q),
        forall|q: int|
            #[trigger] struck(s, first, last, q) ==> exists|r: int|
                #[trigger] found_at(
                    dropped_entries(s, first, last),
                    (s[q].0, s[q].1.data),
                    r,
                ),
    decreases s.len(),
{
    if s.len() > 0 {
        let h = s.drop_last();
        lemma_dropped_origin(h, first, last);
        let dh = dropped_entries(h, first, last);
        let d = dropped_entries(s, first, last);
        assert forall|e: (usize, T), r: int| #[trigger] found_at(d, e, r) implies exists|q: int|
            #[trigger] dropped_from(s, first, last, e, q) by {
            if r < dh.len() {
                assert(found_at(dh, e, r));
                let q = choose|q: int| #[trigger] dropped_from(h, first, last, e, q);
                assert(dropped_from(s, first, last, e, q));
            } else {
                assert(dropped_from(s, first, last, e, s.len() - 1));
            }
        }
        assert forall|q: int| #[trigger] struck(s, first, last, q) implies exists|r: int|
            #[trigger] found_at(d, (s[q].0, s[q].1.data), r) by {
            if q < h.len() {
                assert(h[q] == s[q]);
                assert(struck(h, first, last, q));
                let r = choose|r: int| #[trigger] found_at(dh, (h[q].0, h[q].1.data), r);
                assert(found_at(d, (s[q].0, s[q].1.data), r));
            } else {
                assert(found_at(d, (s[q].0, s[q].1.data), d.len() - 1));
            }
        }
    } else {
        assert(dropped_entries(s, first, last).len() == 0);
    }
}

/// The dropped entries of a sorted sequence come in the order of their keys.
pub proof fn lemma_dropped_sorted<T>(s: Seq<(usize, RangeItem<T>)>, first: usize, last: usize)
    requires
        sorted(s),
    ensures
        forall|r: int, q: int|
            0 <= r < q < dropped_entries(s, first, last).len() ==> dropped_entries(
                s,
                first,
                last,
            )[r].0 < dropped_entries(s, first, last)[q].0,
    decreases s.len(),
{
    if s.len() > 0 {
        let h = s.drop_last();
        lemma_sorted_drop_last(s);
        lemma_dropped_sorted(h, first, last);
        lemma_dropped_origin(h, first, last);
        let dh = dropped_entries(h, first, last);
        let d = dropped_entries(s, first, last);
        assert forall|r: int, q: int| 0 <= r < q < d.len() implies d[r].0 < d[q].0 by {
            if q < dh.len() {
                assert(dh[r].0 < dh[q].0);
            } else {
                assert(found_at(dh, dh[r], r));
                let o = choose|o: int| #[trigger] dropped_from(h, first, last, dh[r], o);
                assert(s[o].0 < s[s.len() - 1].0);
            }
        }
    }
}

/// The dropped entries are exactly the entries under the struck keys, each
/// once, in the order of the keys.
pub proof fn lemma_dropped_entries<T>(s: Seq<(usize, RangeItem<T>)>, first: usize, last: usize)
    requires
        sorted(s),
    ensures
        forall|r: int|
            0 <= r < dropped_entries(s, first, last).len() ==> {
                &&& touched_keys(entries_map(s), first, last).contains(
                    (#[trigger] dropped_entries(s, first, last)[r]).0,
                )
                &&& dropped_entries(s, first, last)[r].1 == entries_map(s)[dropped_entries(
                    s,
                    first,
                    last,
                )[r].0].data
            },
        forall|k: usize|
            touched_keys(entries_map(s), first, last).contains(k) ==> exists|r: int|
                0 <= r < dropped_entries(s, first, last).len() && (#[trigger] dropped_entries(
                    s,
                    first,
                    last,
                )[r]).0 == k,
        forall|r: int, q: int|
            0 <= r < q < dropped_entries(s, first, last).len() ==> dropped_entries(
                s,
                first,
                last,
            )[r].0 < dropped_entries(s, first, last)[q].0,
{
    let d = dropped_entries(s, first, last);
    let m = entries_map(s);
    lemma_dropped_origin(s, first, last);
    lemma_dropped_sorted(s, first, last);
    assert forall|r: int| 0 <= r < d.len() implies {
        &&& touched_keys(m, first, last).contains((#[trigger] d[r]).0)
        &&& d[r].1 == m[d[r].0].data
    } by {
        assert(found_at(d, d[r], r));
        let q = choose|q: int| #[trigger] dropped_from(s, first, last, d[r], q);
        lemma_entries_map_index(s, q);
    }
    assert forall|k: usize| touched_keys(m, first, last).contains(k) implies exists|r: int|
        0 <= r < d.len() && (#[trigger] d[r]).0 == k by {
        let q = choose|q: int| 0 <= q < s.len() && (#[trigger] s[q]).0 == k;
        lemma_entries_map_index(s, q);
        assert(struck(s, first, last, q));
        let r = choose|r: int| #[trigger] found_at(d, (s[q].0, s[q].1.data), r);
        assert(d[r].0 == k);
    }
}

/// A sorted sequence has as many keys as entries.
pub proof fn lemma_entries_len<T>(s: Seq<(usize, RangeItem<T>)>)
    requires
        sorted(s),
    ensures
        entries_map(s).dom().finite(),
        entries_map(s).dom().len() == s.len(),
    decreases s.len(),
{
    if s.len() == 0 {
        assert(entries_map(s).dom() =~= Set::<usize>::empty());
    } else {
        let head = s.drop_last();
        let last = s.last();
        lemma_entries_len(head);
        assert(entries_map(s).dom() =~= entries_map(head).dom().insert(last.0)) by {
            assert forall|k: usize| entries_map(s).dom().contains(k) implies entries_map(
                head,
            ).dom().insert(last.0).contains(k) by {
                let i = choose|i: int| 0 <= i < s.len() && (#[trigger] s[i]).0 == k;
                if i < s.len() - 1 {
                    assert(head[i].0 == k);
                }
            }
            assert forall|k: usize| entries_map(head).dom().insert(last.0).contains(
                k,
            ) implies entries_map(s).dom().contains(k) by {
                if k == last.0 {
                    assert(s[s.len() - 1].0 == k);
                } else {
                    let i = choose|i: int| 0 <= i < head.len() && (#[trigger] head[i]).0 == k;
                    assert(s[i].0 == k);
                }
            }
        }
        assert(!entries_map(head).dom().contains(last.0)) by {
            if entries_map(head).dom().contains(last.0) {
                let i = choose|i: int| 0 <= i < head.len() && (#[trigger] head[i]).0 == last.0;
                assert(s[i].0 < s[s.len() - 1].0);
            }
        }
    }
}

/// Replacing the item of an entry is an insertion under its key.
pub proof fn lemma_update_map<T>(
    s: Seq<(usize, RangeItem<T>)>,
    pos: int,
    key: usize,
    item: RangeItem<T>,
)
    requires
        sorted(s),
        0 <= pos < s.len(),
        s[pos].0 == key,
    ensures
        sorted(s.update(pos, (key, item))),
        entries_map(s.update(pos, (key, item))) == entries_map(s).insert(key, item),
{
    let t = s.update(pos, (key, item));
    assert(sorted(t)) by {
        assert forall|i: int, j: int| 0 <= i < j < t.len() implies t[i].0 < t[j].0 by {
            assert(s[i].0 < s[j].0);
        }
    }
    assert forall|k: usize| entries_map(t).contains_key(k) <==> entries_map(s).insert(
        key,
        item,
    ).contains_key(k) by {
        if entries_map(t).contains_key(k) {
            let i = choose|i: int| 0 <= i < t.len() && (#[trigger] t[i]).0 == k;
            assert(s[i].0 == k);
        }
        if entries_map(s).insert(key, item).contains_key(k) {
            if k == key {
                assert(t[pos].0 == k);
            } else {
                let i = choose|i: int| 0 <= i < s.len() && (#[trigger] s[i]).0 == k;
                assert(t[i].0 == k);
            }
        }
    }
    assert forall|k: usize| entries_map(t).contains_key(k) implies entries_map(t)[k]
        == entries_map(s).insert(key, item)[k] by {
        let i = choose|i: int| 0 <= i < t.len() && (#[trigger] t[i]).0 == k;
        lemma_entries_map_index(t, i);
        if i != pos {
            assert(s[i].0 == k);
            lemma_entries_map_index(s, i);
        }
    }
    assert(entries_map(t) =~= entries_map(s).insert(key, item));
}

/// Inserting an entry at the place its key belongs is an insertion under its
/// key.
pub proof fn lemma_insert_map<T>(
    s: Seq<(usize, RangeItem<T>)>,
    pos: int,
    key: usize,
    item: RangeItem<T>,
)
    requires
        sorted(s),
        0 <= pos <= s.len(),
        forall|i: int| 0 <= i < pos ==> s[i].0 < key,
        forall|i: int| pos <= i < s.len() ==> s[i].0 > key,
    ensures
        sorted(s.insert(pos, (key, item))),
        entries_map(s.insert(pos, (key, item))) == entries_map(s).insert(key, item),
{
    let t = s.insert(pos, (key, item));
    assert(sorted(t)) by {
        assert forall|i: int, j: int| 0 <= i < j < t.len() implies t[i].0 < t[j].0 by {
            let si = if i < pos {
                i
            } else {
                i - 1
            };
            let sj = if j < pos {
                j
            } else {
                j - 1
            };
            if i != pos && j != pos {
                assert(s[si].0 < s[sj].0);
            }
        }
    }
    assert forall|k: usize| entries_map(t).contains_key(k) <==> entries_map(s).insert(
        key,
        item,
    ).contains_key(k) by {
        if entries_map(t).contains_key(k) {
            let i = choose|i: int| 0 <= i < t.len() && (#[trigger] t[i]).0 == k;
            if i < pos {
                assert(s[i].0 == k);
            } else if i > pos {
                assert(s[i - 1].0 == k);
            }
        }
        if entries_map(s).insert(key, item).contains_key(k) {
            if k == key {
                assert(t[pos].0 == k);
            } else {
                let i = choose|i: int| 0 <= i < s.len() && (#[trigger] s[i]).0 == k;
                if i < pos {
                    assert(t[i].0 == k);
                } else {
                    assert(t[i + 1].0 == k);
                }
            }
        }
    }
    assert forall|k: usize| entries_map(t).contains_key(k) implies entries_map(t)[k]
        == entries_map(s).insert(key, item)[k] by {
        let i = choose|i: int| 0 <= i < t.len() && (#[trigger] t[i]).0 == k;
        lemma_entries_map_index(t, i);
        if i < pos {
            assert(s[i].0 == k);
            lemma_entries_map_index(s, i);
        } else if i > pos {
            assert(s[i - 1].0 == k);
            lemma_entries_map_index(s, i - 1);
        }
    }
    assert(entries_map(t) =~= entries_map(s).insert(key, item));
}

} // verus!
