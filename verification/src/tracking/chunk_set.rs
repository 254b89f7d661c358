use vstd::prelude::*;
use crate::renderer::dirty::{ChunkCoord, same_coord, no_duplicates};

verus! {

/// A set of chunk positions kept as a list without repetitions, in the order
/// the positions were added.
pub struct ChunkSet {
    items: Vec<ChunkCoord>,
}

/// The elements of `s` that `keep` accepts, in order.
pub open spec fn seq_filter(s: Seq<ChunkCoord>, keep: spec_fn(ChunkCoord) -> bool) -> Seq<ChunkCoord>
    decreases s.len(),
{
    if s.len() == 0 {
        Seq::<ChunkCoord>::empty()
    } else {
        let rest = seq_filter(s.drop_last(), keep);
        if keep(s.last()) {
            rest.push(s.last())
        } else {
            rest
        }
    }
}

pub proof fn lemma_seq_filter_contains(s: Seq<ChunkCoord>, keep: spec_fn(ChunkCoord) -> bool, x: ChunkCoord)
    ensures
        seq_filter(s, keep).contains(x) <==> (s.contains(x) && keep(x)),
    decreases s.len(),
{
    if s.len() > 0 {
        let d = s.drop_last();
        lemma_seq_filter_contains(d, keep, x);
        let rest = seq_filter(d, keep);
        let f = seq_filter(s, keep);
        assert(s =~= d.push(s.last()));
        if s.contains(x) && keep(x) {
            let k = choose|k: int| 0 <= k < s.len() && s[k] == x;
            if k < s.len() - 1 {
                assert(d[k] == x);
                assert(d.contains(x));
                assert(rest.contains(x));
                let r = choose|r: int| 0 <= r < rest.len() && rest[r] == x;
                if keep(s.last()) {
                    assert(f[r] == x);
                }
                assert(f.contains(x));
            } else {
                assert(s.last() == x);
                assert(f == rest.push(x));
                assert(f[f.len() - 1] == x);
            }
        }
        if f.contains(x) {
            let k = choose|k: int| 0 <= k < f.len() && f[k] == x;
            if keep(s.last()) {
                if k < rest.len() {
                    assert(rest[k] == x);
                    assert(rest.contains(x));
                    let m = choose|m: int| 0 <= m < d.len() && d[m] == x;
                    assert(s[m] == x);
                } else {
                    assert(s[s.len() - 1] == x);
                }
            } else {
                assert(rest[k] == x);
                assert(rest.contains(x));
                let m = choose|m: int| 0 <= m < d.len() && d[m] == x;
                assert(s[m] == x);
            }
        }
    }
}

pub proof fn lemma_seq_filter_no_duplicates(s: Seq<ChunkCoord>, keep: spec_fn(ChunkCoord) -> bool)
    requires
        no_duplicates(s),
    ensures
        no_duplicates(seq_filter(s, keep)),
        seq_filter(s, keep).len() <= s.len(),
    decreases s.len(),
{
    if s.len() > 0 {
        let d = s.drop_last();
        assert(no_duplicates(d)) by {
            assert forall|i: int, j: int| 0 <= i < j < d.len() implies d[i] != d[j] by {
                assert(d[i] == s[i] && d[j] == s[j]);
            }
        }
        lemma_seq_filter_no_duplicates(d, keep);
        let rest = seq_filter(d, keep);
        if keep(s.last()) {
            lemma_seq_filter_contains(d, keep, s.last());
            assert(!d.contains(s.last())) by {
                if d.contains(s.last()) {
                    let k = choose|k: int| 0 <= k < d.len() && d[k] == s.last();
                    assert(s[k] == s[s.len() - 1]);
                }
            }
            assert(!rest.contains(s.last()));
            let r = rest.push(s.last());
            assert forall|i: int, j: int| 0 <= i < j < r.len() implies r[i] != r[j] by {
                if j == r.len() - 1 {
                    assert(r[i] == rest[i]);
                    if r[i] == r[j] {
                        assert(rest.contains(s.last()));
                    }
                }
            }
        }
    }
}

/// A list without repetitions has as many elements as its set.
pub proof fn lemma_unique_len(s: Seq<ChunkCoord>)
    requires
        no_duplicates(s),
    ensures
        s.to_set().len() == s.len(),
{
    s.unique_seq_to_set();
}

impl ChunkSet {
    /// The positions in the set.
    pub closed spec fn view_set(&self) -> Set<ChunkCoord> {
        self.items@.to_set()
    }

    /// The positions in the order they were added.
    pub closed spec fn entries(&self) -> Seq<ChunkCoord> {
        self.items@
    }

    /// No position is listed twice.
    pub closed spec fn wf(&self) -> bool {
        no_duplicates(self.items@)
    }

    pub proof fn lemma_entries(&self)
        requires
            self.wf(),
        ensures
            no_duplicates(self.entries()),
            self.entries().to_set() == self.view_set(),
            self.view_set().len() == self.entries().len(),
            self.view_set().finite(),
    {
        lemma_unique_len(self.items@);
    }

    pub fn new() -> (s: Self)
        ensures
            s.wf(),
            s.view_set() == Set::<ChunkCoord>::empty(),
            s.entries() == Seq::<ChunkCoord>::empty(),
    {
        let s = ChunkSet { items: Vec::new() };
        proof {
            assert(s.items@.to_set() =~= Set::<ChunkCoord>::empty());
        }
        s
    }

    /// Whether `c` is in the set.
    pub fn contains(&self, c: ChunkCoord) -> (b: bool)
        ensures
            b == self.view_set().contains(c),
    {
        let mut i: usize = 0;
        while i < self.items.len()
            invariant
                i <= self.items@.len(),
                forall|j: int| 0 <= j < i ==> self.items@[j] != c,
            decreases self.items@.len() - i,
        {
            if same_coord(self.items[i], c) {
                proof {
                    assert(self.items@[i as int] == c);
                    assert(self.items@.contains(c));
                    assert(self.items@.to_set().contains(c));
                }
                return true;
            }
            i = i + 1;
        }
        proof {
            assert(!self.items@.contains(c));
            assert(!self.items@.to_set().contains(c));
        }
        false
    }

    /// Adds `c`; returns whether it was absent.
    pub fn insert(&mut self, c: ChunkCoord) -> (added: bool)
        requires
            old(self).wf(),
        ensures
            final(self).wf(),
            final(self).view_set() == old(self).view_set().insert(c),
            added == !old(self).view_set().contains(c),
            added ==> final(self).entries() == old(self).entries().push(c),
            !added ==> final(self).entries() == old(self).entries(),
    {
        if self.contains(c) {
            proof {
                assert(self.items@.to_set().insert(c) =~= self.items@.to_set());
            }
            return false;
        }
        let ghost s = self.items@;
        self.items.push(c);
        proof {
            assert(!s.contains(c));
            assert forall|i: int, j: int| 0 <= i < j < s.push(c).len() implies s.push(c)[i] != s.push(c)[j] by {
                if j == s.len() {
                    assert(s.push(c)[i] == s[i]);
                    if s[i] == c {
                        assert(s.contains(c));
                    }
                }
            }
            assert forall|x: ChunkCoord| s.push(c).to_set().contains(x) <==> s.to_set().insert(c).contains(x) by {
                if s.push(c).contains(x) {
                    let k = choose|k: int| 0 <= k < s.push(c).len() && s.push(c)[k] == x;
                    if k < s.len() {
                        assert(s[k] == x);
                        assert(s.contains(x));
                    }
                }
                if s.contains(x) {
                    let k = choose|k: int| 0 <= k < s.len() && s[k] == x;
                    assert(s.push(c)[k] == x);
                }
                if x == c {
                    assert(s.push(c)[s.len() as int] == c);
                }
            }
            assert(s.push(c).to_set() =~= s.to_set().insert(c));
        }
        true
    }

    /// Removes `c`; returns whether it was present.
    pub fn remove(&mut self, c: ChunkCoord) -> (removed: bool)
        requires
            old(self).wf(),
        ensures
            final(self).wf(),
            final(self).view_set() == old(self).view_set().remove(c),
            removed == old(self).view_set().contains(c),
            final(self).entries() == seq_filter(old(self).entries(), |x: ChunkCoord| x != c),
    {
        let present = self.contains(c);
        self.retain_other(c);
        present
    }

    fn retain_other(&mut self, c: ChunkCoord)
        requires
            old(self).wf(),
        ensures
            final(self).wf(),
            final(self).view_set() == old(self).view_set().remove(c),
            final(self).entries() == seq_filter(old(self).entries(), |x: ChunkCoord| x != c),
    {
        let ghost keep = |x: ChunkCoord| x != c;
        let ghost s = self.items@;
        let mut out: Vec<ChunkCoord> = Vec::new();
        let mut i: usize = 0;
        while i < self.items.len()
            invariant
                self.items@ == s,
                i <= s.len(),
                out@ == seq_filter(s.take(i as int), keep),
                keep == (|x: ChunkCoord| x != c),
            decreases s.len() - i,
        {
            let x = self.items[i];
            proof {
                assert(s.take(i as int + 1).drop_last() =~= s.take(i as int));
                assert(s.take(i as int + 1).last() == x);
            }
            if !same_coord(x, c) {
                out.push(x);
            }
            i = i + 1;
        }
        proof {
            assert(s.take(s.len() as int) =~= s);
            lemma_seq_filter_no_duplicates(s, keep);
            assert forall|x: ChunkCoord| out@.to_set().contains(x) <==> s.to_set().remove(c).contains(x) by {
                lemma_seq_filter_contains(s, keep, x);
            }
            assert(out@.to_set() =~= s.to_set().remove(c));
        }
        self.items = out;
    }

    /// Keeps only the positions that `keep` accepts; returns the removed ones.
    pub fn retain_where<F: Fn(ChunkCoord) -> bool>(&mut self, keep: F) -> (removed: Vec<ChunkCoord>)
        requires
            old(self).wf(),
            forall|p: ChunkCoord| call_requires(keep, (p,)),
        ensures
            final(self).wf(),
            no_duplicates(removed@),
            forall|p: ChunkCoord| #[trigger] final(self).view_set().contains(p) ==> old(self).view_set().contains(p)
                && call_ensures(keep, (p,), true),
            forall|p: ChunkCoord| #[trigger] removed@.contains(p) ==> old(self).view_set().contains(p)
                && call_ensures(keep, (p,), false),
            forall|p: ChunkCoord| old(self).view_set().contains(p) ==> #[trigger] final(self).view_set().contains(p)
                || #[trigger] removed@.contains(p),
            forall|p: ChunkCoord| !(#[trigger] final(self).view_set().contains(p) && #[trigger] removed@.contains(p)),
    {
        let ghost s = self.items@;
        let mut kept: Vec<ChunkCoord> = Vec::new();
        let mut dropped: Vec<ChunkCoord> = Vec::new();
        let mut i: usize = 0;
        while i < self.items.len()
            invariant
                self.items@ == s,
                no_duplicates(s),
                i <= s.len(),
                forall|p: ChunkCoord| call_requires(keep, (p,)),
                forall|k: int| 0 <= k < kept@.len() ==> exists|m: int| 0 <= m < i && s[m] == #[trigger] kept@[k],
                forall|k: int| 0 <= k < dropped@.len() ==> exists|m: int| 0 <= m < i && s[m] == #[trigger] dropped@[k],
                forall|k: int| 0 <= k < kept@.len() ==> call_ensures(keep, (#[trigger] kept@[k],), true),
                forall|k: int| 0 <= k < dropped@.len() ==> call_ensures(keep, (#[trigger] dropped@[k],), false),
                forall|m: int| 0 <= m < i ==> kept@.contains(#[trigger] s[m]) || dropped@.contains(s[m]),
                no_duplicates(kept@),
                no_duplicates(dropped@),
                forall|a: int, b: int| 0 <= a < kept@.len() && 0 <= b < dropped@.len() ==> kept@[a] != dropped@[b],
            decreases s.len() - i,
        {
            let x = self.items[i];
            let ghost kept_before = kept@;
            let ghost dropped_before = dropped@;
            proof {
                assert forall|k: int| 0 <= k < kept_before.len() implies kept_before[k] != x by {
                    let m = choose|m: int| 0 <= m < i && s[m] == kept_before[k];
                    assert(s[m] != s[i as int]);
                }
                assert forall|k: int| 0 <= k < dropped_before.len() implies dropped_before[k] != x by {
                    let m = choose|m: int| 0 <= m < i && s[m] == dropped_before[k];
                    assert(s[m] != s[i as int]);
                }
            }
            if keep(x) {
                kept.push(x);
                proof {
                    assert(kept@[kept@.len() - 1] == x);
                    assert forall|m: int| 0 <= m < i + 1 implies kept@.contains(#[trigger] s[m]) || dropped@.contains(s[m]) by {
                        if m == i {
                            assert(kept@[kept@.len() - 1] == s[m]);
                        } else {
                            if kept_before.contains(s[m]) {
                                let k = choose|k: int| 0 <= k < kept_before.len() && kept_before[k] == s[m];
                                assert(kept@[k] == s[m]);
                            }
                        }
                    }
                    assert forall|k: int| 0 <= k < kept@.len() implies exists|m: int| 0 <= m < i + 1 && s[m] == #[trigger] kept@[k] by {
                        if k == kept@.len() - 1 {
                            assert(s[i as int] == kept@[k]);
                        } else {
                            assert(kept@[k] == kept_before[k]);
                        }
                    }
                }
            } else {
                dropped.push(x);
                proof {
                    assert(dropped@[dropped@.len() - 1] == x);
                    assert forall|m: int| 0 <= m < i + 1 implies kept@.contains(#[trigger] s[m]) || dropped@.contains(s[m]) by {
                        if m == i {
                            assert(dropped@[dropped@.len() - 1] == s[m]);
                        } else {
                            if dropped_before.contains(s[m]) {
                                let k = choose|k: int| 0 <= k < dropped_before.len() && dropped_before[k] == s[m];
                                assert(dropped@[k] == s[m]);
                            }
                        }
                    }
                    assert forall|k: int| 0 <= k < dropped@.len() implies exists|m: int| 0 <= m < i + 1 && s[m] == #[trigger] dropped@[k] by {
                        if k == dropped@.len() - 1 {
                            assert(s[i as int] == dropped@[k]);
                        } else {
                            assert(dropped@[k] == dropped_before[k]);
                        }
                    }
                }
            }
            i = i + 1;
        }
        proof {
            assert forall|p: ChunkCoord| #[trigger] kept@.to_set().contains(p) implies s.to_set().contains(p)
                && call_ensures(keep, (p,), true) by {
                let k = choose|k: int| 0 <= k < kept@.len() && kept@[k] == p;
                let m = choose|m: int| 0 <= m < s.len() && s[m] == kept@[k];
                assert(s.contains(p));
            }
            assert forall|p: ChunkCoord| #[trigger] dropped@.contains(p) implies s.to_set().contains(p)
                && call_ensures(keep, (p,), false) by {
                let k = choose|k: int| 0 <= k < dropped@.len() && dropped@[k] == p;
                let m = choose|m: int| 0 <= m < s.len() && s[m] == dropped@[k];
                assert(s.contains(p));
            }
            assert forall|p: ChunkCoord| s.to_set().contains(p) implies #[trigger] kept@.to_set().contains(p)
                || #[trigger] dropped@.contains(p) by {
                let m = choose|m: int| 0 <= m < s.len() && s[m] == p;
            }
            assert forall|p: ChunkCoord| !(#[trigger] kept@.to_set().contains(p) && #[trigger] dropped@.contains(p)) by {
                if kept@.contains(p) && dropped@.contains(p) {
                    let a = choose|a: int| 0 <= a < kept@.len() && kept@[a] == p;
                    let b = choose|b: int| 0 <= b < dropped@.len() && dropped@[b] == p;
                }
            }
        }
        self.items = kept;
        dropped
    }

    /// Empties the set.
    pub fn clear(&mut self)
        ensures
            final(self).wf(),
            final(self).view_set() == Set::<ChunkCoord>::empty(),
            final(self).entries() == Seq::<ChunkCoord>::empty(),
    {
        self.items.clear();
        proof {
            assert(self.items@.to_set() =~= Set::<ChunkCoord>::empty());
        }
    }

    /// Number of positions in the set.
    pub fn len(&self) -> (n: usize)
        requires
            self.wf(),
        ensures
            n == self.view_set().len(),
            n == self.entries().len(),
    {
        proof {
            lemma_unique_len(self.items@);
        }
        self.items.len()
    }

    /// Whether the set is empty.
    pub fn is_empty(&self) -> (b: bool)
        requires
            self.wf(),
        ensures
            b == (self.view_set().len() == 0),
    {
        proof {
            lemma_unique_len(self.items@);
        }
        self.items.len() == 0
    }

    /// The positions, in the order they were added.
    pub fn to_vec(&self) -> (v: Vec<ChunkCoord>)
        ensures
            v@ == self.entries(),
    {
        let mut v: Vec<ChunkCoord> = Vec::new();
        let mut i: usize = 0;
        while i < self.items.len()
            invariant
                i <= self.items@.len(),
                v@ == self.items@.take(i as int),
            decreases self.items@.len() - i,
        {
            v.push(self.items[i]);
            proof {
                assert(self.items@.take(i as int + 1) =~= self.items@.take(i as int).push(self.items@[i as int]));
            }
            i = i + 1;
        }
        proof {
            assert(self.items@.take(self.items@.len() as int) =~= self.items@);
        }
        v
    }

    /// The position at `i` in insertion order.
    pub fn get(&self, i: usize) -> (c: ChunkCoord)
        requires
            i < self.entries().len(),
        ensures
            c == self.entries()[i as int],
    {
        self.items[i]
    }
}

} // verus!
