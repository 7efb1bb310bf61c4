//! Opt-in, privacy-preserving usage numbers.
//!
//! Off by default. Never holds transcript text, audio, or an account id: only aggregate
//! counts. The store image here is loaded from and saved to the data directory by the caller.
use vstd::prelude::*;
use vstd::relations::{sorted_by, total_ordering};
use crate::text::{chars_of, push_str, str_eq, string_from, u128_to_string, u64_to_string, words, decimal};

verus! {

broadcast use vstd::seq_lib::group_to_multiset_ensures;

pub open spec fn u64_leq() -> spec_fn(u64, u64) -> bool {
    |a: u64, b: u64| a <= b
}

/// `xs` in ascending order.
pub open spec fn sorted_u64(xs: Seq<u64>) -> Seq<u64> {
    xs.sort_by(u64_leq())
}

proof fn lemma_u64_leq_total()
    ensures
        total_ordering(u64_leq()),
{
    let r = u64_leq();
    assert(vstd::relations::reflexive(r));
    assert(vstd::relations::antisymmetric(r));
    assert(vstd::relations::transitive(r));
    assert(vstd::relations::strongly_connected(r));
}

/// `xs` sorted ascending.
pub fn sort_u64(xs: &[u64]) -> (r: Vec<u64>)
    ensures
        r@ == sorted_u64(xs@),
{
    let mut res: Vec<u64> = Vec::new();
    let mut i: usize = 0;
    while i < xs.len()
        invariant
            i <= xs@.len(),
            sorted_by(res@, u64_leq()),
            res@.to_multiset() == xs@.take(i as int).to_multiset(),
            res@.len() == i,
        decreases xs.len() - i,
    {
        let x = xs[i];
        let mut p: usize = 0;
        while p < res.len() && res[p] <= x
            invariant
                p <= res@.len(),
                forall|k: int| 0 <= k < p ==> res@[k] <= x,
            decreases res.len() - p,
        {
            p += 1;
        }
        let ghost old_res = res@;
        res.insert(p, x);
        proof {
            assert forall|a: int, b: int| 0 <= a < b < res@.len() implies #[trigger] u64_leq()(res@[a], res@[b]) by {
                if a < p as int && b == p as int {
                } else if a == p as int && b > p as int {
                    assert(res@[b] == old_res[b - 1]);
                    if p < old_res.len() {
                        assert(u64_leq()(old_res[p as int], old_res[b - 1]) || p as int == b - 1);
                    }
                } else if a < p as int && b > p as int {
                    assert(u64_leq()(old_res[a], old_res[b - 1]));
                } else if b < p as int {
                    assert(u64_leq()(old_res[a], old_res[b]));
                } else {
                    assert(u64_leq()(old_res[a - 1], old_res[b - 1]));
                }
            }
            assert(xs@.take(i + 1) =~= xs@.take(i as int).push(x));
        }
        i += 1;
    }
    proof {
        assert(xs@.take(xs@.len() as int) =~= xs@);
        lemma_u64_leq_total();
        xs@.lemma_sort_by_ensures(u64_leq());
        vstd::seq_lib::lemma_sorted_unique(res@, sorted_u64(xs@), u64_leq());
    }
    res
}

/// Median latency: the middle element (upper middle for an even count) of the sorted values.
pub open spec fn median_of(xs: Seq<u64>) -> Option<u64> {
    if xs.len() == 0 {
        None
    } else {
        Some(sorted_u64(xs)[(xs.len() / 2) as int])
    }
}

pub fn median(xs: &[u64]) -> (m: Option<u64>)
    ensures
        m == median_of(xs@),
{
    if xs.len() == 0 {
        return None;
    }
    let v = sort_u64(xs);
    proof {
        lemma_u64_leq_total();
        xs@.lemma_sort_by_ensures(u64_leq());
        assert(v@.to_multiset().len() == xs@.to_multiset().len());
    }
    Some(v[xs.len() / 2])
}

} // verus!

verus! {

/// Named counters (a map from name to count).
#[derive(Debug, Clone)]
pub struct Counts {
    entries: Vec<(String, u64)>,
}

pub open spec fn keys_distinct(e: Seq<(String, u64)>) -> bool {
    forall|i: int, j: int| 0 <= i < j < e.len() ==> (#[trigger] e[i]).0@ != (#[trigger] e[j]).0@
}

pub open spec fn has_key(e: Seq<(String, u64)>, k: Seq<char>) -> bool {
    exists|i: int| 0 <= i < e.len() && (#[trigger] e[i]).0@ == k
}

pub open spec fn counts_map(e: Seq<(String, u64)>) -> Map<Seq<char>, u64> {
    Map::new(
        |k: Seq<char>| has_key(e, k),
        |k: Seq<char>| e[choose|i: int| 0 <= i < e.len() && (#[trigger] e[i]).0@ == k].1,
    )
}

/// One more, wrapping at `u64::MAX` like a release build.
pub open spec fn inc(c: u64) -> u64 {
    if c == u64::MAX { 0 } else { (c + 1) as u64 }
}

pub open spec fn bumped(m: Map<Seq<char>, u64>, k: Seq<char>) -> Map<Seq<char>, u64> {
    m.insert(k, if m.contains_key(k) { inc(m[k]) } else { 1 })
}

/// `a` sorts before `b`: the order of `str` (and so of `String` keys in a `BTreeMap`),
/// character by character, a proper prefix first.
pub open spec fn str_before(a: Seq<char>, b: Seq<char>) -> bool
    decreases a.len(),
{
    if a.len() == 0 {
        b.len() > 0
    } else if b.len() == 0 {
        false
    } else if a[0] != b[0] {
        a[0] < b[0]
    } else {
        str_before(a.drop_first(), b.drop_first())
    }
}

proof fn lemma_str_before_total(a: Seq<char>, b: Seq<char>)
    ensures
        a == b || str_before(a, b) || str_before(b, a),
        !(str_before(a, b) && str_before(b, a)),
        !str_before(a, a),
    decreases a.len(),
{
    if a.len() > 0 && b.len() > 0 {
        lemma_str_before_total(a.drop_first(), b.drop_first());
        if a[0] == b[0] && a.drop_first() == b.drop_first() {
            assert forall|i: int| 0 <= i < a.len() implies a[i] == b[i] by {
                if i > 0 {
                    assert(a[i] == a.drop_first()[i - 1]);
                    assert(b[i] == b.drop_first()[i - 1]);
                }
            }
            assert(a =~= b);
        }
    } else if a.len() == 0 && b.len() == 0 {
        assert(a =~= b);
    }
    if a.len() > 0 {
        lemma_str_before_total(a.drop_first(), a.drop_first());
    }
}

proof fn lemma_str_before_trans(a: Seq<char>, b: Seq<char>, c: Seq<char>)
    requires
        str_before(a, b),
        str_before(b, c),
    ensures
        str_before(a, c),
    decreases a.len(),
{
    if a.len() > 0 && b.len() > 0 && c.len() > 0 && a[0] == b[0] && b[0] == c[0] {
        lemma_str_before_trans(a.drop_first(), b.drop_first(), c.drop_first());
    }
}

/// The keys come in ascending order.
pub open spec fn keys_sorted(e: Seq<(String, u64)>) -> bool {
    forall|i: int, j: int| 0 <= i < j < e.len() ==> str_before((#[trigger] e[i]).0@, (#[trigger] e[j]).0@)
}

fn chars_before(a: &[char], b: &[char]) -> (r: bool)
    ensures
        r == str_before(a@, b@),
{
    let mut i: usize = 0;
    assert(a@.skip(0) =~= a@);
    assert(b@.skip(0) =~= b@);
    while i < a.len() && i < b.len() && a[i] == b[i]
        invariant
            i <= a@.len(),
            i <= b@.len(),
            str_before(a@, b@) == str_before(a@.skip(i as int), b@.skip(i as int)),
        decreases a.len() - i,
    {
        proof {
            let x = a@.skip(i as int);
            let y = b@.skip(i as int);
            assert(x.drop_first() =~= a@.skip(i + 1));
            assert(y.drop_first() =~= b@.skip(i + 1));
        }
        i += 1;
    }
    let ghost x = a@.skip(i as int);
    let ghost y = b@.skip(i as int);
    if i == a.len() {
        assert(x.len() == 0);
        i < b.len()
    } else if i == b.len() {
        false
    } else {
        assert(x[0] == a@[i as int] && y[0] == b@[i as int]);
        a[i] < b[i]
    }
}

impl View for Counts {
    type V = Map<Seq<char>, u64>;

    closed spec fn view(&self) -> Map<Seq<char>, u64> {
        counts_map(self.entries@)
    }
}

proof fn lemma_counts_at(e: Seq<(String, u64)>, i: int)
    requires
        keys_distinct(e),
        0 <= i < e.len(),
    ensures
        counts_map(e).contains_key(e[i].0@),
        counts_map(e)[e[i].0@] == e[i].1,
{
    let k = e[i].0@;
    assert(has_key(e, k));
    let j = choose|j: int| 0 <= j < e.len() && (#[trigger] e[j]).0@ == k;
    if j != i {
        if j < i {
            assert(e[j].0@ != e[i].0@);
        } else {
            assert(e[i].0@ != e[j].0@);
        }
    }
}

/// Sum of all counts in a finite map.
pub open spec fn total(m: Map<Seq<char>, u64>) -> nat
    decreases m.dom().len(),
{
    if m.dom().finite() && m.dom().len() > 0 {
        let k = m.dom().choose();
        m[k] as nat + total(m.remove(k))
    } else {
        0
    }
}

proof fn lemma_total_remove(m: Map<Seq<char>, u64>, k0: Seq<char>)
    requires
        m.dom().finite(),
        m.contains_key(k0),
    ensures
        total(m) == m[k0] as nat + total(m.remove(k0)),
    decreases m.dom().len(),
{
    let k = m.dom().choose();
    assert(m.dom().contains(k));
    assert(m.remove(k).dom() =~= m.dom().remove(k));
    if k != k0 {
        let a = m.remove(k);
        let b = m.remove(k0);
        assert(b.dom() =~= m.dom().remove(k0));
        lemma_total_remove(a, k0);
        lemma_total_remove(b, k);
        assert(a.remove(k0) =~= b.remove(k));
    }
}

/// A count raised by one (below the wrap) raises the total by one.
proof fn lemma_total_bumped(m: Map<Seq<char>, u64>, k: Seq<char>)
    requires
        m.dom().finite(),
        m.contains_key(k) ==> m[k] < u64::MAX,
    ensures
        total(bumped(m, k)) == total(m) + 1,
{
    let b = bumped(m, k);
    assert(b.dom() =~= m.dom().insert(k));
    lemma_total_remove(b, k);
    if m.contains_key(k) {
        lemma_total_remove(m, k);
        assert(b.remove(k) =~= m.remove(k));
    } else {
        assert(b.remove(k) =~= m);
    }
}

/// No count has reached `u64::MAX` (the next one would wrap).
pub open spec fn unsaturated(m: Map<Seq<char>, u64>) -> bool {
    forall|k: Seq<char>| #[trigger] m.contains_key(k) ==> m[k] < u64::MAX
}

proof fn lemma_counts_finite(e: Seq<(String, u64)>)
    ensures
        counts_map(e).dom().finite(),
{
    let keys = e.map_values(|p: (String, u64)| p.0@).to_set();
    assert(counts_map(e).dom().subset_of(keys)) by {
        assert forall|k: Seq<char>| counts_map(e).dom().contains(k) implies keys.contains(k) by {
            let i = choose|i: int| 0 <= i < e.len() && (#[trigger] e[i]).0@ == k;
            assert(e.map_values(|p: (String, u64)| p.0@)[i] == k);
        }
    }
    vstd::seq_lib::seq_to_set_is_finite(e.map_values(|p: (String, u64)| p.0@));
    vstd::set_lib::lemma_set_subset_finite(keys, counts_map(e).dom());
}

impl Counts {
    pub closed spec fn wf(&self) -> bool {
        &&& keys_distinct(self.entries@)
        &&& keys_sorted(self.entries@)
    }

    /// Finitely many names are counted.
    pub proof fn lemma_finite(&self)
        ensures
            self@.dom().finite(),
    {
        lemma_counts_finite(self.entries@);
    }

    pub fn new() -> (c: Counts)
        ensures
            c.wf(),
            c@ == Map::<Seq<char>, u64>::empty(),
    {
        let c = Counts { entries: Vec::new() };
        assert(c@ =~= Map::<Seq<char>, u64>::empty());
        c
    }

    fn position(&self, key: &str) -> (r: Option<usize>)
        requires
            self.wf(),
        ensures
            r matches Some(i) ==> i < self.entries@.len() && self.entries@[i as int].0@ == key@,
            r is None ==> !has_key(self.entries@, key@),
    {
        let mut i: usize = 0;
        while i < self.entries.len()
            invariant
                i <= self.entries@.len(),
                forall|j: int| 0 <= j < i ==> (#[trigger] self.entries@[j]).0@ != key@,
            decreases self.entries.len() - i,
        {
            if str_eq(self.entries[i].0.as_str(), key) {
                return Some(i);
            }
            i += 1;
        }
        None
    }

    /// The count for `key`, if it has one.
    pub fn get(&self, key: &str) -> (r: Option<u64>)
        requires
            self.wf(),
        ensures
            r == (if self@.contains_key(key@) { Some(self@[key@]) } else { None::<u64> }),
    {
        match self.position(key) {
            Some(i) => {
                proof { lemma_counts_at(self.entries@, i as int); }
                Some(self.entries[i].1)
            },
            None => None,
        }
    }

    /// Sets the count of `key` to `value`.
    pub fn set(&mut self, key: String, value: u64)
        requires
            old(self).wf(),
        ensures
            final(self).wf(),
            final(self)@ == old(self)@.insert(key@, value),
    {
        let ghost k = key@;
        match self.position(key.as_str()) {
            Some(i) => {
                let ghost e0 = self.entries@;
                self.entries.set(i, (key, value));
                proof {
                    let e = self.entries@;
                    assert forall|a: int, b: int| 0 <= a < b < e.len() implies (#[trigger] e[a]).0@ != (#[trigger] e[b]).0@ by {
                        assert(e0[a].0@ != e0[b].0@);
                    }
                    assert forall|a: int, b: int| 0 <= a < b < e.len() implies str_before((#[trigger] e[a]).0@, (#[trigger] e[b]).0@) by {
                        assert(str_before(e0[a].0@, e0[b].0@));
                    }
                    assert forall|q: Seq<char>| #[trigger] counts_map(e).contains_key(q) == old(self)@.insert(k, value).contains_key(q) by {
                        if has_key(e0, q) {
                            let j = choose|j: int| 0 <= j < e0.len() && (#[trigger] e0[j]).0@ == q;
                            assert(e[j].0@ == q);
                        }
                        if has_key(e, q) {
                            let j = choose|j: int| 0 <= j < e.len() && (#[trigger] e[j]).0@ == q;
                            assert(e0[j].0@ == q);
                        }
                    }
                    assert forall|q: Seq<char>| counts_map(e).contains_key(q) implies #[trigger] counts_map(e)[q] == old(self)@.insert(k, value)[q] by {
                        let j = choose|j: int| 0 <= j < e.len() && (#[trigger] e[j]).0@ == q;
                        lemma_counts_at(e, j);
                        if q != k {
                            lemma_counts_at(e0, j);
                        }
                    }
                    assert(counts_map(e) =~= old(self)@.insert(k, value));
                }
            },
            None => {
                let ghost e0 = self.entries@;
                let kc = crate::text::chars_of(key.as_str());
                let mut p: usize = 0;
                while p < self.entries.len() && chars_before(&crate::text::chars_of(self.entries[p].0.as_str()), &kc)
                    invariant
                        self.entries@ == e0,
                        kc@ == k,
                        p <= e0.len(),
                        forall|j: int| 0 <= j < p ==> str_before((#[trigger] e0[j]).0@, k),
                    decreases self.entries.len() - p,
                {
                    p += 1;
                }
                proof {
                    if p < e0.len() {
                        lemma_str_before_total(e0[p as int].0@, k);
                        assert(e0[p as int].0@ != k);
                    }
                }
                self.entries.insert(p, (key, value));
                proof {
                    let e = self.entries@;
                    assert(e.len() == e0.len() + 1);
                    assert(e[p as int].0@ == k);
                    assert forall|j: int| 0 <= j < e.len() && j != p implies (#[trigger] e[j]) == (if j < p { e0[j] } else { e0[j - 1] }) by {}
                    assert forall|a: int, b: int| 0 <= a < b < e.len() implies str_before((#[trigger] e[a]).0@, (#[trigger] e[b]).0@) by {
                        if b < p {
                            assert(str_before(e0[a].0@, e0[b].0@));
                        } else if b == p {
                            assert(str_before(e0[a].0@, k));
                        } else if a < p {
                            assert(str_before(e0[a].0@, k));
                            assert(str_before(k, e0[p as int].0@));
                            if b - 1 > p {
                                assert(str_before(e0[p as int].0@, e0[b - 1].0@));
                                lemma_str_before_trans(k, e0[p as int].0@, e0[b - 1].0@);
                            }
                            lemma_str_before_trans(e0[a].0@, k, e0[b - 1].0@);
                        } else if a == p {
                            assert(str_before(k, e0[p as int].0@));
                            if b - 1 > p {
                                assert(str_before(e0[p as int].0@, e0[b - 1].0@));
                                lemma_str_before_trans(k, e0[p as int].0@, e0[b - 1].0@);
                            }
                        } else {
                            assert(str_before(e0[a - 1].0@, e0[b - 1].0@));
                        }
                    }
                    assert forall|a: int, b: int| 0 <= a < b < e.len() implies (#[trigger] e[a]).0@ != (#[trigger] e[b]).0@ by {
                        assert(str_before(e[a].0@, e[b].0@));
                        lemma_str_before_total(e[a].0@, e[b].0@);
                    }
                    assert forall|q: Seq<char>| #[trigger] counts_map(e).contains_key(q) == old(self)@.insert(k, value).contains_key(q) by {
                        if has_key(e0, q) {
                            let j = choose|j: int| 0 <= j < e0.len() && (#[trigger] e0[j]).0@ == q;
                            if j < p {
                                assert(e[j].0@ == q);
                            } else {
                                assert(e[j + 1].0@ == q);
                            }
                        }
                        if has_key(e, q) && q != k {
                            let j = choose|j: int| 0 <= j < e.len() && (#[trigger] e[j]).0@ == q;
                            if j < p {
                                assert(e0[j].0@ == q);
                            } else {
                                assert(j != p);
                                assert(e0[j - 1].0@ == q);
                            }
                        }
                    }
                    assert forall|q: Seq<char>| counts_map(e).contains_key(q) implies #[trigger] counts_map(e)[q] == old(self)@.insert(k, value)[q] by {
                        let j = choose|j: int| 0 <= j < e.len() && (#[trigger] e[j]).0@ == q;
                        lemma_counts_at(e, j);
                        if q != k {
                            assert(j != p);
                            if j < p {
                                lemma_counts_at(e0, j);
                            } else {
                                lemma_counts_at(e0, j - 1);
                            }
                        }
                    }
                    assert(counts_map(e) =~= old(self)@.insert(k, value));
                }
            },
        }
    }

    /// Adds one to the count of `key` (a new key starts at 1).
    pub fn bump(&mut self, key: &str)
        requires
            old(self).wf(),
        ensures
            final(self).wf(),
            final(self)@ == bumped(old(self)@, key@),
    {
        let cur = self.get(key);
        let next: u64 = match cur {
            Some(c) => if c == u64::MAX { 0 } else { c + 1 },
            None => 1,
        };
        self.set(String::from_str(key), next);
    }

    /// Number of named counters.
    pub fn len(&self) -> (n: usize)
        requires
            self.wf(),
        ensures
            n == self@.len(),
    {
        proof { lemma_counts_len(self.entries@); }
        self.entries.len()
    }

    /// The `(name, count)` pairs, in ascending order of name.
    pub fn entries(&self) -> (e: &Vec<(String, u64)>)
        requires
            self.wf(),
        ensures
            counts_map(e@) == self@,
            keys_sorted(e@),
    {
        &self.entries
    }
}

proof fn lemma_counts_len(e: Seq<(String, u64)>)
    requires
        keys_distinct(e),
    ensures
        counts_map(e).len() == e.len(),
        counts_map(e).dom().finite(),
    decreases e.len(),
{
    if e.len() == 0 {
        assert(counts_map(e).dom() =~= Set::<Seq<char>>::empty());
    } else {
        let p = e.drop_last();
        assert(keys_distinct(p));
        lemma_counts_len(p);
        let k = e.last().0@;
        assert(!has_key(p, k));
        assert(counts_map(e).dom() =~= counts_map(p).dom().insert(k)) by {
            assert forall|q: Seq<char>| #[trigger] counts_map(e).dom().contains(q) == counts_map(p).dom().insert(k).contains(q) by {
                if has_key(e, q) && q != k {
                    let j = choose|j: int| 0 <= j < e.len() && (#[trigger] e[j]).0@ == q;
                    assert(p[j].0@ == q);
                }
                if has_key(p, q) {
                    let j = choose|j: int| 0 <= j < p.len() && (#[trigger] p[j]).0@ == q;
                    assert(e[j].0@ == q);
                }
                if q == k {
                    assert(e[e.len() - 1].0@ == q);
                }
            }
        }
    }
}

} // verus!

verus! {

impl Counts {
    /// An independent copy.
    pub fn copy(&self) -> (c: Counts)
        requires
            self.wf(),
        ensures
            c.wf(),
            c@ == self@,
    {
        let mut out: Vec<(String, u64)> = Vec::new();
        let mut i: usize = 0;
        while i < self.entries.len()
            invariant
                i <= self.entries@.len(),
                out@.len() == i,
                forall|j: int| 0 <= j < i ==> (#[trigger] out@[j]).0@ == self.entries@[j].0@ && out@[j].1 == self.entries@[j].1,
            decreases self.entries.len() - i,
        {
            let k = self.entries[i].0.clone();
            out.push((k, self.entries[i].1));
            i += 1;
        }
        let c = Counts { entries: out };
        proof {
            let e = self.entries@;
            let o = out@;
            assert(keys_distinct(o)) by {
                assert forall|a: int, b: int| 0 <= a < b < o.len() implies (#[trigger] o[a]).0@ != (#[trigger] o[b]).0@ by {
                    assert(e[a].0@ != e[b].0@);
                }
            }
            assert(keys_sorted(o)) by {
                assert forall|a: int, b: int| 0 <= a < b < o.len() implies str_before((#[trigger] o[a]).0@, (#[trigger] o[b]).0@) by {
                    assert(str_before(e[a].0@, e[b].0@));
                }
            }
            assert forall|q: Seq<char>| #[trigger] counts_map(o).contains_key(q) == counts_map(e).contains_key(q) by {
                if has_key(o, q) {
                    let j = choose|j: int| 0 <= j < o.len() && (#[trigger] o[j]).0@ == q;
                    assert(e[j].0@ == q);
                }
                if has_key(e, q) {
                    let j = choose|j: int| 0 <= j < e.len() && (#[trigger] e[j]).0@ == q;
                    assert(o[j].0@ == q);
                }
            }
            assert forall|q: Seq<char>| counts_map(o).contains_key(q) implies #[trigger] counts_map(o)[q] == counts_map(e)[q] by {
                let j = choose|j: int| 0 <= j < o.len() && (#[trigger] o[j]).0@ == q;
                lemma_counts_at(o, j);
                lemma_counts_at(e, j);
            }
            assert(counts_map(o) =~= counts_map(e));
        }
        c
    }
}

pub open spec fn duration_bucket_of(ms: u64) -> Seq<char> {
    if ms < 5000 {
        "<5s"@
    } else if ms < 20000 {
        "5-20s"@
    } else if ms < 60000 {
        "20-60s"@
    } else {
        ">60s"@
    }
}

/// Each duration bucket holds exactly the durations its label names: under 5 s, 5–20 s,
/// 20–60 s, and a minute or more.
pub proof fn lemma_duration_bucket_bounds(ms: u64)
    ensures
        duration_bucket_of(ms) == "<5s"@ <==> ms < 5000,
        duration_bucket_of(ms) == "5-20s"@ <==> 5000 <= ms < 20000,
        duration_bucket_of(ms) == "20-60s"@ <==> 20000 <= ms < 60000,
        duration_bucket_of(ms) == ">60s"@ <==> ms >= 60000,
{
    reveal_strlit("<5s");
    reveal_strlit("5-20s");
    reveal_strlit("20-60s");
    reveal_strlit(">60s");
    assert("<5s"@.len() == 3 && "5-20s"@.len() == 5 && "20-60s"@.len() == 6 && ">60s"@.len() == 4);
    if ms < 5000 {
        assert(duration_bucket_of(ms).len() == 3);
    } else if ms < 20000 {
        assert(duration_bucket_of(ms).len() == 5);
    } else if ms < 60000 {
        assert(duration_bucket_of(ms).len() == 6);
    } else {
        assert(duration_bucket_of(ms).len() == 4);
    }
}

/// Each word bucket holds exactly the word counts its label names: under 20, 20–79, 80 on.
pub proof fn lemma_word_bucket_bounds(n: usize)
    ensures
        word_bucket_of(n) == "<20"@ <==> n < 20,
        word_bucket_of(n) == "20-80"@ <==> 20 <= n < 80,
        word_bucket_of(n) == "80+"@ <==> n >= 80,
{
    reveal_strlit("<20");
    reveal_strlit("20-80");
    reveal_strlit("80+");
    assert("<20"@[0] == '<' && "20-80"@.len() == 5 && "80+"@[0] == '8' && "<20"@.len() == 3 && "80+"@.len() == 3);
    if n < 20 {
        assert(word_bucket_of(n)[0] == '<' && word_bucket_of(n).len() == 3);
    } else if n < 80 {
        assert(word_bucket_of(n).len() == 5);
    } else {
        assert(word_bucket_of(n)[0] == '8' && word_bucket_of(n).len() == 3);
    }
}

pub fn duration_bucket(ms: u64) -> (s: &'static str)
    ensures
        s@ == duration_bucket_of(ms),
{
    if ms < 5000 {
        "<5s"
    } else if ms < 20000 {
        "5-20s"
    } else if ms < 60000 {
        "20-60s"
    } else {
        ">60s"
    }
}

pub open spec fn word_bucket_of(n: usize) -> Seq<char> {
    if n < 20 {
        "<20"@
    } else if n < 80 {
        "20-80"@
    } else {
        "80+"@
    }
}

pub fn word_bucket(words: usize) -> (s: &'static str)
    ensures
        s@ == word_bucket_of(words),
{
    if words < 20 {
        "<20"
    } else if words < 80 {
        "20-80"
    } else {
        "80+"
    }
}

/// Number of whitespace-separated words.
pub fn count_words(text: &str) -> (n: usize)
    ensures
        n == words(text@).len(),
{
    let v = chars_of(text);
    let (_, n) = crate::text::collapse_whitespace(&v);
    n
}

/// Word counts add up: two texts joined by a space have as many words as both together,
/// and an empty text has none.
pub proof fn lemma_count_words_adds(a: Seq<char>, b: Seq<char>)
    ensures
        words(a + " "@ + b).len() == words(a).len() + words(b).len(),
        words(Seq::<char>::empty()).len() == 0,
{
    reveal_strlit(" ");
    assert(" "@ =~= seq![' ']);
    crate::text::lemma_words_join(a, b);
}

pub open spec fn auth_kind(mode: Seq<char>) -> Seq<char> {
    if mode == "oauth"@ {
        "oauth"@
    } else if mode == "api_key_env"@ {
        "api_key_env"@
    } else if mode == "api_key"@ {
        "api_key"@
    } else {
        "other"@
    }
}

/// Known auth modes are counted under their own name and every other mode under `other`.
pub proof fn lemma_auth_kind_known_or_other(mode: Seq<char>)
    ensures
        (mode == "oauth"@ || mode == "api_key"@ || mode == "api_key_env"@) ==> auth_kind(mode) == mode,
        !(mode == "oauth"@ || mode == "api_key"@ || mode == "api_key_env"@) ==> auth_kind(mode) == "other"@,
{
}

/// A counted action name is the name cut to 32 characters, with ASCII letters, digits, `_`
/// and `-` kept in place and every other character replaced by `_`.
pub proof fn lemma_action_key_shape(name: Seq<char>)
    ensures
        action_key(name).len() == if name.len() < 32 { name.len() } else { 32 },
        forall|i: int| 0 <= i < action_key(name).len() ==> {
            let c = name[i];
            if ('a' <= c && c <= 'z') || ('A' <= c && c <= 'Z') || ('0' <= c && c <= '9') || c == '_' || c == '-' {
                #[trigger] action_key(name)[i] == c
            } else {
                action_key(name)[i] == '_'
            }
        },
{
}

/// Auth mode label kept in the counts: one of the known modes, else `other`.
pub fn normalize_auth(mode: &str) -> (s: &'static str)
    ensures
        s@ == auth_kind(mode@),
{
    if str_eq(mode, "oauth") {
        "oauth"
    } else if str_eq(mode, "api_key_env") {
        "api_key_env"
    } else if str_eq(mode, "api_key") {
        "api_key"
    } else {
        "other"
    }
}

pub open spec fn action_char(c: char) -> char {
    if ('a' <= c && c <= 'z') || ('A' <= c && c <= 'Z') || ('0' <= c && c <= '9') || c == '_' || c == '-' {
        c
    } else {
        '_'
    }
}

/// Action name as counted: ASCII letters, digits, `_` and `-` kept, anything else `_`, at
/// most 32 characters.
pub open spec fn action_key(name: Seq<char>) -> Seq<char> {
    Seq::new(if name.len() <= 32 { name.len() } else { 32 }, |i: int| action_char(name[i]))
}

pub fn sanitize_action(name: &str) -> (s: String)
    ensures
        s@ == action_key(name@),
{
    let v = chars_of(name);
    let n: usize = if v.len() <= 32 { v.len() } else { 32 };
    let mut out: Vec<char> = Vec::new();
    let mut i: usize = 0;
    while i < n
        invariant
            n <= v@.len(),
            n == (if v@.len() <= 32 { v@.len() } else { 32 }),
            i <= n,
            out@ == action_key(name@).take(i as int),
            v@ == name@,
        decreases n - i,
    {
        let c = v[i];
        let m = if ('a' <= c && c <= 'z') || ('A' <= c && c <= 'Z') || ('0' <= c && c <= '9') || c == '_'
            || c == '-' { c } else { '_' };
        out.push(m);
        assert(action_key(name@).take(i + 1) =~= action_key(name@).take(i as int).push(m));
        i += 1;
    }
    assert(action_key(name@).take(n as int) =~= action_key(name@));
    string_from(&out)
}

/// The duration bucket labels.
pub open spec fn is_duration_label(k: Seq<char>) -> bool {
    k == "<5s"@ || k == "5-20s"@ || k == "20-60s"@ || k == ">60s"@
}

/// The word-count bucket labels.
pub open spec fn is_word_label(k: Seq<char>) -> bool {
    k == "<20"@ || k == "20-80"@ || k == "80+"@
}

/// The auth mode labels.
pub open spec fn is_auth_label(k: Seq<char>) -> bool {
    k == "oauth"@ || k == "api_key_env"@ || k == "api_key"@ || k == "other"@
}

/// A sanitised action name: at most 32 ASCII letters, digits, `_` and `-`.
pub open spec fn is_action_label(k: Seq<char>) -> bool {
    &&& k.len() <= 32
    &&& forall|i: int| 0 <= i < k.len() ==> action_char(#[trigger] k[i]) == k[i]
}

/// Every key of the four count maps is one of the labels above: bucket names, auth mode
/// labels and sanitised action names, nothing a user wrote.
pub open spec fn labelled(d: Map<Seq<char>, u64>, w: Map<Seq<char>, u64>, a: Map<Seq<char>, u64>, act: Map<Seq<char>, u64>) -> bool {
    &&& forall|k: Seq<char>| #[trigger] d.contains_key(k) ==> is_duration_label(k)
    &&& forall|k: Seq<char>| #[trigger] w.contains_key(k) ==> is_word_label(k)
    &&& forall|k: Seq<char>| #[trigger] a.contains_key(k) ==> is_auth_label(k)
    &&& forall|k: Seq<char>| #[trigger] act.contains_key(k) ==> is_action_label(k)
}

proof fn lemma_action_key_is_label(name: Seq<char>)
    ensures
        is_action_label(action_key(name)),
{
    let k = action_key(name);
    assert forall|i: int| 0 <= i < k.len() implies action_char(#[trigger] k[i]) == k[i] by {
        let c = name[i];
        assert(k[i] == action_char(c));
    }
}

/// Keeps at most the newest 256 latencies.
pub open spec fn keep_recent(l: Seq<u64>) -> Seq<u64> {
    if l.len() > 256 { l.skip(l.len() - 256) } else { l }
}

/// Aggregate counts, as persisted.
#[derive(Debug)]
pub struct AnalyticsState {
    pub takes: u64,
    pub takes_ok: u64,
    pub latencies_ms: Vec<u64>,
    pub duration_buckets: Counts,
    pub word_buckets: Counts,
    pub auth: Counts,
    pub actions: Counts,
}

impl AnalyticsState {
    pub open spec fn wf(&self) -> bool {
        &&& self.duration_buckets.wf()
        &&& self.word_buckets.wf()
        &&& self.auth.wf()
        &&& self.actions.wf()
    }

    /// Every count is kept under a label (see [`labelled`]).
    pub open spec fn labelled(&self) -> bool {
        labelled(self.duration_buckets@, self.word_buckets@, self.auth@, self.actions@)
    }

    /// Nothing counted yet.
    pub fn new() -> (s: AnalyticsState)
        ensures
            s.wf(),
            s.labelled(),
            s.takes == 0,
            s.takes_ok == 0,
            s.latencies_ms@.len() == 0,
            s.duration_buckets@ == Map::<Seq<char>, u64>::empty(),
            s.word_buckets@ == Map::<Seq<char>, u64>::empty(),
            s.auth@ == Map::<Seq<char>, u64>::empty(),
            s.actions@ == Map::<Seq<char>, u64>::empty(),
    {
        AnalyticsState {
            takes: 0,
            takes_ok: 0,
            latencies_ms: Vec::new(),
            duration_buckets: Counts::new(),
            word_buckets: Counts::new(),
            auth: Counts::new(),
            actions: Counts::new(),
        }
    }

    /// Counts one finished STT attempt. The transcript only picks a word bucket and is not kept.
    pub fn record_take(
        &mut self,
        duration_ms: u64,
        stop_to_text_ms: u64,
        auth_mode: &str,
        ok: bool,
        transcript: Option<&str>,
    )
        requires
            old(self).wf(),
        ensures
            final(self).wf(),
            final(self).takes == inc(old(self).takes),
            final(self).takes_ok == if ok { inc(old(self).takes_ok) } else { old(self).takes_ok },
            final(self).latencies_ms@ == keep_recent(old(self).latencies_ms@.push(stop_to_text_ms)),
            final(self).duration_buckets@ == bumped(old(self).duration_buckets@, duration_bucket_of(duration_ms)),
            final(self).auth@ == bumped(old(self).auth@, auth_kind(auth_mode@)),
            final(self).word_buckets@ == match transcript {
                Some(t) => bumped(old(self).word_buckets@, word_bucket_of(words(t@).len() as usize)),
                None => old(self).word_buckets@,
            },
            final(self).actions@ == old(self).actions@,
            old(self).labelled() ==> final(self).labelled(),
    {
        self.takes = if self.takes == u64::MAX { 0 } else { self.takes + 1 };
        if ok {
            self.takes_ok = if self.takes_ok == u64::MAX { 0 } else { self.takes_ok + 1 };
        }
        self.latencies_ms.push(stop_to_text_ms);
        if self.latencies_ms.len() > 256 {
            let drop = self.latencies_ms.len() - 256;
            let mut kept: Vec<u64> = Vec::new();
            let mut i = drop;
            while i < self.latencies_ms.len()
                invariant
                    drop <= i <= self.latencies_ms@.len(),
                    kept@ == self.latencies_ms@.subrange(drop as int, i as int),
                decreases self.latencies_ms.len() - i,
            {
                kept.push(self.latencies_ms[i]);
                assert(self.latencies_ms@.subrange(drop as int, i + 1) =~= self.latencies_ms@.subrange(drop as int, i as int).push(self.latencies_ms@[i as int]));
                i += 1;
            }
            assert(kept@ =~= keep_recent(self.latencies_ms@));
            self.latencies_ms = kept;
        }
        self.duration_buckets.bump(duration_bucket(duration_ms));
        self.auth.bump(normalize_auth(auth_mode));
        if let Some(text) = transcript {
            let n = count_words(text);
            self.word_buckets.bump(word_bucket(n));
        }
    }

    /// Counts one user action under its sanitized name.
    pub fn record_action(&mut self, name: &str)
        requires
            old(self).wf(),
        ensures
            final(self).wf(),
            final(self).actions@ == bumped(old(self).actions@, action_key(name@)),
            final(self).takes == old(self).takes,
            final(self).takes_ok == old(self).takes_ok,
            final(self).latencies_ms@ == old(self).latencies_ms@,
            final(self).duration_buckets@ == old(self).duration_buckets@,
            final(self).word_buckets@ == old(self).word_buckets@,
            final(self).auth@ == old(self).auth@,
            old(self).labelled() ==> final(self).labelled(),
    {
        let key = sanitize_action(name);
        proof {
            lemma_action_key_is_label(name@);
        }
        self.actions.bump(key.as_str());
    }
}

} // verus!

verus! {

/// What the settings page shows: a copy of the counts and whether counting is on.
#[derive(Debug)]
pub struct Snapshot {
    pub enabled: bool,
    pub takes: u64,
    pub takes_ok: u64,
    pub median_stop_to_text_ms: Option<u64>,
    pub duration_buckets: Counts,
    pub word_buckets: Counts,
    pub auth: Counts,
    pub actions: Counts,
}

impl Snapshot {
    pub open spec fn wf(&self) -> bool {
        &&& self.duration_buckets.wf()
        &&& self.word_buckets.wf()
        &&& self.auth.wf()
        &&& self.actions.wf()
    }
}

/// The count stored under `k`, zero where there is none.
pub open spec fn count_of(m: Map<Seq<char>, u64>, k: Seq<char>) -> nat {
    if m.contains_key(k) { m[k] as nat } else { 0 }
}

/// One-line summary of a snapshot. `median_secs` is the median latency in seconds as the
/// caller rendered it (one decimal); it is used only when there is a median.
pub open spec fn summary_of(
    enabled: bool,
    takes: u64,
    median: Option<u64>,
    auth: Map<Seq<char>, u64>,
    median_secs: Seq<char>,
) -> Seq<char> {
    if !enabled {
        "Off — nothing is recorded."@
    } else if takes == 0 {
        "On — no takes counted yet."@
    } else {
        let med = match median {
            Some(_) => median_secs + "s median"@,
            None => "no latency yet"@,
        };
        decimal(takes as nat) + " takes · "@ + med + " · sign-in "@ + decimal(count_of(auth, "oauth"@))
            + " / key "@ + decimal(count_of(auth, "api_key"@) + count_of(auth, "api_key_env"@))
    }
}

fn count_or_zero(c: &Counts, key: &str) -> (n: u64)
    requires
        c.wf(),
    ensures
        n == count_of(c@, key@),
{
    match c.get(key) {
        Some(n) => n,
        None => 0,
    }
}

/// The settings-page summary of `snap`.
pub fn snapshot_summary(snap: &Snapshot, median_secs: &str) -> (s: String)
    requires
        snap.wf(),
    ensures
        s@ == summary_of(snap.enabled, snap.takes, snap.median_stop_to_text_ms, snap.auth@, median_secs@),
{
    if !snap.enabled {
        return String::from_str("Off — nothing is recorded.");
    }
    if snap.takes == 0 {
        return String::from_str("On — no takes counted yet.");
    }
    let oauth = count_or_zero(&snap.auth, "oauth");
    let key: u128 = count_or_zero(&snap.auth, "api_key") as u128 + count_or_zero(&snap.auth, "api_key_env") as u128;
    let mut s = u64_to_string(snap.takes);
    push_str(&mut s, " takes · ");
    match snap.median_stop_to_text_ms {
        Some(_) => {
            push_str(&mut s, median_secs);
            push_str(&mut s, "s median");
        },
        None => {
            push_str(&mut s, "no latency yet");
        },
    }
    push_str(&mut s, " · sign-in ");
    let o = u64_to_string(oauth);
    push_str(&mut s, o.as_str());
    push_str(&mut s, " / key ");
    let k = u128_to_string(key);
    push_str(&mut s, k.as_str());
    s
}

/// Whether an opt-in file's contents switch counting on.
pub open spec fn opt_in_on(contents: Option<Seq<char>>) -> bool {
    match contents {
        Some(t) => {
            let v = crate::text::trim(t);
            v == "1"@ || v == "true"@ || v == "yes"@ || v == "on"@
        },
        None => false,
    }
}

/// Reads an opt-in file's contents (`None` when there is no file).
pub fn opt_in_from_file(contents: Option<&str>) -> (b: bool)
    ensures
        b == opt_in_on(crate::keyring::opt_view(contents)),
{
    match contents {
        Some(t) => {
            let v = crate::keyring::trimmed(t);
            let s = v.as_str();
            str_eq(s, "1") || str_eq(s, "true") || str_eq(s, "yes") || str_eq(s, "on")
        },
        None => false,
    }
}

/// What the opt-in file holds after a switch.
pub fn opt_in_file_text(on: bool) -> (s: &'static str)
    ensures
        s@ == (if on { "1\n"@ } else { "0\n"@ }),
{
    if on { "1\n" } else { "0\n" }
}

/// The counts of one data directory: the opt-in switch and the aggregate state, as the
/// caller loaded them from that directory.
#[derive(Debug)]
pub struct AnalyticsStore {
    dir: String,
    enabled: bool,
    state: AnalyticsState,
}

impl AnalyticsStore {
    pub closed spec fn dir_view(&self) -> Seq<char> {
        self.dir@
    }

    pub closed spec fn enabled_view(&self) -> bool {
        self.enabled
    }

    pub closed spec fn state_view(&self) -> &AnalyticsState {
        &self.state
    }

    pub closed spec fn wf(&self) -> bool {
        self.state.wf()
    }

    /// A store for `dir` where nothing has been written yet: off, nothing counted.
    pub fn at(dir: &str) -> (s: AnalyticsStore)
        ensures
            s.wf(),
            s.dir_view() == dir@,
            !s.enabled_view(),
            s.state_view().takes == 0,
            s.state_view().takes_ok == 0,
            s.state_view().latencies_ms@.len() == 0,
            s.state_view().duration_buckets@ == Map::<Seq<char>, u64>::empty(),
            s.state_view().word_buckets@ == Map::<Seq<char>, u64>::empty(),
            s.state_view().auth@ == Map::<Seq<char>, u64>::empty(),
            s.state_view().actions@ == Map::<Seq<char>, u64>::empty(),
            s.state_view().labelled(),
    {
        AnalyticsStore { dir: String::from_str(dir), enabled: false, state: AnalyticsState::new() }
    }

    /// The store of the application data directory `data_dir`, before anything was loaded.
    pub fn in_data_dir(data_dir: &str) -> (s: AnalyticsStore)
        ensures
            s.wf(),
            s.dir_view() == data_dir@,
            !s.enabled_view(),
            s.state_view().takes == 0,
            s.state_view().takes_ok == 0,
            s.state_view().latencies_ms@.len() == 0,
            s.state_view().duration_buckets@ == Map::<Seq<char>, u64>::empty(),
            s.state_view().word_buckets@ == Map::<Seq<char>, u64>::empty(),
            s.state_view().auth@ == Map::<Seq<char>, u64>::empty(),
            s.state_view().actions@ == Map::<Seq<char>, u64>::empty(),
            s.state_view().labelled(),
    {
        Self::at(data_dir)
    }

    /// A store for `dir` with what its files held: the opt-in file's contents and the state.
    pub fn loaded(dir: &str, opt_in: Option<&str>, state: AnalyticsState) -> (s: AnalyticsStore)
        requires
            state.wf(),
        ensures
            s.wf(),
            s.dir_view() == dir@,
            s.enabled_view() == opt_in_on(crate::keyring::opt_view(opt_in)),
            *s.state_view() == state,
    {
        AnalyticsStore { dir: String::from_str(dir), enabled: opt_in_from_file(opt_in), state }
    }

    /// The directory the store's files live in.
    pub fn dir(&self) -> (d: &str)
        ensures
            d@ == self.dir_view(),
    {
        self.dir.as_str()
    }

    /// The aggregate state, to be saved by the caller.
    pub fn state(&self) -> (s: &AnalyticsState)
        ensures
            *s == *self.state_view(),
    {
        &self.state
    }

    /// Whether counting is on.
    pub fn is_enabled(&self) -> (b: bool)
        ensures
            b == self.enabled_view(),
    {
        self.enabled
    }

    /// Switches counting on or off; returns what the opt-in file must then hold.
    pub fn set_enabled(&mut self, on: bool) -> (file_text: &'static str)
        ensures
            final(self).enabled_view() == on,
            final(self).dir_view() == old(self).dir_view(),
            *final(self).state_view() == *old(self).state_view(),
            final(self).wf() == old(self).wf(),
            file_text@ == (if on { "1\n"@ } else { "0\n"@ }),
    {
        self.enabled = on;
        opt_in_file_text(on)
    }

    /// Counts a finished STT attempt when counting is on; does nothing when it is off. The
    /// transcript only picks a word bucket and is never kept.
    pub fn record_take(
        &mut self,
        duration_ms: u64,
        stop_to_text_ms: u64,
        auth_mode: &str,
        ok: bool,
        transcript: Option<&str>,
    )
        requires
            old(self).wf(),
        ensures
            final(self).wf(),
            final(self).dir_view() == old(self).dir_view(),
            final(self).enabled_view() == old(self).enabled_view(),
            !old(self).enabled_view() ==> *final(self).state_view() == *old(self).state_view(),
            old(self).enabled_view() ==> {
                let s0 = old(self).state_view();
                let s1 = final(self).state_view();
                &&& s1.takes == inc(s0.takes)
                &&& s1.takes_ok == if ok { inc(s0.takes_ok) } else { s0.takes_ok }
                &&& s1.latencies_ms@ == keep_recent(s0.latencies_ms@.push(stop_to_text_ms))
                &&& s1.duration_buckets@ == bumped(s0.duration_buckets@, duration_bucket_of(duration_ms))
                &&& s1.auth@ == bumped(s0.auth@, auth_kind(auth_mode@))
                &&& s1.word_buckets@ == match transcript {
                    Some(t) => bumped(s0.word_buckets@, word_bucket_of(words(t@).len() as usize)),
                    None => s0.word_buckets@,
                }
                &&& s1.actions@ == s0.actions@
            },
            old(self).state_view().labelled() ==> final(self).state_view().labelled(),
            old(self).enabled_view() && unsaturated(old(self).state_view().word_buckets@) ==> total(
                final(self).state_view().word_buckets@,
            ) == total(old(self).state_view().word_buckets@) + if transcript is Some { 1nat } else { 0nat },
    {
        if self.enabled {
            proof {
                self.state.word_buckets.lemma_finite();
            }
            self.state.record_take(duration_ms, stop_to_text_ms, auth_mode, ok, transcript);
            proof {
                if let Some(t) = transcript {
                    if unsaturated(old(self).state_view().word_buckets@) {
                        lemma_total_bumped(
                            old(self).state_view().word_buckets@,
                            word_bucket_of(words(t@).len() as usize),
                        );
                    }
                }
            }
        }
    }

    /// Counts one user action when counting is on; does nothing when it is off.
    pub fn record_action(&mut self, name: &str)
        requires
            old(self).wf(),
        ensures
            final(self).wf(),
            final(self).dir_view() == old(self).dir_view(),
            final(self).enabled_view() == old(self).enabled_view(),
            !old(self).enabled_view() ==> *final(self).state_view() == *old(self).state_view(),
            old(self).enabled_view() ==> {
                let s0 = old(self).state_view();
                let s1 = final(self).state_view();
                &&& s1.actions@ == bumped(s0.actions@, action_key(name@))
                &&& s1.takes == s0.takes
                &&& s1.takes_ok == s0.takes_ok
                &&& s1.latencies_ms@ == s0.latencies_ms@
                &&& s1.duration_buckets@ == s0.duration_buckets@
                &&& s1.word_buckets@ == s0.word_buckets@
                &&& s1.auth@ == s0.auth@
            },
            old(self).state_view().labelled() ==> final(self).state_view().labelled(),
    {
        if self.enabled {
            self.state.record_action(name);
        }
    }

    /// A copy of the counts with the median latency.
    pub fn snapshot(&self) -> (snap: Snapshot)
        requires
            self.wf(),
        ensures
            snap.wf(),
            snap.enabled == self.enabled_view(),
            snap.takes == self.state_view().takes,
            snap.takes_ok == self.state_view().takes_ok,
            snap.median_stop_to_text_ms == median_of(self.state_view().latencies_ms@),
            snap.duration_buckets@ == self.state_view().duration_buckets@,
            snap.word_buckets@ == self.state_view().word_buckets@,
            snap.auth@ == self.state_view().auth@,
            snap.actions@ == self.state_view().actions@,
    {
        Snapshot {
            enabled: self.enabled,
            takes: self.state.takes,
            takes_ok: self.state.takes_ok,
            median_stop_to_text_ms: median(self.state.latencies_ms.as_slice()),
            duration_buckets: self.state.duration_buckets.copy(),
            word_buckets: self.state.word_buckets.copy(),
            auth: self.state.auth.copy(),
            actions: self.state.actions.copy(),
        }
    }

    /// The settings-page summary of this store (see [`snapshot_summary`]).
    pub fn summary_line(&self, median_secs: &str) -> (s: String)
        requires
            self.wf(),
        ensures
            s@ == summary_of(
                self.enabled_view(),
                self.state_view().takes,
                median_of(self.state_view().latencies_ms@),
                self.state_view().auth@,
                median_secs@,
            ),
    {
        let snap = self.snapshot();
        snapshot_summary(&snap, median_secs)
    }
}

/// Version of the payload layout.
pub const TELEMETRY_SCHEMA: u32 = 1;

/// Version of this application, reported in the payload.
pub const APP_VERSION: &'static str = "0.1.0";

/// The anonymous usage report: counts only, never text, audio or an id.
#[derive(Debug)]
pub struct TelemetryPayload {
    pub schema: u32,
    pub app: &'static str,
    pub app_version: &'static str,
    pub enabled: bool,
    pub takes: u64,
    pub takes_ok: u64,
    pub median_stop_to_text_ms: Option<u64>,
    pub duration_buckets: Counts,
    pub word_buckets: Counts,
    pub auth: Counts,
    pub actions: Counts,
}

impl TelemetryPayload {
    pub open spec fn wf(&self) -> bool {
        &&& self.duration_buckets.wf()
        &&& self.word_buckets.wf()
        &&& self.auth.wf()
        &&& self.actions.wf()
    }

    /// Its count maps hold only label keys (see [`labelled`]).
    pub open spec fn labelled(&self) -> bool {
        labelled(self.duration_buckets@, self.word_buckets@, self.auth@, self.actions@)
    }
}

/// `p` is the report of `store`: the schema, app name and version, and the store's counts.
pub open spec fn payload_of(store: &AnalyticsStore, p: &TelemetryPayload) -> bool {
    &&& p.wf()
    &&& p.schema == TELEMETRY_SCHEMA
    &&& p.app@ == crate::APP_SLUG@
    &&& p.app_version@ == APP_VERSION@
    &&& p.enabled == store.enabled_view()
    &&& p.takes == store.state_view().takes
    &&& p.takes_ok == store.state_view().takes_ok
    &&& p.median_stop_to_text_ms == median_of(store.state_view().latencies_ms@)
    &&& p.duration_buckets@ == store.state_view().duration_buckets@
    &&& p.word_buckets@ == store.state_view().word_buckets@
    &&& p.auth@ == store.state_view().auth@
    &&& p.actions@ == store.state_view().actions@
}

impl AnalyticsStore {
    /// The anonymous report a maintainer would collect.
    pub fn export_payload(&self) -> (p: TelemetryPayload)
        requires
            self.wf(),
        ensures
            payload_of(self, &p),
    {
        let snap = self.snapshot();
        TelemetryPayload {
            schema: TELEMETRY_SCHEMA,
            app: crate::APP_SLUG,
            app_version: APP_VERSION,
            enabled: snap.enabled,
            takes: snap.takes,
            takes_ok: snap.takes_ok,
            median_stop_to_text_ms: snap.median_stop_to_text_ms,
            duration_buckets: snap.duration_buckets,
            word_buckets: snap.word_buckets,
            auth: snap.auth,
            actions: snap.actions,
        }
    }
}

/// A report of a store whose counts were all made by recording takes and actions holds
/// only bucket names, auth mode labels and sanitised action names as keys: no transcript
/// word and no other text a user wrote.
pub proof fn lemma_payload_holds_only_labels(store: &AnalyticsStore, p: &TelemetryPayload)
    requires
        store.wf(),
        store.state_view().labelled(),
        payload_of(store, p),
    ensures
        p.labelled(),
{
}

/// Where an anonymous report goes.
pub trait TelemetrySink {
    /// Sends the report; the error says why it did not arrive.
    fn send(&self, payload: &TelemetryPayload) -> Result<(), String>;
}

/// Sends the report to `sink` only when counting is on: skipped, sent, or failed with the
/// sink's error.
pub fn maybe_submit<S: TelemetrySink>(store: &AnalyticsStore, sink: &S) -> (r: SubmitOutcome)
    requires
        store.wf(),
    ensures
        !store.enabled_view() <==> r == SubmitOutcome::SkippedDisabled,
        store.enabled_view() ==> (r == SubmitOutcome::Sent || r is Failed),
{
    if let Some(skipped) = submit_gate(store) {
        return skipped;
    }
    let payload = store.export_payload();
    sent_outcome(sink.send(&payload))
}

/// The store of the application data directory.
pub fn default_store(data_dir: &str) -> (s: AnalyticsStore)
    ensures
        s.wf(),
        s.dir_view() == data_dir@,
        !s.enabled_view(),
        s.state_view().takes == 0,
        s.state_view().latencies_ms@.len() == 0,
{
    AnalyticsStore::in_data_dir(data_dir)
}

} // verus!

verus! {

/// Result of a telemetry submit attempt.
#[derive(Debug, Clone, PartialEq, Eq)]
pub enum SubmitOutcome {
    SkippedDisabled,
    Sent,
    Failed(String),
}

/// Remote submit gate: `Some(SkippedDisabled)` when counting is off (nothing may be sent),
/// `None` when the caller may send the payload.
pub fn submit_gate(store: &AnalyticsStore) -> (r: Option<SubmitOutcome>)
    ensures
        r == (if store.enabled_view() { None } else { Some(SubmitOutcome::SkippedDisabled) }),
{
    if store.is_enabled() {
        None
    } else {
        Some(SubmitOutcome::SkippedDisabled)
    }
}

/// What a permitted send came to.
pub fn sent_outcome(result: Result<(), String>) -> (r: SubmitOutcome)
    ensures
        result is Ok ==> r == SubmitOutcome::Sent,
        result matches Err(e) ==> r == SubmitOutcome::Failed(e),
{
    match result {
        Ok(()) => SubmitOutcome::Sent,
        Err(e) => SubmitOutcome::Failed(e),
    }
}

/// HTTP telemetry destination; exists only for an `https://` URL.
#[derive(Debug, Clone)]
pub struct HttpTelemetrySink {
    url: String,
}

/// The configured URL, trimmed, when it is non-empty and starts with `https://`.
pub open spec fn telemetry_url(setting: Option<Seq<char>>) -> Option<Seq<char>> {
    match setting {
        Some(v) => {
            let t = crate::text::trim(v);
            if t.len() > 0 && crate::text::starts_with(t, "https://"@) { Some(t) } else { None }
        },
        None => None,
    }
}

impl HttpTelemetrySink {
    pub closed spec fn url_view(&self) -> Seq<char> {
        self.url@
    }

    /// A sink for the configured telemetry URL (`None` when unset, empty or not HTTPS).
    pub fn from_setting(setting: Option<&str>) -> (r: Option<HttpTelemetrySink>)
        ensures
            telemetry_url(crate::keyring::opt_view(setting)) matches Some(u) ==> r matches Some(s) && s.url_view() == u,
            telemetry_url(crate::keyring::opt_view(setting)) is None ==> r is None,
    {
        match setting {
            Some(v) => {
                let t = crate::keyring::trimmed(v);
                let cs = chars_of(t.as_str());
                if cs.len() > 0 && crate::text::starts_with_chars(&cs, "https://") {
                    Some(HttpTelemetrySink { url: t })
                } else {
                    None
                }
            },
            None => None,
        }
    }

    pub fn url(&self) -> (u: &str)
        ensures
            u@ == self.url_view(),
    {
        self.url.as_str()
    }
}

/// Substrings that must never appear (case-insensitively) in a telemetry payload.
pub open spec fn banned_terms() -> Seq<Seq<char>> {
    seq![
        "transcript"@,
        "user_id"@,
        "userid"@,
        "email"@,
        "oauth_token"@,
        "bearer "@,
        "sk-or-"@,
        "sk-xai"@,
    ]
}

/// A payload is anonymous when its JSON text holds no banned term and no `"audio"` key, it
/// has `schema` and `takes`, and it has no `text` field.
pub open spec fn anonymous_payload(dumped: Seq<char>, has_schema: bool, has_takes: bool, has_text: bool) -> bool {
    let s = crate::text::lower(dumped);
    &&& forall|i: int| 0 <= i < banned_terms().len() ==> !crate::text::contains(s, #[trigger] banned_terms()[i])
    &&& !crate::text::contains(s, "\"audio\""@)
    &&& has_schema
    &&& has_takes
    &&& !has_text
}

/// Checks a payload given as its JSON text and whether its top level has `schema`, `takes`
/// and `text`.
pub fn payload_is_anonymous(dumped: &str, has_schema: bool, has_takes: bool, has_text: bool) -> (b: bool)
    ensures
        b == anonymous_payload(dumped@, has_schema, has_takes, has_text),
{
    let raw = chars_of(dumped);
    let s = crate::text::to_ascii_lower(&raw);
    let banned: [&str; 8] = ["transcript", "user_id", "userid", "email", "oauth_token", "bearer ", "sk-or-", "sk-xai"];
    proof {
        reveal_strlit("transcript");
        reveal_strlit("user_id");
        reveal_strlit("userid");
        reveal_strlit("email");
        reveal_strlit("oauth_token");
        reveal_strlit("bearer ");
        reveal_strlit("sk-or-");
        reveal_strlit("sk-xai");
    }
    let mut i: usize = 0;
    while i < 8
        invariant
            i <= 8,
            s@ == crate::text::lower(dumped@),
            forall|k: int| 0 <= k < 8 ==> (#[trigger] banned@[k])@ == banned_terms()[k],
            forall|k: int| 0 <= k < i ==> !crate::text::contains(s@, #[trigger] banned_terms()[k]),
        decreases 8 - i,
    {
        let term = chars_of(banned[i]);
        if crate::text::contains_chars(&s, &term) {
            return false;
        }
        i += 1;
    }
    let audio = chars_of("\"audio\"");
    if crate::text::contains_chars(&s, &audio) {
        return false;
    }
    has_schema && has_takes && !has_text
}

} // verus!
