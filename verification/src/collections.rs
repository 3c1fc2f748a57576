//! The collections of the crate: maps from strings kept in the order of their keys,
//! copies that keep what a value stands for, and a stable sort.

use vstd::prelude::*;
use vstd::string::*;
use crate::text::{chars_of, slice_less, slices_equal, str_eq, text_less};

verus! {

/// A copy that stands for the same thing.
pub trait CloneView: DeepView + Sized {
    fn clone_view(&self) -> (r: Self)
        ensures
            r.deep_view() == self.deep_view(),
    ;
}

impl CloneView for String {
    fn clone_view(&self) -> (r: Self) {
        self.clone()
    }
}

impl CloneView for bool {
    fn clone_view(&self) -> (r: Self) {
        *self
    }
}

impl CloneView for u8 {
    fn clone_view(&self) -> (r: Self) {
        *self
    }
}

impl CloneView for u32 {
    fn clone_view(&self) -> (r: Self) {
        *self
    }
}

impl CloneView for usize {
    fn clone_view(&self) -> (r: Self) {
        *self
    }
}

impl CloneView for i64 {
    fn clone_view(&self) -> (r: Self) {
        *self
    }
}

impl CloneView for i32 {
    fn clone_view(&self) -> (r: Self) {
        *self
    }
}

impl<T: CloneView> CloneView for Option<T> {
    fn clone_view(&self) -> (r: Self) {
        match self {
            Some(x) => Some(x.clone_view()),
            None => None,
        }
    }
}

impl<T: CloneView> CloneView for Vec<T> {
    fn clone_view(&self) -> (r: Self) {
        let mut out: Vec<T> = Vec::new();
        let mut i: usize = 0;
        while i < self.len()
            invariant
                0 <= i <= self@.len(),
                out@.len() == i,
                forall|j: int|
                    0 <= j < i ==> (#[trigger] out@[j]).deep_view() == self@[j].deep_view(),
            decreases self@.len() - i,
        {
            out.push(self[i].clone_view());
            i = i + 1;
        }
        assert(out.deep_view() =~= self.deep_view());
        out
    }
}

impl<A: CloneView, B: CloneView> CloneView for (A, B) {
    fn clone_view(&self) -> (r: Self) {
        (self.0.clone_view(), self.1.clone_view())
    }
}

/// The value of the first entry whose key is `k`.
pub open spec fn map_get<V>(m: Seq<(Seq<char>, V)>, k: Seq<char>) -> Option<V>
    decreases m.len(),
{
    if m.len() == 0 {
        None
    } else if m[0].0 == k {
        Some(m[0].1)
    } else {
        map_get(m.skip(1), k)
    }
}

/// `m` with `v` for `k`: in place of the entry for `k`, or else before the first larger key.
pub open spec fn map_insert<V>(m: Seq<(Seq<char>, V)>, k: Seq<char>, v: V) -> Seq<
    (Seq<char>, V),
>
    decreases m.len(),
{
    if m.len() == 0 {
        seq![(k, v)]
    } else if m[0].0 == k {
        seq![(k, v)] + m.skip(1)
    } else if text_less(k, m[0].0) {
        seq![(k, v)] + m
    } else {
        seq![m[0]] + map_insert(m.skip(1), k, v)
    }
}

/// `m` without the entries for `k`.
pub open spec fn map_remove<V>(m: Seq<(Seq<char>, V)>, k: Seq<char>) -> Seq<(Seq<char>, V)>
    decreases m.len(),
{
    if m.len() == 0 {
        m
    } else if m[0].0 == k {
        map_remove(m.skip(1), k)
    } else {
        seq![m[0]] + map_remove(m.skip(1), k)
    }
}

/// The keys are in ascending order, each once.
pub open spec fn map_sorted<V>(m: Seq<(Seq<char>, V)>) -> bool {
    forall|i: int, j: int| 0 <= i < j < m.len() ==> text_less(#[trigger] m[i].0, #[trigger] m[j].0)
}

/// What is put under a key is what is found there, and nothing else changes.
pub proof fn get_after_insert<V>(m: Seq<(Seq<char>, V)>, k: Seq<char>, v: V, other: Seq<char>)
    ensures
        map_get(map_insert(m, k, v), k) == Some(v),
        other != k ==> map_get(map_insert(m, k, v), other) == map_get(m, other),
    decreases m.len(),
{
    let r = map_insert(m, k, v);
    reveal_with_fuel(map_get, 2);
    if m.len() == 0 {
        assert(r.skip(1) =~= m);
    } else if m[0].0 == k {
        assert(r.skip(1) =~= m.skip(1));
    } else if text_less(k, m[0].0) {
        assert(r.skip(1) =~= m);
    } else {
        get_after_insert(m.skip(1), k, v, other);
        assert(r.skip(1) =~= map_insert(m.skip(1), k, v));
    }
}

/// What is taken out is not found any more, and nothing else changes.
pub proof fn get_after_remove<V>(m: Seq<(Seq<char>, V)>, gone: Seq<char>, key: Seq<char>)
    ensures
        map_get(map_remove(m, gone), key) == (if key == gone {
            None
        } else {
            map_get(m, key)
        }),
    decreases m.len(),
{
    if m.len() > 0 {
        get_after_remove(m.skip(1), gone, key);
        if m[0].0 != gone {
            let r = map_remove(m, gone);
            assert(r[0] == m[0]);
            assert(r.skip(1) =~= map_remove(m.skip(1), gone));
        }
    }
}

pub proof fn text_less_irreflexive(a: Seq<char>)
    ensures
        !text_less(a, a),
    decreases a.len(),
{
    if a.len() > 0 {
        text_less_irreflexive(a.skip(1));
    }
}

pub proof fn text_less_transitive(a: Seq<char>, b: Seq<char>, c: Seq<char>)
    requires
        text_less(a, b),
        text_less(b, c),
    ensures
        text_less(a, c),
    decreases a.len(),
{
    if a.len() > 0 && b.len() > 0 && c.len() > 0 && a[0] == b[0] && b[0] == c[0] {
        text_less_transitive(a.skip(1), b.skip(1), c.skip(1));
    }
}

pub proof fn text_less_total(a: Seq<char>, b: Seq<char>)
    ensures
        a == b || text_less(a, b) || text_less(b, a),
    decreases a.len(),
{
    if a.len() > 0 && b.len() > 0 && a[0] == b[0] {
        text_less_total(a.skip(1), b.skip(1));
        if a.skip(1) == b.skip(1) {
            assert forall|i: int| 0 <= i < a.len() implies a[i] == b[i] by {
                if i > 0 {
                    assert(a.skip(1)[i - 1] == b.skip(1)[i - 1]);
                }
            }
            assert(a.len() == a.skip(1).len() + 1);
            assert(a =~= b);
        }
    } else if a.len() == 0 && b.len() == 0 {
        assert(a =~= b);
    }
}

/// An insertion keeps the keys in order.
pub proof fn insert_keeps_order<V>(m: Seq<(Seq<char>, V)>, k: Seq<char>, v: V)
    requires
        map_sorted(m),
    ensures
        map_sorted(map_insert(m, k, v)),
        forall|i: int|
            0 <= i < map_insert(m, k, v).len() ==> (#[trigger] map_insert(m, k, v)[i]).0 == k || (
            exists|j: int| 0 <= j < m.len() && m[j].0 == map_insert(m, k, v)[i].0),
    decreases m.len(),
{
    let r = map_insert(m, k, v);
    if m.len() == 0 {
    } else if m[0].0 == k {
        assert forall|i: int, j: int| 0 <= i < j < r.len() implies text_less(
            #[trigger] r[i].0,
            #[trigger] r[j].0,
        ) by {
            assert(r[i].0 == m[i].0 && r[j].0 == m[j].0);
        }
        assert forall|i: int| 0 <= i < r.len() implies (#[trigger] r[i]).0 == k || (exists|j: int|
            0 <= j < m.len() && m[j].0 == r[i].0) by {
            assert(m[i].0 == r[i].0);
        }
    } else if text_less(k, m[0].0) {
        assert forall|i: int, j: int| 0 <= i < j < r.len() implies text_less(
            #[trigger] r[i].0,
            #[trigger] r[j].0,
        ) by {
            assert(r[j].0 == m[j - 1].0);
            if i == 0 {
                if j > 1 {
                    assert(text_less(m[0].0, m[j - 1].0));
                    text_less_transitive(k, m[0].0, m[j - 1].0);
                }
            } else {
                assert(r[i].0 == m[i - 1].0);
            }
        }
        assert forall|i: int| 0 <= i < r.len() implies (#[trigger] r[i]).0 == k || (exists|j: int|
            0 <= j < m.len() && m[j].0 == r[i].0) by {
            if i > 0 {
                assert(m[i - 1].0 == r[i].0);
            }
        }
    } else {
        let t = m.skip(1);
        assert forall|i: int, j: int| 0 <= i < j < t.len() implies text_less(
            #[trigger] t[i].0,
            #[trigger] t[j].0,
        ) by {
            assert(t[i] == m[i + 1] && t[j] == m[j + 1]);
        }
        insert_keeps_order(t, k, v);
        let rt = map_insert(t, k, v);
        text_less_total(k, m[0].0);
        assert forall|i: int, j: int| 0 <= i < j < r.len() implies text_less(
            #[trigger] r[i].0,
            #[trigger] r[j].0,
        ) by {
            assert(r[j] == rt[j - 1]);
            if i == 0 {
                if rt[j - 1].0 != k {
                    let x = choose|x: int| 0 <= x < t.len() && t[x].0 == rt[j - 1].0;
                    assert(t[x] == m[x + 1]);
                }
            } else {
                assert(r[i] == rt[i - 1]);
            }
        }
        assert forall|i: int| 0 <= i < r.len() implies (#[trigger] r[i]).0 == k || (exists|j: int|
            0 <= j < m.len() && m[j].0 == r[i].0) by {
            if i == 0 {
                assert(m[0].0 == r[0].0);
            } else {
                assert(r[i] == rt[i - 1]);
                if rt[i - 1].0 != k {
                    let x = choose|x: int| 0 <= x < t.len() && t[x].0 == rt[i - 1].0;
                    assert(t[x] == m[x + 1]);
                    assert(m[x + 1].0 == r[i].0);
                }
            }
        }
    }
}

/// Taking an entry out keeps the keys in order.
pub proof fn remove_keeps_order<V>(m: Seq<(Seq<char>, V)>, k: Seq<char>)
    requires
        map_sorted(m),
    ensures
        map_sorted(map_remove(m, k)),
        forall|i: int|
            0 <= i < map_remove(m, k).len() ==> m.contains(#[trigger] map_remove(m, k)[i]),
    decreases m.len(),
{
    if m.len() > 0 {
        let t = m.skip(1);
        assert forall|i: int, j: int| 0 <= i < j < t.len() implies text_less(
            #[trigger] t[i].0,
            #[trigger] t[j].0,
        ) by {
            assert(t[i] == m[i + 1] && t[j] == m[j + 1]);
        }
        remove_keeps_order(t, k);
        let rt = map_remove(t, k);
        let r = map_remove(m, k);
        assert forall|i: int| 0 <= i < rt.len() implies m.contains(#[trigger] rt[i]) && text_less(
            m[0].0,
            rt[i].0,
        ) by {
            let x = choose|x: int| 0 <= x < t.len() && t[x] == rt[i];
            assert(t[x] == m[x + 1]);
        }
        if m[0].0 != k {
            assert forall|i: int, j: int| 0 <= i < j < r.len() implies text_less(
                #[trigger] r[i].0,
                #[trigger] r[j].0,
            ) by {
                assert(r[j] == rt[j - 1]);
                if i > 0 {
                    assert(r[i] == rt[i - 1]);
                }
            }
            assert forall|i: int| 0 <= i < r.len() implies m.contains(#[trigger] r[i]) by {
                if i == 0 {
                    assert(m[0] == r[0]);
                } else {
                    assert(r[i] == rt[i - 1]);
                }
            }
        }
    }
}

/// A map from strings, its entries in the ascending order of their keys.
#[derive(Debug)]
pub struct StrMap<T> {
    pub entries: Vec<(String, T)>,
}

impl<T: DeepView> DeepView for StrMap<T> {
    type V = Seq<(Seq<char>, T::V)>;

    open spec fn deep_view(&self) -> Seq<(Seq<char>, T::V)> {
        self.entries.deep_view()
    }
}

impl<T: CloneView> CloneView for StrMap<T> {
    fn clone_view(&self) -> (r: Self) {
        StrMap { entries: self.entries.clone_view() }
    }
}

impl<T: CloneView> Clone for StrMap<T> {
    fn clone(&self) -> (r: Self)
        ensures
            r.deep_view() == self.deep_view(),
    {
        self.clone_view()
    }
}

impl<T: DeepView> StrMap<T> {
    /// The entries are in the ascending order of their keys, each key once.
    pub open spec fn wf(&self) -> bool {
        map_sorted(self.deep_view())
    }

    /// A map without entries.
    pub fn new() -> (r: Self)
        ensures
            r.deep_view() == Seq::<(Seq<char>, T::V)>::empty(),
            r.wf(),
    {
        let r = StrMap { entries: Vec::<(String, T)>::new() };
        assert(r.deep_view() =~= Seq::<(Seq<char>, T::V)>::empty());
        r
    }

    pub fn len(&self) -> (r: usize)
        ensures
            r == self.deep_view().len(),
    {
        self.entries.len()
    }

    pub fn is_empty(&self) -> (r: bool)
        ensures
            r == (self.deep_view().len() == 0),
    {
        self.entries.len() == 0
    }

    /// The value for `key`.
    pub fn get(&self, key: &str) -> (r: Option<&T>)
        ensures
            match r {
                Some(v) => map_get(self.deep_view(), key@) == Some(v.deep_view()),
                None => map_get(self.deep_view(), key@) is None,
            },
    {
        let mut i: usize = 0;
        assert(self.deep_view().skip(0) =~= self.deep_view());
        while i < self.entries.len()
            invariant
                0 <= i <= self.entries@.len(),
                map_get(self.deep_view().skip(i as int), key@) == map_get(self.deep_view(), key@),
            decreases self.entries@.len() - i,
        {
            let e = &self.entries[i];
            assert(self.deep_view().skip(i as int)[0] == (e.0@, e.1.deep_view()));
            if str_eq(e.0.as_str(), key) {
                return Some(&e.1);
            }
            assert(self.deep_view().skip(i as int).skip(1) =~= self.deep_view().skip(i + 1));
            i = i + 1;
        }
        None
    }

    /// Puts `value` under `key`.
    pub fn insert(&mut self, key: String, value: T)
        ensures
            final(self).deep_view() == map_insert(old(self).deep_view(), key@, value.deep_view()),
            old(self).wf() ==> final(self).wf(),
    {
        let ghost all = self.deep_view();
        let mut i: usize = 0;
        assert(all.skip(0) =~= all);
        assert(all.take(0) + map_insert(all, key@, value.deep_view()) =~= map_insert(
            all,
            key@,
            value.deep_view(),
        ));
        proof {
            if self.wf() {
                insert_keeps_order(all, key@, value.deep_view());
            }
        }
        while i < self.entries.len()
            invariant
                0 <= i <= self.entries@.len(),
                all == self.deep_view(),
                self == old(self),
                all.take(i as int) + map_insert(all.skip(i as int), key@, value.deep_view())
                    == map_insert(all, key@, value.deep_view()),
                old(self).wf() ==> map_sorted(map_insert(all, key@, value.deep_view())),
            decreases self.entries@.len() - i,
        {
            let here = chars_of(self.entries[i].0.as_str());
            let want = chars_of(key.as_str());
            assert(all.skip(i as int)[0] == (here@, self.entries@[i as int].1.deep_view()));
            if slices_equal(here.as_slice(), want.as_slice()) {
                self.entries.set(i, (key, value));
                assert(all.skip(i as int).skip(1) =~= all.skip(i + 1));
                assert(self.deep_view() =~= all.take(i as int) + (seq![(key@, value.deep_view())]
                    + all.skip(i + 1)));
                return;
            }
            if slice_less(want.as_slice(), here.as_slice()) {
                self.entries.insert(i, (key, value));
                assert(self.deep_view() =~= all.take(i as int) + (seq![(key@, value.deep_view())]
                    + all.skip(i as int)));
                return;
            }
            assert(all.skip(i as int).skip(1) =~= all.skip(i + 1));
            assert(all.take(i as int) + (seq![all.skip(i as int)[0]] + map_insert(
                all.skip(i + 1),
                key@,
                value.deep_view(),
            )) =~= all.take(i + 1) + map_insert(all.skip(i + 1), key@, value.deep_view()));
            i = i + 1;
        }
        assert(all.take(i as int) =~= all);
        assert(all.skip(i as int) =~= Seq::<(Seq<char>, T::V)>::empty());
        self.entries.push((key, value));
        assert(self.deep_view() =~= all + seq![(key@, value.deep_view())]);
    }
}

impl<T: DeepView> StrMap<T> {
    /// The map without what is under `key`.
    pub fn without(self, key: &str) -> (r: Self)
        ensures
            r.deep_view() == map_remove(self.deep_view(), key@),
            self.wf() ==> r.wf(),
    {
        let ghost all = self.deep_view();
        proof {
            if self.wf() {
                remove_keeps_order(all, key@);
            }
        }
        let mut rest = self.entries;
        let ghost n = all.len();
        reverse_items(&mut rest);
        proof {
            assert forall|k: int| 0 <= k < rest@.len() implies (#[trigger] rest@[k]).deep_view()
                == all[n - 1 - k] by {
                assert(rest.deep_view()[k] == rest@[k].deep_view());
            }
        }
        let mut out: Vec<(String, T)> = Vec::new();
        let ghost mut i = 0int;
        assert(all.skip(0) =~= all);
        assert(out.deep_view() + map_remove(all.skip(0), key@) =~= map_remove(all, key@));
        while rest.len() > 0
            invariant
                n == all.len(),
                0 <= i <= n,
                rest@.len() == n - i,
                forall|k: int|
                    0 <= k < rest@.len() ==> (#[trigger] rest@[k]).deep_view() == all[n - 1 - k],
                out.deep_view() + map_remove(all.skip(i), key@) == map_remove(all, key@),
            decreases rest@.len(),
        {
            let ghost before = out.deep_view();
            proof {
                assert(rest@[n - i - 1].deep_view() == all[i]);
                assert(all.skip(i)[0] == all[i]);
                assert(all.skip(i).skip(1) =~= all.skip(i + 1));
            }
            if let Some(e) = rest.pop() {
                if !str_eq(e.0.as_str(), key) {
                    out.push(e);
                    assert(out.deep_view() =~= before.push(all[i]));
                    assert(out.deep_view() + map_remove(all.skip(i + 1), key@) =~= before + (
                    seq![all[i]] + map_remove(all.skip(i + 1), key@)));
                }
            }
            proof {
                i = i + 1;
            }
        }
        assert(all.skip(i) =~= Seq::<(Seq<char>, T::V)>::empty());
        assert(out.deep_view() =~= map_remove(all, key@));
        StrMap { entries: out }
    }
}

// ---------------------------------------------------------------------------
// Sets of strings
// ---------------------------------------------------------------------------

/// A set of strings.
#[derive(Debug)]
pub struct StrSet {
    pub items: Vec<String>,
}

impl DeepView for StrSet {
    type V = Set<Seq<char>>;

    open spec fn deep_view(&self) -> Set<Seq<char>> {
        self.items.deep_view().to_set()
    }
}

impl CloneView for StrSet {
    fn clone_view(&self) -> (r: Self) {
        StrSet { items: self.items.clone_view() }
    }
}

impl Clone for StrSet {
    fn clone(&self) -> (r: Self)
        ensures
            r.deep_view() == self.deep_view(),
    {
        self.clone_view()
    }
}

impl StrSet {
    pub fn new() -> (r: Self)
        ensures
            r.deep_view() == Set::<Seq<char>>::empty(),
    {
        let r = StrSet { items: Vec::new() };
        assert(r.deep_view() =~= Set::<Seq<char>>::empty());
        r
    }

    pub fn contains(&self, s: &str) -> (r: bool)
        ensures
            r == self.deep_view().contains(s@),
    {
        let ghost all = self.items.deep_view();
        let mut i: usize = 0;
        while i < self.items.len()
            invariant
                0 <= i <= self.items@.len(),
                all == self.items.deep_view(),
                forall|j: int| 0 <= j < i ==> #[trigger] all[j] != s@,
            decreases self.items@.len() - i,
        {
            assert(all[i as int] == self.items@[i as int]@);
            if str_eq(self.items[i].as_str(), s) {
                assert(all.contains(s@));
                return true;
            }
            i = i + 1;
        }
        false
    }

    pub fn insert(&mut self, s: String)
        ensures
            final(self).deep_view() == old(self).deep_view().insert(s@),
    {
        let ghost all = self.items.deep_view();
        if self.contains(s.as_str()) {
            assert(self.deep_view() =~= all.to_set().insert(s@));
            return;
        }
        self.items.push(s);
        assert(self.items.deep_view() =~= all.push(s@));
        assert(self.deep_view() =~= all.to_set().insert(s@)) by {
            assert forall|x: Seq<char>| all.push(s@).contains(x) == (all.contains(x) || x == s@) by {
                if all.contains(x) {
                    let j = choose|j: int| 0 <= j < all.len() && all[j] == x;
                    assert(all.push(s@)[j] == x);
                }
                assert(all.push(s@)[all.len() as int] == s@);
            }
        }
    }

    pub fn remove(&mut self, s: &str)
        ensures
            final(self).deep_view() == old(self).deep_view().remove(s@),
    {
        let ghost all = self.items.deep_view();
        let mut kept: Vec<String> = Vec::new();
        let mut i: usize = 0;
        assert(kept.deep_view() =~= Seq::empty());
        while i < self.items.len()
            invariant
                0 <= i <= self.items@.len(),
                all == self.items.deep_view(),
                forall|x: Seq<char>|
                    #[trigger] kept.deep_view().contains(x) <==> (x != s@ && all.take(
                        i as int,
                    ).contains(x)),
            decreases self.items@.len() - i,
        {
            let ghost before = kept.deep_view();
            assert(all[i as int] == self.items@[i as int]@);
            let ghost t = all.take(i as int);
            let ghost t1 = all.take(i + 1);
            assert(t1 =~= t.push(all[i as int]));
            let same = str_eq(self.items[i].as_str(), s);
            if !same {
                let c = self.items[i].clone();
                kept.push(c);
                assert(kept.deep_view() =~= before.push(all[i as int]));
            }
            assert forall|x: Seq<char>| #[trigger] kept.deep_view().contains(x) <==> (x != s@
                && t1.contains(x)) by {
                assert(t1.contains(x) == (t.contains(x) || x == all[i as int])) by {
                    if t.contains(x) {
                        let j = choose|j: int| 0 <= j < t.len() && t[j] == x;
                        assert(t1[j] == x);
                    }
                    assert(t1[i as int] == all[i as int]);
                }
                if !same {
                    assert(kept.deep_view().contains(x) == (before.contains(x) || x
                        == all[i as int])) by {
                        if before.contains(x) {
                            let j = choose|j: int| 0 <= j < before.len() && before[j] == x;
                            assert(kept.deep_view()[j] == x);
                        }
                        assert(kept.deep_view()[before.len() as int] == all[i as int]);
                    }
                }
                assert(before.contains(x) <==> (x != s@ && t.contains(x)));
            }
            i = i + 1;
        }
        assert(all.take(i as int) =~= all);
        self.items = kept;
        assert(self.deep_view() =~= all.to_set().remove(s@));
    }
}

// ---------------------------------------------------------------------------
// Sorting
// ---------------------------------------------------------------------------

/// `s` with `x` put behind the last item that does not come after it.
pub open spec fn insert_sorted<V>(s: Seq<V>, x: V, le: spec_fn(V, V) -> bool) -> Seq<V>
    decreases s.len(),
{
    if s.len() == 0 || le(s.last(), x) {
        s.push(x)
    } else {
        insert_sorted(s.drop_last(), x, le).push(s.last())
    }
}

/// The items of `s` in ascending order, equal ones in the order they had.
pub open spec fn stable_sorted<V>(s: Seq<V>, le: spec_fn(V, V) -> bool) -> Seq<V>
    decreases s.len(),
{
    if s.len() == 0 {
        s
    } else {
        insert_sorted(stable_sorted(s.drop_last(), le), s.last(), le)
    }
}

/// Items that can be put in order.
pub trait Ordered: DeepView + Sized {
    /// Whether `a` may stand before `b`.
    spec fn le_view(a: Self::V, b: Self::V) -> bool;

    fn le(&self, other: &Self) -> (r: bool)
        ensures
            r == Self::le_view(self.deep_view(), other.deep_view()),
    ;
}

/// Puts `x` into the sorted part of a list.
fn insert_item<T: Ordered>(v: &mut Vec<T>, x: T)
    ensures
        final(v).deep_view() == insert_sorted(
            old(v).deep_view(),
            x.deep_view(),
            |a: T::V, b: T::V| T::le_view(a, b),
        ),
{
    let ghost all = v.deep_view();
    let ghost le = |a: T::V, b: T::V| T::le_view(a, b);
    let mut i: usize = v.len();
    assert(all.take(i as int) =~= all);
    assert(insert_sorted(all, x.deep_view(), le) + all.skip(i as int) =~= insert_sorted(
        all,
        x.deep_view(),
        le,
    ));
    while i > 0 && !v[i - 1].le(&x)
        invariant
            0 <= i <= v@.len(),
            all == v.deep_view(),
            le == (|a: T::V, b: T::V| T::le_view(a, b)),
            insert_sorted(all.take(i as int), x.deep_view(), le) + all.skip(i as int)
                == insert_sorted(all, x.deep_view(), le),
        decreases i,
    {
        assert(all.take(i as int).last() == all[i - 1]);
        assert(all.take(i as int).drop_last() =~= all.take(i - 1));
        assert(insert_sorted(all.take(i as int), x.deep_view(), le) + all.skip(i as int)
            =~= insert_sorted(all.take(i - 1), x.deep_view(), le) + all.skip(i - 1));
        i = i - 1;
    }
    v.insert(i, x);
    assert(i > 0 ==> all.take(i as int).last() == all[i - 1]);
    assert(v.deep_view() =~= all.take(i as int).push(x.deep_view()) + all.skip(i as int));
}

/// The items of `v` in ascending order, equal ones in the order they had.
pub fn sort_items<T: Ordered>(v: Vec<T>) -> (r: Vec<T>)
    ensures
        r.deep_view() == stable_sorted(v.deep_view(), |a: T::V, b: T::V| T::le_view(a, b)),
{
    let ghost all = v.deep_view();
    let ghost le = |a: T::V, b: T::V| T::le_view(a, b);
    let mut out: Vec<T> = Vec::new();
    let mut rest = v;
    reverse_items(&mut rest);
    let ghost n = all.len();
    assert(all.take(0) =~= Seq::<T::V>::empty());
    assert(out.deep_view() =~= Seq::<T::V>::empty());
    while rest.len() > 0
        invariant
            le == (|a: T::V, b: T::V| T::le_view(a, b)),
            n == all.len(),
            rest@.len() <= n,
            rest.deep_view() == all.skip(n - rest@.len()).reverse(),
            out.deep_view() == stable_sorted(all.take(n - rest@.len()), le),
        decreases rest@.len(),
    {
        let ghost k = n - rest@.len();
        let ghost before = rest.deep_view();
        let ghost before_vec = rest@;
        let item = rest.pop();
        match item {
            Some(x) => {
                proof {
                    assert(before.last() == x.deep_view());
                    assert(before.last() == all[k]);
                    assert(all.take(k + 1).drop_last() =~= all.take(k));
                    assert(rest@ =~= before_vec.drop_last());
                    assert(rest.deep_view() =~= before.drop_last());
                    assert(rest.deep_view() =~= all.skip(k + 1).reverse());
                }
                insert_item(&mut out, x);
            },
            None => {},
        }
    }
    assert(all.take(n as int) =~= all);
    out
}

/// Turns the order of the items round.
pub fn reverse_items<T: DeepView>(v: &mut Vec<T>)
    ensures
        final(v)@.len() == old(v)@.len(),
        final(v).deep_view() == old(v).deep_view().reverse(),
{
    let ghost all = v.deep_view();
    let ghost items = v@;
    let mut out: Vec<T> = Vec::new();
    while v.len() > 0
        invariant
            out@.len() + v@.len() == items.len(),
            v@ == items.take(v@.len() as int),
            out@ =~= items.skip(v@.len() as int).reverse(),
        decreases v@.len(),
    {
        let ghost n = v@.len();
        let item = v.pop();
        match item {
            Some(x) => {
                assert(x == items[n - 1]);
                out.push(x);
                assert(out@ =~= items.skip(n - 1).reverse());
            },
            None => {},
        }
    }
    assert(items.skip(0) =~= items);
    *v = out;
    assert(v@ == items.reverse());
    assert(v.deep_view() =~= all.reverse());
}

/// The items stand in ascending order.
pub open spec fn in_order<V>(s: Seq<V>, le: spec_fn(V, V) -> bool) -> bool {
    forall|i: int, j: int| 0 <= i <= j < s.len() ==> le(#[trigger] s[i], #[trigger] s[j])
}

/// `le` is reflexive, transitive and total.
pub open spec fn total_preorder<V>(le: spec_fn(V, V) -> bool) -> bool {
    &&& forall|a: V| #[trigger] le(a, a)
    &&& forall|a: V, b: V| #[trigger] le(a, b) || le(b, a)
    &&& forall|a: V, b: V, c: V| #[trigger] le(a, b) && #[trigger] le(b, c) ==> le(a, c)
}

/// No item of `s` comes after `y`.
spec fn none_after<V>(s: Seq<V>, y: V, le: spec_fn(V, V) -> bool) -> bool {
    forall|i: int| 0 <= i < s.len() ==> le(#[trigger] s[i], y)
}

proof fn insert_sorted_in_order<V>(s: Seq<V>, x: V, le: spec_fn(V, V) -> bool)
    requires
        total_preorder(le),
        in_order(s, le),
    ensures
        in_order(insert_sorted(s, x, le), le),
        insert_sorted(s, x, le).to_multiset() == s.push(x).to_multiset(),
        insert_sorted(s, x, le).len() == s.len() + 1,
        forall|y: V|
            none_after(s, y, le) && le(x, y) ==> #[trigger] none_after(
                insert_sorted(s, x, le),
                y,
                le,
            ),
    decreases s.len(),
{
    broadcast use vstd::seq_lib::group_to_multiset_ensures;

    if s.len() == 0 || le(s.last(), x) {
        let r = s.push(x);
        assert forall|i: int, j: int| 0 <= i <= j < r.len() implies le(
            #[trigger] r[i],
            #[trigger] r[j],
        ) by {
            if j == s.len() && i < s.len() {
                assert(le(s[i], s[s.len() - 1]));
            }
        }
    } else {
        let t = s.drop_last();
        assert(in_order(t, le));
        insert_sorted_in_order(t, x, le);
        let rt = insert_sorted(t, x, le);
        let r = rt.push(s.last());
        assert(le(x, s.last()));
        assert forall|i: int| 0 <= i < t.len() implies le(#[trigger] t[i], s.last()) by {
            assert(le(s[i], s[s.len() - 1]));
        }
        assert(none_after(t, s.last(), le));
        assert(none_after(rt, s.last(), le));
        assert forall|i: int, j: int| 0 <= i <= j < r.len() implies le(
            #[trigger] r[i],
            #[trigger] r[j],
        ) by {
            if j == rt.len() && i < rt.len() {
                assert(le(rt[i], s.last()));
            }
        }
        assert(s =~= t.push(s.last()));
        assert(r.to_multiset() =~= s.push(x).to_multiset());
        assert forall|y: V|
            none_after(s, y, le) && le(x, y) implies #[trigger] none_after(r, y, le) by {
            assert forall|i: int| 0 <= i < t.len() implies le(#[trigger] t[i], y) by {
                assert(t[i] == s[i]);
            }
            assert(none_after(t, y, le));
            assert(none_after(rt, y, le));
            assert forall|i: int| 0 <= i < r.len() implies le(#[trigger] r[i], y) by {
                if i < rt.len() {
                    assert(r[i] == rt[i]);
                } else {
                    assert(r[i] == s[s.len() - 1]);
                }
            }
        }
    }
}

/// A stable sort puts the items in ascending order, and each comes out as often as it
/// went in.
pub proof fn stable_sorted_in_order<V>(s: Seq<V>, le: spec_fn(V, V) -> bool)
    requires
        total_preorder(le),
    ensures
        in_order(stable_sorted(s, le), le),
        stable_sorted(s, le).to_multiset() == s.to_multiset(),
        stable_sorted(s, le).len() == s.len(),
    decreases s.len(),
{
    broadcast use vstd::seq_lib::group_to_multiset_ensures;

    if s.len() > 0 {
        let t = s.drop_last();
        stable_sorted_in_order(t, le);
        insert_sorted_in_order(stable_sorted(t, le), s.last(), le);
        assert(s =~= t.push(s.last()));
        assert(stable_sorted(s, le).to_multiset() =~= s.to_multiset());
    }
}

} // verus!
