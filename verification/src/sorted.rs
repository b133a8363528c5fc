//! Texts in order, and a map from texts to values that keeps its keys in that order, as the
//! screens keep their lists of titles.

use vstd::prelude::*;

verus! {

/// One text comes before another, comparing characters by their code points; a text comes
/// before every longer text it starts.
pub open spec fn text_lt(a: Seq<char>, b: Seq<char>) -> bool
    decreases a.len(),
{
    if a.len() == 0 {
        b.len() > 0
    } else if b.len() == 0 {
        false
    } else if a[0] != b[0] {
        (a[0] as u32) < (b[0] as u32)
    } else {
        text_lt(a.drop_first(), b.drop_first())
    }
}

/// No text comes before itself.
pub proof fn lemma_text_lt_irreflexive(a: Seq<char>)
    ensures
        !text_lt(a, a),
    decreases a.len(),
{
    if a.len() > 0 {
        lemma_text_lt_irreflexive(a.drop_first());
    }
}

/// Of two different texts, one comes before the other.
pub proof fn lemma_text_lt_total(a: Seq<char>, b: Seq<char>)
    ensures
        a != b ==> text_lt(a, b) || text_lt(b, a),
        !(text_lt(a, b) && text_lt(b, a)),
    decreases a.len(),
{
    if a.len() > 0 && b.len() > 0 {
        if a[0] == b[0] {
            lemma_text_lt_total(a.drop_first(), b.drop_first());
            if a.drop_first() == b.drop_first() {
                assert(a =~= seq![a[0]] + a.drop_first());
                assert(b =~= seq![b[0]] + b.drop_first());
            }
        } else {
            vstd::utf8::char_u32_cast(a[0], a[0] as u32);
            vstd::utf8::char_u32_cast(b[0], b[0] as u32);
        }
    } else if a.len() == 0 && b.len() == 0 {
        assert(a =~= b);
    }
}

/// Coming before is transitive.
pub proof fn lemma_text_lt_transitive(a: Seq<char>, b: Seq<char>, c: Seq<char>)
    requires
        text_lt(a, b),
        text_lt(b, c),
    ensures
        text_lt(a, c),
    decreases a.len(),
{
    if a.len() > 0 && b.len() > 0 && c.len() > 0 {
        if a[0] == b[0] && b[0] == c[0] {
            lemma_text_lt_transitive(a.drop_first(), b.drop_first(), c.drop_first());
        }
    }
}

/// Whether one text comes before another.
pub fn text_less(a: &str, b: &str) -> (r: bool)
    ensures
        r == text_lt(a@, b@),
{
    let la = a.unicode_len();
    let lb = b.unicode_len();
    let mut i: usize = 0;
    proof {
        assert(a@.skip(0) =~= a@);
        assert(b@.skip(0) =~= b@);
    }
    while i < la && i < lb
        invariant
            la == a@.len(),
            lb == b@.len(),
            i <= la,
            i <= lb,
            text_lt(a@, b@) == text_lt(a@.skip(i as int), b@.skip(i as int)),
        decreases la - i,
    {
        let ca = a.get_char(i);
        let cb = b.get_char(i);
        proof {
            let sa = a@.skip(i as int);
            let sb = b@.skip(i as int);
            assert(sa[0] == ca);
            assert(sb[0] == cb);
            assert(sa.drop_first() =~= a@.skip(i + 1));
            assert(sb.drop_first() =~= b@.skip(i + 1));
        }
        if ca != cb {
            return (ca as u32) < (cb as u32);
        }
        i = i + 1;
    }
    proof {
        assert(a@.skip(i as int).len() == la - i);
        assert(b@.skip(i as int).len() == lb - i);
    }
    i == la && i < lb
}

/// Whether two texts are the same.
pub fn text_eq(a: &str, b: &str) -> (r: bool)
    ensures
        r == (a@ == b@),
{
    crate::text::str_eq(a, b)
}

/// The keys of a map's entries strictly increase.
pub open spec fn keys_increase<V>(s: Seq<(Seq<char>, V)>) -> bool {
    forall|i: int, j: int| 0 <= i < j < s.len() ==> text_lt(#[trigger] s[i].0, #[trigger] s[j].0)
}

/// Where a key belongs among a map's entries: the number of keys that come before it.
pub open spec fn position_of<V>(s: Seq<(Seq<char>, V)>, k: Seq<char>) -> int
    decreases s.len(),
{
    if s.len() == 0 {
        0
    } else if text_lt(s.last().0, k) {
        s.len() as int
    } else {
        position_of(s.drop_last(), k)
    }
}

/// A key's position lies within the map.
pub proof fn lemma_position_bounds<V>(s: Seq<(Seq<char>, V)>, k: Seq<char>)
    ensures
        0 <= position_of(s, k) <= s.len(),
    decreases s.len(),
{
    if s.len() > 0 {
        lemma_position_bounds(s.drop_last(), k);
    }
}

/// Giving a key a value adds at most one entry.
pub proof fn lemma_inserted_len<V>(s: Seq<(Seq<char>, V)>, k: Seq<char>, v: V)
    ensures
        inserted(s, k, v).len() == s.len() || inserted(s, k, v).len() == s.len() + 1,
{
    lemma_position_bounds(s, k);
}

/// The entries after a key is given a value: the value replaces that of an equal key, or the
/// entry goes in where the key belongs.
pub open spec fn inserted<V>(s: Seq<(Seq<char>, V)>, k: Seq<char>, v: V) -> Seq<(Seq<char>, V)> {
    let p = position_of(s, k);
    if p < s.len() && s[p].0 == k {
        s.update(p, (k, v))
    } else {
        s.insert(p, (k, v))
    }
}

/// A map from texts to values, its keys kept in order.
pub struct SortedMap<V> {
    entries: Vec<(String, V)>,
}

/// The entries of a map, by value.
pub open spec fn entries_of<V>(v: Seq<(String, V)>) -> Seq<(Seq<char>, V)> {
    Seq::new(v.len(), |i: int| (v[i].0@, v[i].1))
}

impl<V> View for SortedMap<V> {
    type V = Seq<(Seq<char>, V)>;

    closed spec fn view(&self) -> Seq<(Seq<char>, V)> {
        entries_of(self.entries@)
    }
}

/// In a map whose keys increase, the keys before a key's position come before it, and those
/// from there on do not.
proof fn lemma_position_of<V>(s: Seq<(Seq<char>, V)>, k: Seq<char>)
    requires
        keys_increase(s),
    ensures
        0 <= position_of(s, k) <= s.len(),
        forall|i: int| 0 <= i < position_of(s, k) ==> text_lt(#[trigger] s[i].0, k),
        forall|i: int| position_of(s, k) <= i < s.len() ==> !text_lt(#[trigger] s[i].0, k),
    decreases s.len(),
{
    if s.len() > 0 {
        let init = s.drop_last();
        assert(keys_increase(init)) by {
            assert forall|i: int, j: int| 0 <= i < j < init.len() implies text_lt(
                #[trigger] init[i].0,
                #[trigger] init[j].0,
            ) by {
                assert(init[i] == s[i] && init[j] == s[j]);
            }
        }
        lemma_position_of(init, k);
        if text_lt(s.last().0, k) {
            assert forall|i: int| 0 <= i < s.len() implies text_lt(#[trigger] s[i].0, k) by {
                if i < s.len() - 1 {
                    assert(text_lt(s[i].0, s[s.len() - 1].0));
                    lemma_text_lt_transitive(s[i].0, s[s.len() - 1].0, k);
                }
            }
        } else {
            assert forall|i: int|
                position_of(s, k) <= i < s.len() implies !text_lt(#[trigger] s[i].0, k) by {
                if i < s.len() - 1 {
                    assert(init[i] == s[i]);
                }
            }
            assert forall|i: int| 0 <= i < position_of(s, k) implies text_lt(
                #[trigger] s[i].0,
                k,
            ) by {
                assert(init[i] == s[i]);
            }
        }
    }
}

/// In a map whose keys increase, a key is found at one position only.
pub proof fn lemma_keys_unique<V>(s: Seq<(Seq<char>, V)>, i: int, j: int)
    requires
        keys_increase(s),
        0 <= i < s.len(),
        0 <= j < s.len(),
        s[i].0 == s[j].0,
    ensures
        i == j,
{
    if i < j {
        assert(text_lt(s[i].0, s[j].0));
        lemma_text_lt_irreflexive(s[i].0);
    } else if j < i {
        assert(text_lt(s[j].0, s[i].0));
        lemma_text_lt_irreflexive(s[i].0);
    }
}

/// Giving a key a value keeps a map's keys increasing.
pub proof fn lemma_inserted_keys_increase<V>(s: Seq<(Seq<char>, V)>, k: Seq<char>, v: V)
    requires
        keys_increase(s),
    ensures
        keys_increase(inserted(s, k, v)),
{
    lemma_position_of(s, k);
    let p = position_of(s, k);
    let t = inserted(s, k, v);
    if p < s.len() && s[p].0 == k {
        assert forall|i: int, j: int| 0 <= i < j < t.len() implies text_lt(
            #[trigger] t[i].0,
            #[trigger] t[j].0,
        ) by {
            assert(t[i].0 == s[i].0 && t[j].0 == s[j].0);
        }
    } else {
        assert forall|i: int, j: int| 0 <= i < j < t.len() implies text_lt(
            #[trigger] t[i].0,
            #[trigger] t[j].0,
        ) by {
            if j < p {
                assert(t[i] == s[i] && t[j] == s[j]);
            } else if j == p {
                assert(t[i] == s[i]);
            } else if i < p {
                assert(t[i] == s[i] && t[j] == s[j - 1]);
                assert(!text_lt(s[j - 1].0, k));
                lemma_text_lt_total(s[j - 1].0, k);
                if s[j - 1].0 == k {
                    lemma_text_lt_irreflexive(k);
                    if j - 1 > p {
                        assert(text_lt(s[p].0, s[j - 1].0));
                        assert(!text_lt(s[p].0, k));
                    }
                }
                lemma_text_lt_transitive(s[i].0, k, s[j - 1].0);
            } else if i == p {
                assert(t[j] == s[j - 1]);
                assert(!text_lt(s[j - 1].0, k));
                lemma_text_lt_total(s[j - 1].0, k);
                if s[j - 1].0 == k {
                    if j - 1 > p {
                        assert(text_lt(s[p].0, s[j - 1].0));
                        assert(!text_lt(s[p].0, k));
                        lemma_text_lt_total(s[p].0, k);
                    }
                }
            } else {
                assert(t[i] == s[i - 1] && t[j] == s[j - 1]);
            }
        }
    }
}

impl<V> SortedMap<V> {
    /// An empty map.
    pub fn new() -> (r: Self)
        ensures
            r@ == Seq::<(Seq<char>, V)>::empty(),
    {
        let r = SortedMap { entries: Vec::new() };
        proof {
            assert(entries_of(r.entries@) =~= Seq::<(Seq<char>, V)>::empty());
        }
        r
    }

    /// The map's keys increase.
    pub open spec fn wf(&self) -> bool {
        keys_increase(self@)
    }

    /// The number of entries.
    pub fn len(&self) -> (r: usize)
        ensures
            r == self@.len(),
    {
        self.entries.len()
    }

    /// Give a key a value.
    pub fn insert(&mut self, k: String, v: V)
        requires
            old(self).wf(),
        ensures
            final(self).wf(),
            final(self)@ == inserted(old(self)@, k@, v),
    {
        let ghost s = self@;
        proof {
            lemma_position_of(s, k@);
            lemma_inserted_keys_increase(s, k@, v);
        }
        let mut p: usize = self.entries.len();
        while p > 0
            invariant
                p <= self.entries.len(),
                s == self@,
                keys_increase(s),
                position_of(s, k@) <= p,
                position_of(s, k@) <= s.len(),
                forall|i: int| 0 <= i < position_of(s, k@) ==> text_lt(#[trigger] s[i].0, k@),
                forall|i: int| p <= i < s.len() ==> !text_lt(#[trigger] s[i].0, k@),
            ensures
                p > 0 ==> text_lt(s[p - 1].0, k@),
                position_of(s, k@) <= p,
                forall|i: int| p <= i < s.len() ==> !text_lt(#[trigger] s[i].0, k@),
            decreases p,
        {
            proof {
                assert(s[p - 1].0 == self.entries@[p - 1].0@);
            }
            if text_less(self.entries[p - 1].0.as_str(), k.as_str()) {
                break;
            }
            p = p - 1;
        }
        proof {
            if p > 0 {
                assert(text_lt(s[p - 1].0, k@));
            }
            assert(position_of(s, k@) == p);
        }
        if p < self.entries.len() && text_eq(self.entries[p].0.as_str(), k.as_str()) {
            proof {
                assert(s[p as int].0 == k@);
            }
            let ghost before = self.entries@;
            self.entries.set(p, (k, v));
            proof {
                assert(entries_of(self.entries@) =~= inserted(s, k@, v));
            }
        } else {
            proof {
                if p < s.len() {
                    assert(s[p as int].0 == self.entries@[p as int].0@);
                }
            }
            self.entries.insert(p, (k, v));
            proof {
                assert(entries_of(self.entries@) =~= inserted(s, k@, v));
            }
        }
    }

    /// The keys, in order.
    pub fn keys(&self) -> (r: Vec<String>)
        ensures
            r@.len() == self@.len(),
            forall|i: int| 0 <= i < r@.len() ==> (#[trigger] r@[i])@ == self@[i].0,
    {
        let mut r: Vec<String> = Vec::new();
        let mut i: usize = 0;
        while i < self.entries.len()
            invariant
                i <= self.entries.len(),
                r@.len() == i,
                forall|j: int| 0 <= j < i ==> (#[trigger] r@[j])@ == self@[j].0,
            decreases self.entries.len() - i,
        {
            r.push(self.entries[i].0.clone());
            i = i + 1;
        }
        r
    }

    /// The position of a key, if the map has it.
    pub fn find(&self, k: &str) -> (r: Option<usize>)
        ensures
            match r {
                Some(i) => i < self@.len() && self@[i as int].0 == k@,
                None => forall|i: int| 0 <= i < self@.len() ==> self@[i].0 != k@,
            },
    {
        let mut i: usize = 0;
        while i < self.entries.len()
            invariant
                i <= self.entries.len(),
                forall|j: int| 0 <= j < i ==> self@[j].0 != k@,
            decreases self.entries.len() - i,
        {
            if text_eq(self.entries[i].0.as_str(), k) {
                return Some(i);
            }
            i = i + 1;
        }
        None
    }

    /// The values, by reference, in order.
    pub fn entries(&self) -> (r: &Vec<(String, V)>)
        ensures
            entries_of(r@) == self@,
    {
        &self.entries
    }

    /// The entry at a position.
    pub fn get(&self, i: usize) -> (r: &(String, V))
        requires
            i < self@.len(),
        ensures
            r.0@ == self@[i as int].0,
            r.1 == self@[i as int].1,
    {
        &self.entries[i]
    }
}

} // verus!
