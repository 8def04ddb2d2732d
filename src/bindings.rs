use std::cmp::Ordering;
use vstd::prelude::*;
use crate::tokens::spaced;

verus! {

/// Strict lexicographic order on keys, comparing characters by code point.
pub open spec fn key_less(a: Seq<char>, b: Seq<char>) -> bool
    decreases a.len(),
{
    if a.len() == 0 {
        b.len() > 0
    } else if b.len() == 0 {
        false
    } else if a[0] != b[0] {
        (a[0] as int) < (b[0] as int)
    } else {
        key_less(a.drop_first(), b.drop_first())
    }
}

/// No key is below itself.
pub proof fn lemma_key_less_irreflexive(a: Seq<char>)
    ensures
        !key_less(a, a),
    decreases a.len(),
{
    if a.len() > 0 {
        lemma_key_less_irreflexive(a.drop_first());
    }
}

/// Two keys are equal, or exactly one of them is below the other.
pub proof fn lemma_key_less_total(a: Seq<char>, b: Seq<char>)
    ensures
        a == b || key_less(a, b) || key_less(b, a),
        !(key_less(a, b) && key_less(b, a)),
    decreases a.len(),
{
    if a.len() > 0 && b.len() > 0 && a[0] == b[0] {
        lemma_key_less_total(a.drop_first(), b.drop_first());
        if a.drop_first() == b.drop_first() {
            assert(a =~= b) by {
                assert forall|i: int| 0 <= i < a.len() implies a[i] == b[i] by {
                    if i > 0 {
                        assert(a[i] == a.drop_first()[i - 1]);
                        assert(b[i] == b.drop_first()[i - 1]);
                    }
                }
            }
        }
    } else if a.len() == 0 && b.len() == 0 {
        assert(a =~= b);
    }
}

/// The key order is transitive.
pub proof fn lemma_key_less_transitive(a: Seq<char>, b: Seq<char>, c: Seq<char>)
    requires
        key_less(a, b),
        key_less(b, c),
    ensures
        key_less(a, c),
    decreases a.len(),
{
    if a.len() > 0 && a[0] == b[0] && b[0] == c[0] {
        lemma_key_less_transitive(a.drop_first(), b.drop_first(), c.drop_first());
    }
}

/// One binding as a key and a value.
pub type Binding = (Seq<char>, Seq<char>);

/// Keys stand in strictly increasing order, so no key occurs twice.
pub open spec fn keys_sorted(s: Seq<Binding>) -> bool {
    forall|i: int, j: int| 0 <= i < j < s.len() ==> key_less(#[trigger] s[i].0, #[trigger] s[j].0)
}

/// The token `key=value` of one binding.
pub open spec fn pair_text(e: Binding) -> Seq<char> {
    e.0 + "="@ + e.1
}

/// The `key=value` tokens of a sequence of bindings, in its order.
pub open spec fn pair_tokens(s: Seq<Binding>) -> Seq<Seq<char>> {
    s.map_values(|e: Binding| pair_text(e))
}

/// Compares two keys in the order of `key_less`.
fn compare_keys(a: &str, b: &str) -> (r: Ordering)
    ensures
        (r == Ordering::Less) == key_less(a@, b@),
        (r == Ordering::Equal) == (a@ == b@),
        (r == Ordering::Greater) == key_less(b@, a@),
{
    proof {
        lemma_key_less_total(a@, b@);
        lemma_key_less_irreflexive(a@);
        assert(a@.skip(0) =~= a@);
        assert(b@.skip(0) =~= b@);
    }
    let la = a.unicode_len();
    let lb = b.unicode_len();
    let mut i: usize = 0;
    while i < la && i < lb
        invariant
            la == a@.len(),
            lb == b@.len(),
            i <= la,
            i <= lb,
            a@.subrange(0, i as int) == b@.subrange(0, i as int),
            key_less(a@, b@) == key_less(a@.skip(i as int), b@.skip(i as int)),
            key_less(b@, a@) == key_less(b@.skip(i as int), a@.skip(i as int)),
        decreases la - i,
    {
        let ca = a.get_char(i);
        let cb = b.get_char(i);
        if ca != cb {
            assert(a@.skip(i as int)[0] == ca);
            assert(b@.skip(i as int)[0] == cb);
            assert(a@[i as int] != b@[i as int]);
            if (ca as u32) < (cb as u32) {
                return Ordering::Less;
            } else {
                return Ordering::Greater;
            }
        }
        proof {
            assert(a@.skip(i + 1) =~= a@.skip(i as int).drop_first());
            assert(b@.skip(i + 1) =~= b@.skip(i as int).drop_first());
            assert(a@.subrange(0, i + 1) =~= a@.subrange(0, i as int).push(ca));
            assert(b@.subrange(0, i + 1) =~= b@.subrange(0, i as int).push(cb));
        }
        i = i + 1;
    }
    if la == lb {
        assert(a@ =~= a@.subrange(0, i as int));
        assert(b@ =~= b@.subrange(0, i as int));
        Ordering::Equal
    } else {
        if la < lb {
            assert(a@.skip(i as int).len() == 0);
            assert(a@.len() != b@.len());
            Ordering::Less
        } else {
            assert(b@.skip(i as int).len() == 0);
            assert(a@.len() != b@.len());
            Ordering::Greater
        }
    }
}

/// Two sequences of bindings with strictly increasing keys that hold the same
/// bindings are the same sequence: the order of the bindings is fixed by
/// their keys, not by the order in which they were added.
pub proof fn lemma_sorted_bindings_canonical(a: Seq<Binding>, b: Seq<Binding>)
    requires
        keys_sorted(a),
        keys_sorted(b),
        a.to_set() == b.to_set(),
    ensures
        a == b,
    decreases a.len(),
{
    if a.len() == 0 {
        if b.len() > 0 {
            assert(a.to_set().contains(b[0]));
        }
        assert(a =~= b);
    } else {
        assert(b.to_set().contains(a[0]));
        let j = choose|j: int| 0 <= j < b.len() && b[j] == a[0];
        assert(a.to_set().contains(b[0]));
        let i = choose|i: int| 0 <= i < a.len() && a[i] == b[0];
        if j > 0 {
            lemma_key_less_irreflexive(a[0].0);
            if i > 0 {
                lemma_key_less_total(a[0].0, b[0].0);
            }
        }
        assert(j == 0);
        let a1 = a.drop_first();
        let b1 = b.drop_first();
        assert forall|e: Binding| a1.to_set().contains(e) == b1.to_set().contains(e) by {
            lemma_key_less_irreflexive(a[0].0);
            if a1.contains(e) {
                let m = choose|m: int| 0 <= m < a1.len() && a1[m] == e;
                assert(a[m + 1] == e);
                assert(a.to_set().contains(e));
                assert(b.contains(e));
                let n = choose|n: int| 0 <= n < b.len() && b[n] == e;
                assert(key_less(a[0].0, a[m + 1].0));
                assert(n != 0);
                assert(b1[n - 1] == e);
            }
            if b1.contains(e) {
                let m = choose|m: int| 0 <= m < b1.len() && b1[m] == e;
                assert(b[m + 1] == e);
                assert(b.to_set().contains(e));
                assert(a.contains(e));
                let n = choose|n: int| 0 <= n < a.len() && a[n] == e;
                assert(key_less(b[0].0, b[m + 1].0));
                assert(n != 0);
                assert(a1[n - 1] == e);
            }
        }
        assert(a1.to_set() =~= b1.to_set());
        lemma_sorted_bindings_canonical(a1, b1);
        assert(a =~= b) by {
            assert forall|k: int| 0 <= k < a.len() implies a[k] == b[k] by {
                if k > 0 {
                    assert(a[k] == a1[k - 1]);
                    assert(b[k] == b1[k - 1]);
                }
            }
        }
    }
}

/// Custom bindings handed to the compiler: a map from key to value, held as
/// a sequence in strictly increasing order of keys, so that a map is held in
/// exactly one way and is always written out in the same order.
pub struct UseBindings {
    entries: Vec<(String, String)>,
}

impl View for UseBindings {
    type V = Seq<Binding>;

    closed spec fn view(&self) -> Seq<Binding> {
        self.entries@.map_values(|e: (String, String)| (e.0@, e.1@))
    }
}

impl UseBindings {
    /// The bindings are well formed: their keys stand in strictly increasing order.
    pub open spec fn wf(&self) -> bool {
        keys_sorted(self@)
    }

    /// No bindings.
    pub fn new() -> (r: UseBindings)
        ensures
            r@ == Seq::<Binding>::empty(),
            r.wf(),
    {
        let r = UseBindings { entries: Vec::new() };
        assert(r@ =~= Seq::<Binding>::empty());
        r
    }

    /// Whether there are no bindings.
    pub fn is_empty(&self) -> (r: bool)
        ensures
            r == (self@.len() == 0),
    {
        self.entries.len() == 0
    }

    /// Binds `key` to `value`, replacing the value that `key` had before.
    pub fn insert(&mut self, key: String, value: String)
        requires
            old(self).wf(),
        ensures
            final(self).wf(),
            final(self)@.to_set() == old(self)@.to_set().filter(|e: Binding| e.0 != key@).insert(
                (key@, value@),
            ),
    {
        let ghost s = self@;
        let ghost k = key@;
        let ghost v = value@;
        let n = self.entries.len();
        let mut i: usize = 0;
        while i < n
            invariant
                n == self.entries.len(),
                self@ == s,
                keys_sorted(s),
                i <= n,
                k == key@,
                v == value@,
                s == old(self)@,
                forall|j: int| 0 <= j < i ==> key_less(#[trigger] s[j].0, k),
            ensures
                i <= n,
                self@ == s,
                k == key@,
                v == value@,
                forall|j: int| 0 <= j < i ==> key_less(#[trigger] s[j].0, k),
                i < n ==> key_less(k, s[i as int].0),
            decreases n - i,
        {
            let c = compare_keys(self.entries[i].0.as_str(), key.as_str());
            assert(s[i as int].0 == self.entries@[i as int].0@);
            match c {
                Ordering::Less => {
                    i = i + 1;
                },
                Ordering::Equal => {
                    let ghost e0 = self.entries@;
                    self.entries.set(i, (key, value));
                    proof {
                        let t = s.update(i as int, (k, v));
                        assert forall|j: int| 0 <= j < t.len() implies self@[j] == t[j] by {
                            if j != i {
                                assert(self.entries@[j] == e0[j]);
                            }
                        }
                        assert(self@ =~= t);
                        assert forall|a: int, b: int| 0 <= a < b < t.len() implies key_less(
                            #[trigger] t[a].0,
                            #[trigger] t[b].0,
                        ) by {
                            assert(key_less(s[a].0, s[b].0));
                        }
                        lemma_update_set(s, i as int, k, v);
                    }
                    return;
                },
                Ordering::Greater => {
                    break;
                },
            }
        }
        self.entries.insert(i, (key, value));
        proof {
            let t = s.insert(i as int, (k, v));
            assert(self@ =~= t);
            assert forall|a: int, b: int| 0 <= a < b < t.len() implies key_less(
                #[trigger] t[a].0,
                #[trigger] t[b].0,
            ) by {
                if a < i && b > i {
                    assert(t[b] == s[b - 1]);
                    assert(key_less(s[a].0, k));
                    if i < n {
                        if b - 1 > i {
                            lemma_key_less_transitive(k, s[i as int].0, s[b - 1].0);
                        }
                    }
                    lemma_key_less_transitive(s[a].0, k, s[b - 1].0);
                } else if a > i {
                    assert(t[a] == s[a - 1]);
                    assert(t[b] == s[b - 1]);
                } else if a == i && b > i {
                    assert(t[b] == s[b - 1]);
                    if b - 1 > i {
                        lemma_key_less_transitive(k, s[i as int].0, s[b - 1].0);
                    }
                }
            }
            lemma_insert_set(s, i as int, k, v);
        }
    }

    /// Appends the `key=value` tokens of the bindings, in order of keys,
    /// each followed by one space.
    pub fn write_pairs(&self, out: &mut String)
        ensures
            final(out)@ == old(out)@ + spaced(pair_tokens(self@)),
    {
        let n = self.entries.len();
        let mut i: usize = 0;
        proof {
            reveal(spaced);
            assert(pair_tokens(self@.take(0)) =~= Seq::<Seq<char>>::empty());
            assert(old(out)@ + Seq::<char>::empty() =~= old(out)@);
        }
        while i < n
            invariant
                n == self.entries.len(),
                n == self@.len(),
                i <= n,
                out@ == old(out)@ + spaced(pair_tokens(self@.take(i as int))),
            decreases n - i,
        {
            out.append(self.entries[i].0.as_str());
            out.append("=");
            out.append(self.entries[i].1.as_str());
            out.append(" ");
            proof {
                reveal(spaced);
                let p = pair_tokens(self@.take(i + 1));
                assert(p.drop_last() =~= pair_tokens(self@.take(i as int)));
                assert(p.last() == pair_text(self@[i as int]));
            }
            i = i + 1;
        }
        assert(self@.take(n as int) =~= self@);
    }
}

/// Replacing the value of the binding at `i` of well-ordered bindings.
proof fn lemma_update_set(s: Seq<Binding>, i: int, k: Seq<char>, v: Seq<char>)
    requires
        keys_sorted(s),
        0 <= i < s.len(),
        s[i].0 == k,
    ensures
        s.update(i, (k, v)).to_set() == s.to_set().filter(|e: Binding| e.0 != k).insert((k, v)),
{
    let t = s.update(i, (k, v));
    lemma_key_less_irreflexive(k);
    assert forall|e: Binding| #[trigger] t.to_set().contains(e) == s.to_set().filter(
        |e: Binding| e.0 != k,
    ).insert((k, v)).contains(e) by {
        if t.contains(e) {
            let m = choose|m: int| 0 <= m < t.len() && t[m] == e;
            if m != i {
                assert(s[m] == e);
                assert(s.contains(e));
                if m < i {
                    assert(key_less(s[m].0, k));
                } else {
                    assert(key_less(k, s[m].0));
                }
            }
        }
        if s.contains(e) && e.0 != k {
            let m = choose|m: int| 0 <= m < s.len() && s[m] == e;
            assert(m != i);
            assert(t[m] == e);
            assert(t.contains(e));
        }
        if e == (k, v) {
            assert(t[i] == e);
            assert(t.contains(e));
        }
    }
    assert(t.to_set() =~= s.to_set().filter(|e: Binding| e.0 != k).insert((k, v)));
}

/// Inserting a binding whose key is not among well-ordered bindings.
proof fn lemma_insert_set(s: Seq<Binding>, i: int, k: Seq<char>, v: Seq<char>)
    requires
        keys_sorted(s),
        0 <= i <= s.len(),
        forall|j: int| 0 <= j < i ==> key_less(#[trigger] s[j].0, k),
        i < s.len() ==> key_less(k, s[i].0),
    ensures
        s.insert(i, (k, v)).to_set() == s.to_set().filter(|e: Binding| e.0 != k).insert((k, v)),
{
    let t = s.insert(i, (k, v));
    lemma_key_less_irreflexive(k);
    assert forall|e: Binding| #[trigger] t.to_set().contains(e) == s.to_set().filter(
        |e: Binding| e.0 != k,
    ).insert((k, v)).contains(e) by {
        if t.contains(e) {
            let m = choose|m: int| 0 <= m < t.len() && t[m] == e;
            if m < i {
                assert(s[m] == e);
                assert(s.contains(e));
            } else if m > i {
                assert(s[m - 1] == e);
                assert(s.contains(e));
                if m - 1 > i {
                    lemma_key_less_transitive(k, s[i].0, s[m - 1].0);
                }
            }
        }
        if s.contains(e) && e.0 != k {
            let m = choose|m: int| 0 <= m < s.len() && s[m] == e;
            if m < i {
                assert(t[m] == e);
            } else {
                assert(t[m + 1] == e);
            }
            assert(t.contains(e));
        }
        if e == (k, v) {
            assert(t[i] == e);
            assert(t.contains(e));
        }
    }
    assert(t.to_set() =~= s.to_set().filter(|e: Binding| e.0 != k).insert((k, v)));
}

} // verus!
