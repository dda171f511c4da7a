//! Ordered sets of names, ordered the way `String`'s `Ord` orders them.
//!
//! A set is held as a sorted `Vec<String>`. vstd specifies `BTreeSet` only for
//! keys known to obey its model of `Ord`, and it states no such law of
//! `String`, so nothing about the names could be proved through one.

use vstd::prelude::*;
use vstd::string::StrSliceExecFns;

verus! {

/// Lexicographic order on code points. UTF-8 preserves code-point order, so
/// this is the order in which `String`'s `Ord` (byte-wise) puts strings.
pub open spec fn str_lt(a: Seq<char>, b: Seq<char>) -> bool
    decreases a.len(),
{
    if a.len() == 0 {
        b.len() > 0
    } else if b.len() == 0 {
        false
    } else if a[0] != b[0] {
        a[0] < b[0]
    } else {
        str_lt(a.drop_first(), b.drop_first())
    }
}

/// `str_lt` is irreflexive.
pub proof fn lemma_str_lt_irreflexive(a: Seq<char>)
    ensures
        !str_lt(a, a),
    decreases a.len(),
{
    if a.len() > 0 {
        lemma_str_lt_irreflexive(a.drop_first());
    }
}

/// `str_lt` is total on distinct strings, and asymmetric.
pub proof fn lemma_str_lt_trichotomy(a: Seq<char>, b: Seq<char>)
    ensures
        a != b ==> (str_lt(a, b) || str_lt(b, a)),
        !(str_lt(a, b) && str_lt(b, a)),
    decreases a.len(),
{
    if a.len() > 0 && b.len() > 0 && a[0] == b[0] {
        lemma_str_lt_trichotomy(a.drop_first(), b.drop_first());
        if a != b {
            assert(a.drop_first() != b.drop_first()) by {
                if a.drop_first() == b.drop_first() {
                    assert(a =~= seq![a[0]] + a.drop_first());
                    assert(b =~= seq![b[0]] + b.drop_first());
                }
            }
        }
    } else if a.len() == 0 && b.len() == 0 {
        assert(a =~= b);
    }
}

/// `str_lt` is transitive.
pub proof fn lemma_str_lt_transitive(a: Seq<char>, b: Seq<char>, c: Seq<char>)
    requires
        str_lt(a, b),
        str_lt(b, c),
    ensures
        str_lt(a, c),
    decreases a.len(),
{
    if a.len() > 0 && b.len() > 0 && c.len() > 0 && a[0] == b[0] && b[0] == c[0] {
        lemma_str_lt_transitive(a.drop_first(), b.drop_first(), c.drop_first());
    }
}

/// Compares two strings in the order of `str_lt`.
pub fn str_less(a: &str, b: &str) -> (r: bool)
    ensures
        r == str_lt(a@, b@),
{
    let la = a.unicode_len();
    let lb = b.unicode_len();
    let mut i: usize = 0;
    assert(a@.skip(0) =~= a@);
    assert(b@.skip(0) =~= b@);
    while i < la && i < lb
        invariant
            la == a@.len(),
            lb == b@.len(),
            i <= la,
            i <= lb,
            str_lt(a@, b@) == str_lt(a@.skip(i as int), b@.skip(i as int)),
        decreases la - i,
    {
        let ca = a.get_char(i);
        let cb = b.get_char(i);
        if ca != cb {
            return ca < cb;
        }
        assert(a@.skip(i as int).drop_first() =~= a@.skip(i + 1 as int));
        assert(b@.skip(i as int).drop_first() =~= b@.skip(i + 1 as int));
        i = i + 1;
    }
    i == la && i < lb
}


/// Whether two strings hold the same characters.
pub fn str_equal(a: &str, b: &str) -> (r: bool)
    ensures
        r == (a@ == b@),
{
    let la = a.unicode_len();
    let lb = b.unicode_len();
    if la != lb {
        return false;
    }
    let mut i: usize = 0;
    while i < la
        invariant
            la == a@.len(),
            lb == b@.len(),
            la == lb,
            i <= la,
            a@.take(i as int) == b@.take(i as int),
        decreases la - i,
    {
        if a.get_char(i) != b.get_char(i) {
            assert(a@[i as int] != b@[i as int]);
            return false;
        }
        assert(a@.take(i + 1) =~= a@.take(i as int).push(a@[i as int]));
        assert(b@.take(i + 1) =~= b@.take(i as int).push(b@[i as int]));
        i = i + 1;
    }
    assert(a@.take(la as int) =~= a@);
    assert(b@.take(lb as int) =~= b@);
    true
}

/// The views of a sequence of strings.
pub open spec fn names(v: Seq<String>) -> Seq<Seq<char>> {
    v.map_values(|s: String| s@)
}

/// The names of `s` stand in strictly increasing `str_lt` order, so none occurs twice.
pub open spec fn sorted_names(s: Seq<Seq<char>>) -> bool {
    forall|i: int, j: int| 0 <= i < j < s.len() ==> str_lt(#[trigger] s[i], #[trigger] s[j])
}

/// Inserting `x` into the ordered set `s`, as `BTreeSet::insert` does: a name
/// already present leaves the set unchanged, a new one takes its place in order.
pub open spec fn name_set_insert(s: Seq<Seq<char>>, x: Seq<char>) -> Seq<Seq<char>>
    decreases s.len(),
{
    if s.len() == 0 {
        seq![x]
    } else if s[0] == x {
        s
    } else if str_lt(x, s[0]) {
        seq![x] + s
    } else {
        seq![s[0]] + name_set_insert(s.drop_first(), x)
    }
}

/// Inserting the names of `xs` into `s`, one after the other.
pub open spec fn name_set_insert_all(s: Seq<Seq<char>>, xs: Seq<Seq<char>>) -> Seq<Seq<char>>
    decreases xs.len(),
{
    if xs.len() == 0 {
        s
    } else {
        name_set_insert_all(name_set_insert(s, xs[0]), xs.drop_first())
    }
}

/// Where the insertion lands: behind every smaller name, before the first that
/// is not smaller.
proof fn lemma_insert_at(s: Seq<Seq<char>>, x: Seq<char>, i: int)
    requires
        0 <= i <= s.len(),
        forall|j: int| 0 <= j < i ==> str_lt(#[trigger] s[j], x),
        i < s.len() ==> !str_lt(s[i], x),
    ensures
        name_set_insert(s, x) == (if i < s.len() && s[i] == x {
            s
        } else {
            s.take(i) + seq![x] + s.skip(i)
        }),
    decreases i,
{
    if i == 0 {
        if s.len() > 0 && s[0] != x {
            lemma_str_lt_trichotomy(x, s[0]);
        }
        assert(s.take(0) + seq![x] + s.skip(0) =~= seq![x] + s);
    } else {
        lemma_str_lt_irreflexive(x);
        lemma_str_lt_trichotomy(s[0], x);
        let t = s.drop_first();
        assert forall|j: int| 0 <= j < i - 1 implies str_lt(#[trigger] t[j], x) by {
            assert(t[j] == s[j + 1]);
        }
        lemma_insert_at(t, x, i - 1);
        if i < s.len() && s[i] == x {
            assert(seq![s[0]] + t =~= s);
        } else {
            assert(seq![s[0]] + (t.take(i - 1) + seq![x] + t.skip(i - 1)) =~= s.take(i) + seq![x]
                + s.skip(i));
        }
    }
}

/// Insertion keeps the set ordered and adds exactly `x`.
pub proof fn lemma_insert_sorted(s: Seq<Seq<char>>, x: Seq<char>)
    requires
        sorted_names(s),
    ensures
        sorted_names(name_set_insert(s, x)),
        forall|y: Seq<char>| #[trigger] name_set_insert(s, x).contains(y) <==> (s.contains(y) || y == x),
    decreases s.len(),
{
    lemma_insert_contains(s, x);
    let r = name_set_insert(s, x);
    if s.len() > 0 && s[0] != x && str_lt(x, s[0]) {
        assert forall|i: int, j: int| 0 <= i < j < r.len() implies str_lt(#[trigger] r[i], #[trigger] r[j]) by {
            if i == 0 && j > 1 {
                lemma_str_lt_transitive(x, s[0], s[j - 1]);
            }
        }
    } else if s.len() > 0 && s[0] != x {
        let t = s.drop_first();
        assert(sorted_names(t)) by {
            assert forall|i: int, j: int| 0 <= i < j < t.len() implies str_lt(#[trigger] t[i], #[trigger] t[j]) by {
                assert(t[i] == s[i + 1] && t[j] == s[j + 1]);
            }
        }
        lemma_insert_sorted(t, x);
        let rt = name_set_insert(t, x);
        lemma_str_lt_trichotomy(x, s[0]);
        assert forall|i: int, j: int| 0 <= i < j < r.len() implies str_lt(#[trigger] r[i], #[trigger] r[j]) by {
            if i == 0 {
                assert(r[j] == rt[j - 1]);
                assert(rt.contains(rt[j - 1]));
                if rt[j - 1] != x {
                    let k = choose|k: int| 0 <= k < t.len() && t[k] == rt[j - 1];
                    assert(s[k + 1] == t[k]);
                }
            } else {
                assert(r[i] == rt[i - 1] && r[j] == rt[j - 1]);
            }
        }
    }
}

/// Inserting `a + b` is inserting `a`, then `b`.
pub proof fn lemma_insert_all_concat(s: Seq<Seq<char>>, a: Seq<Seq<char>>, b: Seq<Seq<char>>)
    ensures
        name_set_insert_all(s, a + b) == name_set_insert_all(name_set_insert_all(s, a), b),
    decreases a.len(),
{
    if a.len() == 0 {
        assert(a + b =~= b);
    } else {
        assert((a + b).drop_first() =~= a.drop_first() + b);
        lemma_insert_all_concat(name_set_insert(s, a[0]), a.drop_first(), b);
    }
}

/// Insertion adds exactly `x`, whatever order `s` is in.
pub proof fn lemma_insert_contains(s: Seq<Seq<char>>, x: Seq<char>)
    ensures
        forall|y: Seq<char>| #[trigger] name_set_insert(s, x).contains(y) <==> (s.contains(y) || y == x),
    decreases s.len(),
{
    let r = name_set_insert(s, x);
    if s.len() == 0 {
        assert forall|y: Seq<char>| #[trigger] r.contains(y) <==> (s.contains(y) || y == x) by {
            if y == x {
                assert(r[0] == y);
            }
        }
    } else if s[0] == x {
        assert(s[0] == x);
    } else if str_lt(x, s[0]) {
        assert forall|y: Seq<char>| #[trigger] r.contains(y) <==> (s.contains(y) || y == x) by {
            if s.contains(y) {
                let k = choose|k: int| 0 <= k < s.len() && s[k] == y;
                assert(r[k + 1] == y);
            }
            if r.contains(y) && y != x {
                let k = choose|k: int| 0 <= k < r.len() && r[k] == y;
                assert(s[k - 1] == y);
            }
            if y == x {
                assert(r[0] == y);
            }
        }
    } else {
        let t = s.drop_first();
        lemma_insert_contains(t, x);
        let rt = name_set_insert(t, x);
        assert(r == seq![s[0]] + rt);
        assert forall|y: Seq<char>| #[trigger] r.contains(y) <==> (s.contains(y) || y == x) by {
            if s.contains(y) {
                let k = choose|k: int| 0 <= k < s.len() && s[k] == y;
                if k > 0 {
                    assert(t[k - 1] == y);
                    assert(rt.contains(y));
                    let m = choose|m: int| 0 <= m < rt.len() && rt[m] == y;
                    assert(r[m + 1] == y);
                } else {
                    assert(r[0] == y);
                }
            }
            if y == x {
                assert(rt.contains(y));
                let m = choose|m: int| 0 <= m < rt.len() && rt[m] == y;
                assert(r[m + 1] == y);
            }
            if r.contains(y) {
                let k = choose|k: int| 0 <= k < r.len() && r[k] == y;
                if k > 0 {
                    assert(rt[k - 1] == y);
                    assert(rt.contains(y));
                    if y != x {
                        let m = choose|m: int| 0 <= m < t.len() && t[m] == y;
                        assert(s[m + 1] == y);
                    }
                } else {
                    assert(s[0] == y);
                }
            }
        }
    }
}

/// Inserting many names adds exactly those names, whatever order `s` is in.
pub proof fn lemma_insert_all_contains(s: Seq<Seq<char>>, xs: Seq<Seq<char>>)
    ensures
        forall|y: Seq<char>| #[trigger] name_set_insert_all(s, xs).contains(y) <==> (s.contains(y)
            || xs.contains(y)),
    decreases xs.len(),
{
    if xs.len() > 0 {
        lemma_insert_contains(s, xs[0]);
        lemma_insert_all_contains(name_set_insert(s, xs[0]), xs.drop_first());
        assert forall|y: Seq<char>| #[trigger] xs.contains(y) <==> (y == xs[0] || xs.drop_first().contains(y)) by {
            if xs.contains(y) && y != xs[0] {
                let k = choose|k: int| 0 <= k < xs.len() && xs[k] == y;
                assert(xs.drop_first()[k - 1] == y);
            }
            if xs.drop_first().contains(y) {
                let k = choose|k: int| 0 <= k < xs.drop_first().len() && xs.drop_first()[k] == y;
                assert(xs[k + 1] == y);
            }
            if y == xs[0] {
                assert(xs[0] == y);
            }
        }
        assert forall|y: Seq<char>| #[trigger] name_set_insert_all(s, xs).contains(y) <==> (s.contains(y)
            || xs.contains(y)) by {
            assert(name_set_insert_all(s, xs) == name_set_insert_all(name_set_insert(s, xs[0]), xs.drop_first()));
            assert(name_set_insert(s, xs[0]).contains(y) <==> (s.contains(y) || y == xs[0]));
            assert(xs.contains(y) <==> (y == xs[0] || xs.drop_first().contains(y)));
        }
    }
}

/// Inserting many names keeps the set ordered and adds exactly those names.
pub proof fn lemma_insert_all_sorted(s: Seq<Seq<char>>, xs: Seq<Seq<char>>)
    requires
        sorted_names(s),
    ensures
        sorted_names(name_set_insert_all(s, xs)),
        forall|y: Seq<char>| #[trigger] name_set_insert_all(s, xs).contains(y) <==> (s.contains(y)
            || xs.contains(y)),
    decreases xs.len(),
{
    lemma_insert_all_contains(s, xs);
    if xs.len() > 0 {
        lemma_insert_sorted(s, xs[0]);
        lemma_insert_all_sorted(name_set_insert(s, xs[0]), xs.drop_first());
    }
}

/// Inserts `x` into the ordered set `set`, as `BTreeSet::insert` does.
pub fn insert_name(set: &mut Vec<String>, x: String)
    ensures
        names(final(set)@) == name_set_insert(names(old(set)@), x@),
{
    let ghost s = names(set@);
    let mut i: usize = 0;
    while i < set.len() && str_less(set[i].as_str(), x.as_str())
        invariant
            i <= set.len(),
            s == names(set@),
            forall|j: int| 0 <= j < i ==> str_lt(#[trigger] s[j], x@),
        decreases set.len() - i,
    {
        i = i + 1;
    }
    proof {
        lemma_insert_at(s, x@, i as int);
    }
    if i < set.len() && set[i] == x {
        return;
    }
    set.insert(i, x);
    proof {
        assert(names(set@) =~= s.take(i as int) + seq![x@] + s.skip(i as int));
    }
}

} // verus!
