//! The order of strings: code point by code point, a proper prefix first. This is
//! the order `String`'s `Ord` gives, since UTF-8 keeps the order of code points.
use vstd::prelude::*;

verus! {

/// `a` comes strictly before `b`.
pub open spec fn text_less(a: Seq<char>, b: Seq<char>) -> bool
    decreases a.len(),
{
    if a.len() == 0 {
        b.len() > 0
    } else if b.len() == 0 {
        false
    } else if a[0] != b[0] {
        (a[0] as u32) < (b[0] as u32)
    } else {
        text_less(a.drop_first(), b.drop_first())
    }
}

/// Nothing comes before itself.
pub proof fn lemma_less_irreflexive(a: Seq<char>)
    ensures
        !text_less(a, a),
    decreases a.len(),
{
    if a.len() > 0 {
        lemma_less_irreflexive(a.drop_first());
    }
}

/// The order is transitive.
pub proof fn lemma_less_transitive(a: Seq<char>, b: Seq<char>, c: Seq<char>)
    requires
        text_less(a, b),
        text_less(b, c),
    ensures
        text_less(a, c),
    decreases a.len(),
{
    if a.len() > 0 && b.len() > 0 && c.len() > 0 {
        vstd::utf8::char_u32_cast(a[0], a[0] as u32);
        vstd::utf8::char_u32_cast(b[0], b[0] as u32);
        vstd::utf8::char_u32_cast(c[0], c[0] as u32);
        if a[0] == b[0] && b[0] == c[0] {
            lemma_less_transitive(a.drop_first(), b.drop_first(), c.drop_first());
        }
    }
}

/// Of two different strings, one comes before the other.
pub proof fn lemma_less_total(a: Seq<char>, b: Seq<char>)
    ensures
        a == b || text_less(a, b) || text_less(b, a),
    decreases a.len(),
{
    if a.len() > 0 && b.len() > 0 {
        vstd::utf8::char_u32_cast(a[0], a[0] as u32);
        vstd::utf8::char_u32_cast(b[0], b[0] as u32);
        if a[0] == b[0] {
            lemma_less_total(a.drop_first(), b.drop_first());
            if a.drop_first() == b.drop_first() {
                assert(a =~= seq![a[0]] + a.drop_first());
                assert(b =~= seq![b[0]] + b.drop_first());
            }
        }
    } else if a.len() == 0 && b.len() == 0 {
        assert(a =~= b);
    }
}

/// Whether `a` comes strictly before `b`.
pub fn chars_less(a: &[char], b: &[char]) -> (r: bool)
    ensures
        r == text_less(a@, b@),
{
    let mut i: usize = 0;
    assert(a@.skip(0) =~= a@ && b@.skip(0) =~= b@);
    loop
        invariant
            i <= a@.len(),
            i <= b@.len(),
            text_less(a@, b@) == text_less(a@.skip(i as int), b@.skip(i as int)),
        decreases a@.len() - i,
    {
        let ghost sa = a@.skip(i as int);
        let ghost sb = b@.skip(i as int);
        if i == a.len() {
            return i < b.len();
        }
        if i == b.len() {
            return false;
        }
        assert(sa[0] == a@[i as int] && sb[0] == b@[i as int]);
        if a[i] != b[i] {
            return (a[i] as u32) < (b[i] as u32);
        }
        assert(sa.drop_first() =~= a@.skip(i + 1));
        assert(sb.drop_first() =~= b@.skip(i + 1));
        i = i + 1;
    }
}

/// The sequence runs from greatest to least.
pub open spec fn descending(s: Seq<Seq<char>>) -> bool {
    forall|i: int, j: int| 0 <= i < j < s.len() ==> !text_less(#[trigger] s[i], #[trigger] s[j])
}

/// `s` followed by nothing else: no element comes after `x`.
pub open spec fn is_greatest(s: Seq<Seq<char>>, x: Seq<char>) -> bool {
    s.contains(x) && forall|i: int| 0 <= i < s.len() ==> !text_less(x, #[trigger] s[i])
}

/// The greatest of a list of names.
pub open spec fn greatest_of(c: Seq<Seq<char>>) -> Seq<char> {
    choose|x: Seq<char>| is_greatest(c, x)
}

/// A non-empty list of names has a greatest one.
pub proof fn lemma_greatest_exists(c: Seq<Seq<char>>)
    requires
        c.len() > 0,
    ensures
        is_greatest(c, greatest_of(c)),
    decreases c.len(),
{
    if c.len() == 1 {
        lemma_less_irreflexive(c[0]);
        assert(is_greatest(c, c[0]));
    } else {
        let d = c.drop_last();
        lemma_greatest_exists(d);
        let g = greatest_of(d);
        let l = c.last();
        lemma_less_total(g, l);
        if text_less(g, l) {
            assert forall|i: int| 0 <= i < c.len() implies !text_less(l, #[trigger] c[i]) by {
                if i < c.len() - 1 {
                    assert(d[i] == c[i]);
                    if text_less(l, c[i]) {
                        lemma_less_transitive(g, l, c[i]);
                    }
                } else {
                    lemma_less_irreflexive(l);
                }
            }
            assert(c[c.len() - 1] == l);
            assert(is_greatest(c, l));
        } else {
            lemma_less_irreflexive(g);
            assert forall|i: int| 0 <= i < c.len() implies !text_less(g, #[trigger] c[i]) by {
                if i < c.len() - 1 {
                    assert(d[i] == c[i]);
                }
            }
            let j = choose|j: int| 0 <= j < d.len() && d[j] == g;
            assert(c[j] == g);
            assert(is_greatest(c, g));
        }
    }
}

/// Inserts `x` into the descending `v` so that it stays descending.
pub fn insert_descending(v: &mut Vec<String>, x: String)
    requires
        descending(old(v).deep_view()),
    ensures
        descending(final(v).deep_view()),
        final(v).deep_view().to_multiset() == old(v).deep_view().to_multiset().insert(x@),
{
    let ghost s = v.deep_view();
    let xc = crate::text::chars_of(x.as_str());
    let mut pos: usize = 0;
    while pos < v.len()
        invariant
            s == v.deep_view(),
            xc@ == x@,
            pos <= v@.len(),
            forall|k: int| 0 <= k < pos ==> !text_less(#[trigger] s[k], x@),
        ensures
            pos <= v@.len(),
            forall|k: int| 0 <= k < pos ==> !text_less(#[trigger] s[k], x@),
            pos < v@.len() ==> text_less(s[pos as int], x@),
        decreases v@.len() - pos,
    {
        let yc = crate::text::chars_of(v[pos].as_str());
        assert(s[pos as int] == v@[pos as int]@);
        if chars_less(yc.as_slice(), xc.as_slice()) {
            break;
        }
        pos = pos + 1;
    }
    let ghost xs = x@;
    v.insert(pos, x);
    let ghost t = v.deep_view();
    assert(t =~= s.insert(pos as int, xs));
    assert forall|i: int, j: int| 0 <= i < j < t.len() implies !text_less(#[trigger] t[i], #[trigger] t[j]) by {
        if i < pos && j == pos {
        } else if i < pos && j > pos {
            assert(t[j] == s[j - 1]);
        } else if i == pos {
            assert(t[j] == s[j - 1]);
            if text_less(xs, s[j - 1]) {
                if pos < s.len() {
                    assert(text_less(s[pos as int], xs));
                    lemma_less_transitive(s[pos as int], xs, s[j - 1]);
                    lemma_less_irreflexive(s[pos as int]);
                    assert(!text_less(s[pos as int], s[j - 1]));
                }
            }
        } else if j < pos {
            assert(t[i] == s[i] && t[j] == s[j]);
        } else {
            assert(t[i] == s[i - 1] && t[j] == s[j - 1]);
        }
    }
    proof {
        vstd::seq_lib::to_multiset_insert(s, pos as int, xs);
    }
}


/// Of two greatest elements of one sequence, neither comes before the other, so
/// they are the same.
pub proof fn lemma_greatest_unique(s: Seq<Seq<char>>, x: Seq<char>, y: Seq<char>)
    requires
        is_greatest(s, x),
        is_greatest(s, y),
    ensures
        x == y,
{
    let i = choose|i: int| 0 <= i < s.len() && s[i] == x;
    let j = choose|j: int| 0 <= j < s.len() && s[j] == y;
    assert(!text_less(x, s[j]));
    assert(!text_less(y, s[i]));
    lemma_less_total(x, y);
}

/// The first element of a descending arrangement of `c` is the greatest of `c`.
pub proof fn lemma_first_is_greatest(v: Seq<Seq<char>>, c: Seq<Seq<char>>)
    requires
        descending(v),
        v.to_multiset() == c.to_multiset(),
        v.len() > 0,
    ensures
        is_greatest(c, v[0]),
{
    broadcast use vstd::seq_lib::to_multiset_contains;
    assert(v.contains(v[0]));
    assert(v.to_multiset().count(v[0]) > 0);
    assert(c.to_multiset().count(v[0]) > 0);
    assert forall|k: int| 0 <= k < c.len() implies !text_less(v[0], #[trigger] c[k]) by {
        assert(c.contains(c[k]));
        assert(c.to_multiset().count(c[k]) > 0);
        assert(v.to_multiset().count(c[k]) > 0);
        assert(v.contains(c[k]));
        let j = choose|j: int| 0 <= j < v.len() && v[j] == c[k];
        if j == 0 {
            lemma_less_irreflexive(v[0]);
        } else {
            assert(!text_less(v[0], v[j]));
        }
    }
}

} // verus!
