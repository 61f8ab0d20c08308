//! Small verified string helpers shared by the tokenizer, the resolvers and
//! the completion engine: character pushing, equality, lexicographic order
//! and sorting.
use vstd::prelude::*;
use vstd::relations::{sorted_by, total_ordering};
use vstd::seq_lib::lemma_sorted_unique;
use vstd::string::*;

verus! {

/// Relies on String::push: appends one character to the end of the string.
#[verifier::external_body]
pub(crate) fn push_char(s: &mut String, c: char)
    ensures
        final(s)@ == old(s)@.push(c),
{
    s.push(c);
}

/// Character-for-character equality of two string slices.
pub fn str_eq(a: &str, b: &str) -> (r: bool)
    ensures
        r == (a@ == b@),
{
    let alen = a.unicode_len();
    let blen = b.unicode_len();
    if alen != blen {
        return false;
    }
    let mut i: usize = 0;
    while i < alen
        invariant
            alen == a@.len(),
            blen == b@.len(),
            alen == blen,
            i <= alen,
            forall|k: int| 0 <= k < i ==> a@[k] == b@[k],
        decreases alen - i,
    {
        if a.get_char(i) != b.get_char(i) {
            return false;
        }
        i += 1;
    }
    proof {
        assert(a@ =~= b@);
    }
    true
}

/// Whether the character `c` occurs anywhere in `s`.
pub fn contains_char(s: &str, c: char) -> (r: bool)
    ensures
        r == s@.contains(c),
{
    let n = s.unicode_len();
    let mut i: usize = 0;
    while i < n
        invariant
            n == s@.len(),
            i <= n,
            forall|k: int| 0 <= k < i ==> s@[k] != c,
        decreases n - i,
    {
        if s.get_char(i) == c {
            proof {
                assert(s@[i as int] == c);
            }
            return true;
        }
        i += 1;
    }
    false
}

/// A deep copy of a string vector.
pub(crate) fn clone_string_vec(v: &Vec<String>) -> (c: Vec<String>)
    ensures
        c.deep_view() == v.deep_view(),
{
    let mut c: Vec<String> = Vec::new();
    let mut i: usize = 0;
    while i < v.len()
        invariant
            i <= v@.len(),
            c@ =~= v@.take(i as int),
        decreases v@.len() - i,
    {
        c.push(v[i].clone());
        proof {
            assert(c@ =~= v@.take(i as int + 1));
        }
        i += 1;
    }
    proof {
        assert(c@ =~= v@);
        assert(c.deep_view() == v.deep_view());
    }
    c
}

/// Whether `p` is a character-wise prefix of `s`.
pub fn starts_with_prefix(s: &str, p: &str) -> (r: bool)
    ensures
        r == p@.is_prefix_of(s@),
{
    let slen = s.unicode_len();
    let plen = p.unicode_len();
    if plen > slen {
        return false;
    }
    let mut i: usize = 0;
    while i < plen
        invariant
            slen == s@.len(),
            plen == p@.len(),
            plen <= slen,
            i <= plen,
            forall|k: int| 0 <= k < i ==> p@[k] == s@[k],
        decreases plen - i,
    {
        if s.get_char(i) != p.get_char(i) {
            proof {
                assert(s@.subrange(0, p@.len() as int)[i as int] == s@[i as int]);
            }
            return false;
        }
        i += 1;
    }
    proof {
        assert(p@ =~= s@.subrange(0, p@.len() as int));
    }
    true
}

/// Lexicographic order on character sequences, by code point, a prefix
/// ordering before anything it is a prefix of.
pub open spec fn lex_leq(a: Seq<char>, b: Seq<char>) -> bool
    decreases a.len(),
{
    if a.len() == 0 {
        true
    } else if b.len() == 0 {
        false
    } else if a[0] == b[0] {
        lex_leq(a.skip(1), b.skip(1))
    } else {
        (a[0] as u32) < (b[0] as u32)
    }
}

/// [`lex_leq`] as a binary relation value, for use with vstd's ordering and
/// sorting library.
pub open spec fn lex_leq_fn() -> spec_fn(Seq<char>, Seq<char>) -> bool {
    |a: Seq<char>, b: Seq<char>| lex_leq(a, b)
}

pub open spec fn lex_sorted(s: Seq<Seq<char>>) -> bool {
    sorted_by(s, lex_leq_fn())
}

proof fn lemma_lex_leq_reflexive(a: Seq<char>)
    ensures
        lex_leq(a, a),
    decreases a.len(),
{
    if a.len() > 0 {
        lemma_lex_leq_reflexive(a.skip(1));
    }
}

proof fn lemma_lex_leq_connected(a: Seq<char>, b: Seq<char>)
    ensures
        lex_leq(a, b) || lex_leq(b, a),
    decreases a.len(),
{
    if a.len() > 0 && b.len() > 0 {
        if a[0] == b[0] {
            lemma_lex_leq_connected(a.skip(1), b.skip(1));
        } else {
            vstd::utf8::char_u32_cast(a[0], a[0] as u32);
            vstd::utf8::char_u32_cast(b[0], b[0] as u32);
        }
    }
}

proof fn lemma_lex_leq_antisymmetric(a: Seq<char>, b: Seq<char>)
    requires
        lex_leq(a, b),
        lex_leq(b, a),
    ensures
        a == b,
    decreases a.len(),
{
    if a.len() == 0 {
        assert(b.len() == 0);
        assert(a =~= b);
    } else {
        assert(b.len() > 0);
        if a[0] != b[0] {
            vstd::utf8::char_u32_cast(a[0], a[0] as u32);
            vstd::utf8::char_u32_cast(b[0], b[0] as u32);
            assert(false);
        }
        lemma_lex_leq_antisymmetric(a.skip(1), b.skip(1));
        assert(a.len() == b.len());
        assert forall|k: int| 0 <= k < a.len() implies a[k] == b[k] by {
            if k >= 1 {
                assert(a[k] == a.skip(1)[k - 1]);
                assert(b[k] == b.skip(1)[k - 1]);
            }
        }
        assert(a =~= b);
    }
}

proof fn lemma_lex_leq_transitive(a: Seq<char>, b: Seq<char>, c: Seq<char>)
    requires
        lex_leq(a, b),
        lex_leq(b, c),
    ensures
        lex_leq(a, c),
    decreases a.len(),
{
    if a.len() > 0 && b.len() > 0 && c.len() > 0 && a[0] == b[0] && b[0] == c[0] {
        lemma_lex_leq_transitive(a.skip(1), b.skip(1), c.skip(1));
    }
}

/// [`lex_leq`] is a total ordering, as vstd's sorting library understands it.
pub proof fn lemma_lex_total_ordering()
    ensures
        total_ordering(lex_leq_fn()),
{
    let leq = lex_leq_fn();
    assert forall|a: Seq<char>| #[trigger] leq(a, a) by {
        lemma_lex_leq_reflexive(a);
    }
    assert forall|a: Seq<char>, b: Seq<char>| #[trigger] leq(a, b) || #[trigger] leq(b, a) by {
        lemma_lex_leq_connected(a, b);
    }
    assert forall|a: Seq<char>, b: Seq<char>| #[trigger] leq(a, b) && #[trigger] leq(b, a)
        implies a == b by {
        lemma_lex_leq_antisymmetric(a, b);
    }
    assert forall|a: Seq<char>, b: Seq<char>, c: Seq<char>|
        #[trigger] leq(a, b) && #[trigger] leq(b, c) implies leq(a, c) by {
        lemma_lex_leq_transitive(a, b, c);
    }
}

/// Whether `a` comes at or before `b` in lexicographic order.
pub fn str_le(a: &str, b: &str) -> (r: bool)
    ensures
        r == lex_leq(a@, b@),
{
    let alen = a.unicode_len();
    let blen = b.unicode_len();
    let mut i: usize = 0;
    proof {
        assert(a@.skip(0) =~= a@);
        assert(b@.skip(0) =~= b@);
    }
    while i < alen && i < blen
        invariant
            alen == a@.len(),
            blen == b@.len(),
            i <= alen,
            i <= blen,
            lex_leq(a@, b@) == lex_leq(a@.skip(i as int), b@.skip(i as int)),
        decreases alen - i,
    {
        let ca = a.get_char(i);
        let cb = b.get_char(i);
        proof {
            assert(a@.skip(i as int)[0] == ca);
            assert(b@.skip(i as int)[0] == cb);
        }
        if ca != cb {
            return (ca as u32) < (cb as u32);
        }
        proof {
            assert(a@.skip(i as int).skip(1) =~= a@.skip(i as int + 1));
            assert(b@.skip(i as int).skip(1) =~= b@.skip(i as int + 1));
        }
        i += 1;
    }
    alen <= blen
}

/// Sorts lexicographically, by insertion into a sorted prefix; the result is
/// exactly vstd's specification-level sort of the input.
pub fn sort_strings(v: Vec<String>) -> (r: Vec<String>)
    ensures
        r.deep_view() == v.deep_view().sort_by(lex_leq_fn()),
        lex_sorted(r.deep_view()),
        r.deep_view().to_multiset() == v.deep_view().to_multiset(),
{
    broadcast use vstd::seq_lib::group_seq_properties;

    let leq = Ghost(lex_leq_fn());
    let mut out: Vec<String> = Vec::new();
    let mut i: usize = 0;
    proof {
        assert(out.deep_view() =~= Seq::<Seq<char>>::empty());
        assert(v.deep_view().take(0).to_multiset() =~= Seq::<Seq<char>>::empty().to_multiset());
    }
    while i < v.len()
        invariant
            i <= v@.len(),
            sorted_by(out.deep_view(), leq@),
            leq@ == lex_leq_fn(),
            out.deep_view().to_multiset() == v.deep_view().take(i as int).to_multiset(),
        decreases v@.len() - i,
    {
        let x = v[i].clone();
        let ghost xv = v.deep_view()[i as int];
        assert(x@ == xv);
        let mut pos: usize = 0;
        while pos < out.len() && str_le(&out[pos], &x)
            invariant
                pos <= out@.len(),
                x@ == xv,
                forall|k: int| 0 <= k < pos ==> lex_leq(#[trigger] out.deep_view()[k], xv),
            decreases out@.len() - pos,
        {
            pos += 1;
        }
        proof {
            if pos < out@.len() {
                lemma_lex_leq_connected(out.deep_view()[pos as int], xv);
                assert(lex_leq(xv, out.deep_view()[pos as int]));
            }
        }
        let ghost out0 = out.deep_view();
        out.insert(pos, x);
        proof {
            assert(out.deep_view() =~= out0.insert(pos as int, xv));
            lemma_insert_sorted(out0, xv, pos as int, leq@);
            lemma_insert_multiset(out0, xv, pos as int);
            assert(v.deep_view().take(i as int + 1) =~= v.deep_view().take(i as int).push(xv));
            v.deep_view().take(i as int).to_multiset_ensures();
            assert(v.deep_view().take(i as int).push(xv).to_multiset() =~= v.deep_view().take(
                i as int,
            ).to_multiset().insert(xv));
        }
        i += 1;
    }
    proof {
        assert(v.deep_view().take(v@.len() as int) =~= v.deep_view());
        lemma_lex_total_ordering();
        v.deep_view().lemma_sort_by_ensures(lex_leq_fn());
        lemma_sorted_unique(out.deep_view(), v.deep_view().sort_by(lex_leq_fn()), lex_leq_fn());
    }
    out
}

/// Inserting `x` at the first position whose element is not below it keeps a
/// sorted sequence sorted.
proof fn lemma_insert_sorted(
    s: Seq<Seq<char>>,
    x: Seq<char>,
    pos: int,
    leq: spec_fn(Seq<char>, Seq<char>) -> bool,
)
    requires
        leq == lex_leq_fn(),
        0 <= pos <= s.len(),
        sorted_by(s, leq),
        forall|k: int| 0 <= k < pos ==> lex_leq(#[trigger] s[k], x),
        pos < s.len() ==> lex_leq(x, s[pos]),
    ensures
        sorted_by(s.insert(pos, x), leq),
{
    let t = s.insert(pos, x);
    assert forall|i: int, j: int| 0 <= i < j < t.len() implies leq(t[i], t[j]) by {
        if i < pos && j == pos {
            assert(t[i] == s[i] && t[j] == x);
        } else if i == pos && j > pos {
            assert(t[i] == x && t[j] == s[j - 1]);
            assert(lex_leq(x, s[pos]));
            if j - 1 > pos {
                assert(leq(s[pos], s[j - 1]));
                lemma_lex_leq_transitive(x, s[pos], s[j - 1]);
            }
        } else if i < pos && j > pos {
            assert(t[i] == s[i] && t[j] == s[j - 1]);
            assert(lex_leq(s[i], x));
            if j - 1 == pos {
                lemma_lex_leq_transitive(s[i], x, s[pos]);
                assert(leq(t[i], t[j]));
            }
        }
    }
}

/// Inserting an element adds exactly it to the sequence's multiset.
proof fn lemma_insert_multiset(s: Seq<Seq<char>>, x: Seq<char>, pos: int)
    requires
        0 <= pos <= s.len(),
    ensures
        s.insert(pos, x).to_multiset() == s.to_multiset().insert(x),
    decreases s.len() - pos,
{
    broadcast use vstd::seq_lib::group_seq_properties;

    if pos == s.len() {
        assert(s.insert(pos, x) =~= s.push(x));
        assert(s.push(x).to_multiset() =~= s.to_multiset().insert(x));
    } else {
        let t = s.insert(pos, x);
        assert(t.len() == s.len() + 1);
        assert(t[t.len() - 1] == s[s.len() - 1]);
        assert(t.drop_last() =~= s.drop_last().insert(pos, x));
        lemma_insert_multiset(s.drop_last(), x, pos);
        assert(s.drop_last().push(s.last()) =~= s);
        assert(t.drop_last().push(t.last()) =~= t);
        assert(t.drop_last().push(t.last()).to_multiset() =~= t.drop_last().to_multiset().insert(
            t.last(),
        ));
        assert(s.drop_last().push(s.last()).to_multiset() =~= s.drop_last().to_multiset().insert(
            s.last(),
        ));
        assert(t.to_multiset() =~= s.drop_last().insert(pos, x).to_multiset().insert(s.last()));
        assert(t.to_multiset() =~= s.drop_last().to_multiset().insert(x).insert(s.last()));
        assert(s.to_multiset() =~= s.drop_last().to_multiset().insert(s.last()));
        assert(t.to_multiset() =~= s.to_multiset().insert(x));
    }
}

} // verus!
