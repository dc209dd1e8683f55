//! Listing papers by title: the order of texts, and a stable sort of
//! papers by it.

use vstd::prelude::*;
use crate::models::Paper;
use crate::text::to_chars;

verus! {

broadcast use vstd::string::group_string_axioms;

/// `a` comes no later than `b` in the order of texts (`str`'s order): char
/// by char, by code point, a text before any longer text it begins.
pub open spec fn text_le(a: Seq<char>, b: Seq<char>) -> bool
    decreases a.len(),
{
    if a.len() == 0 {
        true
    } else if b.len() == 0 {
        false
    } else if (a[0] as u32) != (b[0] as u32) {
        (a[0] as u32) < (b[0] as u32)
    } else {
        text_le(a.drop_first(), b.drop_first())
    }
}

/// Whether `a` comes no later than `b` in the order of texts.
pub fn text_le_chars(a: &[char], b: &[char]) -> (r: bool)
    ensures
        r == text_le(a@, b@),
{
    let mut i: usize = 0;
    assert(a@.skip(0) == a@ && b@.skip(0) == b@);
    while i < a.len() && i < b.len() && (a[i] as u32) == (b[i] as u32)
        invariant
            0 <= i <= a.len(),
            i <= b.len(),
            text_le(a@, b@) == text_le(a@.skip(i as int), b@.skip(i as int)),
        decreases a.len() - i,
    {
        assert(a@.skip(i as int).drop_first() == a@.skip(i + 1));
        assert(b@.skip(i as int).drop_first() == b@.skip(i + 1));
        assert(a@.skip(i as int)[0] == a@[i as int] && b@.skip(i as int)[0] == b@[i as int]);
        i = i + 1;
    }
    if i == a.len() {
        true
    } else if i == b.len() {
        false
    } else {
        assert(a@.skip(i as int)[0] == a@[i as int] && b@.skip(i as int)[0] == b@[i as int]);
        (a[i] as u32) < (b[i] as u32)
    }
}

/// Where a paper titled `t` goes among papers listed by title: after every
/// paper, from the back, whose title comes no later than `t`.
pub open spec fn title_pos(s: Seq<Paper>, t: Seq<char>) -> int
    decreases s.len(),
{
    if s.len() == 0 {
        0
    } else if text_le(s.last().title@, t) {
        s.len() as int
    } else {
        title_pos(s.drop_last(), t)
    }
}

/// The papers listed by title, papers with equal titles in the order given:
/// each paper in turn inserted after the papers before it whose title
/// comes no later than its own.
pub open spec fn by_title(s: Seq<Paper>) -> Seq<Paper>
    decreases s.len(),
{
    if s.len() == 0 {
        Seq::empty()
    } else {
        let r = by_title(s.drop_last());
        let p = title_pos(r, s.last().title@);
        r.take(p).push(s.last()) + r.skip(p)
    }
}

proof fn lemma_title_pos(s: Seq<Paper>, t: Seq<char>)
    ensures
        0 <= title_pos(s, t) <= s.len(),
    decreases s.len(),
{
    if s.len() > 0 {
        lemma_title_pos(s.drop_last(), t);
    }
}

proof fn lemma_by_title_len(s: Seq<Paper>)
    ensures
        by_title(s).len() == s.len(),
    decreases s.len(),
{
    if s.len() > 0 {
        lemma_by_title_len(s.drop_last());
        lemma_title_pos(by_title(s.drop_last()), s.last().title@);
    }
}

/// The papers listed by title, as `by_title` orders them.
pub fn sort_by_title(v: Vec<Paper>) -> (r: Vec<Paper>)
    ensures
        r@ == by_title(v@),
{
    let ghost orig = v@;
    let mut rest = v;
    let mut taken: Vec<Paper> = Vec::new();
    while rest.len() > 0
        invariant
            rest@ == orig.take(rest@.len() as int),
            rest@.len() + taken@.len() == orig.len(),
            forall|k: int| 0 <= k < taken@.len() ==> #[trigger] taken@[k] == orig[orig.len() - 1 - k],
        decreases rest@.len(),
    {
        let x = rest.pop().unwrap();
        taken.push(x);
    }
    let mut out: Vec<Paper> = Vec::new();
    let n = taken.len();
    assert(by_title(orig.take(0)) == Seq::<Paper>::empty());
    while taken.len() > 0
        invariant
            taken@.len() <= n,
            n == orig.len(),
            forall|k: int| 0 <= k < taken@.len() ==> #[trigger] taken@[k] == orig[orig.len() - 1 - k],
            out@ == by_title(orig.take(n - taken@.len())),
        decreases taken@.len(),
    {
        let x = taken.pop().unwrap();
        let ghost done = n - taken@.len() - 1;
        assert(x == orig[done]);
        assert(orig.take(done + 1).drop_last() == orig.take(done));
        assert(orig.take(done + 1).last() == x);
        let xt = to_chars(x.title.as_str());
        let mut p: usize = out.len();
        assert(out@.take(out@.len() as int) == out@);
        proof {
            lemma_title_pos(out@, x.title@);
        }
        let mut stop = false;
        while p > 0 && !stop
            invariant
                0 <= p <= out@.len(),
                stop ==> p > 0 && text_le(out@[p - 1].title@, x.title@),
                !stop ==> title_pos(out@, x.title@) == title_pos(out@.take(p as int), x.title@),
                stop ==> title_pos(out@, x.title@) == p,
                xt@ == x.title@,
            decreases p + if stop { 0int } else { 1int },
        {
            let yt = to_chars(out[p - 1].title.as_str());
            assert(out@.take(p as int).last() == out@[p - 1]);
            if text_le_chars(yt.as_slice(), xt.as_slice()) {
                stop = true;
            } else {
                assert(out@.take(p as int).drop_last() == out@.take(p - 1));
                p = p - 1;
            }
        }
        let ghost before = out@;
        out.insert(p, x);
        assert(out@ =~= before.take(p as int).push(x) + before.skip(p as int));
    }
    assert(orig.take(n as int) == orig);
    out
}

/// The first `limit` papers by title.
pub fn first_by_title(v: Vec<Paper>, limit: usize) -> (r: Vec<Paper>)
    ensures
        r@ == if limit < v@.len() { by_title(v@).take(limit as int) } else { by_title(v@) },
{
    proof {
        lemma_by_title_len(v@);
    }
    let mut sorted = sort_by_title(v);
    if limit < sorted.len() {
        sorted.truncate(limit);
    }
    sorted
}

/// Any two texts are ordered one way or the other.
pub proof fn lemma_text_le_total(a: Seq<char>, b: Seq<char>)
    ensures
        text_le(a, b) || text_le(b, a),
    decreases a.len(),
{
    if a.len() > 0 && b.len() > 0 && (a[0] as u32) == (b[0] as u32) {
        lemma_text_le_total(a.drop_first(), b.drop_first());
    }
}

/// The order of texts is transitive.
pub proof fn lemma_text_le_trans(a: Seq<char>, b: Seq<char>, c: Seq<char>)
    requires
        text_le(a, b),
        text_le(b, c),
    ensures
        text_le(a, c),
    decreases a.len(),
{
    if a.len() > 0 && b.len() > 0 && c.len() > 0 && (a[0] as u32) == (b[0] as u32) && (b[0] as u32) == (c[0] as u32) {
        lemma_text_le_trans(a.drop_first(), b.drop_first(), c.drop_first());
    }
}

/// The papers are in the order of their titles.
pub open spec fn titles_sorted(s: Seq<Paper>) -> bool {
    forall|i: int, j: int| 0 <= i < j < s.len() ==> text_le(#[trigger] s[i].title@, #[trigger] s[j].title@)
}

proof fn lemma_title_pos_sorted(s: Seq<Paper>, t: Seq<char>)
    requires
        titles_sorted(s),
    ensures
        forall|i: int| 0 <= i < title_pos(s, t) ==> text_le(#[trigger] s[i].title@, t),
        forall|i: int| title_pos(s, t) <= i < s.len() ==> !text_le(#[trigger] s[i].title@, t),
    decreases s.len(),
{
    lemma_title_pos(s, t);
    if s.len() > 0 {
        let q = s.drop_last();
        assert forall|i: int, j: int| 0 <= i < j < q.len() implies text_le(#[trigger] q[i].title@, #[trigger] q[j].title@) by {
            assert(q[i] == s[i] && q[j] == s[j]);
        }
        lemma_title_pos_sorted(q, t);
        lemma_title_pos(q, t);
        if text_le(s.last().title@, t) {
            assert forall|i: int| 0 <= i < s.len() implies text_le(#[trigger] s[i].title@, t) by {
                if i < s.len() - 1 {
                    lemma_text_le_trans(s[i].title@, s[s.len() - 1].title@, t);
                }
            }
        } else {
            assert forall|i: int| title_pos(s, t) <= i < s.len() implies !text_le(#[trigger] s[i].title@, t) by {
                if i < s.len() - 1 {
                    assert(q[i] == s[i]);
                }
            }
            assert forall|i: int| 0 <= i < title_pos(s, t) implies text_le(#[trigger] s[i].title@, t) by {
                assert(q[i] == s[i]);
            }
        }
    }
}

/// Listing by title orders the papers by their titles and keeps every
/// paper, each as often as it was given.
pub proof fn law_by_title(s: Seq<Paper>)
    ensures
        titles_sorted(by_title(s)),
        by_title(s).to_multiset() == s.to_multiset(),
    decreases s.len(),
{
    if s.len() > 0 {
        let r = by_title(s.drop_last());
        law_by_title(s.drop_last());
        let x = s.last();
        let t = x.title@;
        lemma_title_pos_sorted(r, t);
        lemma_title_pos(r, t);
        let p = title_pos(r, t);
        let out = r.take(p).push(x) + r.skip(p);
        assert forall|i: int, j: int| 0 <= i < j < out.len() implies text_le(#[trigger] out[i].title@, #[trigger] out[j].title@) by {
            if i < p && j < p {
                assert(out[i] == r[i] && out[j] == r[j]);
            } else if i < p && j == p {
                assert(out[i] == r[i]);
            } else if i < p {
                assert(out[i] == r[i] && out[j] == r[j - 1]);
            } else if i == p {
                assert(out[j] == r[j - 1]);
                lemma_text_le_total(r[j - 1].title@, t);
            } else {
                assert(out[i] == r[i - 1] && out[j] == r[j - 1]);
            }
        }
        assert(r == r.take(p) + r.skip(p));
        vstd::seq_lib::lemma_multiset_commutative(r.take(p), r.skip(p));
        vstd::seq_lib::lemma_multiset_commutative(r.take(p).push(x), r.skip(p));
        r.take(p).to_multiset_ensures();
        s.drop_last().to_multiset_ensures();
        assert(s == s.drop_last().push(x));
        assert(out.to_multiset() =~= r.to_multiset().insert(x));
        assert(by_title(s) == out);
        assert(s.to_multiset() =~= s.drop_last().to_multiset().insert(x));
    } else {
        assert(by_title(s) =~= s);
    }
}

} // verus!
