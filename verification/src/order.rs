//! Newest-first ordering of a channel's videos: the lexicographic order of
//! texts, and a stable sort of videos by their publication date.

use vstd::prelude::*;
use crate::internal::Video;

verus! {

broadcast use vstd::seq_lib::group_seq_properties;

/// `a` comes strictly before `b` in the lexicographic order of code points.
pub open spec fn text_lt(a: Seq<char>, b: Seq<char>) -> bool
    decreases a.len(),
{
    if b.len() == 0 {
        false
    } else if a.len() == 0 {
        true
    } else if a[0] != b[0] {
        (a[0] as int) < (b[0] as int)
    } else {
        text_lt(a.drop_first(), b.drop_first())
    }
}

/// No text comes before itself.
pub proof fn lemma_text_lt_irreflexive(a: Seq<char>)
    ensures
        !text_lt(a, a),
    decreases a.len(),
{
    if a.len() > 0 {
        lemma_text_lt_irreflexive(a.drop_first());
    }
}

/// Of two different texts, one comes before the other, and not both ways.
pub proof fn lemma_text_lt_total(a: Seq<char>, b: Seq<char>)
    ensures
        a != b ==> (text_lt(a, b) || text_lt(b, a)),
        !(text_lt(a, b) && text_lt(b, a)),
    decreases a.len(),
{
    if a.len() > 0 && b.len() > 0 {
        lemma_text_lt_total(a.drop_first(), b.drop_first());
        if a[0] == b[0] && a.drop_first() == b.drop_first() {
            assert(a =~= seq![a[0]] + a.drop_first());
            assert(b =~= seq![b[0]] + b.drop_first());
        }
        if a[0] != b[0] {
            assert((a[0] as int) != (b[0] as int));
        }
    } else if a.len() == 0 && b.len() == 0 {
        assert(a =~= b);
    }
}

/// The order of texts is transitive.
pub proof fn lemma_text_lt_transitive(a: Seq<char>, b: Seq<char>, c: Seq<char>)
    requires
        text_lt(a, b),
        text_lt(b, c),
    ensures
        text_lt(a, c),
    decreases a.len(),
{
    if a.len() > 0 && b.len() > 0 && c.len() > 0 {
        if a[0] == b[0] && b[0] == c[0] {
            lemma_text_lt_transitive(a.drop_first(), b.drop_first(), c.drop_first());
        }
    }
}

/// Whether `a` comes strictly before `b`, compared code point by code point.
pub fn text_less(a: &String, b: &String) -> (r: bool)
    ensures
        r == text_lt(a@, b@),
{
    let sa = a.as_str();
    let sb = b.as_str();
    let la = sa.unicode_len();
    let lb = sb.unicode_len();
    let mut i: usize = 0;
    while i < la && i < lb
        invariant
            la == a@.len(),
            lb == b@.len(),
            sa@ == a@,
            sb@ == b@,
            i <= la,
            i <= lb,
            text_lt(a@, b@) == text_lt(a@.skip(i as int), b@.skip(i as int)),
        decreases la - i,
    {
        let ca = sa.get_char(i);
        let cb = sb.get_char(i);
        if ca != cb {
            proof {
                assert(a@.skip(i as int)[0] == ca);
                assert(b@.skip(i as int)[0] == cb);
            }
            return (ca as u32) < (cb as u32);
        }
        proof {
            assert(a@.skip(i as int).drop_first() =~= a@.skip(i + 1));
            assert(b@.skip(i as int).drop_first() =~= b@.skip(i + 1));
        }
        i = i + 1;
    }
    i < lb
}

/// The key by which videos are ordered: their publication date.
pub open spec fn date_of(v: Video) -> Seq<char> {
    v.pub_date@
}

/// `date_of`, as a value.
pub open spec fn by_date() -> spec_fn(Video) -> Seq<char> {
    |v: Video| date_of(v)
}

/// Inserts `v` into `s` behind every item whose key is not after its own,
/// looking from the end of `s`.
pub open spec fn insert_by<T>(s: Seq<T>, v: T, key: spec_fn(T) -> Seq<char>) -> Seq<T>
    decreases s.len(),
{
    if s.len() == 0 {
        seq![v]
    } else if text_lt(key(v), key(s.last())) {
        insert_by(s.drop_last(), v, key).push(s.last())
    } else {
        s.push(v)
    }
}

/// The items of `s` sorted by `key`, smallest first; items with equal keys
/// keep their order (a stable sort).
pub open spec fn sort_by<T>(s: Seq<T>, key: spec_fn(T) -> Seq<char>) -> Seq<T>
    decreases s.len(),
{
    if s.len() == 0 {
        s
    } else {
        insert_by(sort_by(s.drop_last(), key), s.last(), key)
    }
}

/// The keys of `s` never go down.
pub open spec fn ascending_by<T>(s: Seq<T>, key: spec_fn(T) -> Seq<char>) -> bool {
    forall|i: int, j: int| 0 <= i < j < s.len() ==> !text_lt(key(#[trigger] s[j]), key(#[trigger] s[i]))
}

/// The keys of `s` never go up.
pub open spec fn descending_by<T>(s: Seq<T>, key: spec_fn(T) -> Seq<char>) -> bool {
    forall|i: int, j: int| 0 <= i < j < s.len() ==> !text_lt(key(#[trigger] s[i]), key(#[trigger] s[j]))
}

/// Where `insert_by` puts `v`.
pub open spec fn insert_position<T>(s: Seq<T>, v: T, key: spec_fn(T) -> Seq<char>) -> int
    decreases s.len(),
{
    if s.len() == 0 {
        0
    } else if text_lt(key(v), key(s.last())) {
        insert_position(s.drop_last(), v, key)
    } else {
        s.len() as int
    }
}

/// The videos of `s` sorted by date, oldest first; videos with equal dates
/// keep their order.
pub open spec fn sort_by_date(s: Seq<Video>) -> Seq<Video> {
    sort_by(s, by_date())
}

proof fn lemma_insert_is_insert<T>(s: Seq<T>, v: T, key: spec_fn(T) -> Seq<char>)
    ensures
        0 <= insert_position(s, v, key) <= s.len(),
        insert_by(s, v, key) =~= s.insert(insert_position(s, v, key), v),
        forall|k: int|
            insert_position(s, v, key) <= k < s.len() ==> text_lt(key(v), key(#[trigger] s[k])),
        insert_position(s, v, key) > 0 ==> !text_lt(key(v), key(s[insert_position(s, v, key) - 1])),
    decreases s.len(),
{
    if s.len() > 0 && text_lt(key(v), key(s.last())) {
        lemma_insert_is_insert(s.drop_last(), v, key);
        let p = insert_position(s.drop_last(), v, key);
        assert(s.drop_last().insert(p, v).push(s.last()) =~= s.insert(p, v));
        assert forall|k: int| p <= k < s.len() implies text_lt(key(v), key(#[trigger] s[k])) by {
            if k < s.len() - 1 {
                assert(s[k] == s.drop_last()[k]);
            }
        }
    }
}

/// Inserting into an ascending sequence keeps it ascending and adds exactly
/// the inserted item; the position is that of a plain `insert`.
pub proof fn lemma_insert_by<T>(s: Seq<T>, v: T, key: spec_fn(T) -> Seq<char>)
    requires
        ascending_by(s, key),
    ensures
        ascending_by(insert_by(s, v, key), key),
        insert_by(s, v, key).to_multiset() == s.to_multiset().insert(v),
        0 <= insert_position(s, v, key) <= s.len(),
        insert_by(s, v, key) == s.insert(insert_position(s, v, key), v),
{
    lemma_insert_is_insert(s, v, key);
    let p = insert_position(s, v, key);
    let t = s.insert(p, v);
    assert forall|i: int, j: int| 0 <= i < j < t.len() implies !text_lt(key(#[trigger] t[j]), key(#[trigger] t[i])) by {
        if i < p && j == p {
            if i < p - 1 {
                if text_lt(key(v), key(s[i])) {
                    lemma_text_lt_total(key(s[p - 1]), key(s[i]));
                    if !text_lt(key(v), key(s[p - 1])) {
                        lemma_text_lt_total(key(v), key(s[p - 1]));
                        if key(v) != key(s[p - 1]) {
                            lemma_text_lt_transitive(key(s[p - 1]), key(v), key(s[i]));
                        }
                    }
                }
            }
        } else if i == p && j > p {
            lemma_text_lt_total(key(v), key(s[j - 1]));
        }
    }
    vstd::seq_lib::to_multiset_insert(s, p, v);
}

/// A stable sort yields a sequence whose keys never go down and that holds
/// exactly the items of its input.
pub proof fn lemma_sort_by<T>(s: Seq<T>, key: spec_fn(T) -> Seq<char>)
    ensures
        ascending_by(sort_by(s, key), key),
        sort_by(s, key).to_multiset() == s.to_multiset(),
        sort_by(s, key).len() == s.len(),
    decreases s.len(),
{
    if s.len() > 0 {
        lemma_sort_by(s.drop_last(), key);
        lemma_insert_by(sort_by(s.drop_last(), key), s.last(), key);
        assert(s.drop_last().push(s.last()) =~= s);
        vstd::seq_lib::to_multiset_build(s.drop_last(), s.last());
    }
    sort_by(s, key).to_multiset_ensures();
    s.to_multiset_ensures();
}

/// Sorting a sequence whose keys never go down leaves it as it is; in
/// particular, items with equal keys keep their order.
pub proof fn lemma_sort_keeps_ascending<T>(s: Seq<T>, key: spec_fn(T) -> Seq<char>)
    requires
        ascending_by(s, key),
    ensures
        sort_by(s, key) == s,
    decreases s.len(),
{
    if s.len() > 0 {
        let p = s.drop_last();
        assert(ascending_by(p, key)) by {
            assert forall|i: int, j: int| 0 <= i < j < p.len() implies !text_lt(
                key(#[trigger] p[j]),
                key(#[trigger] p[i]),
            ) by {
                assert(p[i] == s[i] && p[j] == s[j]);
            }
        }
        lemma_sort_keeps_ascending(p, key);
        if p.len() > 0 {
            assert(p.last() == s[s.len() - 2]);
            assert(s.last() == s[s.len() - 1]);
        }
        assert(p.push(s.last()) =~= s);
    }
}

/// Reversing an ascending sequence gives a descending one.
pub proof fn lemma_reverse_descending<T>(s: Seq<T>, key: spec_fn(T) -> Seq<char>)
    requires
        ascending_by(s, key),
    ensures
        descending_by(s.reverse(), key),
{
    assert forall|i: int, j: int| 0 <= i < j < s.reverse().len() implies !text_lt(
        key(#[trigger] s.reverse()[i]),
        key(#[trigger] s.reverse()[j]),
    ) by {
        assert(s.reverse()[i] == s[s.len() - 1 - i]);
        assert(s.reverse()[j] == s[s.len() - 1 - j]);
    }
}

/// The videos of `videos` sorted by date, oldest first, equal dates in their
/// former order.
pub fn sort_videos_by_date(videos: &Vec<Video>) -> (r: Vec<Video>)
    ensures
        r@ == sort_by_date(videos@),
{
    let mut r: Vec<Video> = Vec::new();
    let mut k: usize = 0;
    while k < videos.len()
        invariant
            k <= videos@.len(),
            r@ == sort_by_date(videos@.take(k as int)),
        decreases videos@.len() - k,
    {
        let v = videos[k].clone();
        proof {
            assert(videos@.take(k + 1).drop_last() =~= videos@.take(k as int));
        }
        let mut j: usize = r.len();
        loop
            invariant
                j <= r@.len(),
                r@ == sort_by_date(videos@.take(k as int)),
                insert_by(r@, v, by_date()) =~= insert_by(r@.take(j as int), v, by_date()) + r@.skip(j as int),
            ensures
                j <= r@.len(),
                r@ == sort_by_date(videos@.take(k as int)),
                insert_by(r@, v, by_date()) =~= insert_by(r@.take(j as int), v, by_date()) + r@.skip(j as int),
                j == 0 || !text_lt(date_of(v), date_of(r@[j - 1])),
            decreases j,
        {
            if j == 0 {
                break;
            }
            if !text_less(&v.pub_date, &r[j - 1].pub_date) {
                break;
            }
            proof {
                assert(r@.take(j as int).drop_last() =~= r@.take(j - 1));
                assert(r@.take(j as int).last() == r@[j - 1]);
                assert(r@.skip(j - 1) =~= seq![r@[j - 1]] + r@.skip(j as int));
            }
            j = j - 1;
        }
        proof {
            if j == 0 {
                assert(r@.take(0) =~= Seq::<Video>::empty());
                assert(insert_by(r@.take(0), v, by_date()) == seq![v]);
                assert(r@.skip(0) =~= r@);
            } else {
                let t = r@.take(j as int);
                assert(t.last() == r@[j - 1]);
                assert(insert_by(t, v, by_date()) == t.push(v));
                assert(t.push(v) + r@.skip(j as int) =~= r@.insert(j as int, v));
            }
            assert(insert_by(r@, v, by_date()) =~= r@.insert(j as int, v));
        }
        r.insert(j, v);
        k = k + 1;
    }
    assert(videos@.take(videos@.len() as int) =~= videos@);
    r
}

/// The videos of `videos` in reverse order.
pub fn reverse_videos(videos: Vec<Video>) -> (r: Vec<Video>)
    ensures
        r@ == videos@.reverse(),
{
    let ghost orig = videos@;
    let mut rest = videos;
    let mut r: Vec<Video> = Vec::new();
    while rest.len() > 0
        invariant
            rest@ == orig.take(rest@.len() as int),
            rest@.len() <= orig.len(),
            r@ =~= orig.skip(rest@.len() as int).reverse(),
        decreases rest@.len(),
    {
        let ghost n = rest@.len();
        let v = rest.pop().unwrap();
        proof {
            assert(v == orig[n - 1]);
            assert(orig.skip(n - 1).reverse() =~= orig.skip(n as int).reverse().push(orig[n - 1]));
        }
        r.push(v);
    }
    assert(orig.skip(0) =~= orig);
    r
}

} // verus!
