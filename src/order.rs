use vstd::prelude::*;
use crate::text::lex_le;

verus! {

/// Places `x` after the last element of `s` whose key is not after its own (so that
/// equal keys keep their order), with `s` taken as already in order.
pub open spec fn insert_by<A>(s: Seq<A>, x: A, key: spec_fn(A) -> Seq<char>) -> Seq<A>
    decreases s.len(),
{
    if s.len() == 0 {
        seq![x]
    } else if lex_le(key(s.last()), key(x)) {
        s.push(x)
    } else {
        insert_by(s.drop_last(), x, key).push(s.last())
    }
}

/// Stable sort of `s` by `key`, in the order of `lex_le`.
pub open spec fn sort_by_key<A>(s: Seq<A>, key: spec_fn(A) -> Seq<char>) -> Seq<A>
    decreases s.len(),
{
    if s.len() == 0 {
        s
    } else {
        insert_by(sort_by_key(s.drop_last(), key), s.last(), key)
    }
}

/// Every element's key comes no later than the keys of those after it.
pub open spec fn sorted_by<A>(s: Seq<A>, key: spec_fn(A) -> Seq<char>) -> bool {
    forall|i: int, j: int| 0 <= i < j < s.len() ==> lex_le(#[trigger] key(s[i]), #[trigger] key(s[j]))
}

/// Inserting at the position found by scanning back from the end over the elements
/// whose keys come after `x`'s is what `insert_by` describes.
pub proof fn lemma_insert_at<A>(s: Seq<A>, x: A, key: spec_fn(A) -> Seq<char>, j: int)
    requires
        0 <= j <= s.len(),
        j == 0 || lex_le(key(s[j - 1]), key(x)),
        forall|k: int| j <= k < s.len() ==> !lex_le(#[trigger] key(s[k]), key(x)),
    ensures
        insert_by(s, x, key) == s.insert(j, x),
    decreases s.len(),
{
    if s.len() == 0 {
        assert(s.insert(j, x) =~= seq![x]);
    } else if j == s.len() {
        assert(s.insert(j, x) =~= s.push(x));
    } else {
        let p = s.drop_last();
        assert(!lex_le(key(s[s.len() - 1]), key(x)));
        assert forall|k: int| j <= k < p.len() implies !lex_le(#[trigger] key(p[k]), key(x)) by {
            assert(p[k] == s[k]);
        }
        if j > 0 {
            assert(p[j - 1] == s[j - 1]);
        }
        lemma_insert_at(p, x, key, j);
        assert(p.insert(j, x).push(s.last()) =~= s.insert(j, x));
    }
}

/// Of two sequences, one comes no later than the other.
pub proof fn lemma_lex_total(a: Seq<char>, b: Seq<char>)
    ensures
        lex_le(a, b) || lex_le(b, a),
    decreases a.len(),
{
    if a.len() > 0 && b.len() > 0 && (a[0] as u32) == (b[0] as u32) {
        lemma_lex_total(a.drop_first(), b.drop_first());
    }
}

/// The order on sequences is transitive.
pub proof fn lemma_lex_trans(a: Seq<char>, b: Seq<char>, c: Seq<char>)
    requires
        lex_le(a, b),
        lex_le(b, c),
    ensures
        lex_le(a, c),
    decreases a.len(),
{
    if a.len() > 0 && b.len() > 0 && c.len() > 0 && (a[0] as u32) == (b[0] as u32)
        && (b[0] as u32) == (c[0] as u32) {
        lemma_lex_trans(a.drop_first(), b.drop_first(), c.drop_first());
    }
}

/// `insert_by` puts `x` at some position of `s`, just after the last element whose
/// key is not after `x`'s.
pub proof fn lemma_insert_position<A>(s: Seq<A>, x: A, key: spec_fn(A) -> Seq<char>) -> (j: int)
    ensures
        0 <= j <= s.len(),
        j == 0 || lex_le(key(s[j - 1]), key(x)),
        forall|k: int| j <= k < s.len() ==> !lex_le(#[trigger] key(s[k]), key(x)),
        insert_by(s, x, key) == s.insert(j, x),
    decreases s.len(),
{
    if s.len() == 0 || lex_le(key(s.last()), key(x)) {
        lemma_insert_at(s, x, key, s.len() as int);
        s.len() as int
    } else {
        let p = s.drop_last();
        let j = lemma_insert_position(p, x, key);
        assert forall|k: int| j <= k < s.len() implies !lex_le(#[trigger] key(s[k]), key(x)) by {
            if k < p.len() {
                assert(p[k] == s[k]);
            }
        }
        if j > 0 {
            assert(p[j - 1] == s[j - 1]);
        }
        lemma_insert_at(s, x, key, j);
        j
    }
}

/// Inserting into a sequence in order keeps it in order.
pub proof fn lemma_insert_sorted<A>(s: Seq<A>, x: A, key: spec_fn(A) -> Seq<char>)
    requires
        sorted_by(s, key),
    ensures
        sorted_by(insert_by(s, x, key), key),
{
    let j = lemma_insert_position(s, x, key);
    let r = s.insert(j, x);
    assert forall|a: int, b: int| 0 <= a < b < r.len() implies lex_le(#[trigger] key(r[a]), #[trigger] key(r[b])) by {
        if a < j && b == j {
            if a < j - 1 {
                lemma_lex_trans(key(s[a]), key(s[j - 1]), key(x));
            }
        } else if a == j {
            lemma_lex_total(key(x), key(s[b - 1]));
        } else if a < j && b > j {
            assert(r[b] == s[b - 1]);
        } else if a > j {
            assert(r[a] == s[a - 1] && r[b] == s[b - 1]);
        }
    }
}

/// A sorted sequence is in order.
pub proof fn lemma_sort_is_sorted<A>(s: Seq<A>, key: spec_fn(A) -> Seq<char>)
    ensures
        sorted_by(sort_by_key(s, key), key),
    decreases s.len(),
{
    if s.len() > 0 {
        lemma_sort_is_sorted(s.drop_last(), key);
        lemma_insert_sorted(sort_by_key(s.drop_last(), key), s.last(), key);
    }
}

/// Sorting neither adds nor drops elements: it reorders them.
pub proof fn lemma_sort_permutes<A>(s: Seq<A>, key: spec_fn(A) -> Seq<char>)
    ensures
        sort_by_key(s, key).to_multiset() == s.to_multiset(),
    decreases s.len(),
{
    if s.len() > 0 {
        let p = s.drop_last();
        lemma_sort_permutes(p, key);
        let sp = sort_by_key(p, key);
        let j = lemma_insert_position(sp, s.last(), key);
        vstd::seq_lib::to_multiset_insert(sp, j, s.last());
        vstd::seq_lib::to_multiset_build(p, s.last());
        assert(p.push(s.last()) =~= s);
    }
}

/// Inserting keeps every element and adds one.
proof fn lemma_insert_len<A>(s: Seq<A>, x: A, key: spec_fn(A) -> Seq<char>)
    ensures
        insert_by(s, x, key).len() == s.len() + 1,
    decreases s.len(),
{
    if s.len() > 0 {
        lemma_insert_len(s.drop_last(), x, key);
    }
}

/// Sorting keeps the length.
pub proof fn lemma_sort_len<A>(s: Seq<A>, key: spec_fn(A) -> Seq<char>)
    ensures
        sort_by_key(s, key).len() == s.len(),
    decreases s.len(),
{
    if s.len() > 0 {
        lemma_sort_len(s.drop_last(), key);
        lemma_insert_len(sort_by_key(s.drop_last(), key), s.last(), key);
    }
}

/// Sorting a sequence that is already in order leaves it as it is.
pub proof fn lemma_sort_sorted_is_identity<A>(s: Seq<A>, key: spec_fn(A) -> Seq<char>)
    requires
        sorted_by(s, key),
    ensures
        sort_by_key(s, key) == s,
    decreases s.len(),
{
    if s.len() > 0 {
        let p = s.drop_last();
        assert forall|i: int, j: int| 0 <= i < j < p.len() implies lex_le(#[trigger] key(p[i]), #[trigger] key(p[j])) by {
            assert(p[i] == s[i] && p[j] == s[j]);
        }
        lemma_sort_sorted_is_identity(p, key);
        if p.len() > 0 {
            assert(lex_le(key(s[p.len() - 1]), key(s[s.len() - 1])));
            assert(p.last() == s[p.len() - 1]);
        } else {
            assert(seq![s.last()] =~= s);
        }
        assert(p.push(s.last()) =~= s);
    }
}

} // verus!
