use vstd::prelude::*;
use crate::order::{
    lemma_insert_at, lemma_sort_is_sorted, lemma_sort_permutes, lemma_sort_sorted_is_identity, sort_by_key,
    sorted_by,
};
use crate::show::{shows_view, Show, ShowModel};
use crate::text::{lex_le, lex_le_exec};

verus! {

/// The lower-case form of a string, as `str::to_lowercase` gives it.
pub uninterp spec fn lower_of(s: Seq<char>) -> Seq<char>;

/// Relies on `str::to_lowercase`: the lower-case form of `s`, which depends on the
/// characters of `s` alone.
#[verifier::external_body]
fn lowercase(s: &str) -> (r: String)
    ensures
        r@ == lower_of(s@),
{
    s.to_lowercase()
}

/// The texts of a sequence of strings.
pub open spec fn strings_view(v: Seq<String>) -> Seq<Seq<char>> {
    v.map_values(|s: String| s@)
}

/// Each show paired with its sort key.
pub open spec fn keyed(keys: Seq<Seq<char>>, shows: Seq<ShowModel>) -> Seq<(Seq<char>, ShowModel)> {
    Seq::new(shows.len(), |i: int| (keys[i], shows[i]))
}

/// The shows of a sequence of keyed shows.
pub open spec fn unkeyed(p: Seq<(Seq<char>, ShowModel)>) -> Seq<ShowModel> {
    p.map_values(|x: (Seq<char>, ShowModel)| x.1)
}

/// Keyed shows are ordered by their keys.
pub open spec fn by_key() -> spec_fn((Seq<char>, ShowModel)) -> Seq<char> {
    |p: (Seq<char>, ShowModel)| p.0
}

/// The titles of the shows, folded to lower case.
pub open spec fn folded_titles(shows: Seq<ShowModel>) -> Seq<Seq<char>> {
    shows.map_values(|s: ShowModel| lower_of(s.title))
}

/// The shows in order of title compared without regard to case; shows whose folded
/// titles are equal keep their order.
pub open spec fn sort_shows_spec(shows: Seq<ShowModel>) -> Seq<ShowModel> {
    unkeyed(sort_by_key(keyed(folded_titles(shows), shows), by_key()))
}

/// Sorts shows by the keys given beside them (`folded[i]` belongs to `shows[i]`),
/// stably, comparing keys by code point.
pub fn sort_by_folded_titles(shows: Vec<Show>, folded: Vec<String>) -> (r: Vec<Show>)
    requires
        shows@.len() == folded@.len(),
    ensures
        shows_view(r@) == unkeyed(sort_by_key(keyed(strings_view(folded@), shows_view(shows@)), by_key())),
{
    let ghost key = by_key();
    let ghost all = keyed(strings_view(folded@), shows_view(shows@));
    let ghost orig_shows = shows@;
    let ghost orig_keys = folded@;
    let n = shows.len();
    let mut rest = shows;
    let mut rest_keys = folded;
    let mut out: Vec<Show> = Vec::new();
    let mut out_keys: Vec<String> = Vec::new();
    let mut i: usize = 0;
    assert(all.take(0) =~= Seq::<(Seq<char>, ShowModel)>::empty());
    assert(keyed(strings_view(out_keys@), shows_view(out@)) =~= Seq::<(Seq<char>, ShowModel)>::empty());
    while i < n
        invariant
            key == by_key(),
            n == orig_shows.len(),
            orig_keys.len() == n,
            all == keyed(strings_view(orig_keys), shows_view(orig_shows)),
            i <= n,
            rest@ == orig_shows.skip(i as int),
            rest_keys@ == orig_keys.skip(i as int),
            out@.len() == out_keys@.len(),
            keyed(strings_view(out_keys@), shows_view(out@)) == sort_by_key(all.take(i as int), key),
        decreases n - i,
    {
        let x = rest.remove(0);
        let k = rest_keys.remove(0);
        assert(x == orig_shows[i as int]);
        assert(k == orig_keys[i as int]);
        let ghost pairs = keyed(strings_view(out_keys@), shows_view(out@));
        let ghost item = (k@, x@);
        let mut j: usize = out.len();
        let mut placed = false;
        while !placed && j > 0
            invariant
                key == by_key(),
                pairs == keyed(strings_view(out_keys@), shows_view(out@)),
                out@.len() == out_keys@.len(),
                item == (k@, x@),
                j <= out@.len(),
                forall|m: int| j <= m < out@.len() ==> !lex_le(#[trigger] key(pairs[m]), key(item)),
                placed ==> j > 0 && lex_le(key(pairs[j - 1]), key(item)),
            decreases j + (if placed { 0int } else { 1int }),
        {
            if lex_le_exec(out_keys[j - 1].as_str(), k.as_str()) {
                placed = true;
            } else {
                j = j - 1;
            }
        }
        proof {
            lemma_insert_at(pairs, item, key, j as int);
            assert(all.take(i as int + 1).drop_last() =~= all.take(i as int));
            assert(all.take(i as int + 1).last() == item);
            assert(rest@ =~= orig_shows.skip(i as int + 1));
            assert(rest_keys@ =~= orig_keys.skip(i as int + 1));
        }
        out.insert(j, x);
        out_keys.insert(j, k);
        assert(keyed(strings_view(out_keys@), shows_view(out@)) =~= pairs.insert(j as int, item));
        i = i + 1;
    }
    assert(all.take(i as int) =~= all);
    assert(shows_view(out@) =~= unkeyed(keyed(strings_view(out_keys@), shows_view(out@))));
    out
}

/// Sorts shows by title compared without regard to case: both titles are folded to
/// lower case and then compared by code point. Shows whose folded titles are equal
/// keep their order.
pub fn sort_shows(shows: Vec<Show>) -> (r: Vec<Show>)
    ensures
        shows_view(r@) == sort_shows_spec(shows_view(shows@)),
{
    let mut folded: Vec<String> = Vec::new();
    let mut i: usize = 0;
    while i < shows.len()
        invariant
            i <= shows@.len(),
            strings_view(folded@) == folded_titles(shows_view(shows@)).take(i as int),
        decreases shows.len() - i,
    {
        let f = lowercase(shows[i].title.as_str());
        let ghost before = folded@;
        folded.push(f);
        assert(strings_view(folded@) =~= strings_view(before).push(f@));
        assert(folded_titles(shows_view(shows@)).take(i as int + 1) =~= folded_titles(shows_view(shows@)).take(i as int).push(f@));
        i = i + 1;
    }
    assert(folded_titles(shows_view(shows@)).take(i as int) =~= folded_titles(shows_view(shows@)));
    sort_by_folded_titles(shows, folded)
}

/// Sorting shows that are already in order of folded title gives them back in the
/// same order.
pub proof fn lemma_sort_sorted_shows(shows: Seq<ShowModel>)
    requires
        sorted_by(keyed(folded_titles(shows), shows), by_key()),
    ensures
        sort_shows_spec(shows) == shows,
{
    lemma_sort_sorted_is_identity(keyed(folded_titles(shows), shows), by_key());
    assert(unkeyed(keyed(folded_titles(shows), shows)) =~= shows);
}

/// Sorting shows twice gives the same order as sorting them once.
pub proof fn lemma_sort_shows_twice(shows: Seq<ShowModel>)
    ensures
        sort_shows_spec(sort_shows_spec(shows)) == sort_shows_spec(shows),
{
    let k = keyed(folded_titles(shows), shows);
    let s = sort_by_key(k, by_key());
    lemma_sort_permutes(k, by_key());
    lemma_sort_is_sorted(k, by_key());
    s.to_multiset_ensures();
    k.to_multiset_ensures();
    assert forall|i: int| 0 <= i < s.len() implies (#[trigger] s[i]).0 == lower_of(s[i].1.title) by {
        assert(s.contains(s[i]));
        assert(s.to_multiset().count(s[i]) > 0);
        assert(k.to_multiset().count(s[i]) > 0);
        assert(k.contains(s[i]));
        let j = choose|j: int| 0 <= j < k.len() && k[j] == s[i];
        assert(k[j].0 == lower_of(k[j].1.title));
    }
    let y = unkeyed(s);
    assert(keyed(folded_titles(y), y) =~= s);
    lemma_sort_sorted_is_identity(s, by_key());
}

} // verus!
