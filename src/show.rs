use vstd::prelude::*;
use crate::order::{lemma_insert_at, sort_by_key};
use crate::text::{lex_le, lex_le_exec};

verus! {

/// What a season is: the show it belongs to, its title, and its number of episodes.
pub struct SeasonModel {
    pub show: Seq<char>,
    pub title: Seq<char>,
    pub episodes: nat,
}

/// What a show is: its title, its number of seasons, and the seasons themselves.
pub struct ShowModel {
    pub title: Seq<char>,
    pub season_count: nat,
    pub seasons: Seq<SeasonModel>,
}

/// One season directory of a show.
pub struct Season {
    pub parent_show_title: String,
    pub season_title: String,
    pub episode_count: usize,
}

impl View for Season {
    type V = SeasonModel;

    open spec fn view(&self) -> SeasonModel {
        SeasonModel {
            show: self.parent_show_title@,
            title: self.season_title@,
            episodes: self.episode_count as nat,
        }
    }
}

/// The models of a sequence of seasons.
pub open spec fn seasons_view(s: Seq<Season>) -> Seq<SeasonModel> {
    s.map_values(|x: Season| x@)
}

/// One show directory of the library.
pub struct Show {
    pub title: String,
    pub season_count: usize,
    pub seasons: Vec<Season>,
}

impl View for Show {
    type V = ShowModel;

    open spec fn view(&self) -> ShowModel {
        ShowModel {
            title: self.title@,
            season_count: self.season_count as nat,
            seasons: seasons_view(self.seasons@),
        }
    }
}

/// The models of a sequence of shows.
pub open spec fn shows_view(s: Seq<Show>) -> Seq<ShowModel> {
    s.map_values(|x: Show| x@)
}

/// Seasons are ordered by their titles, case-sensitively.
pub open spec fn by_season_title() -> spec_fn(SeasonModel) -> Seq<char> {
    |s: SeasonModel| s.title
}

impl Season {
    /// A copy of this season.
    pub fn duplicate(&self) -> (r: Season)
        ensures
            r@ == self@,
    {
        Season {
            parent_show_title: self.parent_show_title.clone(),
            season_title: self.season_title.clone(),
            episode_count: self.episode_count,
        }
    }
}

impl Show {
    /// Appends a season at the end of the show's seasons.
    pub fn add_season(&mut self, szn: Season)
        ensures
            final(self)@.seasons == old(self)@.seasons.push(szn@),
            final(self).title == old(self).title,
            final(self).season_count == old(self).season_count,
    {
        self.seasons.push(szn);
        assert(seasons_view(self.seasons@) =~= seasons_view(old(self).seasons@).push(szn@));
    }

    /// A copy of this show whose seasons are in order of title, compared
    /// case-sensitively by code point; seasons with equal titles keep their order.
    pub fn sort(&self) -> (r: Show)
        ensures
            r.title@ == self.title@,
            r.season_count == self.season_count,
            r@.seasons == sort_by_key(self@.seasons, by_season_title()),
    {
        let ghost key = by_season_title();
        let ghost src = seasons_view(self.seasons@);
        let mut out: Vec<Season> = Vec::new();
        let mut i: usize = 0;
        assert(src.take(0) =~= Seq::<SeasonModel>::empty());
        assert(seasons_view(out@) =~= Seq::<SeasonModel>::empty());
        while i < self.seasons.len()
            invariant
                key == by_season_title(),
                src == seasons_view(self.seasons@),
                i <= self.seasons@.len(),
                seasons_view(out@) == sort_by_key(src.take(i as int), key),
            decreases self.seasons.len() - i,
        {
            let x = self.seasons[i].duplicate();
            let mut j: usize = out.len();
            let mut placed = false;
            while !placed && j > 0
                invariant
                    key == by_season_title(),
                    j <= out@.len(),
                    forall|k: int| j <= k < out@.len() ==> !lex_le(#[trigger] key(out@[k]@), key(x@)),
                    placed ==> j > 0 && lex_le(key(out@[j - 1]@), key(x@)),
                decreases j + (if placed { 0int } else { 1int }),
            {
                if lex_le_exec(out[j - 1].season_title.as_str(), x.season_title.as_str()) {
                    placed = true;
                } else {
                    j = j - 1;
                }
            }
            proof {
                let sv = seasons_view(out@);
                assert forall|k: int| j <= k < sv.len() implies !lex_le(#[trigger] key(sv[k]), key(x@)) by {
                    assert(sv[k] == out@[k]@);
                }
                if j > 0 {
                    assert(sv[j - 1] == out@[j - 1]@);
                }
                lemma_insert_at(sv, x@, key, j as int);
                assert(src.take(i as int + 1).drop_last() =~= src.take(i as int));
                assert(src.take(i as int + 1).last() == self.seasons@[i as int]@);
            }
            let ghost before = out@;
            out.insert(j, x);
            assert(seasons_view(out@) =~= seasons_view(before).insert(j as int, x@));
            i = i + 1;
        }
        assert(src.take(i as int) =~= src);
        Show { title: self.title.clone(), season_count: self.season_count, seasons: out }
    }
}

} // verus!
