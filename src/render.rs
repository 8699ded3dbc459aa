use vstd::prelude::*;
use vstd::string::*;
use crate::order::{lemma_sort_len, sort_by_key};
use crate::report::{by_key, folded_titles, keyed, sort_shows, sort_shows_spec};
use crate::show::{by_season_title, shows_view, Season, SeasonModel, Show, ShowModel};
use crate::text::{decimal, decimal_text};

verus! {

/// What a report line says. Each kind of line is shown in a style of its own.
pub enum LineModel {
    ShowTitle(Seq<char>),
    SeasonCount(Seq<char>),
    Season(Seq<char>, Seq<char>),
    Total(Seq<char>),
}

/// One line of the report.
pub enum ReportLine {
    /// A show's title.
    ShowTitle(String),
    /// How many seasons a show has, indented.
    SeasonCount(String),
    /// A season's title and its number of episodes.
    Season { title: String, episodes: String },
    /// The number of shows reported.
    Total(String),
}

impl View for ReportLine {
    type V = LineModel;

    open spec fn view(&self) -> LineModel {
        match self {
            ReportLine::ShowTitle(t) => LineModel::ShowTitle(t@),
            ReportLine::SeasonCount(t) => LineModel::SeasonCount(t@),
            ReportLine::Season { title, episodes } => LineModel::Season(title@, episodes@),
            ReportLine::Total(t) => LineModel::Total(t@),
        }
    }
}

/// The models of a sequence of lines.
pub open spec fn lines_view(v: Seq<ReportLine>) -> Seq<LineModel> {
    v.map_values(|l: ReportLine| l@)
}

/// "1 Season" for exactly one season, "N Seasons" otherwise, indented by two spaces.
pub open spec fn season_count_text(n: nat) -> Seq<char> {
    "  "@ + decimal(n) + if n == 1 {
        " Season"@
    } else {
        " Seasons"@
    }
}

/// "N Episodes".
pub open spec fn episodes_text(n: nat) -> Seq<char> {
    decimal(n) + " Episodes"@
}

/// "Total Shows parsed: N".
pub open spec fn total_text(n: nat) -> Seq<char> {
    "Total Shows parsed: "@ + decimal(n)
}

/// The whole text of a line.
pub open spec fn line_text(l: LineModel) -> Seq<char> {
    match l {
        LineModel::ShowTitle(t) => t,
        LineModel::SeasonCount(t) => t,
        LineModel::Season(t, e) => "    "@ + t + ": "@ + e,
        LineModel::Total(t) => t,
    }
}

/// The line of one season.
pub open spec fn season_line(s: SeasonModel) -> LineModel {
    LineModel::Season(s.title, episodes_text(s.episodes))
}

/// The lines of one show: its title, its season count, then its seasons in the order held.
pub open spec fn show_lines(s: ShowModel) -> Seq<LineModel> {
    seq![LineModel::ShowTitle(s.title), LineModel::SeasonCount(season_count_text(s.season_count))]
        + s.seasons.map_values(|z: SeasonModel| season_line(z))
}

/// A show with its seasons in order of title.
pub open spec fn with_sorted_seasons(s: ShowModel) -> ShowModel {
    ShowModel { seasons: sort_by_key(s.seasons, by_season_title()), ..s }
}

/// The lines of the shows in the order given, each with its seasons sorted.
pub open spec fn body_lines(shows: Seq<ShowModel>) -> Seq<LineModel>
    decreases shows.len(),
{
    if shows.len() == 0 {
        Seq::empty()
    } else {
        body_lines(shows.drop_last()) + show_lines(with_sorted_seasons(shows.last()))
    }
}

/// The report on a list of shows: the shows sorted by title without regard to case,
/// each with its seasons sorted, then the number of shows.
pub open spec fn report_lines(shows: Seq<ShowModel>) -> Seq<LineModel> {
    body_lines(sort_shows_spec(shows)).push(LineModel::Total(total_text(shows.len())))
}

/// The season-count line for `n` seasons.
pub fn season_count_line(n: usize) -> (r: String)
    ensures
        r@ == season_count_text(n as nat),
{
    let mut r = String::from_str("  ");
    let d = decimal_text(n);
    r.append(d.as_str());
    if n == 1 {
        r.append(" Season");
    } else {
        r.append(" Seasons");
    }
    r
}

/// The episode count of a season line.
pub fn episodes_line(n: usize) -> (r: String)
    ensures
        r@ == episodes_text(n as nat),
{
    let mut r = decimal_text(n);
    r.append(" Episodes");
    r
}

/// The closing line for `n` shows.
pub fn total_line(n: usize) -> (r: String)
    ensures
        r@ == total_text(n as nat),
{
    let mut r = String::from_str("Total Shows parsed: ");
    let d = decimal_text(n);
    r.append(d.as_str());
    r
}

impl ReportLine {
    /// The whole text of this line, without styling.
    pub fn text(&self) -> (r: String)
        ensures
            r@ == line_text(self@),
    {
        match self {
            ReportLine::ShowTitle(t) => t.clone(),
            ReportLine::SeasonCount(t) => t.clone(),
            ReportLine::Season { title, episodes } => {
                let mut r = String::from_str("    ");
                r.append(title.as_str());
                r.append(": ");
                r.append(episodes.as_str());
                r
            },
            ReportLine::Total(t) => t.clone(),
        }
    }
}

impl Show {
    /// The lines of this show: its title, its season count, then its seasons in the
    /// order held.
    pub fn render(&self) -> (r: Vec<ReportLine>)
        ensures
            lines_view(r@) == show_lines(self@),
    {
        let mut r: Vec<ReportLine> = Vec::new();
        r.push(ReportLine::ShowTitle(self.title.clone()));
        r.push(ReportLine::SeasonCount(season_count_line(self.season_count)));
        let ghost head = lines_view(r@);
        let ghost sv = self@.seasons;
        let mut i: usize = 0;
        assert(sv.map_values(|z: SeasonModel| season_line(z)).take(0) =~= Seq::<LineModel>::empty());
        while i < self.seasons.len()
            invariant
                sv == self@.seasons,
                sv.len() == self.seasons@.len(),
                i <= self.seasons@.len(),
                lines_view(r@) == head + sv.map_values(|z: SeasonModel| season_line(z)).take(i as int),
            decreases self.seasons.len() - i,
        {
            let s: &Season = &self.seasons[i];
            let line = ReportLine::Season { title: s.season_title.clone(), episodes: episodes_line(s.episode_count) };
            let ghost before = r@;
            r.push(line);
            proof {
                assert(sv[i as int] == s@);
                assert(lines_view(r@) =~= lines_view(before).push(line@));
                assert(sv.map_values(|z: SeasonModel| season_line(z)).take(i as int + 1)
                    =~= sv.map_values(|z: SeasonModel| season_line(z)).take(i as int).push(season_line(s@)));
            }
            i = i + 1;
        }
        assert(sv.map_values(|z: SeasonModel| season_line(z)).take(i as int) =~= sv.map_values(|z: SeasonModel| season_line(z)));
        r
    }
}

/// The report on `shows`: the shows sorted by title without regard to case, each
/// given by its title, its season count and its seasons sorted by title, then the
/// line with the number of shows.
pub fn report(shows: Vec<Show>) -> (r: Vec<ReportLine>)
    ensures
        lines_view(r@) == report_lines(shows_view(shows@)),
{
    let sorted = sort_shows(shows);
    let ghost sv = shows_view(sorted@);
    let mut r: Vec<ReportLine> = Vec::new();
    let mut i: usize = 0;
    assert(sv.take(0) =~= Seq::<ShowModel>::empty());
    assert(lines_view(r@) =~= Seq::<LineModel>::empty());
    while i < sorted.len()
        invariant
            sv == shows_view(sorted@),
            i <= sorted@.len(),
            lines_view(r@) == body_lines(sv.take(i as int)),
        decreases sorted.len() - i,
    {
        let s = sorted[i].sort();
        let mut lines = s.render();
        let ghost before = r@;
        let ghost added = lines@;
        r.append(&mut lines);
        proof {
            assert(s@ == with_sorted_seasons(sv[i as int]));
            assert(lines_view(r@) =~= lines_view(before) + lines_view(added));
            assert(sv.take(i as int + 1).drop_last() =~= sv.take(i as int));
            assert(sv.take(i as int + 1).last() == sv[i as int]);
        }
        i = i + 1;
    }
    assert(sv.take(i as int) =~= sv);
    proof {
        lemma_sort_len(keyed(folded_titles(shows_view(shows@)), shows_view(shows@)), by_key());
    }
    let t = total_line(sorted.len());
    r.push(ReportLine::Total(t));
    r
}

} // verus!
