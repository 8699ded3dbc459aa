use vstd::prelude::*;
use crate::listing::{count_kind, count_of_kind, EntryKind, ScanError, SeasonEntry, ShowEntry};
use crate::show::{seasons_view, shows_view, Season, SeasonModel, Show, ShowModel};
use crate::text::{contains, contains_exec};

verus! {

/// Number of directories among the entries of a show directory.
pub open spec fn dir_count(entries: Seq<SeasonEntry>) -> nat
    decreases entries.len(),
{
    if entries.len() == 0 {
        0
    } else {
        dir_count(entries.drop_last()) + if entries.last().kind == EntryKind::Dir {
            1nat
        } else {
            0nat
        }
    }
}

/// A show is kept when the filter is empty or occurs in its title, case-sensitively.
pub open spec fn title_matches(title: Seq<char>, filter: Seq<char>) -> bool {
    filter.len() == 0 || contains(title, filter)
}

/// The season made from a season directory of `show` whose entries have the given kinds.
pub open spec fn season_model(show: Seq<char>, name: Seq<char>, kinds: Seq<EntryKind>) -> SeasonModel {
    SeasonModel { show, title: name, episodes: count_kind(kinds, EntryKind::File) }
}

/// The seasons found among the entries of a show directory, in listing order, or the
/// path of the first directory among them that could not be listed.
pub open spec fn seasons_spec(show: Seq<char>, entries: Seq<SeasonEntry>) -> Result<Seq<SeasonModel>, Seq<char>>
    decreases entries.len(),
{
    if entries.len() == 0 {
        Ok(Seq::empty())
    } else {
        match seasons_spec(show, entries.drop_last()) {
            Err(p) => Err(p),
            Ok(prev) => {
                let e = entries.last();
                if e.kind == EntryKind::Dir {
                    match e.contents {
                        Err(err) => Err(err@),
                        Ok(kinds) => Ok(prev.push(season_model(show, e.name@, kinds@))),
                    }
                } else {
                    Ok(prev)
                }
            },
        }
    }
}

/// What a root entry gives: nothing where it is not a directory or its name is not
/// valid text; the error where it or one of its seasons cannot be listed; otherwise
/// its show, kept only where the title passes the filter.
pub open spec fn show_spec(e: ShowEntry, filter: Seq<char>) -> Result<Option<ShowModel>, Seq<char>> {
    if e.kind != EntryKind::Dir || e.name is None {
        Ok(None)
    } else {
        let title = e.name->Some_0@;
        match e.contents {
            Err(err) => Err(err@),
            Ok(subs) => match seasons_spec(title, subs@) {
                Err(p) => Err(p),
                Ok(ss) => if title_matches(title, filter) {
                    Ok(Some(ShowModel { title, season_count: dir_count(subs@), seasons: ss }))
                } else {
                    Ok(None)
                },
            },
        }
    }
}

/// The shows found among the root's entries, in listing order, or the first error.
pub open spec fn shows_spec(entries: Seq<ShowEntry>, filter: Seq<char>) -> Result<Seq<ShowModel>, Seq<char>>
    decreases entries.len(),
{
    if entries.len() == 0 {
        Ok(Seq::empty())
    } else {
        match shows_spec(entries.drop_last(), filter) {
            Err(p) => Err(p),
            Ok(prev) => match show_spec(entries.last(), filter) {
                Err(p) => Err(p),
                Ok(None) => Ok(prev),
                Ok(Some(s)) => Ok(prev.push(s)),
            },
        }
    }
}

/// The result of scanning a library whose root listing is `root`.
pub open spec fn scan_spec(root: Result<Vec<ShowEntry>, ScanError>, filter: Seq<char>) -> Result<Seq<ShowModel>, Seq<char>> {
    match root {
        Err(e) => Err(e@),
        Ok(entries) => shows_spec(entries@, filter),
    }
}

/// The model of a scan's result.
pub open spec fn scan_result_view(r: Result<Vec<Show>, ScanError>) -> Result<Seq<ShowModel>, Seq<char>> {
    match r {
        Ok(v) => Ok(shows_view(v@)),
        Err(e) => Err(e@),
    }
}

/// Once a prefix of a show directory's entries fails, the whole listing fails alike.
proof fn lemma_seasons_err_extends(show: Seq<char>, s: Seq<SeasonEntry>, k: int)
    requires
        0 <= k <= s.len(),
        seasons_spec(show, s.take(k)) is Err,
    ensures
        seasons_spec(show, s) == seasons_spec(show, s.take(k)),
    decreases s.len(),
{
    if k == s.len() {
        assert(s.take(k) == s);
    } else {
        assert(s.drop_last().take(k) == s.take(k));
        lemma_seasons_err_extends(show, s.drop_last(), k);
    }
}

/// Once a prefix of the root's entries fails, the whole listing fails alike.
proof fn lemma_shows_err_extends(s: Seq<ShowEntry>, filter: Seq<char>, k: int)
    requires
        0 <= k <= s.len(),
        shows_spec(s.take(k), filter) is Err,
    ensures
        shows_spec(s, filter) == shows_spec(s.take(k), filter),
    decreases s.len(),
{
    if k == s.len() {
        assert(s.take(k) == s);
    } else {
        assert(s.drop_last().take(k) == s.take(k));
        lemma_shows_err_extends(s.drop_last(), filter, k);
    }
}

/// Number of root entries that are directories with names that are valid text.
pub open spec fn show_dir_count(entries: Seq<ShowEntry>) -> nat
    decreases entries.len(),
{
    if entries.len() == 0 {
        0
    } else {
        show_dir_count(entries.drop_last()) + if entries.last().kind == EntryKind::Dir
            && entries.last().name is Some {
            1nat
        } else {
            0nat
        }
    }
}

/// A show directory yields one season for each directory directly under it.
pub proof fn lemma_one_season_per_subdirectory(show: Seq<char>, entries: Seq<SeasonEntry>)
    ensures
        seasons_spec(show, entries) is Ok ==> seasons_spec(show, entries)->Ok_0.len() == dir_count(entries),
    decreases entries.len(),
{
    if entries.len() > 0 {
        lemma_one_season_per_subdirectory(show, entries.drop_last());
    }
}

/// Every season has as many episodes as there are regular files directly in its
/// directory, and takes its title from that directory's name.
pub proof fn lemma_episodes_are_direct_files(show: Seq<char>, entries: Seq<SeasonEntry>)
    ensures
        seasons_spec(show, entries) is Ok ==> forall|i: int|
            0 <= i < seasons_spec(show, entries)->Ok_0.len() ==> exists|j: int|
                0 <= j < entries.len() && entries[j].kind == EntryKind::Dir && entries[j].contents is Ok
                    && #[trigger] seasons_spec(show, entries)->Ok_0[i] == season_model(show, entries[j].name@, entries[j].contents->Ok_0@),
    decreases entries.len(),
{
    if entries.len() > 0 {
        let prefix = entries.drop_last();
        lemma_episodes_are_direct_files(show, prefix);
        if seasons_spec(show, entries) is Ok {
            let ss = seasons_spec(show, entries)->Ok_0;
            let prev = seasons_spec(show, prefix)->Ok_0;
            assert forall|i: int| 0 <= i < ss.len() implies exists|j: int|
                0 <= j < entries.len() && entries[j].kind == EntryKind::Dir && entries[j].contents is Ok
                    && #[trigger] ss[i] == season_model(show, entries[j].name@, entries[j].contents->Ok_0@) by {
                if i < prev.len() {
                    assert(ss[i] == prev[i]);
                    let j = choose|j: int|
                        0 <= j < prefix.len() && prefix[j].kind == EntryKind::Dir && prefix[j].contents is Ok
                            && #[trigger] prev[i] == season_model(show, prefix[j].name@, prefix[j].contents->Ok_0@);
                    assert(prefix[j] == entries[j]);
                } else {
                    assert(entries[entries.len() - 1] == entries.last());
                }
            }
        }
    }
}

/// A kept show reports as its season count the number of directories directly under
/// its own, and has exactly that many seasons.
pub proof fn lemma_show_season_count(e: ShowEntry, filter: Seq<char>, m: ShowModel)
    requires
        show_spec(e, filter) == Ok::<Option<ShowModel>, Seq<char>>(Some(m)),
    ensures
        m.season_count == dir_count(e.contents->Ok_0@),
        m.seasons.len() == m.season_count,
{
    lemma_one_season_per_subdirectory(e.name->Some_0@, e.contents->Ok_0@);
}

/// With a filter, every show returned has the filter in its title, case-sensitively;
/// with the empty filter, every directory under the root whose name is valid text
/// gives a show.
pub proof fn lemma_filter(entries: Seq<ShowEntry>, filter: Seq<char>)
    ensures
        shows_spec(entries, filter) is Ok ==> forall|i: int|
            0 <= i < shows_spec(entries, filter)->Ok_0.len() ==> contains(
                #[trigger] shows_spec(entries, filter)->Ok_0[i].title,
                filter,
            ),
        shows_spec(entries, filter) is Ok && filter.len() == 0 ==> shows_spec(entries, filter)->Ok_0.len()
            == show_dir_count(entries),
    decreases entries.len(),
{
    if entries.len() > 0 {
        lemma_filter(entries.drop_last(), filter);
        let e = entries.last();
        if shows_spec(entries, filter) is Ok {
            let ss = shows_spec(entries, filter)->Ok_0;
            let prev = shows_spec(entries.drop_last(), filter)->Ok_0;
            assert forall|i: int| 0 <= i < ss.len() implies contains(#[trigger] ss[i].title, filter) by {
                if i < prev.len() {
                    assert(ss[i] == prev[i]);
                } else {
                    let t = ss[i].title;
                    assert(title_matches(t, filter));
                    if filter.len() == 0 {
                        assert(t.subrange(0, 0int + filter.len()) =~= filter);
                    }
                }
            }
        }
    }
}

/// A season directory that cannot be listed fails its whole show.
pub proof fn lemma_unreadable_season_fails(show: Seq<char>, entries: Seq<SeasonEntry>, j: int)
    requires
        0 <= j < entries.len(),
        entries[j].kind == EntryKind::Dir,
        entries[j].contents is Err,
    ensures
        seasons_spec(show, entries) is Err,
    decreases entries.len(),
{
    if j < entries.len() - 1 {
        assert(entries.drop_last()[j] == entries[j]);
        lemma_unreadable_season_fails(show, entries.drop_last(), j);
    }
}

/// A show directory that cannot be listed, or that holds a season directory that
/// cannot be listed, fails the whole scan, whatever the filter: no show is returned.
pub proof fn lemma_unreadable_show_fails(entries: Seq<ShowEntry>, filter: Seq<char>, i: int)
    requires
        0 <= i < entries.len(),
        entries[i].kind == EntryKind::Dir,
        entries[i].name is Some,
        entries[i].contents is Err || exists|j: int|
            0 <= j < entries[i].contents->Ok_0@.len() && (#[trigger] entries[i].contents->Ok_0@[j]).kind
                == EntryKind::Dir && entries[i].contents->Ok_0@[j].contents is Err,
    ensures
        shows_spec(entries, filter) is Err,
    decreases entries.len(),
{
    if i < entries.len() - 1 {
        assert(entries.drop_last()[i] == entries[i]);
        lemma_unreadable_show_fails(entries.drop_last(), filter, i);
    } else if entries[i].contents is Ok {
        let subs = entries[i].contents->Ok_0@;
        let j = choose|j: int|
            0 <= j < subs.len() && (#[trigger] subs[j]).kind == EntryKind::Dir && subs[j].contents is Err;
        lemma_unreadable_season_fails(entries[i].name->Some_0@, subs, j);
    }
}

impl ScanError {
    /// A copy of this error.
    pub fn duplicate(&self) -> (r: ScanError)
        ensures
            r@ == self@,
    {
        ScanError { path: self.path.clone() }
    }
}

impl Season {
    /// The season of `show_title` held in the directory `name`, whose entries have
    /// the given kinds: its episodes are the regular files directly under it.
    pub fn from_listing(show_title: &String, name: &String, kinds: &Vec<EntryKind>) -> (r: Season)
        ensures
            r@ == season_model(show_title@, name@, kinds@),
            r.episode_count == count_kind(kinds@, EntryKind::File),
    {
        let n = count_of_kind(kinds, EntryKind::File);
        Season { parent_show_title: show_title.clone(), season_title: name.clone(), episode_count: n }
    }
}

/// Counts the directories among the entries of a show directory.
pub fn count_season_dirs(entries: &Vec<SeasonEntry>) -> (n: usize)
    ensures
        n == dir_count(entries@),
{
    let mut n: usize = 0;
    let mut i: usize = 0;
    while i < entries.len()
        invariant
            i <= entries@.len(),
            n == dir_count(entries@.take(i as int)),
            n <= i,
        decreases entries.len() - i,
    {
        assert(entries@.take(i as int + 1).drop_last() == entries@.take(i as int));
        if entries[i].kind == EntryKind::Dir {
            n = n + 1;
        }
        i = i + 1;
    }
    assert(entries@.take(i as int) == entries@);
    n
}

/// Builds the seasons of `show_title` from the entries of its directory.
pub fn collect_seasons(show_title: &String, entries: &Vec<SeasonEntry>) -> (r: Result<Vec<Season>, ScanError>)
    ensures
        match r {
            Ok(v) => seasons_spec(show_title@, entries@) == Ok::<Seq<SeasonModel>, Seq<char>>(seasons_view(v@)),
            Err(e) => seasons_spec(show_title@, entries@) == Err::<Seq<SeasonModel>, Seq<char>>(e@),
        },
{
    let mut out: Vec<Season> = Vec::new();
    let mut i: usize = 0;
    assert(entries@.take(0) =~= Seq::<SeasonEntry>::empty());
    assert(seasons_view(out@) =~= Seq::<SeasonModel>::empty());
    while i < entries.len()
        invariant
            i <= entries@.len(),
            seasons_spec(show_title@, entries@.take(i as int)) == Ok::<Seq<SeasonModel>, Seq<char>>(seasons_view(out@)),
        decreases entries.len() - i,
    {
        assert(entries@.take(i as int + 1).drop_last() == entries@.take(i as int));
        let e = &entries[i];
        if e.kind == EntryKind::Dir {
            match &e.contents {
                Err(err) => {
                    proof {
                        lemma_seasons_err_extends(show_title@, entries@, i as int + 1);
                    }
                    return Err(err.duplicate());
                },
                Ok(kinds) => {
                    let szn = Season::from_listing(show_title, &e.name, kinds);
                    let ghost before = out@;
                    out.push(szn);
                    assert(seasons_view(out@) =~= seasons_view(before).push(szn@));
                },
            }
        }
        i = i + 1;
    }
    assert(entries@.take(i as int) == entries@);
    Ok(out)
}

/// What one root entry gives: no show, a show, or the error that aborts the scan.
pub fn build_show(e: &ShowEntry, title_filter: &String) -> (r: Result<Option<Show>, ScanError>)
    ensures
        match r {
            Ok(None) => show_spec(*e, title_filter@) == Ok::<Option<ShowModel>, Seq<char>>(None),
            Ok(Some(s)) => show_spec(*e, title_filter@) == Ok::<Option<ShowModel>, Seq<char>>(Some(s@)),
            Err(err) => show_spec(*e, title_filter@) == Err::<Option<ShowModel>, Seq<char>>(err@),
        },
{
    if e.kind != EntryKind::Dir {
        return Ok(None);
    }
    match &e.name {
        None => Ok(None),
        Some(title) => match &e.contents {
            Err(err) => Err(err.duplicate()),
            Ok(subs) => {
                let season_count = count_season_dirs(subs);
                match collect_seasons(title, subs) {
                    Err(err) => Err(err),
                    Ok(seasons) => {
                        if title_filter.as_str().is_empty() || contains_exec(title.as_str(), title_filter.as_str()) {
                            Ok(Some(Show { title: title.clone(), season_count, seasons }))
                        } else {
                            Ok(None)
                        }
                    },
                }
            },
        },
    }
}

/// Scans a library: one show for each directory directly under the root whose name
/// is valid text and whose title passes `title_filter`, in listing order. Fails with
/// the path of the first directory, in listing order, that could not be listed.
pub fn scan(root: &Result<Vec<ShowEntry>, ScanError>, title_filter: &String) -> (r: Result<Vec<Show>, ScanError>)
    ensures
        scan_result_view(r) == scan_spec(*root, title_filter@),
{
    match root {
        Err(err) => Err(err.duplicate()),
        Ok(entries) => {
            let mut out: Vec<Show> = Vec::new();
            let mut i: usize = 0;
            assert(entries@.take(0) =~= Seq::<ShowEntry>::empty());
            assert(shows_view(out@) =~= Seq::<ShowModel>::empty());
            while i < entries.len()
                invariant
                    *root == Ok::<Vec<ShowEntry>, ScanError>(*entries),
                    i <= entries@.len(),
                    shows_spec(entries@.take(i as int), title_filter@) == Ok::<Seq<ShowModel>, Seq<char>>(shows_view(out@)),
                decreases entries.len() - i,
            {
                assert(entries@.take(i as int + 1).drop_last() == entries@.take(i as int));
                match build_show(&entries[i], title_filter) {
                    Err(err) => {
                        proof {
                            assert(entries@.take(i as int + 1).last() == entries@[i as int]);
                            lemma_shows_err_extends(entries@, title_filter@, i as int + 1);
                        }
                        return Err(err);
                    },
                    Ok(None) => {},
                    Ok(Some(s)) => {
                        let ghost before = out@;
                        out.push(s);
                        assert(shows_view(out@) =~= shows_view(before).push(s@));
                    },
                }
                i = i + 1;
            }
            assert(entries@.take(i as int) == entries@);
            Ok(out)
        },
    }
}

} // verus!
