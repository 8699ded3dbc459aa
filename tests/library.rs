use show_scanner::listing::{count_of_kind, EntryKind, ScanError, SeasonEntry, ShowEntry};
use show_scanner::render::{episodes_line, report, season_count_line, total_line, ReportLine};
use show_scanner::report::{sort_by_folded_titles, sort_shows};
use show_scanner::scan::{build_show, collect_seasons, count_season_dirs, scan};
use show_scanner::show::{Season, Show};
use show_scanner::text::{chars_of, contains_exec, decimal_text, lex_le_exec};

fn files(n: usize) -> Vec<EntryKind> {
    vec![EntryKind::File; n]
}

fn season_dir(name: &str, kinds: Vec<EntryKind>) -> SeasonEntry {
    SeasonEntry { name: name.to_string(), kind: EntryKind::Dir, contents: Ok(kinds) }
}

fn show_dir(name: &str, seasons: Vec<SeasonEntry>) -> ShowEntry {
    ShowEntry { name: Some(name.to_string()), kind: EntryKind::Dir, contents: Ok(seasons) }
}

fn unreadable(path: &str) -> ScanError {
    ScanError { path: path.to_string() }
}

fn sample_tree() -> Result<Vec<ShowEntry>, ScanError> {
    Ok(vec![
        show_dir("showb", vec![season_dir("S1", files(1))]),
        show_dir("ShowA", vec![season_dir("Season 2", files(0)), season_dir("Season 1", files(2))]),
    ])
}

fn texts(lines: &[ReportLine]) -> Vec<String> {
    lines.iter().map(|l| l.text()).collect()
}

fn show(title: &str) -> Show {
    Show { title: title.to_string(), season_count: 0, seasons: vec![] }
}

fn titles(shows: &[Show]) -> Vec<String> {
    shows.iter().map(|s| s.title.clone()).collect()
}

#[test]
fn full_report_without_filter() {
    let shows = scan(&sample_tree(), &String::new()).ok().unwrap();
    let lines = report(shows);
    assert_eq!(
        texts(&lines),
        vec![
            "ShowA",
            "  2 Seasons",
            "    Season 1: 2 Episodes",
            "    Season 2: 0 Episodes",
            "showb",
            "  1 Season",
            "    S1: 1 Episodes",
            "Total Shows parsed: 2",
        ]
    );
}

#[test]
fn filter_is_case_sensitive() {
    let shows = scan(&sample_tree(), &"Show".to_string()).ok().unwrap();
    assert_eq!(titles(&shows), vec!["ShowA"]);
    let lines = report(shows);
    assert_eq!(texts(&lines).last().unwrap(), "Total Shows parsed: 1");
    assert_eq!(texts(&lines)[0], "ShowA");
}

#[test]
fn filter_keeps_only_matching_titles() {
    let tree = Ok(vec![show_dir("Naruto", vec![]), show_dir("One Piece", vec![]), show_dir("Naruto Shippuden", vec![])]);
    let shows = scan(&tree, &"Naruto".to_string()).ok().unwrap();
    assert_eq!(titles(&shows), vec!["Naruto", "Naruto Shippuden"]);
    let none = scan(&tree, &"naruto".to_string()).ok().unwrap();
    assert!(none.is_empty());
}

#[test]
fn empty_filter_keeps_every_show() {
    let tree = Ok(vec![show_dir("b", vec![]), show_dir("a", vec![]), show_dir("", vec![])]);
    let shows = scan(&tree, &String::new()).ok().unwrap();
    assert_eq!(titles(&shows), vec!["b", "a", ""]);
}

#[test]
fn unreadable_show_directory_fails_the_scan() {
    let tree = Ok(vec![
        show_dir("ShowA", vec![season_dir("Season 1", files(2))]),
        ShowEntry { name: Some("Locked".to_string()), kind: EntryKind::Dir, contents: Err(unreadable("/lib/Locked")) },
    ]);
    let r = scan(&tree, &String::new());
    assert_eq!(r.err().unwrap().path, "/lib/Locked");
}

#[test]
fn unreadable_show_directory_fails_even_when_filtered_out() {
    let tree = Ok(vec![ShowEntry { name: Some("Other".to_string()), kind: EntryKind::Dir, contents: Err(unreadable("/lib/Other")) }]);
    let r = scan(&tree, &"ShowA".to_string());
    assert_eq!(r.err().unwrap().path, "/lib/Other");
}

#[test]
fn unreadable_season_directory_fails_the_scan() {
    let tree = Ok(vec![show_dir(
        "ShowA",
        vec![
            season_dir("Season 1", files(2)),
            SeasonEntry { name: "Season 2".to_string(), kind: EntryKind::Dir, contents: Err(unreadable("/lib/ShowA/Season 2")) },
            SeasonEntry { name: "Season 3".to_string(), kind: EntryKind::Dir, contents: Err(unreadable("/lib/ShowA/Season 3")) },
        ],
    )]);
    let r = scan(&tree, &String::new());
    assert_eq!(r.err().unwrap().path, "/lib/ShowA/Season 2");
}

#[test]
fn unreadable_root_fails_the_scan() {
    let r = scan(&Err(unreadable("/mnt/NAS/Anime/")), &String::new());
    assert_eq!(r.err().unwrap().path, "/mnt/NAS/Anime/");
}

#[test]
fn entries_that_are_not_show_directories_are_skipped() {
    let tree = Ok(vec![
        ShowEntry { name: Some("notes.txt".to_string()), kind: EntryKind::File, contents: Ok(vec![]) },
        ShowEntry { name: None, kind: EntryKind::Dir, contents: Err(unreadable("/lib/bad")) },
        ShowEntry { name: Some("link".to_string()), kind: EntryKind::Other, contents: Ok(vec![]) },
        show_dir("Kept", vec![]),
    ]);
    let shows = scan(&tree, &String::new()).ok().unwrap();
    assert_eq!(titles(&shows), vec!["Kept"]);
    assert_eq!(shows[0].season_count, 0);
}

#[test]
fn season_count_is_number_of_subdirectories() {
    let subs = vec![
        season_dir("Season 1", files(3)),
        SeasonEntry { name: "poster.jpg".to_string(), kind: EntryKind::File, contents: Ok(vec![]) },
        season_dir("Specials", vec![]),
        SeasonEntry { name: "link".to_string(), kind: EntryKind::Other, contents: Ok(vec![]) },
    ];
    assert_eq!(count_season_dirs(&subs), 2);
    let e = show_dir("Show", subs);
    let s = build_show(&e, &String::new()).ok().unwrap().unwrap();
    assert_eq!(s.season_count, 2);
    assert_eq!(s.seasons.len(), 2);
    assert_eq!(s.seasons[0].season_title, "Season 1");
    assert_eq!(s.seasons[1].season_title, "Specials");
    assert_eq!(s.seasons[0].parent_show_title, "Show");
}

#[test]
fn episode_count_is_number_of_direct_files() {
    let kinds = vec![EntryKind::File, EntryKind::Dir, EntryKind::Other, EntryKind::File, EntryKind::File];
    assert_eq!(count_of_kind(&kinds, EntryKind::File), 3);
    let s = Season::from_listing(&"Show".to_string(), &"Season 1".to_string(), &kinds);
    assert_eq!(s.episode_count, 3);
    let seasons = collect_seasons(&"Show".to_string(), &vec![season_dir("Extras", kinds)]).ok().unwrap();
    assert_eq!(seasons[0].episode_count, 3);
}

#[test]
fn season_count_pluralization() {
    assert_eq!(season_count_line(1), "  1 Season");
    assert_eq!(season_count_line(0), "  0 Seasons");
    assert_eq!(season_count_line(2), "  2 Seasons");
    assert_eq!(season_count_line(11), "  11 Seasons");
}

#[test]
fn episode_and_total_lines() {
    assert_eq!(episodes_line(0), "0 Episodes");
    assert_eq!(episodes_line(1), "1 Episodes");
    assert_eq!(total_line(0), "Total Shows parsed: 0");
    assert_eq!(total_line(305), "Total Shows parsed: 305");
}

#[test]
fn decimal_writing() {
    assert_eq!(decimal_text(0), "0");
    assert_eq!(decimal_text(7), "7");
    assert_eq!(decimal_text(10), "10");
    assert_eq!(decimal_text(1234567890), "1234567890");
}

#[test]
fn shows_sort_without_regard_to_case() {
    let sorted = sort_shows(vec![show("banana"), show("Cherry"), show("apple"), show("B")]);
    assert_eq!(titles(&sorted), vec!["apple", "B", "banana", "Cherry"]);
}

#[test]
fn lowercasing_changes_the_order() {
    let sorted = sort_shows(vec![show("a"), show("B")]);
    assert_eq!(titles(&sorted), vec!["a", "B"]);
    let sorted = sort_shows(vec![show("B"), show("a")]);
    assert_eq!(titles(&sorted), vec!["a", "B"]);
}

#[test]
fn shows_with_equal_folded_titles_keep_their_order() {
    let sorted = sort_shows(vec![show("abc"), show("ABC"), show("Abc")]);
    assert_eq!(titles(&sorted), vec!["abc", "ABC", "Abc"]);
}

#[test]
fn sorting_sorted_shows_keeps_order() {
    let once = sort_shows(vec![show("Zeta"), show("alpha"), show("Mid"), show("beta")]);
    let first = titles(&once);
    let twice = sort_shows(once);
    assert_eq!(titles(&twice), first);
    assert_eq!(first, vec!["alpha", "beta", "Mid", "Zeta"]);
}

#[test]
fn sort_by_given_keys() {
    let sorted = sort_by_folded_titles(vec![show("x"), show("y"), show("z")], vec!["b".to_string(), "c".to_string(), "a".to_string()]);
    assert_eq!(titles(&sorted), vec!["z", "x", "y"]);
}

#[test]
fn seasons_sort_case_sensitively() {
    let mk = |t: &str| Season { parent_show_title: "S".to_string(), season_title: t.to_string(), episode_count: 1 };
    let s = Show { title: "S".to_string(), season_count: 4, seasons: vec![mk("Season 2"), mk("season 1"), mk("Season 10"), mk("Extras")] };
    let sorted = s.sort();
    let names: Vec<String> = sorted.seasons.iter().map(|z| z.season_title.clone()).collect();
    assert_eq!(names, vec!["Extras", "Season 10", "Season 2", "season 1"]);
    assert_eq!(sorted.season_count, 4);
    assert_eq!(s.seasons[0].season_title, "Season 2");
}

#[test]
fn render_one_show() {
    let mut s = show("Mushishi");
    s.season_count = 1;
    s.add_season(Season { parent_show_title: "Mushishi".to_string(), season_title: "Season 1".to_string(), episode_count: 26 });
    let lines = s.render();
    assert_eq!(texts(&lines), vec!["Mushishi", "  1 Season", "    Season 1: 26 Episodes"]);
    assert!(matches!(&lines[2], ReportLine::Season { title, episodes } if title == "Season 1" && episodes == "26 Episodes"));
}

#[test]
fn empty_report() {
    assert_eq!(texts(&report(vec![])), vec!["Total Shows parsed: 0"]);
}

#[test]
fn substring_search() {
    assert!(contains_exec("Attack on Titan", "on T"));
    assert!(contains_exec("abc", ""));
    assert!(contains_exec("", ""));
    assert!(!contains_exec("abc", "abcd"));
    assert!(!contains_exec("Attack", "attack"));
    assert!(contains_exec("日本語のタイトル", "のタ"));
}

#[test]
fn code_point_order() {
    assert!(lex_le_exec("abc", "abd"));
    assert!(lex_le_exec("ab", "abc"));
    assert!(lex_le_exec("abc", "abc"));
    assert!(!lex_le_exec("abc", "ab"));
    assert!(lex_le_exec("Z", "a"));
    assert!(lex_le_exec("z", "é"));
    assert_eq!(chars_of("añb"), vec!['a', 'ñ', 'b']);
}
