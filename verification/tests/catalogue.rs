use pretend_core::database::{AppDatabase, CacheStore, SearchResult};
use pretend_core::util::fuzzy::score;
use pretend_core::{App, Error};

fn app(name: &str, id: &str, aliases: &[&str]) -> App {
    App {
        name: name.to_string(),
        application_id: id.to_string(),
        aliases: aliases.iter().map(|a| a.to_string()).collect(),
    }
}

fn sample() -> AppDatabase {
    AppDatabase::load(
        "applications.json".to_string(),
        vec![
            app("Minecraft", "1", &["mc"]),
            app("Counter-Strike 2", "2", &["cs2", "csgo"]),
            app("Visual Studio Code", "3", &["vscode", "code"]),
            app("Codecademy", "4", &[]),
        ],
    )
}

#[test]
fn fuzzy_score_counts_positions_and_prefix() {
    assert_eq!(score("mine", "Minecraft"), 14);
    assert_eq!(score("MINECRAFT", "minecraft"), 19);
    assert_eq!(score("abc", "xbc"), 2);
    assert_eq!(score("abcd", "ab"), 2);
    assert_eq!(score("", "anything"), 0);
    assert_eq!(score("zzz", ""), 0);
}

#[test]
fn contains_query_ignores_case_and_reads_aliases() {
    let a = app("Minecraft", "1", &["mc", "Java Edition"]);
    assert!(a.contains_query("MINE"));
    assert!(a.contains_query("java ed"));
    assert!(a.contains_query("craft mc"));
    assert!(!a.contains_query("fortnite"));
    assert!(a.contains_query(""));
    let bare = app("Solo", "9", &[]);
    assert!(bare.contains_query("solo "));
}

#[test]
fn all_keeps_catalogue_order() {
    let db = sample();
    let names: Vec<&str> = db.all().iter().map(|a| a.name.as_str()).collect();
    assert_eq!(names, vec!["Minecraft", "Counter-Strike 2", "Visual Studio Code", "Codecademy"]);
}

#[test]
fn find_prefers_exact_name_or_alias() {
    let db = sample();
    assert_eq!(db.find("minecraft").unwrap().application_id, "1");
    assert_eq!(db.find("  CSGO \n").unwrap().application_id, "2");
    // "code" is an alias of Visual Studio Code, although Codecademy's
    // name also contains it.
    assert_eq!(db.find("code").unwrap().application_id, "3");
}

#[test]
fn find_falls_back_to_first_containing_app() {
    let db = sample();
    assert_eq!(db.find("strike").unwrap().application_id, "2");
    assert_eq!(db.find("cade").unwrap().application_id, "4");
}

#[test]
fn find_reports_unknown_and_empty_queries() {
    let db = sample();
    match db.find("   ") {
        Err(Error::ApplicationNotFound(m)) => assert_eq!(m, "empty query"),
        other => panic!("unexpected {:?}", other),
    }
    match db.find(" Fortnite ") {
        Err(Error::ApplicationNotFound(m)) => assert_eq!(m, " Fortnite "),
        other => panic!("unexpected {:?}", other),
    }
}

#[test]
fn search_empty_query_lists_everything() {
    let db = sample();
    let all = db.search("  ");
    assert_eq!(all, db.all().to_vec());
}

#[test]
fn search_ranks_by_score_then_catalogue_order() {
    let db = sample();
    // "code" is contained in both Visual Studio Code and Codecademy (100
    // each), so they keep catalogue order; the others score by position.
    // Counter-Strike agrees with "code" at two positions ("co"), Minecraft at
    // one ("e").
    let hits: Vec<String> = db.search("code").into_iter().map(|a| a.application_id).collect();
    assert_eq!(hits, vec!["3".to_string(), "4".to_string(), "2".to_string(), "1".to_string()]);
}

#[test]
fn search_drops_applications_scoring_zero() {
    let db = sample();
    let hits: Vec<String> = db.search("zzzz").into_iter().map(|a| a.name).collect();
    assert!(hits.is_empty());
    // Positional matches: "mqqqq" agrees with "minecraft mc" at position 0.
    let hits: Vec<String> = db.search("mqqqq").into_iter().map(|a| a.name).collect();
    assert_eq!(hits, vec!["Minecraft".to_string()]);
}

#[test]
fn search_contains_beats_positional() {
    let db = AppDatabase::load(
        String::new(),
        vec![app("Abcdef", "1", &[]), app("Xyz abc", "2", &[])],
    );
    let hits: Vec<String> = db.search("abx").into_iter().map(|a| a.application_id).collect();
    // Neither contains "abx"; "abcdef" agrees at 2 positions, "xyz abc" at none.
    assert_eq!(hits, vec!["1".to_string()]);
    let hits: Vec<String> = db.search("ABC").into_iter().map(|a| a.application_id).collect();
    assert_eq!(hits, vec!["1".to_string(), "2".to_string()]);
}

#[test]
fn search_result_pairs_app_and_score() {
    let r = SearchResult::new(app("A", "1", &[]), 42);
    assert_eq!(r.score, 42);
    assert_eq!(r.app.name, "A");
    let c = r.clone();
    assert_eq!(c.app, r.app);
}

#[test]
fn cache_paths() {
    let cache = CacheStore::new("/home/u/.config/pretend");
    assert_eq!(cache.path(), "/home/u/.config/pretend/cache");
    assert_eq!(cache.recent_path(), "/home/u/.config/pretend/cache/recent.json");
    assert_eq!(CacheStore::new("/cfg/").path(), "/cfg/cache");
}

#[test]
fn cache_record_appends_new_names_once() {
    let cache = CacheStore::new("/cfg");
    let mc = app("Minecraft", "1", &[]);
    assert_eq!(cache.record(&mc, None).unwrap(), r#"["Minecraft"]"#);
    assert_eq!(cache.record(&mc, Some(r#"["Osu"]"#)).unwrap(), r#"["Osu","Minecraft"]"#);
    assert_eq!(
        cache.record(&mc, Some(r#"["Minecraft","Osu"]"#)).unwrap(),
        r#"["Minecraft","Osu"]"#
    );
    assert_eq!(cache.record(&mc, Some("not json")).unwrap(), r#"["Minecraft"]"#);
    let once = cache.record(&mc, Some("[]")).unwrap();
    let twice = cache.record(&mc, Some(&once)).unwrap();
    assert_eq!(once, twice);
}

#[test]
fn merge_recent_keeps_existing_order() {
    let mc = app("Minecraft", "1", &[]);
    let names = vec!["A".to_string(), "B".to_string()];
    assert_eq!(
        CacheStore::merge_recent(names.clone(), &mc),
        vec!["A".to_string(), "B".to_string(), "Minecraft".to_string()]
    );
    let with = vec!["Minecraft".to_string(), "B".to_string()];
    assert_eq!(CacheStore::merge_recent(with.clone(), &mc), with);
}
