use pretend_core::config::PretendConfig;
use pretend_core::database::AppDatabase;
use pretend_core::output::{app_lines, start_lines};
use pretend_core::rpc::{Button, Timestamps};
use pretend_core::{App, Error, Presence, PretendService};

fn app(name: &str, id: &str, aliases: &[&str]) -> App {
    App {
        name: name.to_string(),
        application_id: id.to_string(),
        aliases: aliases.iter().map(|a| a.to_string()).collect(),
    }
}

fn service(config: PretendConfig) -> PretendService {
    let db = AppDatabase::load(
        "applications.json".into(),
        vec![app("Minecraft", "365975655608745985", &["mc"]), app("Osu!", "367827983903490050", &[])],
    );
    PretendService::new("/home/u/.config/pretend", config, db)
}

#[test]
fn new_service_paths() {
    let s = service(PretendConfig::default());
    assert_eq!(s.config_path(), "/home/u/.config/pretend/config.toml");
    assert_eq!(s.cache().path(), "/home/u/.config/pretend/cache");
    assert!(s.config().default_application.is_none());
}

#[test]
fn start_plans_presence_and_config() {
    let s = service(PretendConfig::default());
    let plan = s
        .start("MC", Some("Building".into()), Some("Creative".into()))
        .unwrap();
    assert_eq!(plan.app.name, "Minecraft");
    assert_eq!(plan.presence.application_id, "365975655608745985");
    assert_eq!(plan.presence.details.as_deref(), Some("Building"));
    assert_eq!(plan.presence.state.as_deref(), Some("Creative"));
    assert_eq!(plan.config.default_application.as_deref(), Some("Minecraft"));
    assert_eq!(plan.config.last_application_id.as_deref(), Some("365975655608745985"));
}

#[test]
fn start_unknown_application_fails() {
    let s = service(PretendConfig::default());
    match s.start("fortnite", None, None) {
        Err(Error::ApplicationNotFound(m)) => assert_eq!(m, "fortnite"),
        _ => panic!("expected ApplicationNotFound"),
    }
}

#[test]
fn stop_without_activity_fails() {
    let s = service(PretendConfig::default());
    match s.stop() {
        Err(Error::Rpc(m)) => assert_eq!(m, "no active activity"),
        _ => panic!("expected Rpc error"),
    }
}

#[test]
fn stop_after_start_clears_started_activity() {
    let s = service(PretendConfig::default());
    let started = s.start("osu", None, None).unwrap();
    let next = service(started.config.clone());
    let stopped = next.stop().unwrap();
    assert_eq!(stopped.application_id, "367827983903490050");
    assert_eq!(stopped.config.default_application.as_deref(), Some("Osu!"));
    assert!(stopped.config.last_application_id.is_none());
    assert!(service(stopped.config).stop().is_err());
}

#[test]
fn config_summary_lines() {
    let s = service(PretendConfig::default());
    assert_eq!(
        s.config_summary(),
        "config_path: /home/u/.config/pretend/config.toml\ndefault_application: none\nlast_application_id: none"
    );
    let s = service(PretendConfig {
        default_application: Some("minecraft".into()),
        last_application_id: Some("365975655608745985".into()),
    });
    assert_eq!(
        s.config_summary(),
        "config_path: /home/u/.config/pretend/config.toml\ndefault_application: minecraft\nlast_application_id: 365975655608745985"
    );
}

#[test]
fn list_and_search_through_service() {
    let s = service(PretendConfig::default());
    let names: Vec<String> = s.list().into_iter().map(|a| a.name).collect();
    assert_eq!(names, vec!["Minecraft".to_string(), "Osu!".to_string()]);
    let hits: Vec<String> = s.search("osu").into_iter().map(|a| a.name).collect();
    assert_eq!(hits[0], "Osu!");
}

#[test]
fn presence_to_activity_drops_empty_buttons() {
    let p = Presence::new("1".into(), Some("d".into()), None);
    let a = p.to_activity();
    assert_eq!(a.details.as_deref(), Some("d"));
    assert!(a.state.is_none());
    assert!(a.buttons.is_none());
    assert!(a.timestamps.is_none());
    let mut p = Presence::new("1".into(), None, Some("s".into()));
    p.buttons.push(Button { label: "Site".into(), url: "https://example.org".into() });
    p.timestamps = Some(Timestamps { start: Some(5), end: None });
    let a = p.to_activity();
    let b = a.buttons.unwrap();
    assert_eq!(b.len(), 1);
    assert_eq!(b[0].label, "Site");
    assert_eq!(a.timestamps.unwrap().start, Some(5));
}

#[test]
fn start_output_lines() {
    let p = Presence::new("42".into(), Some("Building".into()), Some("Creative".into()));
    assert_eq!(
        start_lines(&p),
        vec![
            "Started activity for 42".to_string(),
            "details: Building".to_string(),
            "state: Creative".to_string()
        ]
    );
    let p = Presence::new("42".into(), None, None);
    assert_eq!(start_lines(&p), vec!["Started activity for 42".to_string()]);
}

#[test]
fn app_output_lines() {
    assert_eq!(app_lines(&[]), vec!["No applications found.".to_string()]);
    let apps = vec![app("Minecraft", "1", &["mc", "java"]), app("Osu!", "2", &[])];
    assert_eq!(
        app_lines(&apps),
        vec![
            "Minecraft (1)".to_string(),
            "  aliases: mc, java".to_string(),
            "Osu! (2)".to_string()
        ]
    );
}
