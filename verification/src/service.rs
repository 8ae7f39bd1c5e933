//! The operations of the tool: what starting and stopping a presence decide,
//! listing and searching the catalogue, and the configuration summary.
use vstd::prelude::*;

use crate::config::{ConfigView, PretendConfig};
use crate::database::apps::{find_target, normalized, ranked};
use crate::database::{AppDatabase, CacheStore};
use crate::error::Error;
use crate::models::app::{app_views, AppView};
use crate::models::{App, Presence};
use crate::text::{join_path, path_join, trimmed};

verus! {

/// The catalogue, the configuration read at start-up, the cache and where the
/// configuration is saved.
pub struct PretendService {
    database: AppDatabase,
    config: PretendConfig,
    cache: CacheStore,
    config_path: String,
}

/// What starting a presence does once the application is found: publish
/// `presence` for `app`, record `app` as recently used, and save `config`.
#[derive(Debug)]
pub struct StartPlan {
    /// The application the query named.
    pub app: App,
    /// The presence to publish.
    pub presence: Presence,
    /// The configuration to save.
    pub config: PretendConfig,
}

/// What stopping does: clear the activity of `application_id` and save
/// `config`.
#[derive(Debug)]
pub struct StopPlan {
    /// The application whose activity is cleared.
    pub application_id: String,
    /// The configuration to save.
    pub config: PretendConfig,
}

/// The configuration after starting a presence for `app`: it becomes both the
/// default application and the one with an active activity.
pub open spec fn started_config(app: AppView) -> ConfigView {
    ConfigView {
        default_application: Some(app.name),
        last_application_id: Some(app.application_id),
    }
}

/// What stopping yields for a configuration: the application id to clear and
/// the configuration without an active activity, or nothing when no activity
/// is active.
pub open spec fn stop_outcome(config: ConfigView) -> Option<(Seq<char>, ConfigView)> {
    match config.last_application_id {
        Some(id) => Some(
            (id, ConfigView { default_application: config.default_application, last_application_id: None }),
        ),
        None => None,
    }
}

/// A value, or `none` when there is none.
pub open spec fn or_none(o: Option<Seq<char>>) -> Seq<char> {
    match o {
        Some(s) => s,
        None => "none"@,
    }
}

/// The configuration summary: the configuration file's path, the default
/// application and the active application id, one per line.
pub open spec fn summary_text(path: Seq<char>, config: ConfigView) -> Seq<char> {
    "config_path: "@ + path + "\n"@ + "default_application: "@ + or_none(
        config.default_application,
    ) + "\n"@ + "last_application_id: "@ + or_none(config.last_application_id)
}

impl PretendService {
    /// The applications of the catalogue.
    pub closed spec fn catalogue(&self) -> Seq<AppView> {
        self.database@
    }

    /// The configuration read at start-up.
    pub closed spec fn current_config(&self) -> ConfigView {
        self.config@
    }

    /// Where the configuration is saved.
    pub closed spec fn config_file(&self) -> Seq<char> {
        self.config_path@
    }

    /// The cache directory.
    pub closed spec fn cache_dir(&self) -> Seq<char> {
        self.cache.dir()
    }

    /// The service for the configuration directory `config_dir`, holding the
    /// configuration read from it and the catalogue: the configuration is
    /// saved to `config_dir/config.toml` and the cache lives in
    /// `config_dir/cache`.
    pub fn new(config_dir: &str, config: PretendConfig, database: AppDatabase) -> (res: Self)
        ensures
            res.catalogue() == database@,
            res.current_config() == config@,
            res.config_file() == path_join(config_dir@, "config.toml"@),
            res.cache_dir() == path_join(config_dir@, "cache"@),
    {
        let config_path = join_path(config_dir, "config.toml");
        let cache = CacheStore::new(config_dir);
        PretendService { database, config, cache, config_path }
    }

    /// Where the configuration is saved.
    pub fn config_path(&self) -> (res: &str)
        ensures
            res@ == self.config_file(),
    {
        self.config_path.as_str()
    }

    /// The cache of recently used applications.
    pub fn cache(&self) -> (res: &CacheStore)
        ensures
            res.dir() == self.cache_dir(),
    {
        &self.cache
    }

    /// The configuration read at start-up.
    pub fn config(&self) -> (res: &PretendConfig)
        ensures
            res@ == self.current_config(),
    {
        &self.config
    }

    /// Decides what starting a presence for `application` does: the
    /// application is the one the query names, the presence carries its id
    /// and the given text, and the saved configuration makes it the default
    /// and active application. An unknown application is an error.
    pub fn start(&self, application: &str, details: Option<String>, state: Option<String>) -> (res:
        Result<StartPlan, Error>)
        ensures
            match res {
                Ok(plan) => {
                    &&& find_target(self.catalogue(), application@) == Some(plan.app@)
                    &&& plan.presence.application_id@ == plan.app.application_id@
                    &&& plan.presence.details == details
                    &&& plan.presence.state == state
                    &&& plan.presence.timestamps is None
                    &&& plan.presence.assets is None
                    &&& plan.presence.buttons@.len() == 0
                    &&& plan.config@ == started_config(plan.app@)
                },
                Err(e) => {
                    &&& find_target(self.catalogue(), application@) is None
                    &&& e matches Error::ApplicationNotFound(m) && m@ == if normalized(
                        application@,
                    ).len() == 0 {
                        "empty query"@
                    } else {
                        application@
                    }
                },
            },
    {
        let app = match self.database.find(application) {
            Ok(app) => app,
            Err(e) => return Err(e),
        };
        let presence = Presence::new(app.application_id.clone(), details, state);
        let mut config = self.config.clone();
        config.default_application = Some(app.name.clone());
        config.last_application_id = Some(app.application_id.clone());
        Ok(StartPlan { app, presence, config })
    }

    /// Decides what stopping does: clear the active application's activity
    /// and forget it, keeping the default application. Without an active
    /// application it is an error.
    pub fn stop(&self) -> (res: Result<StopPlan, Error>)
        ensures
            match stop_outcome(self.current_config()) {
                Some((id, config)) => res matches Ok(plan) && plan.application_id@ == id
                    && plan.config@ == config,
                None => res matches Err(e) && e matches Error::Rpc(m) && m@
                    == "no active activity"@,
            },
    {
        let application_id = match &self.config.last_application_id {
            Some(id) => id.clone(),
            None => return Err(Error::Rpc("no active activity".to_owned())),
        };
        let mut config = self.config.clone();
        config.last_application_id = None;
        Ok(StopPlan { application_id, config })
    }

    /// Every application of the catalogue, in order.
    pub fn list(&self) -> (res: Vec<App>)
        ensures
            app_views(res@) == self.catalogue(),
    {
        let all = self.database.all();
        let mut v: Vec<App> = Vec::new();
        for i in 0..all.len()
            invariant
                app_views(v@) == app_views(all@).take(i as int),
        {
            let c = all[i].clone();
            assert(c@ == app_views(all@)[i as int]);
            let ghost before = v@;
            v.push(c);
            assert(app_views(v@) =~= app_views(before).push(c@));
            assert(app_views(v@) =~= app_views(all@).take(i + 1));
        }
        assert(app_views(all@).take(all@.len() as int) =~= app_views(all@));
        v
    }

    /// The applications a query finds, as [`AppDatabase::search`] ranks them.
    pub fn search(&self, query: &str) -> (res: Vec<App>)
        ensures
            normalized(query@).len() == 0 <==> trimmed(query@).len() == 0,
            normalized(query@).len() == 0 ==> app_views(res@) == self.catalogue(),
            normalized(query@).len() > 0 ==> ranked(
                app_views(res@),
                self.catalogue(),
                normalized(query@),
            ),
    {
        self.database.search(query)
    }

    /// The configuration file's path, the default application and the active
    /// application id, one per line, `none` standing for a missing value.
    pub fn config_summary(&self) -> (res: String)
        ensures
            res@ == summary_text(self.config_file(), self.current_config()),
    {
        let mut s = "config_path: ".to_owned();
        s.append(self.config_path.as_str());
        s.append("\n");
        s.append("default_application: ");
        match &self.config.default_application {
            Some(name) => s.append(name.as_str()),
            None => s.append("none"),
        }
        s.append("\n");
        s.append("last_application_id: ");
        match &self.config.last_application_id {
            Some(id) => s.append(id.as_str()),
            None => s.append("none"),
        }
        s
    }
}

/// Stopping after a start clears exactly the activity that start published
/// and keeps the started application as the default.
pub proof fn law_stop_after_start(app: AppView)
    ensures
        stop_outcome(started_config(app)) == Some(
            (
                app.application_id,
                ConfigView { default_application: Some(app.name), last_application_id: None },
            ),
        ),
{
}

/// The summary ends with the line `last_application_id: ` followed by the
/// active application id, or by exactly `none` when no activity is active,
/// whatever the default application is; after a stop it reads `none`.
pub proof fn law_summary_reports_active_id(path: Seq<char>, config: ConfigView)
    ensures
        ({
            let s = summary_text(path, config);
            let last = "\n"@ + "last_application_id: "@ + match config.last_application_id {
                Some(id) => id,
                None => "none"@,
            };
            &&& s.len() >= last.len()
            &&& s.subrange(s.len() - last.len(), s.len() as int) == last
        }),
        forall|other: Option<Seq<char>>|
            #![trigger summary_text(path, ConfigView { default_application: other, ..config })]
            {
                let s = summary_text(path, config);
                let t = summary_text(
                    path,
                    ConfigView { default_application: other, ..config },
                );
                let last = "\n"@ + "last_application_id: "@ + match config.last_application_id {
                    Some(id) => id,
                    None => "none"@,
                };
                t.subrange(t.len() - last.len(), t.len() as int) == s.subrange(
                    s.len() - last.len(),
                    s.len() as int,
                )
            },
        match stop_outcome(config) {
            Some((_, after)) => {
                let s = summary_text(path, after);
                let last = "\n"@ + "last_application_id: "@ + "none"@;
                s.len() >= last.len() && s.subrange(s.len() - last.len(), s.len() as int)
                    == last
            },
            None => true,
        },
{
    let last = "\n"@ + "last_application_id: "@ + match config.last_application_id {
        Some(id) => id,
        None => "none"@,
    };
    assert forall|c: ConfigView| c.last_application_id == config.last_application_id implies {
        let t = summary_text(path, c);
        &&& t.len() >= last.len()
        &&& t.subrange(t.len() - last.len(), t.len() as int) == last
    } by {
        let head = "config_path: "@ + path + "\n"@ + "default_application: "@ + or_none(
            c.default_application,
        );
        let t = summary_text(path, c);
        assert(t =~= head + last);
        assert(t.subrange(head.len() as int, t.len() as int) =~= last);
    }
    assert forall|other: Option<Seq<char>>|
        #![trigger summary_text(path, ConfigView { default_application: other, ..config })]
        {
            let s = summary_text(path, config);
            let t = summary_text(path, ConfigView { default_application: other, ..config });
            t.subrange(t.len() - last.len(), t.len() as int) == s.subrange(
                s.len() - last.len(),
                s.len() as int,
            )
        } by {
        let c = ConfigView { default_application: other, ..config };
        assert(c.last_application_id == config.last_application_id);
    }
    match stop_outcome(config) {
        Some((_, after)) => {
            let head = "config_path: "@ + path + "\n"@ + "default_application: "@ + or_none(
                after.default_application,
            );
            let l = "\n"@ + "last_application_id: "@ + "none"@;
            let s = summary_text(path, after);
            assert(s =~= head + l);
            assert(s.subrange(head.len() as int, s.len() as int) =~= l);
        },
        None => {},
    }
}

/// A second stop has nothing left to clear.
pub proof fn law_stop_twice(config: ConfigView)
    requires
        stop_outcome(config) is Some,
    ensures
        match stop_outcome(config) {
            Some((_, after)) => stop_outcome(after) is None,
            None => false,
        },
{
}

} // verus!
