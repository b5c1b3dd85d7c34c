//! The settings of the monitoring backend and the rule by which a request
//! changes them.

use crate::json::{json_object, json_object_text, lists_view, texts_view};
use crate::text::names_view;
use vstd::prelude::*;

verus! {

/// The settings of the backend.
#[derive(Debug)]
pub struct Config {
    pub port: u16,
    pub redis_url: String,
    pub key_prefix: String,
    pub scan_interval_secs: u64,
    pub heartbeat_ttl_secs: u64,
    pub banned_sites: Vec<String>,
    pub banned_apps: Vec<String>,
    pub sau_mode: bool,
}

/// The settings as the contracts see them.
pub struct ConfigView {
    pub port: u16,
    pub redis_url: Seq<char>,
    pub key_prefix: Seq<char>,
    pub scan_interval_secs: u64,
    pub heartbeat_ttl_secs: u64,
    pub banned_sites: Seq<Seq<char>>,
    pub banned_apps: Seq<Seq<char>>,
    pub sau_mode: bool,
}

impl View for Config {
    type V = ConfigView;

    open spec fn view(&self) -> ConfigView {
        ConfigView {
            port: self.port,
            redis_url: self.redis_url@,
            key_prefix: self.key_prefix@,
            scan_interval_secs: self.scan_interval_secs,
            heartbeat_ttl_secs: self.heartbeat_ttl_secs,
            banned_sites: names_view(self.banned_sites@),
            banned_apps: names_view(self.banned_apps@),
            sau_mode: self.sau_mode,
        }
    }
}

/// The settings that hold where no configuration file can be used.
pub open spec fn default_config() -> ConfigView {
    ConfigView {
        port: 8080,
        redis_url: "redis://127.0.0.1:6379"@,
        key_prefix: "nishack"@,
        scan_interval_secs: 30,
        heartbeat_ttl_secs: 90,
        banned_sites: Seq::empty(),
        banned_apps: Seq::empty(),
        sau_mode: false,
    }
}

impl Default for Config {
    fn default() -> (config: Config)
        ensures
            config@ == default_config(),
    {
        let config = Config {
            port: 8080,
            redis_url: "redis://127.0.0.1:6379".to_owned(),
            key_prefix: "nishack".to_owned(),
            scan_interval_secs: 30,
            heartbeat_ttl_secs: 90,
            banned_sites: Vec::new(),
            banned_apps: Vec::new(),
            sau_mode: false,
        };
        assert(config@.banned_sites =~= Seq::empty());
        assert(config@.banned_apps =~= Seq::empty());
        config
    }
}

/// A request to change the banned lists or the exam mode. A member that is
/// absent leaves its setting alone.
#[derive(Debug)]
pub struct UpdateConfigRequest {
    pub banned_sites: Option<Vec<String>>,
    pub banned_apps: Option<Vec<String>>,
    pub sau_mode: Option<bool>,
}

/// A list that may be absent, as the contracts see it.
pub open spec fn list_view(list: Option<Vec<String>>) -> Option<Seq<Seq<char>>> {
    match list {
        Some(items) => Some(names_view(items@)),
        None => None,
    }
}

/// An update request as the contracts see it.
pub struct UpdateView {
    pub banned_sites: Option<Seq<Seq<char>>>,
    pub banned_apps: Option<Seq<Seq<char>>>,
    pub sau_mode: Option<bool>,
}

impl View for UpdateConfigRequest {
    type V = UpdateView;

    open spec fn view(&self) -> UpdateView {
        UpdateView {
            banned_sites: list_view(self.banned_sites),
            banned_apps: list_view(self.banned_apps),
            sau_mode: self.sau_mode,
        }
    }
}

/// The settings after a request: each member that the request holds replaces
/// the setting of its name; everything else stays.
pub open spec fn updated_config(config: ConfigView, request: UpdateView) -> ConfigView {
    ConfigView {
        banned_sites: match request.banned_sites {
            Some(sites) => sites,
            None => config.banned_sites,
        },
        banned_apps: match request.banned_apps {
            Some(apps) => apps,
            None => config.banned_apps,
        },
        sau_mode: match request.sau_mode {
            Some(mode) => mode,
            None => config.sau_mode,
        },
        ..config
    }
}

/// The text under which the banned lists are published.
pub open spec fn ban_config_text(config: ConfigView) -> Seq<char> {
    json_object_text(
        seq![],
        seq![("banned_processes"@, config.banned_apps), ("banned_domains"@, config.banned_sites)],
    )
}

impl Config {
    /// The settings to run with: those that were loaded, or the defaults
    /// where the configuration file is missing or cannot be read as settings.
    pub fn loaded_or_default(loaded: Option<Config>) -> (config: Config)
        ensures
            config@ == match loaded {
                Some(settings) => settings@,
                None => default_config(),
            },
    {
        match loaded {
            Some(settings) => settings,
            None => Config::default(),
        }
    }

    /// Applies an update request to these settings.
    pub fn updated(self, request: UpdateConfigRequest) -> (next: Config)
        ensures
            next@ == updated_config(self@, request@),
    {
        let mut next = self;
        if let Some(sites) = request.banned_sites {
            next.banned_sites = sites;
        }
        if let Some(apps) = request.banned_apps {
            next.banned_apps = apps;
        }
        if let Some(mode) = request.sau_mode {
            next.sau_mode = mode;
        }
        next
    }

    /// The banned lists as they are published to the agents: a JSON object
    /// with the banned applications under `banned_processes` and the banned
    /// sites under `banned_domains`.
    pub fn ban_config_json(&self) -> (text: String)
        ensures
            text@ == ban_config_text(self@),
    {
        let texts: [(&str, &str); 0] = [];
        let lists =
            [("banned_processes", &self.banned_apps), ("banned_domains", &self.banned_sites)];
        assert(texts_view(texts@) =~= seq![]);
        assert(lists_view(lists@) =~= seq![
            ("banned_processes"@, self@.banned_apps),
            ("banned_domains"@, self@.banned_sites),
        ]);
        json_object(&texts, &lists)
    }

    /// The exam mode as it is published to the agents: `1` for on, `0` for
    /// off.
    pub fn sau_flag(&self) -> (flag: &'static str)
        ensures
            flag@ == if self.sau_mode {
                "1"@
            } else {
                "0"@
            },
    {
        if self.sau_mode {
            "1"
        } else {
            "0"
        }
    }
}

} // verus!
