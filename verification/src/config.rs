use vstd::prelude::*;

verus! {

/// The options of the tracker, as they are loaded once at startup.
#[derive(Clone, Debug, PartialEq, Eq)]
pub struct Config {
    pub db_path: String,
    pub log_level: String,
    pub sync: Sync,
}

/// The options of the upload to the remote collector.
#[derive(Clone, Debug, PartialEq, Eq)]
pub struct Sync {
    pub enabled: bool,
    pub url: String,
    pub access_token: String,
}

/// A `Sync` as contracts see it.
pub struct SyncView {
    pub enabled: bool,
    pub url: Seq<char>,
    pub access_token: Seq<char>,
}

/// A `Config` as contracts see it.
pub struct ConfigView {
    pub db_path: Seq<char>,
    pub log_level: Seq<char>,
    pub sync: SyncView,
}

impl View for Sync {
    type V = SyncView;

    open spec fn view(&self) -> SyncView {
        SyncView { enabled: self.enabled, url: self.url@, access_token: self.access_token@ }
    }
}

impl View for Config {
    type V = ConfigView;

    open spec fn view(&self) -> ConfigView {
        ConfigView { db_path: self.db_path@, log_level: self.log_level@, sync: self.sync@ }
    }
}

impl Config {
    /// The log level in force: the one that the environment sets, and the
    /// configured one where the environment sets none.
    pub fn effective_log_level(&self, environment: Option<String>) -> (level: String)
        ensures
            level@ == match environment {
                Some(set) => set@,
                None => self.log_level@,
            },
    {
        match environment {
            Some(set) => set,
            None => self.log_level.clone(),
        }
    }
}

} // verus!
