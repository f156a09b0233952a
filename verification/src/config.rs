//! Application configuration: the connected social account's token,
//! expiry, user and group. The store here owns the in-memory state; the
//! surrounding application persists it.

use vstd::prelude::*;

verus! {

/// The persisted application configuration.
#[derive(Clone, Debug)]
pub struct AppConfig {
    pub facebook_access_token: Option<String>,
    pub facebook_token_expires_at: Option<String>,
    pub facebook_user_id: Option<String>,
    pub facebook_user_name: Option<String>,
    pub facebook_group_id: Option<String>,
}

impl Default for AppConfig {
    /// The empty configuration: nothing connected.
    fn default() -> (r: AppConfig)
        ensures
            r.facebook_access_token is None,
            r.facebook_token_expires_at is None,
            r.facebook_user_id is None,
            r.facebook_user_name is None,
            r.facebook_group_id is None,
    {
        AppConfig {
            facebook_access_token: None,
            facebook_token_expires_at: None,
            facebook_user_id: None,
            facebook_user_name: None,
            facebook_group_id: None,
        }
    }
}

/// The in-memory configuration store.
#[derive(Debug)]
pub struct ConfigStore {
    data: AppConfig,
}

impl ConfigStore {
    pub closed spec fn data_spec(self) -> AppConfig {
        self.data
    }

    /// Starts from a configuration read back by the caller, or from the
    /// empty one when none could be read.
    pub fn load(initial: Option<AppConfig>) -> (r: ConfigStore)
        ensures
            match initial {
                Some(c) => r.data_spec() == c,
                None => {
                    &&& r.data_spec().facebook_access_token is None
                    &&& r.data_spec().facebook_token_expires_at is None
                    &&& r.data_spec().facebook_user_id is None
                    &&& r.data_spec().facebook_user_name is None
                    &&& r.data_spec().facebook_group_id is None
                },
            },
    {
        match initial {
            Some(c) => ConfigStore { data: c },
            None => ConfigStore { data: AppConfig::default() },
        }
    }

    /// The current configuration.
    pub fn read(&self) -> (r: &AppConfig)
        ensures
            *r == self.data_spec(),
    {
        &self.data
    }

    /// Replaces the configuration and hands the new state back for the
    /// caller to persist.
    pub fn update(&mut self, new_data: AppConfig) -> (r: &AppConfig)
        ensures
            final(self).data_spec() == new_data,
            *r == new_data,
    {
        self.data = new_data;
        &self.data
    }
}

} // verus!
