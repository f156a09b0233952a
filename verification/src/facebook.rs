//! Posting configuration for the connected social group: validation of
//! the stored token and group id, and the connection-status projection.
//! The network call itself lives outside this library.

use vstd::prelude::*;
use crate::config::AppConfig;
use crate::text;

verus! {

/// Why a poster could not be built, or a post failed.
#[derive(Debug)]
pub enum FacebookError {
    MissingToken,
    MissingGroup,
    Http(String),
    Api(String),
}

impl FacebookError {
    pub fn message(&self) -> (r: String)
        ensures
            match *self {
                FacebookError::MissingToken => r@ == "missing facebook token"@,
                FacebookError::MissingGroup => r@ == "no facebook group configured"@,
                FacebookError::Http(ref s) => r@ == s@,
                FacebookError::Api(ref s) => r@ == s@,
            },
    {
        match self {
            FacebookError::MissingToken => <String as vstd::string::StringExecFns>::from_str(
                "missing facebook token",
            ),
            FacebookError::MissingGroup => <String as vstd::string::StringExecFns>::from_str(
                "no facebook group configured",
            ),
            FacebookError::Http(s) => s.clone(),
            FacebookError::Api(s) => s.clone(),
        }
    }
}

/// A validated poster: a nonempty token and a nonempty group id.
#[derive(Debug)]
pub struct FbPoster {
    token: String,
    group_id: String,
}

impl FbPoster {
    pub closed spec fn token_spec(self) -> Seq<char> {
        self.token@
    }

    pub closed spec fn group_spec(self) -> Seq<char> {
        self.group_id@
    }

    pub fn token(&self) -> (r: &str)
        ensures
            r@ == self.token_spec(),
    {
        self.token.as_str()
    }

    pub fn group_id(&self) -> (r: &str)
        ensures
            r@ == self.group_spec(),
    {
        self.group_id.as_str()
    }

    /// Builds a poster from the stored configuration: the token and the
    /// group id must both be present and nonempty once trimmed, and are
    /// stored trimmed, their content otherwise untouched; a missing
    /// token is reported before a missing group.
    pub fn from_config(config: &AppConfig) -> (r: Result<FbPoster, FacebookError>)
        ensures
            match r {
                Ok(p) => {
                    &&& config.facebook_access_token matches Some(t) && p.token_spec()
                        == text::trim_spec(t@) && p.token_spec().len() > 0
                    &&& config.facebook_group_id matches Some(g) && p.group_spec()
                        == text::trim_spec(g@) && p.group_spec().len() > 0
                },
                Err(e) => match e {
                    FacebookError::MissingToken => (match config.facebook_access_token {
                        Some(t) => text::trim_spec(t@).len() == 0,
                        None => true,
                    }),
                    FacebookError::MissingGroup => (config.facebook_access_token matches Some(t)
                        && text::trim_spec(t@).len() > 0) && (match config.facebook_group_id {
                        Some(g) => text::trim_spec(g@).len() == 0,
                        None => true,
                    }),
                    _ => false,
                },
            },
    {
        let token = match &config.facebook_access_token {
            Some(t) => text::trim(t.as_str()),
            None => {
                return Err(FacebookError::MissingToken);
            },
        };
        if token.as_str().is_empty() {
            return Err(FacebookError::MissingToken);
        }
        let group_id = match &config.facebook_group_id {
            Some(g) => text::trim(g.as_str()),
            None => {
                return Err(FacebookError::MissingGroup);
            },
        };
        if group_id.as_str().is_empty() {
            return Err(FacebookError::MissingGroup);
        }
        Ok(FbPoster { token, group_id })
    }
}

/// The connection status surfaced to the interface layer.
#[derive(Debug)]
pub struct FacebookStatusData {
    pub connected: bool,
    pub group_id: Option<String>,
    pub user_name: Option<String>,
    pub expires_at: Option<String>,
}

/// Projects the stored configuration onto its connection status:
/// connected exactly when an access token is stored.
pub fn facebook_status_from(config: &AppConfig) -> (r: FacebookStatusData)
    ensures
        r.connected == (config.facebook_access_token is Some),
        r.group_id == config.facebook_group_id,
        r.user_name == config.facebook_user_name,
        r.expires_at == config.facebook_token_expires_at,
{
    FacebookStatusData {
        connected: config.facebook_access_token.is_some(),
        group_id: match &config.facebook_group_id {
            Some(s) => Some(s.clone()),
            None => None,
        },
        user_name: match &config.facebook_user_name {
            Some(s) => Some(s.clone()),
            None => None,
        },
        expires_at: match &config.facebook_token_expires_at {
            Some(s) => Some(s.clone()),
            None => None,
        },
    }
}

} // verus!
