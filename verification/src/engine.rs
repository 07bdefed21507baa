//! Engine configuration and the engine-state markers.
//!
//! The engine itself — connection pool, migrations, the client of the
//! suggestion service — lives with the transport layer; this module holds
//! the plain configuration record it is built from and the pure defaulting
//! rules for assembling one from raw settings.

use vstd::prelude::*;
use vstd::string::StringExecFns;

use crate::errors::SDKError;

verus! {

/// A marker for the two shapes an engine can take: bare, or carrying a
/// request context with its loaders.
pub trait EngineState {

}

/// The engine shape with no request context attached.
#[derive(Clone, Copy, Debug)]
pub struct WithoutContext;

impl EngineState for WithoutContext {

}

/// The settings an engine is built from, as plain values.
#[derive(Clone, Debug)]
pub struct SDKConfig {
    pub database_url: String,
    pub llm_api_key: String,
    pub llm_model_name: String,
    pub jwt_access_token_secret: String,
    pub jwt_refresh_token_secret: String,
    pub github_client_id: Option<String>,
    pub github_client_secret: Option<String>,
    pub github_redirect_url: Option<String>,
}

impl SDKConfig {
    /// Assembles a configuration from raw settings, applying the defaulting
    /// rules: the model name defaults to `gpt-3.5-turbo`, the access-token
    /// secret to `secret`, and the refresh-token secret to whatever the
    /// access-token secret came out as. The caller (the program's edge)
    /// reads the raw values from its environment and hands them in here.
    pub fn from_parts(
        database_url: String,
        llm_api_key: String,
        llm_model_name: Option<String>,
        jwt_access_token_secret: Option<String>,
        jwt_refresh_token_secret: Option<String>,
        github_client_id: Option<String>,
        github_client_secret: Option<String>,
        github_redirect_url: Option<String>,
    ) -> (r: SDKConfig)
        ensures
            r.database_url == database_url,
            r.llm_api_key == llm_api_key,
            r.llm_model_name@ == (match llm_model_name {
                Some(m) => m@,
                None => "gpt-3.5-turbo"@,
            }),
            r.jwt_access_token_secret@ == (match jwt_access_token_secret {
                Some(s) => s@,
                None => "secret"@,
            }),
            r.jwt_refresh_token_secret@ == (match jwt_refresh_token_secret {
                Some(s) => s@,
                None => match jwt_access_token_secret {
                    Some(s) => s@,
                    None => "secret"@,
                },
            }),
            r.github_client_id == github_client_id,
            r.github_client_secret == github_client_secret,
            r.github_redirect_url == github_redirect_url,
    {
        let llm_model_name = match llm_model_name {
            Some(m) => m,
            None => "gpt-3.5-turbo".to_owned(),
        };
        let jwt_access_token_secret = match jwt_access_token_secret {
            Some(s) => s,
            None => "secret".to_owned(),
        };
        let jwt_refresh_token_secret = match jwt_refresh_token_secret {
            Some(s) => s,
            None => jwt_access_token_secret.clone(),
        };
        SDKConfig {
            database_url,
            llm_api_key,
            llm_model_name,
            jwt_access_token_secret,
            jwt_refresh_token_secret,
            github_client_id,
            github_client_secret,
            github_redirect_url,
        }
    }
}

/// The version a build carries: the value when the build system supplied
/// one, `VersionNotFound` — and only then — when it did not.
pub fn resolve_version(version: Option<String>) -> (r: Result<String, SDKError>)
    ensures
        match version {
            Some(v) => r == Ok::<String, SDKError>(v),
            None => r == Err::<String, SDKError>(SDKError::VersionNotFound),
        },
{
    match version {
        Some(v) => Ok(v),
        None => Err(SDKError::VersionNotFound),
    }
}

} // verus!
