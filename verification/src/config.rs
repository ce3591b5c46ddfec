//! The model connection settings.
use crate::config_cmd::ConfigFile;
use crate::error::DistillError;
use vstd::prelude::*;

verus! {

/// Where to reach the model, and which model to use.
#[derive(Debug)]
pub struct Config {
    pub api_key: String,
    pub api_base: String,
    pub model: String,
}

/// The view of an optional string.
pub open spec fn opt_view(o: Option<String>) -> Option<Seq<char>> {
    match o {
        Some(s) => Some(s@),
        None => None,
    }
}

/// A flag value wins over an environment value, which wins over a value of
/// the configuration file.
pub open spec fn prefer(flag: Option<String>, env: Option<String>, file: Option<String>) -> Option<Seq<char>> {
    match flag {
        Some(s) => Some(s@),
        None => match env {
            Some(s) => Some(s@),
            None => opt_view(file),
        },
    }
}

/// The error for a missing API key.
pub open spec fn missing_key() -> DistillError {
    DistillError::MissingConfig { field: "API key", env_var: "DISTILL_API_KEY", flag: "--api-key" }
}

/// The error for a missing API base URL.
pub open spec fn missing_base() -> DistillError {
    DistillError::MissingConfig {
        field: "API base URL",
        env_var: "DISTILL_API_BASE",
        flag: "--api-base",
    }
}

/// The error for a missing model name.
pub open spec fn missing_model() -> DistillError {
    DistillError::MissingConfig { field: "model name", env_var: "DISTILL_MODEL", flag: "--model" }
}

fn first_of(flag: Option<String>, env: Option<String>, file: &Option<String>) -> (r: Option<String>)
    ensures
        opt_view(r) == prefer(flag, env, *file),
{
    match flag {
        Some(s) => Some(s),
        None => match env {
            Some(s) => Some(s),
            None => match file {
                Some(s) => Some(s.clone()),
                None => None,
            },
        },
    }
}

impl Config {
    /// The configuration from command-line flags, falling back on the values of
    /// the environment variables `DISTILL_API_KEY`, `DISTILL_API_BASE` and
    /// `DISTILL_MODEL`, then on the configuration file; the first setting
    /// missing from all three is an error.
    pub fn resolve(
        cli_key: Option<String>,
        cli_base: Option<String>,
        cli_model: Option<String>,
        env_key: Option<String>,
        env_base: Option<String>,
        env_model: Option<String>,
        file: &ConfigFile,
    ) -> (r: Result<Self, DistillError>)
        ensures
            match r {
                Ok(c) => {
                    &&& prefer(cli_key, env_key, file.api_key) == Some(c.api_key@)
                    &&& prefer(cli_base, env_base, file.api_base) == Some(c.api_base@)
                    &&& prefer(cli_model, env_model, file.model) == Some(c.model@)
                },
                Err(e) => {
                    ||| prefer(cli_key, env_key, file.api_key) is None && e == missing_key()
                    ||| prefer(cli_key, env_key, file.api_key) is Some && prefer(cli_base, env_base, file.api_base) is None && e
                        == missing_base()
                    ||| prefer(cli_key, env_key, file.api_key) is Some && prefer(cli_base, env_base, file.api_base) is Some
                        && prefer(cli_model, env_model, file.model) is None && e == missing_model()
                },
            },
    {
        let api_key = match first_of(cli_key, env_key, &file.api_key) {
            Some(k) => k,
            None => {
                return Err(
                    DistillError::MissingConfig {
                        field: "API key",
                        env_var: "DISTILL_API_KEY",
                        flag: "--api-key",
                    },
                )
            },
        };
        let api_base = match first_of(cli_base, env_base, &file.api_base) {
            Some(b) => b,
            None => {
                return Err(
                    DistillError::MissingConfig {
                        field: "API base URL",
                        env_var: "DISTILL_API_BASE",
                        flag: "--api-base",
                    },
                )
            },
        };
        let model = match first_of(cli_model, env_model, &file.model) {
            Some(m) => m,
            None => {
                return Err(
                    DistillError::MissingConfig {
                        field: "model name",
                        env_var: "DISTILL_MODEL",
                        flag: "--model",
                    },
                )
            },
        };
        Ok(Config { api_key, api_base, model })
    }
}

} // verus!
