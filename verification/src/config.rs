//! Configuration resolution: the four startup values, with environment
//! fallback for the two that have one, and the fatal errors when a required
//! value is absent.

use vstd::prelude::*;

verus! {

/// The configuration assembled once at startup and never mutated afterwards.
#[derive(Clone, Debug)]
pub struct BridgeConfig {
    /// Recipient identifier, expected (but not yet checked) to be numeric.
    pub id: String,
    /// API token for the authenticated client handle.
    pub token: String,
    /// Run only the sender workflow.
    pub send_only: bool,
    /// Run only the receiver workflow.
    pub receive_only: bool,
}

/// A required startup value that was absent both on the command line and in
/// the environment. Fatal: the process terminates before any workflow starts.
#[derive(Clone, Copy, Debug, PartialEq, Eq, Structural)]
pub enum ConfigError {
    /// No token flag and no token environment variable.
    MissingToken,
    /// No id flag and no id environment variable.
    MissingId,
}

/// The value a flag resolves to: the flag itself when non-empty, else the
/// environment fallback, else nothing.
pub open spec fn spec_resolved(arg: Seq<char>, env: Option<&String>) -> Option<Seq<char>> {
    if arg.len() > 0 {
        Some(arg)
    } else {
        match env {
            Some(v) => Some(v@),
            None => None,
        }
    }
}

/// Resolves the configuration from the command-line values and the two
/// environment fallbacks (`None` meaning the variable is unset). The token is
/// checked first, so a run missing both values reports the missing token.
/// No numeric validation happens here; that is the sender workflow's concern.
pub fn resolve_config(
    arg_id: String,
    arg_token: String,
    send_only: bool,
    receive_only: bool,
    env_id: Option<&String>,
    env_token: Option<&String>,
) -> (r: Result<BridgeConfig, ConfigError>)
    ensures
        r is Err <==> (spec_resolved(arg_token@, env_token) is None || spec_resolved(
            arg_id@,
            env_id,
        ) is None),
        r == Err::<BridgeConfig, ConfigError>(ConfigError::MissingToken) <==> spec_resolved(
            arg_token@,
            env_token,
        ) is None,
        r == Err::<BridgeConfig, ConfigError>(ConfigError::MissingId) <==> (spec_resolved(
            arg_token@,
            env_token,
        ) is Some && spec_resolved(arg_id@, env_id) is None),
        r matches Ok(c) ==> {
            &&& Some(c.token@) == spec_resolved(arg_token@, env_token)
            &&& Some(c.id@) == spec_resolved(arg_id@, env_id)
            &&& c.send_only == send_only
            &&& c.receive_only == receive_only
        },
{
    let token: String = if arg_token.as_str().is_empty() {
        match env_token {
            Some(v) => v.clone(),
            None => {
                return Err(ConfigError::MissingToken);
            },
        }
    } else {
        arg_token
    };
    let id: String = if arg_id.as_str().is_empty() {
        match env_id {
            Some(v) => v.clone(),
            None => {
                return Err(ConfigError::MissingId);
            },
        }
    } else {
        arg_id
    };
    Ok(BridgeConfig { id, token, send_only, receive_only })
}

} // verus!
