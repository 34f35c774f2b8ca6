//! The sandbox capability context: one per execution, immutable after
//! construction — a single pre-opened filesystem root, the argument
//! vector policy, the inherited environment, and the network capability
//! bound to the one allowed endpoint.

use vstd::prelude::*;
use crate::errors::KrewWapcError;
use crate::mediator::Endpoint;
use crate::uri::{spec_parse_uri, spec_resolved_port};

verus! {

/// The argument capability a sandboxed program is given.
#[derive(Debug)]
pub enum WasiArgs {
    /// The host process's own argument vector, verbatim.
    Inherit,
    /// An explicit vector whose first element the caller has set to the
    /// plugin's own launcher name.
    UserProvided(Vec<String>),
}

/// The capability bundle of one execution.  It must not be reused: the
/// allowed endpoint is snapshotted at build time.
#[derive(Debug)]
pub struct SandboxContext {
    /// The one directory pre-opened for the program: the home directory.
    pub preopen_dir: String,
    /// The argument capability.
    pub args: WasiArgs,
    /// The standard streams are passed through.
    pub inherit_stdio: bool,
    /// The host environment is passed through verbatim.
    pub inherit_env: bool,
    /// The one endpoint the network capability may reach.
    pub endpoint: Endpoint,
}

/// Puts the launcher name in front of a user-supplied argument vector,
/// as element 0 of what the program will see.
pub fn forced_args(launcher_name: String, rest: Vec<String>) -> (r: Vec<String>)
    ensures
        r@ == seq![launcher_name].add(rest@),
{
    let mut v = rest;
    v.insert(0, launcher_name);
    assert(v@ =~= seq![launcher_name].add(rest@));
    v
}

/// Builds the capability context for one execution: the home directory
/// as the single pre-opened root, the given argument policy, the
/// inherited environment and standard streams, and the allowed endpoint
/// derived from the active cluster's API-server URL.  A missing home
/// directory or a missing or malformed server URL is a configuration
/// fault; a server URL without a resolvable port has an unknown scheme.
pub fn build_context(home: Option<String>, server_url: Option<&str>, args: WasiArgs) -> (r: Result<
    SandboxContext,
    KrewWapcError,
>)
    ensures
        home is None ==> (r matches Err(e) && e is ConfigError),
        (home is Some && server_url is None) ==> (r matches Err(e) && e is ConfigError),
        home matches Some(h) ==> (server_url matches Some(su) ==> match spec_parse_uri(su@) {
            None => r matches Err(e) && e is ConfigError,
            Some(u) => match spec_resolved_port(u) {
                None => r matches Err(e) && e is UnknownScheme,
                Some(p) => r matches Ok(ctx) && ctx.preopen_dir == h && ctx.endpoint.host@
                    == u.host && ctx.endpoint.port == p && ctx.args == args && ctx.inherit_stdio
                    && ctx.inherit_env,
            },
        }),
{
    let h = match home {
        None => {
            return Err(KrewWapcError::ConfigError);
        },
        Some(h) => h,
    };
    let su = match server_url {
        None => {
            return Err(KrewWapcError::ConfigError);
        },
        Some(su) => su,
    };
    let endpoint = match crate::mediator::allowed_endpoint(su) {
        Err(e) => {
            return Err(e);
        },
        Ok(ep) => ep,
    };
    Ok(
        SandboxContext {
            preopen_dir: h,
            args,
            inherit_stdio: true,
            inherit_env: true,
            endpoint,
        },
    )
}

} // verus!
