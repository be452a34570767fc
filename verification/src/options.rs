//! Pure configuration structs, each with documented defaults supplied by
//! a named factory function.

use vstd::prelude::*;

verus! {

/// Configuration of the authentication subsystem's client behaviour.
#[derive(Debug)]
pub struct SupabaseAuthClientOptions {
    pub auto_refresh_token: bool,
    pub persist_session: bool,
    pub detect_session_in_url: bool,
    pub flow_type: String,
}

impl SupabaseAuthClientOptions {
    /// The documented defaults: token refresh on, session persistence on,
    /// session detection in the URL on, implicit flow.
    pub fn default() -> (r: Self)
        ensures
            r.auto_refresh_token,
            r.persist_session,
            r.detect_session_in_url,
            r.flow_type@ == "implicit"@,
    {
        SupabaseAuthClientOptions {
            auto_refresh_token: true,
            persist_session: true,
            detect_session_in_url: true,
            flow_type: "implicit".to_owned(),
        }
    }
}

/// Configuration of the realtime subsystem. The socket protocol is out of
/// this library's scope, so no field is modelled yet.
#[derive(Debug)]
pub struct RealtimeClientOptions {}

/// Configuration of the database query layer.
#[derive(Debug)]
pub struct DefaultDbOptions {
    pub schema: String,
}

impl DefaultDbOptions {
    /// The documented default: schema `public`.
    pub fn default() -> (r: Self)
        ensures
            r.schema@ == "public"@,
    {
        DefaultDbOptions { schema: "public".to_owned() }
    }
}

/// Configuration of the storage subsystem. Object transfer is out of this
/// library's scope, so no field is modelled yet.
#[derive(Debug)]
pub struct SupabaseStorageClientOptions {}

} // verus!
