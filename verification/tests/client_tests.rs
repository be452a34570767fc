use supabase_client::{ClientError, SupabaseClient};

fn header(client_headers: &supabase_client::HeaderSet, name: &str) -> Option<String> {
    client_headers.get(&name.to_string())
}

#[test]
fn resolve_derives_five_service_urls() {
    let c = SupabaseClient::new("https://proj.example.com", "KEY").unwrap();
    assert_eq!(c.services.rest, "https://proj.example.com/rest/v1");
    assert_eq!(c.services.auth, "https://proj.example.com/auth/v1");
    assert_eq!(c.services.realtime, "https://proj.example.com/realtime/v1");
    assert_eq!(c.services.storage, "https://proj.example.com/storage/v1");
    assert_eq!(c.services.functions, "https://proj.example.com/functions/v1");
}

#[test]
fn resolve_keeps_explicit_port() {
    let c = SupabaseClient::new("http://localhost:54321", "KEY").unwrap();
    assert_eq!(c.services.rest, "http://localhost:54321/rest/v1");
}

#[test]
fn resolve_drops_default_port_and_path() {
    let c = SupabaseClient::new("https://proj.example.com:443/old/path?q=1#f", "KEY").unwrap();
    assert_eq!(c.services.rest, "https://proj.example.com/rest/v1");
}

#[test]
fn resolve_rejects_missing_scheme() {
    assert!(matches!(
        SupabaseClient::new("proj.example.com", "KEY"),
        Err(ClientError::InvalidUrl)
    ));
}

#[test]
fn resolve_rejects_empty_string() {
    assert!(matches!(SupabaseClient::new("", "KEY"), Err(ClientError::InvalidUrl)));
}

#[test]
fn resolve_rejects_non_http_scheme() {
    assert!(matches!(
        SupabaseClient::new("ftp://proj.example.com", "KEY"),
        Err(ClientError::InvalidUrl)
    ));
}

#[test]
fn credentials_set_both_headers() {
    let c = SupabaseClient::new("https://proj.example.com", "sk_live_1").unwrap();
    assert_eq!(header(&c.headers, "Authorization").unwrap(), "Bearer sk_live_1");
    assert_eq!(header(&c.headers, "apikey").unwrap(), "sk_live_1");
}

#[test]
fn empty_key_is_invalid_credential() {
    assert!(matches!(
        SupabaseClient::new("https://proj.example.com", ""),
        Err(ClientError::InvalidCredential)
    ));
}

#[test]
fn url_error_reported_before_credential_error() {
    assert!(matches!(SupabaseClient::new("not a url", ""), Err(ClientError::InvalidUrl)));
}

#[test]
fn rpc_builder_targets_procedure_endpoint() {
    let c = SupabaseClient::new("https://proj.example.com", "KEY").unwrap();
    let r = c.rpc("add_points", "{\"points\":3}".to_string()).render();
    assert_eq!(r.url, "https://proj.example.com/rest/v1/rpc/add_points");
    assert_eq!(r.method.token(), "POST");
    assert_eq!(r.body.unwrap(), "{\"points\":3}");
}

#[test]
fn channel_carries_realtime_url_and_headers() {
    let c = SupabaseClient::new("https://proj.example.com", "KEY").unwrap();
    let ch = c.channel("room_1".to_string());
    assert_eq!(ch.url, "https://proj.example.com/realtime/v1");
    assert_eq!(ch.topic, "room_1");
    assert_eq!(header(&ch.headers, "apikey").unwrap(), "KEY");
}

#[test]
fn schema_affects_later_builders_only() {
    let c = SupabaseClient::new("https://proj.example.com", "KEY").unwrap();
    let before = c.from("users").render();
    let scoped = c.schema("accounting".to_string());
    let after = scoped.from("users").render();
    assert!(header(&before.headers, "Accept-Profile").is_none());
    assert_eq!(header(&after.headers, "Accept-Profile").unwrap(), "accounting");
}

#[test]
fn auth_options_defaults() {
    let o = supabase_client::SupabaseAuthClientOptions::default();
    assert!(o.auto_refresh_token);
    assert!(o.persist_session);
    assert!(o.detect_session_in_url);
    assert_eq!(o.flow_type, "implicit");
}

#[test]
fn db_options_default_schema() {
    let o = supabase_client::DefaultDbOptions::default();
    assert_eq!(o.schema, "public");
}

#[test]
fn header_set_is_copied_into_builders_not_shared() {
    let c = SupabaseClient::new("https://proj.example.com", "KEY").unwrap();
    let b = c.from("users");
    let req = b.single().render();
    // the builder's render added Accept; the client's own set is untouched
    assert!(header(&req.headers, "Accept").is_some());
    assert!(header(&c.headers, "Accept").is_none());
}

#[test]
fn header_set_set_overrides_and_appends() {
    let c = SupabaseClient::new("https://proj.example.com", "KEY").unwrap();
    let hs = c.headers.duplicate();
    let hs = hs.set("apikey".to_string(), "OTHER".to_string());
    let hs = hs.set("X-Client-Info".to_string(), "tests".to_string());
    assert_eq!(hs.get(&"apikey".to_string()).unwrap(), "OTHER");
    assert_eq!(hs.get(&"Authorization".to_string()).unwrap(), "Bearer KEY");
    assert_eq!(hs.get(&"X-Client-Info".to_string()).unwrap(), "tests");
    assert_eq!(hs.len(), 3);
}

#[test]
fn build_with_extra_overrides_defaults_and_passes_unknown_keys() {
    let extra = supabase_client::HeaderSet::empty()
        .set("apikey".to_string(), "OVERRIDE".to_string())
        .set("X-Region".to_string(), "eu".to_string());
    let hs = supabase_client::HeaderSet::build_with("KEY", &extra).unwrap();
    assert_eq!(hs.get(&"apikey".to_string()).unwrap(), "OVERRIDE");
    assert_eq!(hs.get(&"Authorization".to_string()).unwrap(), "Bearer KEY");
    assert_eq!(hs.get(&"X-Region".to_string()).unwrap(), "eu");
}

#[test]
fn build_with_empty_key_is_invalid_credential() {
    let extra = supabase_client::HeaderSet::empty();
    assert!(matches!(
        supabase_client::HeaderSet::build_with("", &extra),
        Err(ClientError::InvalidCredential)
    ));
}
