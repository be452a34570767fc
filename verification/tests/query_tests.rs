use supabase_client::{
    ClientError, CountKind, Method, SupabaseClient, Value,
};

fn client() -> SupabaseClient {
    SupabaseClient::new("https://proj.example.com", "KEY").unwrap()
}

fn cols(names: &[&str]) -> Vec<String> {
    names.iter().map(|n| n.to_string()).collect()
}

fn headers_as_pairs(h: &supabase_client::HeaderSet) -> Vec<(String, String)> {
    let mut out = Vec::new();
    let mut i = 0;
    while i < h.len() {
        out.push(h.entry_at(i));
        i += 1;
    }
    out
}

#[test]
fn rendering_is_idempotent_across_identical_chains() {
    let r1 = client()
        .from("t")
        .select(cols(&["a", "b"]))
        .eq("x".to_string(), Value::Int(1))
        .render();
    let r2 = client()
        .from("t")
        .select(cols(&["a", "b"]))
        .eq("x".to_string(), Value::Int(1))
        .render();
    assert_eq!(r1.url, r2.url);
    assert_eq!(headers_as_pairs(&r1.headers), headers_as_pairs(&r2.headers));
    assert_eq!(r1.method, r2.method);
}

#[test]
fn later_select_overwrites_earlier_one() {
    let r = client().from("t").select(cols(&["a"])).select(cols(&["b"])).render();
    assert_eq!(r.url, "https://proj.example.com/rest/v1/t?select=b");
    assert!(!r.url.contains("select=a"));
}

#[test]
fn descending_range_is_rejected_at_the_call() {
    let outcome = client().from("t").range(10, 5);
    assert!(matches!(outcome, Err(ClientError::InvalidRange)));
}

#[test]
fn valid_range_renders_range_header() {
    let b = client().from("t").range(0, 9).unwrap();
    let r = b.render();
    assert_eq!(r.headers.get(&"Range".to_string()).unwrap(), "0-9");
}

#[test]
fn end_to_end_read_request() {
    let c = SupabaseClient::new("https://proj.example.com", "KEY").unwrap();
    let b = c
        .from("users")
        .select(cols(&["id", "name"]))
        .eq("active".to_string(), Value::Bool(true))
        .order("name".to_string())
        .range(0, 9)
        .unwrap();
    let r = b.render();
    assert_eq!(r.method, Method::Get);
    assert_eq!(
        r.url,
        "https://proj.example.com/rest/v1/users?select=id,name&active=eq.true&order=name.asc"
    );
    assert_eq!(r.headers.get(&"Authorization".to_string()).unwrap(), "Bearer KEY");
    assert_eq!(r.headers.get(&"Range".to_string()).unwrap(), "0-9");
    assert!(r.body.is_none());
}

#[test]
fn filters_keep_call_order() {
    let r = client()
        .from("t")
        .gt("age".to_string(), Value::Int(18))
        .lte("age".to_string(), Value::Int(65))
        .render();
    assert_eq!(r.url, "https://proj.example.com/rest/v1/t?age=gt.18&age=lte.65");
}

#[test]
fn text_values_are_percent_encoded() {
    let r = client().from("t").eq("name".to_string(), Value::Text("John Doe & Co".to_string())).render();
    assert_eq!(r.url, "https://proj.example.com/rest/v1/t?name=eq.John%20Doe%20%26%20Co");
}

#[test]
fn negative_integers_render_with_sign() {
    let r = client().from("t").gt("delta".to_string(), Value::Int(-5)).render();
    assert_eq!(r.url, "https://proj.example.com/rest/v1/t?delta=gt.-5");
}

#[test]
fn extreme_integers_render_exactly() {
    let r = client()
        .from("t")
        .eq("lo".to_string(), Value::Int(i64::MIN))
        .eq("hi".to_string(), Value::Int(i64::MAX))
        .render();
    assert_eq!(
        r.url,
        "https://proj.example.com/rest/v1/t?lo=eq.-9223372036854775808&hi=eq.9223372036854775807"
    );
}

#[test]
fn membership_filter_renders_parenthesised_list() {
    let r = client()
        .from("t")
        .in_("id".to_string(), vec![Value::Int(1), Value::Int(2), Value::Int(3)])
        .render();
    assert_eq!(r.url, "https://proj.example.com/rest/v1/t?id=in.(1,2,3)");
}

#[test]
fn containment_filter_renders_braced_list() {
    let r = client()
        .from("t")
        .contains("tags".to_string(), vec![Value::Text("a".to_string()), Value::Text("b".to_string())])
        .render();
    assert_eq!(r.url, "https://proj.example.com/rest/v1/t?tags=cs.{a,b}");
}

#[test]
fn or_group_renders_raw_subexpression() {
    let r = client().from("t").or_group("age.gte.14,age.lte.18".to_string()).render();
    assert_eq!(r.url, "https://proj.example.com/rest/v1/t?or=(age.gte.14,age.lte.18)");
}

#[test]
fn is_filter_renders_is_operator() {
    let r = client().from("t").is_("deleted_at".to_string(), Value::Text("null".to_string())).render();
    assert_eq!(r.url, "https://proj.example.com/rest/v1/t?deleted_at=is.null");
}

#[test]
fn multi_key_ordering_in_call_order() {
    let r = client()
        .from("t")
        .order_with("name".to_string(), false, Some(true))
        .order("id".to_string())
        .render();
    assert_eq!(
        r.url,
        "https://proj.example.com/rest/v1/t?order=name.desc.nullsfirst,id.asc"
    );
}

#[test]
fn count_request_renders_prefer_header() {
    let r = client().from("t").count(CountKind::Exact).render();
    assert_eq!(r.headers.get(&"Prefer".to_string()).unwrap(), "count=exact");
}

#[test]
fn head_request_uses_head_method() {
    let r = client().from("t").head().render();
    assert_eq!(r.method, Method::Head);
}

#[test]
fn single_sets_accept_variant() {
    let r = client().from("t").single().render();
    assert_eq!(
        r.headers.get(&"Accept".to_string()).unwrap(),
        "application/vnd.pgrst.object+json"
    );
    assert!(r.expect_single);
}

#[test]
fn insert_renders_post_with_body_and_prefer() {
    let b = client().from("users");
    let r = b.insert("{\"name\":\"ada\"}".to_string());
    assert_eq!(r.method, Method::Post);
    assert_eq!(r.url, "https://proj.example.com/rest/v1/users");
    assert_eq!(r.body.unwrap(), "{\"name\":\"ada\"}");
    assert_eq!(r.headers.get(&"Prefer".to_string()).unwrap(), "return=representation");
}

#[test]
fn upsert_adds_merge_resolution() {
    let r = client().from("users").upsert("{}".to_string());
    assert_eq!(
        r.headers.get(&"Prefer".to_string()).unwrap(),
        "return=representation,resolution=merge-duplicates"
    );
}

#[test]
fn count_and_mutation_prefer_values_combine() {
    let r = client().from("users").count(CountKind::Planned).insert("{}".to_string());
    assert_eq!(
        r.headers.get(&"Prefer".to_string()).unwrap(),
        "count=planned,return=representation"
    );
}

#[test]
fn update_renders_patch_with_filters() {
    let r = client()
        .from("users")
        .eq("id".to_string(), Value::Int(7))
        .update("{\"name\":\"b\"}".to_string());
    assert_eq!(r.method, Method::Patch);
    assert_eq!(r.url, "https://proj.example.com/rest/v1/users?id=eq.7");
    assert!(r.body.is_some());
}

#[test]
fn delete_renders_delete_without_body() {
    let r = client().from("users").eq("id".to_string(), Value::Int(7)).delete();
    assert_eq!(r.method, Method::Delete);
    assert!(r.body.is_none());
}
