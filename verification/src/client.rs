//! The top-level client: owns the resolved service URLs and the credential
//! header set, and hands out builders scoped to one relation, one stored
//! procedure, or one realtime channel.

use vstd::prelude::*;
use crate::error::ClientError;
use crate::headers::HeaderSet;
use crate::query::{Method, PostgrestQueryBuilder, Request};
use crate::text::is_ident;
use crate::urls::{resolve, url_ok, ServiceUrls};

verus! {

/// A terminal builder for one stored-procedure call: POST to the
/// procedure's endpoint with the given arguments as body.
#[derive(Debug)]
pub struct RpcBuilder {
    pub url: String,
    pub headers: HeaderSet,
    pub args: String,
}

impl RpcBuilder {
    /// Renders the call: one POST request with the arguments as body.
    pub fn render(self) -> (r: Request)
        ensures
            r.method == Method::Post,
            r.url@ == self.url@,
            r.headers.view_of() == self.headers.view_of(),
            match r.body {
                Some(b) => b@ == self.args@,
                None => false,
            },
            r.expect_single == false,
    {
        Request {
            method: Method::Post,
            url: self.url,
            headers: self.headers,
            body: Some(self.args),
            expect_single: false,
        }
    }
}

fn clone_string(s: &String) -> (r: String)
    ensures
        r@ == s@,
{
    s.clone()
}

/// A handle for the realtime subsystem: the resolved realtime URL, the
/// topic, and the shared headers. The socket protocol itself lives
/// outside this library.
#[derive(Debug)]
pub struct RealtimeChannelHandle {
    pub url: String,
    pub topic: String,
    pub headers: HeaderSet,
}

/// The top-level client: one base URL and API key, resolved once; every
/// builder it hands out carries a snapshot of the same header set.
#[derive(Debug)]
pub struct SupabaseClient {
    pub services: ServiceUrls,
    pub headers: HeaderSet,
    pub schema: String,
}

impl SupabaseClient {
    /// Builds a client from a base platform URL and an API key.
    ///
    /// Fails with `InvalidUrl` where the URL does not resolve, else with
    /// `InvalidCredential` where the key is empty. On success the five
    /// service URLs are derived from the base, the header set holds
    /// exactly the two credential entries, and the default schema is
    /// `public`.
    pub fn new(supabase_url: &str, supabase_key: &str) -> (r: Result<Self, ClientError>)
        ensures
            r is Ok <==> url_ok(supabase_url@) && supabase_key@.len() > 0,
            !url_ok(supabase_url@) ==> r->Err_0 is InvalidUrl,
            url_ok(supabase_url@) && supabase_key@.len() == 0 ==> r->Err_0 is InvalidCredential,
            r is Ok ==> ({
                let c = r->Ok_0;
                &&& c.services.derived_from(supabase_url@)
                &&& c.headers.view_of() == seq![
                    ("Authorization"@, "Bearer "@ + supabase_key@),
                    ("apikey"@, supabase_key@),
                ]
                &&& c.schema@ == "public"@
            }),
    {
        let services = match resolve(supabase_url) {
            Ok(s) => s,
            Err(e) => {
                return Err(e);
            },
        };
        let headers = match HeaderSet::build(supabase_key) {
            Ok(h) => h,
            Err(e) => {
                return Err(e);
            },
        };
        Ok(SupabaseClient { services, headers, schema: "public".to_owned() })
    }

    /// A fresh builder for one relation, scoped to the REST service URL,
    /// a snapshot of the client's headers, and the client's current
    /// default schema.
    pub fn from(&self, relation: &str) -> (r: PostgrestQueryBuilder)
        requires
            is_ident(relation@),
            is_ident(self.schema@),
        ensures
            r.relation@ == relation@,
            r.schema@ == self.schema@,
            r.base_url@ == self.services.rest@,
            r.headers.view_of() == self.headers.view_of(),
            r.select_cols is None,
            r.filters@ == Seq::<crate::query::FilterClause>::empty(),
            r.orderings@ == Seq::<crate::query::OrderTerm>::empty(),
            r.row_range is None,
            !r.single_row,
            r.count is None,
            !r.head_only,
    {
        PostgrestQueryBuilder::new(
            relation.to_owned(),
            clone_string(&self.schema),
            clone_string(&self.services.rest),
            self.headers.duplicate(),
        )
    }

    /// A client view whose builders use `name` as their schema. Builders
    /// already created are unaffected.
    pub fn schema(&self, name: String) -> (r: Self)
        requires
            is_ident(name@),
        ensures
            r.services.rest@ == self.services.rest@,
            r.services.auth@ == self.services.auth@,
            r.services.realtime@ == self.services.realtime@,
            r.services.storage@ == self.services.storage@,
            r.services.functions@ == self.services.functions@,
            r.headers.view_of() == self.headers.view_of(),
            r.schema == name,
    {
        SupabaseClient {
            services: ServiceUrls {
                rest: clone_string(&self.services.rest),
                auth: clone_string(&self.services.auth),
                realtime: clone_string(&self.services.realtime),
                storage: clone_string(&self.services.storage),
                functions: clone_string(&self.services.functions),
            },
            headers: self.headers.duplicate(),
            schema: name,
        }
    }

    /// A terminal builder for one stored-procedure call: its URL is the
    /// REST base, `/rpc/`, and the procedure's name.
    pub fn rpc(&self, name: &str, args: String) -> (r: RpcBuilder)
        requires
            is_ident(name@),
        ensures
            r.url@ == self.services.rest@ + "/rpc/"@ + name@,
            r.headers.view_of() == self.headers.view_of(),
            r.args == args,
    {
        let mut url = clone_string(&self.services.rest);
        url.append("/rpc/");
        url.append(name);
        proof {
            assert(url@ =~= self.services.rest@ + "/rpc/"@ + name@);
        }
        RpcBuilder { url, headers: self.headers.duplicate(), args }
    }

    /// A handle for one realtime channel: the resolved realtime URL, the
    /// topic, and a snapshot of the headers. The socket protocol is the
    /// realtime subsystem's affair.
    pub fn channel(&self, topic: String) -> (r: RealtimeChannelHandle)
        ensures
            r.url@ == self.services.realtime@,
            r.topic == topic,
            r.headers.view_of() == self.headers.view_of(),
    {
        RealtimeChannelHandle {
            url: clone_string(&self.services.realtime),
            topic,
            headers: self.headers.duplicate(),
        }
    }
}

} // verus!
