//! The statement client: a base URL and the header state that every statement
//! starts from. It prepares the request that submits a statement.
use vstd::prelude::*;
use crate::headers::{wire, Headers, HeadersModel};
use crate::request::{header_pairs_view, Method, Request};
use crate::text::{ascii_lower, is_visible};
use crate::headers::HeaderKey;
use crate::Fork;

verus! {

/// The path, under the base URL, to which statements are posted.
pub open spec fn statement_path() -> Seq<char> {
    "/v1/statement"@
}

pub struct PrestinoClient {
    base_url: String,
    headers: Headers,
}

impl PrestinoClient {
    pub closed spec fn spec_base_url(&self) -> Seq<char> {
        self.base_url@
    }

    pub closed spec fn spec_headers(&self) -> HeadersModel {
        self.headers@
    }

    pub closed spec fn wf(&self) -> bool {
        self.headers.wf()
    }

    /// A Presto client with no headers set.
    pub fn presto(base_url: &str) -> (r: Self)
        ensures
            r.wf(),
            r.spec_base_url() == base_url@,
            r.spec_headers() == HeadersModel::empty(Fork::Presto),
    {
        Self::with_headers(base_url, Headers::presto())
    }

    /// A Trino client with no headers set.
    pub fn trino(base_url: &str) -> (r: Self)
        ensures
            r.wf(),
            r.spec_base_url() == base_url@,
            r.spec_headers() == HeadersModel::empty(Fork::Trino),
    {
        Self::with_headers(base_url, Headers::trino())
    }

    /// A client with these headers; their fork is the client's fork.
    pub fn with_headers(base_url: &str, headers: Headers) -> (r: Self)
        requires
            headers.wf(),
        ensures
            r.wf(),
            r.spec_base_url() == base_url@,
            r.spec_headers() == headers@,
    {
        PrestinoClient { base_url: base_url.to_owned(), headers }
    }

    pub fn headers(&self) -> (r: &Headers)
        ensures
            r@ == self.spec_headers(),
            self.wf() ==> r.wf(),
    {
        &self.headers
    }

    /// Set the user header; a user name that is not visible ASCII is ignored.
    pub fn user(self, user: &str) -> (r: Self)
        requires
            self.wf(),
        ensures
            r.wf(),
            r.spec_base_url() == self.spec_base_url(),
            is_visible(user@) ==> r.spec_headers() == self.spec_headers().with_field(
                HeaderKey::User,
                ascii_lower(user@),
            ),
            !is_visible(user@) ==> r.spec_headers() == self.spec_headers(),
    {
        let mut c = self;
        let _ = c.headers.set_user(user);
        c
    }

    /// `{base_url}/v1/statement`.
    pub fn statement_uri(&self) -> (r: String)
        ensures
            r@ == self.spec_base_url() + statement_path(),
    {
        let mut r = self.base_url.clone();
        r.append("/v1/statement");
        r
    }

    /// Prepare a statement with header overrides: the client's headers with
    /// `headers` merged over them (last writer wins), and the POST of the
    /// statement text to the statement URI with those headers. The merged
    /// headers go on to the executor of the statement.
    pub fn execute_with_headers(&self, statement: &str, headers: &Headers) -> (r: (Request, Headers))
        requires
            self.wf(),
            headers.wf(),
            headers@.fork == self.spec_headers().fork,
        ensures
            r.1.wf(),
            r.1@ == self.spec_headers().merged(headers@),
            r.0.method == Method::Post,
            r.0.uri@ == self.spec_base_url() + statement_path(),
            header_pairs_view(r.0.headers@) == wire(r.1@),
            r.0.body matches Some(b) && b@ == statement@,
    {
        let mut connection_headers = self.headers.new_with_fork();
        connection_headers.update(&self.headers);
        proof {
            let e = HeadersModel::empty(self.headers@.fork);
            assert(e.merged(self.headers@).fields =~= self.headers@.fields);
            assert(e.merged(self.headers@).session =~= self.headers@.session);
        }
        connection_headers.update(headers);
        let request = Request {
            method: Method::Post,
            uri: self.statement_uri(),
            headers: connection_headers.get_headers(),
            body: Some(statement.to_owned()),
        };
        (request, connection_headers)
    }

    /// Prepare a statement with the client's headers alone.
    pub fn execute(&self, statement: &str) -> (r: (Request, Headers))
        requires
            self.wf(),
        ensures
            r.1.wf(),
            r.1@ == self.spec_headers(),
            r.0.method == Method::Post,
            r.0.uri@ == self.spec_base_url() + statement_path(),
            header_pairs_view(r.0.headers@) == wire(r.1@),
            r.0.body matches Some(b) && b@ == statement@,
    {
        let overrides = self.headers.new_with_fork();
        let r = self.execute_with_headers(statement, &overrides);
        proof {
            let m = self.headers@;
            assert(m.merged(HeadersModel::empty(m.fork)).fields =~= m.fields);
            assert(m.merged(HeadersModel::empty(m.fork)).session =~= m.session);
        }
        r
    }
}

} // verus!
