//! The statement executor: the state machine that follows a statement's
//! continuation links. It decides what to request next and what to make of
//! each answer; its caller sends the requests and keeps the time.
use vstd::prelude::*;
use crate::error::PrestinoError;
use crate::headers::{wire, Headers, HeadersModel};
use crate::request::{header_pairs_view, parse_response, apply_response_headers, Method, Request, STATUS_OK};
use crate::results::{Column, QueryError, QueryResults, QueryStats};

verus! {

/// How long to wait, in milliseconds, after the server signals "nothing yet".
pub const BACKOFF_MILLIS: u64 = 100;

/// The earliest time of the next request after a backoff signal at `now`.
pub open spec fn backoff_deadline(now: u64) -> u64 {
    if now <= u64::MAX - BACKOFF_MILLIS {
        (now + BACKOFF_MILLIS) as u64
    } else {
        u64::MAX
    }
}

pub open spec fn opt_str_view(o: Option<String>) -> Option<Seq<char>> {
    match o {
        Some(s) => Some(s@),
        None => None,
    }
}

pub open spec fn opt_vec_view<T>(o: Option<Vec<T>>) -> Option<Seq<T>> {
    match o {
        Some(v) => Some(v@),
        None => None,
    }
}

/// What the executor asks of its caller at one step.
pub enum NextResponse<T> {
    /// One response's rows, possibly none.
    Rows(Vec<T>),
    /// The execution failed; this is the last item.
    Failed(PrestinoError),
    /// Send this request, not before the given time in milliseconds, and hand
    /// the outcome to `complete_fetch`.
    Fetch(Request, u64),
    /// The execution finished; there are no more items.
    End,
}

/// A statement in execution: the latest response, the header state of its
/// connection, and the time before which no request may be sent.
pub struct StatementExecutor<T> {
    id: String,
    headers: Headers,
    results: QueryResults<T>,
    next_run_time: u64,
}

impl<T> StatementExecutor<T> {
    pub closed spec fn spec_id(&self) -> Seq<char> {
        self.id@
    }

    pub closed spec fn spec_headers(&self) -> HeadersModel {
        self.headers@
    }

    /// The continuation link: present while there is more to fetch.
    pub closed spec fn spec_next_uri(&self) -> Option<Seq<char>> {
        opt_str_view(self.results.next_uri)
    }

    /// A server error not yet handed out.
    pub closed spec fn spec_error(&self) -> Option<QueryError> {
        self.results.error
    }

    /// Rows not yet handed out.
    pub closed spec fn spec_data(&self) -> Option<Seq<T>> {
        opt_vec_view(self.results.data)
    }

    pub closed spec fn spec_next_run_time(&self) -> u64 {
        self.next_run_time
    }

    pub closed spec fn spec_info_uri(&self) -> Seq<char> {
        self.results.info_uri@
    }

    pub closed spec fn spec_columns(&self) -> Option<Vec<Column>> {
        self.results.columns
    }

    pub closed spec fn spec_stats(&self) -> QueryStats {
        self.results.stats
    }

    pub closed spec fn wf(&self) -> bool {
        self.headers.wf()
    }

    /// The execution has ended: nothing buffered and no link to follow.
    pub open spec fn is_done(&self) -> bool {
        self.spec_error() is None && self.spec_data() is None && self.spec_next_uri() is None
    }

    /// The next step is a request to the continuation link.
    pub open spec fn is_polling(&self) -> bool {
        self.spec_error() is None && self.spec_data() is None && self.spec_next_uri() is Some
    }

    /// Wrap the first response of a statement, with the header state that
    /// sent it; requests may go out from `now` on.
    pub fn new(headers: Headers, results: QueryResults<T>, now: u64) -> (r: Self)
        requires
            headers.wf(),
        ensures
            r.wf(),
            r.spec_id() == results.id@,
            r.spec_headers() == headers@,
            r.spec_next_uri() == opt_str_view(results.next_uri),
            r.spec_error() == results.error,
            r.spec_data() == opt_vec_view(results.data),
            r.spec_stats() == results.stats,
            r.spec_info_uri() == results.info_uri@,
            r.spec_columns() == results.columns,
            r.spec_next_run_time() == now,
    {
        let id = results.id.clone();
        StatementExecutor { id, headers, results, next_run_time: now }
    }

    pub fn id(&self) -> (r: &str)
        ensures
            r@ == self.spec_id(),
    {
        self.id.as_str()
    }

    pub fn info_uri(&self) -> (r: &str)
        ensures
            r@ == self.spec_info_uri(),
    {
        self.results.info_uri.as_str()
    }

    pub fn columns(&self) -> (r: Option<&Vec<Column>>)
        ensures
            match self.spec_columns() {
                Some(c) => r == Some(&c),
                None => r is None,
            },
    {
        self.results.columns.as_ref()
    }

    pub fn stats(&self) -> (r: &QueryStats)
        ensures
            *r == self.spec_stats(),
    {
        &self.results.stats
    }

    pub fn headers(&self) -> (r: &Headers)
        ensures
            r@ == self.spec_headers(),
            self.wf() ==> r.wf(),
    {
        &self.headers
    }

    /// Whether the next step is a request (and `complete_fetch` is the step after it).
    pub fn is_polling_now(&self) -> (r: bool)
        ensures
            r == self.is_polling(),
    {
        self.results.error.is_none() && self.results.data.is_none() && self.results.next_uri.is_some()
    }

    fn bump_next_run_time(&mut self, now: u64)
        ensures
            final(self).spec_next_run_time() == backoff_deadline(now),
            final(self).id == old(self).id,
            final(self).headers == old(self).headers,
            final(self).results == old(self).results,
    {
        self.next_run_time = if now <= u64::MAX - BACKOFF_MILLIS {
            now + BACKOFF_MILLIS
        } else {
            u64::MAX
        };
    }

    /// The next step. A buffered server error comes first and ends the
    /// execution; then buffered rows; then, with no continuation link, the
    /// end; otherwise a GET of the continuation link with the current headers,
    /// not before the backoff deadline.
    pub fn next_response(&mut self) -> (r: NextResponse<T>)
        requires
            old(self).wf(),
        ensures
            final(self).wf(),
            final(self).spec_id() == old(self).spec_id(),
            final(self).spec_headers() == old(self).spec_headers(),
            final(self).spec_next_run_time() == old(self).spec_next_run_time(),
            final(self).spec_stats() == old(self).spec_stats(),
            match old(self).spec_error() {
                Some(e) => r == NextResponse::<T>::Failed(PrestinoError::QueryError(e))
                    && final(self).is_done(),
                None => match old(self).spec_data() {
                    Some(d) => (r matches NextResponse::Rows(rows) && rows@ == d)
                        && final(self).spec_data() is None
                        && final(self).spec_error() is None
                        && final(self).spec_next_uri() == old(self).spec_next_uri(),
                    None => match old(self).spec_next_uri() {
                        None => r is End && final(self).is_done(),
                        Some(u) => (r matches NextResponse::Fetch(req, t) && req.method == Method::Get
                            && req.uri@ == u && header_pairs_view(req.headers@) == wire(
                            old(self).spec_headers(),
                        ) && req.body is None && t == old(self).spec_next_run_time())
                            && final(self).is_polling()
                            && final(self).spec_next_uri() == old(self).spec_next_uri(),
                    },
                },
            },
    {
        if let Some(err) = self.results.error.take() {
            self.results.next_uri = None;
            self.results.data = None;
            return NextResponse::Failed(PrestinoError::QueryError(err));
        }
        if let Some(rows) = self.results.data.take() {
            return NextResponse::Rows(rows);
        }
        match &self.results.next_uri {
            None => NextResponse::End,
            Some(uri) => {
                let request = Request {
                    method: Method::Get,
                    uri: uri.clone(),
                    headers: self.headers.get_headers(),
                    body: None,
                };
                NextResponse::Fetch(request, self.next_run_time)
            },
        }
    }

    /// Check the answer to the continuation request: see `parse_response`.
    /// The response headers update this executor's header state.
    pub fn absorb_response(
        &mut self,
        status: u16,
        response_headers: &Vec<(String, String)>,
        body: String,
    ) -> (r: Result<String, PrestinoError>)
        requires
            old(self).wf(),
        ensures
            final(self).wf(),
            final(self).spec_id() == old(self).spec_id(),
            final(self).spec_next_uri() == old(self).spec_next_uri(),
            final(self).spec_error() == old(self).spec_error(),
            final(self).spec_data() == old(self).spec_data(),
            final(self).spec_next_run_time() == old(self).spec_next_run_time(),
            final(self).spec_stats() == old(self).spec_stats(),
            status != STATUS_OK ==> r == Err::<String, PrestinoError>(
                PrestinoError::StatusCodeError(status, body),
            ) && final(self).spec_headers() == old(self).spec_headers(),
            status == STATUS_OK ==> match apply_response_headers(
                old(self).spec_headers(),
                header_pairs_view(response_headers@),
            ) {
                Some(m) => r == Ok::<String, PrestinoError>(body) && final(self).spec_headers() == m,
                None => r == Err::<String, PrestinoError>(PrestinoError::HeaderParseError),
            },
    {
        parse_response(&mut self.headers, status, response_headers, body)
    }

    /// Take the outcome of the continuation request that `next_response` asked
    /// for, received at time `now`. Status 503 is no error: the same link is
    /// kept for a retry after the backoff and no rows are handed out. Any other
    /// error ends the execution with that error. A response that carries a
    /// server error ends it with that error. Otherwise the response replaces
    /// the current one and its rows are handed out; with no rows, or none
    /// present, the next request waits for the backoff.
    pub fn complete_fetch(&mut self, outcome: Result<QueryResults<T>, PrestinoError>, now: u64) -> (r:
        Result<Vec<T>, PrestinoError>)
        requires
            old(self).wf(),
            old(self).is_polling(),
        ensures
            final(self).wf(),
            final(self).spec_id() == old(self).spec_id(),
            final(self).spec_headers() == old(self).spec_headers(),
            match outcome {
                Err(e) => if e is StatusCodeError && e->StatusCodeError_0 == 503 {
                    (r matches Ok(rows) && rows@.len() == 0)
                        && final(self).spec_next_uri() == old(self).spec_next_uri()
                        && final(self).is_polling()
                        && final(self).spec_stats() == old(self).spec_stats()
                        && final(self).spec_next_run_time() == backoff_deadline(now)
                } else {
                    r == Err::<Vec<T>, PrestinoError>(e) && final(self).is_done()
                },
                Ok(q) => final(self).spec_stats() == q.stats && match q.error {
                    Some(qe) => r == Err::<Vec<T>, PrestinoError>(PrestinoError::QueryError(qe))
                        && final(self).is_done(),
                    None => final(self).spec_error() is None
                        && final(self).spec_data() is None
                        && final(self).spec_next_uri() == opt_str_view(q.next_uri)
                        && match q.data {
                        Some(d) => (r matches Ok(rows) && rows@ == d@)
                            && final(self).spec_next_run_time() == if d@.len() == 0 {
                            backoff_deadline(now)
                        } else {
                            old(self).spec_next_run_time()
                        },
                        None => (r matches Ok(rows) && rows@.len() == 0)
                            && final(self).spec_next_run_time() == backoff_deadline(now),
                    },
                },
            },
    {
        match outcome {
            Err(err) => {
                if err.is_overloaded() {
                    self.bump_next_run_time(now);
                    Ok(Vec::new())
                } else {
                    self.results.next_uri = None;
                    Err(err)
                }
            },
            Ok(results) => {
                self.results = results;
                if let Some(err) = self.results.error.take() {
                    self.results.next_uri = None;
                    self.results.data = None;
                    return Err(PrestinoError::QueryError(err));
                }
                match self.results.data.take() {
                    Some(rows) => {
                        if rows.len() == 0 {
                            self.bump_next_run_time(now);
                        }
                        Ok(rows)
                    },
                    None => {
                        self.bump_next_run_time(now);
                        Ok(Vec::new())
                    },
                }
            },
        }
    }

    /// Cancel the statement: the DELETE of the continuation link, with the
    /// current headers, for the caller to send. Once the execution has no
    /// continuation link it has finished, and cancelling fails with its id.
    pub fn cancel(self) -> (r: Result<Request, PrestinoError>)
        requires
            self.wf(),
        ensures
            match self.spec_next_uri() {
                None => r matches Err(PrestinoError::QueryFinishedError(id)) && id@ == self.spec_id(),
                Some(u) => r matches Ok(req) && req.method == Method::Delete && req.uri@ == u
                    && header_pairs_view(req.headers@) == wire(self.spec_headers()) && req.body is None,
            },
    {
        match &self.results.next_uri {
            None => Err(PrestinoError::QueryFinishedError(self.id.clone())),
            Some(uri) => Ok(
                Request {
                    method: Method::Delete,
                    uri: uri.clone(),
                    headers: self.headers.get_headers(),
                    body: None,
                },
            ),
        }
    }
}

} // verus!
