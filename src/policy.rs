//! The rule by which the answers of several servers settle one request.
use vstd::prelude::*;

use crate::http_client::HttpClientError;
use crate::http_client::status_text;

verus! {

impl HttpClientError {
    /// The server reported that it does not have the item (status 404).
    pub open spec fn is_not_found(&self) -> bool {
        self matches HttpClientError::StatusCode(code) && code == 404
    }

    /// The server answered with an error status other than 404.
    pub open spec fn is_server_error(&self) -> bool {
        self matches HttpClientError::StatusCode(code) && code != 404
    }

    /// The request could not be made or completed.
    pub open spec fn is_issue(&self) -> bool {
        !(self is StatusCode)
    }
}

/// The index of the first element of `s` that satisfies `p`, or `s.len()`
/// where none does.
pub open spec fn first_index<T>(s: Seq<T>, p: spec_fn(T) -> bool) -> int
    decreases s.len(),
{
    if s.len() == 0 {
        0
    } else if p(s[0]) {
        0
    } else {
        1 + first_index(s.drop_first(), p)
    }
}

/// An answer with data.
pub open spec fn found<B>() -> spec_fn(Result<B, HttpClientError>) -> bool {
    |a: Result<B, HttpClientError>| a is Ok
}

/// An answer with an error status other than 404.
pub open spec fn server_failed<B>() -> spec_fn(Result<B, HttpClientError>) -> bool {
    |a: Result<B, HttpClientError>| a matches Err(e) && e.is_server_error()
}

/// A request that could not be made or completed.
pub open spec fn request_failed<B>() -> spec_fn(Result<B, HttpClientError>) -> bool {
    |a: Result<B, HttpClientError>| a matches Err(e) && e.is_issue()
}

/// The first server that handed back data.
pub open spec fn first_found<B>(answers: Seq<Result<B, HttpClientError>>) -> int {
    first_index(answers, found())
}

/// The first server that answered with an error status other than 404.
pub open spec fn first_server_error<B>(answers: Seq<Result<B, HttpClientError>>) -> int {
    first_index(answers, server_failed())
}

/// The first server that could not be asked.
pub open spec fn first_issue<B>(answers: Seq<Result<B, HttpClientError>>) -> int {
    first_index(answers, request_failed())
}

/// How a request settles, given every server's answer in rank order.
pub enum Verdict {
    /// The data of the server at this index, the first that had it.
    Found(int),
    /// Every server reported that it does not have the item.
    NotFound,
    /// No server had the data; the first error status came from this index.
    ServerError(int),
    /// No server had the data or answered with an error status; the first
    /// request that failed went to this index.
    Issue(int),
}

/// The first success wins; without one, an error status outranks a failed
/// request, the first of each kind counts, and not-found is no error.
pub open spec fn verdict<B>(answers: Seq<Result<B, HttpClientError>>) -> Verdict {
    if first_found(answers) < answers.len() {
        Verdict::Found(first_found(answers))
    } else if first_server_error(answers) < answers.len() {
        Verdict::ServerError(first_server_error(answers))
    } else if first_issue(answers) < answers.len() {
        Verdict::Issue(first_issue(answers))
    } else {
        Verdict::NotFound
    }
}

/// Why fetching the debug info of a build id failed.
#[derive(Debug)]
pub enum FetchError {
    /// A server answered with an error status other than 404.
    Status {
        /// The build id, as hex text.
        build_id: String,
        /// The URL that was asked.
        url: String,
        /// The status code.
        status: u16,
    },
    /// A request could not be made or completed.
    Request {
        /// The build id, as hex text.
        build_id: String,
        /// The URL that was asked.
        url: String,
        /// What went wrong.
        cause: HttpClientError,
    },
}

impl FetchError {
    /// Whether this error reports the failed answer `err` to the request of
    /// `url` for the build id `build_id`.
    pub open spec fn describes(&self, build_id: Seq<char>, url: Seq<char>, err: HttpClientError) -> bool {
        match self {
            FetchError::Status { build_id: b, url: u, status } => {
                &&& b@ == build_id
                &&& u@ == url
                &&& err == HttpClientError::StatusCode(*status)
            },
            FetchError::Request { build_id: b, url: u, cause } => {
                &&& b@ == build_id
                &&& u@ == url
                &&& *cause == err
                &&& err.is_issue()
            },
        }
    }

    /// The innermost cause of this error, as text.
    pub open spec fn root_cause_text(&self) -> Seq<char> {
        match self {
            FetchError::Status { status, .. } => status_text(*status),
            FetchError::Request { cause, .. } => cause.text(),
        }
    }

    /// Describes the innermost cause of this error.
    pub fn root_cause(&self) -> (r: String)
        ensures
            r@ == self.root_cause_text(),
    {
        match self {
            FetchError::Status { status, .. } => crate::http_client::describe_status(*status),
            FetchError::Request { cause, .. } => cause.describe(),
        }
    }
}

/// The errors met while servers are asked in turn: the first error status
/// and the first failed request.
#[derive(Debug)]
pub struct Tally {
    /// The first answer with an error status other than 404.
    pub server_error: Option<FetchError>,
    /// The first request that could not be made or completed.
    pub issue_error: Option<FetchError>,
}

impl Tally {
    /// A tally with no error in it.
    pub fn new() -> (r: Tally)
        ensures
            r.server_error is None,
            r.issue_error is None,
    {
        Tally { server_error: None, issue_error: None }
    }

    /// Records the failed answer `err` to the request of `url` for the build
    /// id `build_id`. A not-found answer is no error, and only the first
    /// error of each kind is kept.
    pub fn record(&mut self, build_id: &str, url: &str, err: HttpClientError)
        ensures
            (err.is_server_error() && old(self).server_error is None) ==> (final(self).server_error matches Some(e)
                && e.describes(build_id@, url@, err)),
            !(err.is_server_error() && old(self).server_error is None)
                ==> final(self).server_error == old(self).server_error,
            (err.is_issue() && old(self).issue_error is None) ==> (final(self).issue_error matches Some(e)
                && e.describes(build_id@, url@, err)),
            !(err.is_issue() && old(self).issue_error is None)
                ==> final(self).issue_error == old(self).issue_error,
    {
        match err {
            HttpClientError::StatusCode(status) => {
                if status != 404 && self.server_error.is_none() {
                    self.server_error = Some(
                        FetchError::Status {
                            build_id: build_id.to_owned(),
                            url: url.to_owned(),
                            status,
                        },
                    );
                }
            },
            cause => {
                if self.issue_error.is_none() {
                    self.issue_error = Some(
                        FetchError::Request {
                            build_id: build_id.to_owned(),
                            url: url.to_owned(),
                            cause,
                        },
                    );
                }
            },
        }
    }

    /// The error to report once every server failed: the first error status
    /// if there was one, else the first failed request, else none (every
    /// server reported not-found).
    pub fn into_error(self) -> (r: Option<FetchError>)
        ensures
            r == if self.server_error is Some {
                self.server_error
            } else {
                self.issue_error
            },
    {
        match self.server_error {
            Some(e) => Some(e),
            None => self.issue_error,
        }
    }
}

/// `first_index` lies within the sequence or just past it; nothing before
/// it satisfies `p`, and the element there does.
pub proof fn lemma_first_index_bounds<T>(s: Seq<T>, p: spec_fn(T) -> bool)
    ensures
        0 <= first_index(s, p) <= s.len(),
        forall|j: int| 0 <= j < first_index(s, p) ==> !p(#[trigger] s[j]),
        first_index(s, p) < s.len() ==> p(s[first_index(s, p)]),
    decreases s.len(),
{
    if s.len() > 0 && !p(s[0]) {
        lemma_first_index_bounds(s.drop_first(), p);
        assert forall|j: int| 0 <= j < first_index(s, p) implies !p(#[trigger] s[j]) by {
            if j > 0 {
                assert(s[j] == s.drop_first()[j - 1]);
            }
        }
    }
}

/// An index before which nothing satisfies `p`, and where the element
/// satisfies `p` or the sequence ends, is `first_index`.
pub proof fn lemma_first_index_is<T>(s: Seq<T>, p: spec_fn(T) -> bool, k: int)
    requires
        0 <= k <= s.len(),
        forall|j: int| 0 <= j < k ==> !p(#[trigger] s[j]),
        k < s.len() ==> p(s[k]),
    ensures
        first_index(s, p) == k,
    decreases s.len(),
{
    if s.len() > 0 && k > 0 {
        assert(!p(s[0]));
        assert forall|j: int| 0 <= j < k - 1 implies !p(#[trigger] s.drop_first()[j]) by {
            assert(s.drop_first()[j] == s[j + 1]);
        }
        lemma_first_index_is(s.drop_first(), p, k - 1);
    }
}

/// How `first_index` changes when an element is appended.
pub proof fn lemma_first_index_push<T>(s: Seq<T>, p: spec_fn(T) -> bool, x: T)
    ensures
        first_index(s.push(x), p) == if first_index(s, p) < s.len() {
            first_index(s, p)
        } else if p(x) {
            s.len() as int
        } else {
            s.len() + 1int
        },
{
    lemma_first_index_bounds(s, p);
    let t = s.push(x);
    let k = if first_index(s, p) < s.len() {
        first_index(s, p)
    } else if p(x) {
        s.len() as int
    } else {
        s.len() + 1int
    };
    assert forall|j: int| 0 <= j < k implies !p(#[trigger] t[j]) by {
        if j < s.len() {
            assert(t[j] == s[j]);
        }
    }
    lemma_first_index_is(t, p, k);
}

} // verus!
