//! The client: asks debuginfod servers, in rank order, for the debug
//! information of a build id.
use url::ParseError;

use vstd::prelude::*;

use crate::buildid::BuildId;
use crate::http_client::HttpClient;
use crate::http_client::HttpClientError;
use crate::policy::first_found;
use crate::policy::first_index;
use crate::policy::first_issue;
use crate::policy::first_server_error;
use crate::policy::found;
use crate::policy::request_failed;
use crate::policy::server_failed;
use crate::policy::lemma_first_index_bounds;
use crate::policy::lemma_first_index_is;
use crate::policy::lemma_first_index_push;
use crate::policy::verdict;
use crate::policy::FetchError;
use crate::policy::Tally;
use crate::policy::Verdict;
use crate::server_url::parse_url;
use crate::server_url::parsed_url;
use crate::server_url::url_with_path;
use crate::server_url::with_path;
use crate::server_url::ServerUrl;
use crate::server_url::MAX_JOINED_CHARS;
use crate::text::trim_str;
use crate::text::trimmed;
use crate::util::split_env_var_contents;
use crate::util::url_entries;

verus! {

/// A successful response from a debuginfod server.
#[derive(Debug)]
pub struct Response<'url, R> {
    /// A reader for the data the server returned.
    pub data: R,
    /// The base URL of the server that had the debug info.
    pub server_url: &'url str,
}

impl<'url, R> Response<'url, R> {
    /// Creates a `Response`.
    pub fn new(data: R, server_url: &'url str) -> (r: Self)
        ensures
            r.data == data,
            r.server_url == server_url,
    {
        Response { data, server_url }
    }
}

/// The path that debuginfod serves the debug info of a build id under.
pub open spec fn request_path(hex: Seq<char>) -> Seq<char> {
    "buildid/"@ + hex + "/debuginfo"@
}

/// Whether a request URL can be formed from `base` for the build id `hex`.
pub open spec fn joinable(base: Seq<char>, hex: Seq<char>) -> bool {
    base.len() + request_path(hex).len() <= MAX_JOINED_CHARS
}

/// The URL asked for the build id `hex` at the server `base`: the base URL
/// with its path set, or the base URL itself where that cannot be formed.
pub open spec fn request_url(base: Seq<char>, hex: Seq<char>) -> Seq<char> {
    if joinable(base, hex) {
        url_with_path(base, request_path(hex))
    } else {
        base
    }
}

/// Why a request URL could not be formed.
pub open spec fn too_long_text() -> Seq<char> {
    "request URL too long"@
}

/// Whether the transport `http` can hand back `answer` to a GET request of
/// `url`.
pub open spec fn can_answer<C: HttpClient>(
    http: C,
    url: Seq<char>,
    answer: Result<C::Body, HttpClientError>,
) -> bool {
    exists|s: &str| s@ == url && #[trigger] call_ensures(C::get, (&http, s), answer)
}

/// Whether `answers` can stand for what the servers at `urls` answered,
/// through the transport `http`, for the build id `hex`: one answer per
/// server, and up to the first server with the data, an answer that the
/// transport can give to the server's request URL, or an invalid-URL answer
/// where no request URL could be formed.
pub open spec fn answers_fit<C: HttpClient>(
    http: C,
    hex: Seq<char>,
    urls: Seq<Seq<char>>,
    answers: Seq<Result<C::Body, HttpClientError>>,
) -> bool {
    &&& answers.len() == urls.len()
    &&& forall|i: int|
        0 <= i < answers.len() && i <= first_found(answers) ==> if joinable(urls[i], hex) {
            can_answer(http, request_url(urls[i], hex), #[trigger] answers[i])
        } else {
            answers[i] matches Err(HttpClientError::InvalidUrl(why)) && why@ == too_long_text()
        }
}

/// Whether `r` is what a fetch of the build id `hex` from the servers at
/// `urls` returns when they answer `answers`.
pub open spec fn settles<'a, B>(
    r: Result<Option<Response<'a, B>>, FetchError>,
    hex: Seq<char>,
    urls: Seq<Seq<char>>,
    answers: Seq<Result<B, HttpClientError>>,
) -> bool {
    match verdict(answers) {
        Verdict::Found(k) => r matches Ok(Some(resp)) && answers[k] == Ok::<B, HttpClientError>(
            resp.data,
        ) && resp.server_url@ == urls[k],
        Verdict::NotFound => r matches Ok(None),
        Verdict::ServerError(k) => r matches Err(e) && e.describes(
            hex,
            request_url(urls[k], hex),
            answers[k]->Err_0,
        ),
        Verdict::Issue(k) => r matches Err(e) && e.describes(
            hex,
            request_url(urls[k], hex),
            answers[k]->Err_0,
        ),
    }
}

/// A client for interacting with (one or more) debuginfod servers.
#[derive(Debug)]
pub struct Client<C> {
    /// The base URLs of the servers, in decreasing order of importance.
    base_urls: Vec<ServerUrl>,
    /// The transport that requests go through.
    client: C,
}

impl<C> Client<C> {
    #[verifier::type_invariant]
    spec fn inv(&self) -> bool {
        self.base_urls.len() > 0
    }

    /// The serializations of the servers' base URLs, in rank order.
    pub closed spec fn server_urls(&self) -> Seq<Seq<char>> {
        self.base_urls@.map_values(|u: ServerUrl| u@)
    }

    /// The transport that requests go through.
    pub closed spec fn http(&self) -> C {
        self.client
    }

}

impl Client<()> {
    /// Creates a new `ClientBuilder`.
    pub fn builder() -> (r: ClientBuilder<()>)
        ensures
            r.http() == (),
    {
        ClientBuilder { client: () }
    }
}

/// Returns the path that debuginfod serves the debug info of `hex` under.
fn request_path_of(hex: &str) -> (r: String)
    ensures
        r@ == request_path(hex@),
{
    let mut path = String::from_str("buildid/");
    path.append(hex);
    path.append("/debuginfo");
    path
}

impl<C: HttpClient> Client<C> {
    /// Whether `r` can be the result of fetching `build_id` through this
    /// client: the fetch rule applied to answers that the transport can give
    /// to the request URLs of the servers, in rank order.
    pub open spec fn fetches<'a>(
        &self,
        build_id: &BuildId,
        r: Result<Option<Response<'a, C::Body>>, FetchError>,
    ) -> bool {
        exists|answers: Seq<Result<C::Body, HttpClientError>>|
            answers_fit(self.http(), build_id.canonical_hex(), self.server_urls(), answers)
                && #[trigger] settles(r, build_id.canonical_hex(), self.server_urls(), answers)
    }

    /// Fetches the debug info for the given build id.
    ///
    /// The servers are asked in rank order, and the first that hands back
    /// data ends the search. If none does, the first error status other
    /// than 404 is reported, else the first request that failed, else (every
    /// server reported not-found) `Ok(None)` is returned.
    pub fn fetch_debug_info(&self, build_id: &BuildId) -> (r: Result<
        Option<Response<'_, C::Body>>,
        FetchError,
    >)
        ensures
            self.fetches(build_id, r),
    {
        let hex = build_id.to_string();
        let path = request_path_of(hex.as_str());
        let path_len = path.as_str().unicode_len();
        let n = self.base_urls.len();
        let ghost urls = self.server_urls();
        let ghost found_p = found::<C::Body>();
        let ghost server_p = server_failed::<C::Body>();
        let ghost issue_p = request_failed::<C::Body>();
        let mut tally = Tally::new();
        let ghost mut answers: Seq<Result<C::Body, HttpClientError>> = Seq::empty();
        let mut i: usize = 0;
        while i < n
            invariant
                n == self.base_urls@.len(),
                urls == self.server_urls(),
                urls.len() == n,
                found_p == found::<C::Body>(),
                server_p == server_failed::<C::Body>(),
                issue_p == request_failed::<C::Body>(),
                i <= n,
                answers.len() == i,
                hex@ == build_id.canonical_hex(),
                path@ == request_path(hex@),
                path_len == path@.len(),
                first_found(answers) == i,
                (tally.server_error is None) == (first_server_error(answers) == i),
                tally.server_error matches Some(e) ==> first_server_error(answers) < i && e.describes(
                    hex@,
                    request_url(urls[first_server_error(answers)], hex@),
                    answers[first_server_error(answers)]->Err_0,
                ),
                (tally.issue_error is None) == (first_issue(answers) == i),
                tally.issue_error matches Some(e) ==> first_issue(answers) < i && e.describes(
                    hex@,
                    request_url(urls[first_issue(answers)], hex@),
                    answers[first_issue(answers)]->Err_0,
                ),
                forall|j: int|
                    0 <= j < i ==> if joinable(urls[j], hex@) {
                        can_answer(self.http(), request_url(urls[j], hex@), #[trigger] answers[j])
                    } else {
                        answers[j] matches Err(HttpClientError::InvalidUrl(why)) && why@
                            == too_long_text()
                    },
            decreases n - i,
        {
            let base = &self.base_urls[i];
            assert(urls[i as int] == base@);
            let base_len = base.as_str().unicode_len();
            let url: String;
            let answer: Result<C::Body, HttpClientError>;
            if base_len <= MAX_JOINED_CHARS && path_len <= MAX_JOINED_CHARS - base_len {
                url = with_path(base, path.as_str());
                answer = self.client.get(url.as_str());
                assert(can_answer(self.http(), url@, answer));
            } else {
                url = base.as_str().to_owned();
                answer = Err(HttpClientError::InvalidUrl(String::from_str("request URL too long")));
            }
            assert(url@ == request_url(urls[i as int], hex@));
            let ghost a = answer;
            proof {
                lemma_first_index_bounds(answers, found_p);
                lemma_first_index_bounds(answers, server_p);
                lemma_first_index_bounds(answers, issue_p);
                lemma_first_index_push(answers, found_p, a);
                lemma_first_index_push(answers, server_p, a);
                lemma_first_index_push(answers, issue_p, a);
            }
            match answer {
                Ok(body) => {
                    let ghost pad = Seq::new(
                        (n - i - 1) as nat,
                        |j: int| Err::<C::Body, HttpClientError>(HttpClientError::StatusCode(404)),
                    );
                    let ghost all = answers.push(a) + pad;
                    let r = Ok(Some(Response::new(body, base.as_str())));
                    proof {
                        assert forall|j: int| 0 <= j < i implies !found_p(#[trigger] all[j]) by {
                            assert(all[j] == answers[j]);
                        }
                        assert(all[i as int] == a);
                        lemma_first_index_is(all, found_p, i as int);
                        assert(verdict(all) == Verdict::Found(i as int));
                        assert forall|j: int| 0 <= j < all.len() && j <= first_found(all) implies (if joinable(urls[j], hex@) {
                            can_answer(self.http(), request_url(urls[j], hex@), #[trigger] all[j])
                        } else {
                            all[j] matches Err(HttpClientError::InvalidUrl(why)) && why@ == too_long_text()
                        }) by {
                            assert(all[j] == answers.push(a)[j]);
                        }
                        assert(answers_fit(self.http(), hex@, urls, all));
                        assert(settles(r, hex@, urls, all));
                    }
                    return r;
                },
                Err(err) => {
                    tally.record(hex.as_str(), url.as_str(), err);
                },
            }
            proof {
                answers = answers.push(a);
            }
            i = i + 1;
        }
        proof {
            lemma_first_index_bounds(answers, server_p);
            lemma_first_index_bounds(answers, issue_p);
        }
        let r = match tally.into_error() {
            Some(e) => Err(e),
            None => Ok(None),
        };
        assert(settles(r, hex@, urls, answers));
        r
    }
}

proof fn lemma_answer_from<C: HttpClient>(
    http: C,
    url: Seq<char>,
    answer: Result<C::Body, HttpClientError>,
    p: spec_fn(Result<C::Body, HttpClientError>) -> bool,
)
    requires
        can_answer(http, url, answer),
        forall|s: &str, b: Result<C::Body, HttpClientError>|
            s@ == url && #[trigger] call_ensures(C::get, (&http, s), b) ==> p(b),
    ensures
        p(answer),
{
    let s = choose|s: &str| s@ == url && #[trigger] call_ensures(C::get, (&http, s), answer);
}

/// Whether the transport `http` answers every request with an error.
pub open spec fn never_succeeds<C: HttpClient>(http: C) -> bool {
    forall|s: &str, a: Result<C::Body, HttpClientError>|
        #[trigger] call_ensures(C::get, (&http, s), a) ==> a is Err
}

/// Whether every request URL of `client` for `build_id` can be formed.
pub open spec fn all_joinable<C>(client: Client<C>, build_id: BuildId) -> bool {
    forall|i: int|
        0 <= i < client.server_urls().len() ==> joinable(
            #[trigger] client.server_urls()[i],
            build_id.canonical_hex(),
        )
}

proof fn lemma_nothing_found<C: HttpClient>(
    client: &Client<C>,
    build_id: &BuildId,
    answers: Seq<Result<C::Body, HttpClientError>>,
)
    requires
        never_succeeds(client.http()),
        answers_fit(client.http(), build_id.canonical_hex(), client.server_urls(), answers),
    ensures
        first_found(answers) == answers.len(),
        forall|j: int| 0 <= j < answers.len() ==> #[trigger] answers[j] is Err,
{
    let hex = build_id.canonical_hex();
    let urls = client.server_urls();
    let f = first_found(answers);
    lemma_first_index_bounds(answers, found::<C::Body>());
    if f < answers.len() {
        if joinable(urls[f], hex) {
            lemma_answer_from(
                client.http(),
                request_url(urls[f], hex),
                answers[f],
                |b: Result<C::Body, HttpClientError>| b is Err,
            );
        }
    }
}

/// With a transport that reports not-found for every request, a fetch
/// returns "not found", never an error (where every request URL can be
/// formed).
pub proof fn lemma_fetch_all_not_found<'a, C: HttpClient>(
    client: &Client<C>,
    build_id: &BuildId,
    r: Result<Option<Response<'a, C::Body>>, FetchError>,
)
    requires
        client.fetches(build_id, r),
        forall|s: &str, a: Result<C::Body, HttpClientError>|
            #[trigger] call_ensures(C::get, (&client.http(), s), a) ==> (a matches Err(e)
                && e.is_not_found()),
        all_joinable(*client, *build_id),
    ensures
        r matches Ok(None),
{
    let hex = build_id.canonical_hex();
    let urls = client.server_urls();
    let answers = choose|answers: Seq<Result<C::Body, HttpClientError>>|
        answers_fit(client.http(), hex, urls, answers) && #[trigger] settles(r, hex, urls, answers);
    lemma_nothing_found(client, build_id, answers);
    let not_found = |b: Result<C::Body, HttpClientError>| b matches Err(e) && e.is_not_found();
    assert forall|j: int| 0 <= j < answers.len() implies not_found(#[trigger] answers[j]) by {
        assert(joinable(urls[j], hex));
        lemma_answer_from(client.http(), request_url(urls[j], hex), answers[j], not_found);
    }
    lemma_first_index_is(answers, server_failed::<C::Body>(), answers.len() as int);
    lemma_first_index_is(answers, request_failed::<C::Body>(), answers.len() as int);
}

/// With a transport that hands back data for the request URL of exactly
/// one server, wherever it stands in the list, a fetch returns data that
/// the transport gave for that URL, and names that server.
pub proof fn lemma_fetch_single_success<'a, C: HttpClient>(
    client: &Client<C>,
    build_id: &BuildId,
    r: Result<Option<Response<'a, C::Body>>, FetchError>,
    k: int,
)
    requires
        client.fetches(build_id, r),
        0 <= k < client.server_urls().len(),
        joinable(client.server_urls()[k], build_id.canonical_hex()),
        forall|j: int|
            0 <= j < client.server_urls().len() && j != k ==> request_url(
                #[trigger] client.server_urls()[j],
                build_id.canonical_hex(),
            ) != request_url(client.server_urls()[k], build_id.canonical_hex()),
        forall|s: &str, a: Result<C::Body, HttpClientError>|
            #[trigger] call_ensures(C::get, (&client.http(), s), a) ==> (a is Ok <==> s@
                == request_url(client.server_urls()[k], build_id.canonical_hex())),
    ensures
        r matches Ok(Some(resp)) && resp.server_url@ == client.server_urls()[k] && can_answer(
            client.http(),
            request_url(client.server_urls()[k], build_id.canonical_hex()),
            Ok(resp.data),
        ),
{
    let hex = build_id.canonical_hex();
    let urls = client.server_urls();
    let target = request_url(urls[k], hex);
    let answers = choose|answers: Seq<Result<C::Body, HttpClientError>>|
        answers_fit(client.http(), hex, urls, answers) && #[trigger] settles(r, hex, urls, answers);
    let f = first_found(answers);
    lemma_first_index_bounds(answers, found::<C::Body>());
    if f < k {
        if joinable(urls[f], hex) {
            let url_f = request_url(urls[f], hex);
            lemma_answer_from(
                client.http(),
                url_f,
                answers[f],
                |b: Result<C::Body, HttpClientError>| b is Err,
            );
        }
        assert(false);
    }
    lemma_answer_from(
        client.http(),
        target,
        answers[k],
        |b: Result<C::Body, HttpClientError>| b is Ok,
    );
    assert(f == k);
}

/// With a transport that never hands back data, where the request to one
/// server fails with an error status other than 404 and the requests to all
/// servers before it end otherwise (a failed request, say), a fetch reports
/// that error status: an error status outranks a failed request, even one
/// met earlier.
pub proof fn lemma_fetch_server_error_first<'a, C: HttpClient>(
    client: &Client<C>,
    build_id: &BuildId,
    r: Result<Option<Response<'a, C::Body>>, FetchError>,
    k: int,
)
    requires
        client.fetches(build_id, r),
        never_succeeds(client.http()),
        0 <= k < client.server_urls().len(),
        joinable(client.server_urls()[k], build_id.canonical_hex()),
        forall|s: &str, a: Result<C::Body, HttpClientError>|
            #[trigger] call_ensures(C::get, (&client.http(), s), a) && s@ == request_url(
                client.server_urls()[k],
                build_id.canonical_hex(),
            ) ==> (a matches Err(e) && e.is_server_error()),
        forall|j: int, s: &str, a: Result<C::Body, HttpClientError>|
            0 <= j < k && #[trigger] call_ensures(C::get, (&client.http(), s), a) && s@
                == request_url(#[trigger] client.server_urls()[j], build_id.canonical_hex())
                ==> !(a matches Err(e) && e.is_server_error()),
    ensures
        r matches Err(FetchError::Status { url, .. }) && url@ == request_url(
            client.server_urls()[k],
            build_id.canonical_hex(),
        ),
{
    let hex = build_id.canonical_hex();
    let urls = client.server_urls();
    let answers = choose|answers: Seq<Result<C::Body, HttpClientError>>|
        answers_fit(client.http(), hex, urls, answers) && #[trigger] settles(r, hex, urls, answers);
    lemma_nothing_found(client, build_id, answers);
    let server_p = server_failed::<C::Body>();
    assert forall|j: int| 0 <= j < k implies !server_p(#[trigger] answers[j]) by {
        if joinable(urls[j], hex) {
            lemma_answer_from(
                client.http(),
                request_url(urls[j], hex),
                answers[j],
                |b: Result<C::Body, HttpClientError>| !(b matches Err(e) && e.is_server_error()),
            );
        }
    }
    lemma_answer_from(client.http(), request_url(urls[k], hex), answers[k], server_p);
    lemma_first_index_is(answers, server_p, k);
}

/// Whether the URL list entry `u` is accepted as a URL once trimmed.
pub open spec fn parses(u: Seq<char>) -> bool {
    parsed_url(trimmed(u)) is Some
}

/// An entry that is not accepted as a URL.
pub open spec fn unparsable() -> spec_fn(Seq<char>) -> bool {
    |u: Seq<char>| !parses(u)
}

/// The first entry of `urls` that is not accepted as a URL, or `urls.len()`.
pub open spec fn first_unparsable(urls: Seq<Seq<char>>) -> int {
    first_index(urls, unparsable())
}

/// Why a list of base URLs was refused.
#[derive(Debug)]
pub struct BuildError {
    /// The entry that is not a URL, as given.
    pub url: String,
    /// Why the url crate refused it.
    pub cause: ParseError,
}

/// Whether `r` is what building a client on the transport `transport` from
/// the base URLs `urls` gives: the first entry that is not a URL is an
/// error, no entry at all is no client, and otherwise the client asks the
/// parsed URLs in the given order.
pub open spec fn builds<C>(
    r: Result<Option<Client<C>>, BuildError>,
    urls: Seq<Seq<char>>,
    transport: C,
) -> bool {
    match r {
        Err(e) => first_unparsable(urls) < urls.len() && e.url@ == urls[first_unparsable(urls)],
        Ok(None) => first_unparsable(urls) == urls.len() && urls.len() == 0,
        Ok(Some(c)) => {
            &&& first_unparsable(urls) == urls.len()
            &&& urls.len() > 0
            &&& c.server_urls() == urls.map_values(|u: Seq<char>| parsed_url(trimmed(u))->Some_0)
            &&& c.http() == transport
        },
    }
}

/// A builder for `Client` objects. Create via `Client::builder()`.
#[derive(Debug, Default)]
pub struct ClientBuilder<C = ()> {
    /// The transport that requests will go through.
    client: C,
}

impl<C> ClientBuilder<C> {
    /// The transport that requests will go through.
    pub closed spec fn http(&self) -> C {
        self.client
    }
}

impl ClientBuilder<()> {
    /// Sets the transport to use for requests.
    pub fn http_client<C: HttpClient>(self, client: C) -> (r: ClientBuilder<C>)
        ensures
            r.http() == client,
    {
        ClientBuilder { client }
    }
}

impl<C: HttpClient> ClientBuilder<C> {
    /// Builds a `Client` that asks the servers at `base_urls`, in decreasing
    /// order of importance. Each entry is trimmed of white space before it is
    /// parsed. `Ok(None)` is returned for an empty list, and an error for the
    /// first entry that is not a URL.
    pub fn build(self, base_urls: &[&str]) -> (r: Result<Option<Client<C>>, BuildError>)
        ensures
            builds(r, base_urls@.map_values(|u: &str| u@), self.http()),
    {
        let ghost urls = base_urls@.map_values(|u: &str| u@);
        let ghost bad_p = unparsable();
        let n = base_urls.len();
        let mut parsed: Vec<ServerUrl> = Vec::new();
        let mut i: usize = 0;
        while i < n
            invariant
                n == base_urls@.len(),
                urls == base_urls@.map_values(|u: &str| u@),
                bad_p == unparsable(),
                i <= n,
                parsed@.len() == i,
                forall|j: int| 0 <= j < i ==> parses(#[trigger] urls[j]),
                forall|j: int| 0 <= j < i ==> (#[trigger] parsed@[j])@ == parsed_url(trimmed(urls[j]))->Some_0,
            decreases n - i,
        {
            let entry: &str = base_urls[i];
            assert(urls[i as int] == entry@);
            match parse_url(trim_str(entry)) {
                Ok(u) => {
                    parsed.push(u);
                },
                Err(cause) => {
                    let r = Err(BuildError { url: entry.to_owned(), cause });
                    proof {
                        lemma_first_index_is(urls, bad_p, i as int);
                    }
                    assert(builds(r, urls, self.http()));
                    return r;
                },
            }
            i = i + 1;
        }
        proof {
            lemma_first_index_is(urls, bad_p, n as int);
        }
        if parsed.len() == 0 {
            let r = Ok(None);
            assert(builds(r, urls, self.http()));
            return r;
        }
        let c = Client { base_urls: parsed, client: self.client };
        assert(c.server_urls() == urls.map_values(|u: Seq<char>| parsed_url(trimmed(u))->Some_0));
        Ok(Some(c))
    }

    /// Builds a `Client` from a list of base URLs separated by commas or
    /// spaces, such as the contents of `DEBUGINFOD_URLS`.
    pub fn build_from_list(self, urls_str: &str) -> (r: Result<Option<Client<C>>, BuildError>)
        ensures
            builds(r, url_entries(urls_str@), self.http()),
    {
        let urls = split_env_var_contents(urls_str);
        self.build(urls.as_slice())
    }
}

} // verus!
