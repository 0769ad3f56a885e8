//! The registry catalog request, and how its response becomes either the
//! repository list or a fetch error.
use vstd::prelude::*;

verus! {

/// The body of a registry's catalog response: `{"repositories": [...]}`.
#[derive(Clone, Debug, PartialEq, Eq)]
pub struct RegistryCatalog {
    pub repositories: Vec<String>,
}

/// One entry of the catalog list.
#[derive(Debug, PartialEq, Eq)]
pub struct Image {
    /// The repository name, which is also the key of its detail view.
    pub name: String,
    /// A short description; the catalog endpoint gives none, so it starts empty.
    pub body: String,
}

/// Why a catalog fetch failed.
#[derive(Debug, PartialEq, Eq)]
pub enum FetchError {
    /// The request did not complete (DNS, connection, TLS), with the reason.
    Transport(String),
    /// The registry answered with a status outside `200..=299`.
    HttpStatus(u16),
    /// The body is not a catalog document, with the reason.
    Decode(String),
}

pub enum FetchErrorView {
    Transport(Seq<char>),
    HttpStatus(u16),
    Decode(Seq<char>),
}

impl View for FetchError {
    type V = FetchErrorView;

    open spec fn view(&self) -> FetchErrorView {
        match self {
            FetchError::Transport(d) => FetchErrorView::Transport(d@),
            FetchError::HttpStatus(s) => FetchErrorView::HttpStatus(*s),
            FetchError::Decode(d) => FetchErrorView::Decode(d@),
        }
    }
}

pub open spec fn catalog_path() -> Seq<char> {
    seq!['/', 'v', '2', '/', '_', 'c', 'a', 't', 'a', 'l', 'o', 'g']
}

pub open spec fn transport_prefix() -> Seq<char> {
    "could not reach the registry: "@
}

pub open spec fn status_message() -> Seq<char> {
    "the registry answered with an error status"@
}

pub open spec fn decode_prefix() -> Seq<char> {
    "the catalog response is malformed: "@
}

/// The diagnostic text shown for a fetch error.
pub open spec fn error_message(e: FetchErrorView) -> Seq<char> {
    match e {
        FetchErrorView::Transport(d) => transport_prefix() + d,
        FetchErrorView::HttpStatus(_) => status_message(),
        FetchErrorView::Decode(d) => decode_prefix() + d,
    }
}

pub open spec fn is_success_status(status: u16) -> bool {
    200 <= status <= 299
}

/// What a response with `status` and a body decoded to `body` yields: a
/// failing status wins over any body, then a body that is not a catalog.
pub open spec fn outcome_of(
    status: u16,
    body: Result<Seq<Seq<char>>, Seq<char>>,
) -> Result<Seq<Seq<char>>, FetchErrorView> {
    if !is_success_status(status) {
        Err(FetchErrorView::HttpStatus(status))
    } else {
        match body {
            Ok(repos) => Ok(repos),
            Err(d) => Err(FetchErrorView::Decode(d)),
        }
    }
}

pub open spec fn body_view(body: &Result<RegistryCatalog, String>) -> Result<Seq<Seq<char>>, Seq<char>> {
    match body {
        Ok(c) => Ok(c.repositories.deep_view()),
        Err(d) => Err(d@),
    }
}

pub open spec fn outcome_view(r: &Result<Vec<String>, FetchError>) -> Result<Seq<Seq<char>>, FetchErrorView> {
    match r {
        Ok(v) => Ok(v.deep_view()),
        Err(e) => Err(e@),
    }
}

/// Every error message is non-empty, whatever detail it carries.
pub proof fn lemma_error_message_nonempty(e: FetchErrorView)
    ensures
        error_message(e).len() > 0,
{
    reveal_strlit("could not reach the registry: ");
    reveal_strlit("the registry answered with an error status");
    reveal_strlit("the catalog response is malformed: ");
}

impl FetchError {
    /// The diagnostic text for this error.
    pub fn message(&self) -> (r: String)
        ensures
            r@ == error_message(self@),
            r@.len() > 0,
    {
        proof {
            lemma_error_message_nonempty(self@);
        }
        match self {
            FetchError::Transport(d) => {
                let mut r = String::from_str("could not reach the registry: ");
                r.append(d.as_str());
                r
            },
            FetchError::HttpStatus(_) => String::from_str("the registry answered with an error status"),
            FetchError::Decode(d) => {
                let mut r = String::from_str("the catalog response is malformed: ");
                r.append(d.as_str());
                r
            },
        }
    }
}

impl Image {
    /// The catalog entry for the repository `name`.
    pub fn new(name: String) -> (r: Image)
        ensures
            r.name@ == name@,
            r.body@ == Seq::<char>::empty(),
    {
        Image { name, body: String::new() }
    }
}

/// The URL of the catalog request for the registry at `base_url`: the fixed
/// catalog path `/v2/_catalog` appended to it.
pub fn get_image_list(base_url: &str) -> (r: String)
    ensures
        r@ == base_url@ + catalog_path(),
{
    proof {
        reveal_strlit("/v2/_catalog");
    }
    let mut r = String::from_str(base_url);
    r.append("/v2/_catalog");
    assert("/v2/_catalog"@ =~= catalog_path());
    r
}

/// Classifies a completed response: a status outside `200..=299` is an
/// error whatever the body holds; otherwise the decoded repositories, in the
/// order the registry gave them, or the reason the body did not decode.
pub fn classify_response(status: u16, body: Result<RegistryCatalog, String>) -> (r: Result<
    Vec<String>,
    FetchError,
>)
    ensures
        outcome_view(&r) == outcome_of(status, body_view(&body)),
{
    if status < 200 || status > 299 {
        Err(FetchError::HttpStatus(status))
    } else {
        match body {
            Ok(catalog) => Ok(catalog.repositories),
            Err(d) => Err(FetchError::Decode(d)),
        }
    }
}

/// A response with a failing status never yields repositories.
pub proof fn lemma_failing_status_fails(status: u16, body: Result<Seq<Seq<char>>, Seq<char>>)
    requires
        !is_success_status(status),
    ensures
        outcome_of(status, body) == Err::<Seq<Seq<char>>, FetchErrorView>(FetchErrorView::HttpStatus(status)),
        !(outcome_of(status, body) is Ok),
{
}

/// A successful response whose body is a catalog yields exactly its
/// repositories, in the order given.
pub proof fn lemma_catalog_body_succeeds(status: u16, repos: Seq<Seq<char>>)
    requires
        is_success_status(status),
    ensures
        outcome_of(status, Ok(repos)) == Ok::<Seq<Seq<char>>, FetchErrorView>(repos),
{
}

} // verus!
