//! Resolution of draft revisions, remote URLs, and the text-then-hypertext
//! retrieval policy.
//!
//! Network exchanges happen outside the library: [`DocumentFetcher::fetch_begin`]
//! says what to ask for first, and [`DocumentFetcher::resolve_step`] and
//! [`DocumentFetcher::fetch_step`] decide what each answer means and what to ask next.
use vstd::prelude::*;

use crate::error::{Failure, RfcError};
use crate::model::{all_digits, canonical_name, decimal, push_decimal, DocumentId, DocumentType, Format};

verus! {

/// reqwest's `Client`, carried opaquely: the library builds it, and requests
/// are sent with it outside the library.
#[verifier::external_type_specification]
#[verifier::external_body]
pub struct ExClient(reqwest::Client);

pub const USER_AGENT: &'static str = "rfc-cli/0.1.0";

pub const TIMEOUT_SECS: u64 = 30;

/// Relies on reqwest's `ClientBuilder`: sets the user agent and the request
/// timeout, then builds the client; a build failure is reported by its message.
/// A built client comes back with the user agent and timeout it was configured with.
#[verifier::external_body]
fn build_client(user_agent: &str, timeout_secs: u64) -> (r: Result<
    (reqwest::Client, String, u64),
    String,
>)
    ensures
        r matches Ok(t) ==> t.1@ == user_agent@ && t.2 == timeout_secs,
{
    reqwest::Client::builder()
        .user_agent(user_agent)
        .timeout(std::time::Duration::from_secs(timeout_secs))
        .build()
        .map(|c| (c, user_agent.to_string(), timeout_secs))
        .map_err(|e| e.to_string())
}

/// The URL of the plain-text representation of a document.
pub open spec fn text_url_of(d: DocumentId) -> Seq<char> {
    match d {
        DocumentId::Published(n) => "https://www.rfc-editor.org/rfc/rfc"@ + decimal(n as nat)
            + ".txt"@,
        DocumentId::Draft(s) => "https://www.ietf.org/archive/id/"@ + s + ".txt"@,
    }
}

/// The URL of the hypertext representation of a document.
pub open spec fn html_url_of(d: DocumentId) -> Seq<char> {
    match d {
        DocumentId::Published(n) => "https://www.rfc-editor.org/rfc/rfc"@ + decimal(n as nat)
            + ".html"@,
        DocumentId::Draft(s) => "https://datatracker.ietf.org/doc/html/"@ + s,
    }
}

/// The metadata endpoint of a draft.
pub open spec fn metadata_url_of(name: Seq<char>) -> Seq<char> {
    "https://datatracker.ietf.org/doc/"@ + name + "/doc.json"@
}

/// The name ends in a dash followed by one or more ASCII digits.
pub open spec fn has_version_suffix_spec(s: Seq<char>) -> bool {
    exists|i: int| 0 <= i < s.len() - 1 && s[i] == '-' && #[trigger] all_digits(s.skip(i + 1))
}

/// A draft whose name names no specific revision.
pub open spec fn needs_resolution(d: DocumentId) -> bool {
    match d {
        DocumentId::Published(_) => false,
        DocumentId::Draft(s) => !has_version_suffix_spec(s),
    }
}

/// The outcome of resolving `doc` given what the metadata endpoint answered:
/// an identity that needs no resolution is kept, an unreachable or unreadable
/// endpoint means the metadata is unavailable, a non-success status means the
/// draft is not found, and a revision, if the answer has one, is appended.
pub open spec fn resolution(
    doc: DocumentType,
    reply: MetadataReply,
    r: Result<DocumentType, RfcError>,
) -> bool {
    if !needs_resolution(doc@) {
        r matches Ok(d) && d@ == doc@
    } else {
        match reply {
            MetadataReply::Unreachable(msg) => r == Err::<DocumentType, RfcError>(
                RfcError::MetadataUnavailable(msg),
            ),
            MetadataReply::Unreadable(msg) => r == Err::<DocumentType, RfcError>(
                RfcError::MetadataUnavailable(msg),
            ),
            MetadataReply::Rejected(_) => (r matches Err(RfcError::NotFound(name)) && name@
                == canonical_name(doc@)),
            MetadataReply::Info(None) => (r matches Ok(d) && d@ == doc@),
            MetadataReply::Info(Some(rev)) => (r matches Ok(d) && d@ == DocumentId::Draft(
                canonical_name(doc@) + "-"@ + rev@,
            )),
        }
    }
}

/// What the metadata endpoint answered for a draft.
#[derive(Debug, Clone)]
pub enum MetadataReply {
    /// The endpoint could not be reached.
    Unreachable(String),
    /// The endpoint answered with this non-success status.
    Rejected(u16),
    /// The answer's body could not be read or decoded.
    Unreadable(String),
    /// The answer decoded, with its revision field if it has one.
    Info(Option<String>),
}

/// Where a retrieval stands: which representation is awaited next.
#[derive(Debug)]
pub enum FetchState {
    /// The metadata of this unversioned draft was asked for.
    AwaitingMetadata(DocumentType),
    /// The plain-text representation of this (resolved) document was asked for.
    AwaitingText(DocumentType),
    /// The text retrieval failed as recorded; the hypertext one was asked for.
    AwaitingHtml(DocumentType, Failure),
    /// The outcome has been handed out.
    Finished,
}

/// What the caller is to do next.
#[derive(Debug)]
pub enum FetchAction {
    /// Ask the metadata endpoint at `url` for the draft's latest revision.
    Resolve { url: String },
    /// Retrieve `url`, which holds the document in `format`.
    Request { url: String, format: Format },
    /// The retrieval is over, with this outcome.
    Complete(Result<(String, Format), RfcError>),
}

/// One transition of the retrieval policy: text first, hypertext only after
/// the text retrieval failed, and an error naming both failures when both fail.
pub open spec fn fetch_transition(
    state: FetchState,
    outcome: Result<String, Failure>,
    next: FetchState,
    action: FetchAction,
) -> bool {
    match state {
        FetchState::AwaitingText(doc) => match outcome {
            Ok(content) => next is Finished && action == FetchAction::Complete(
                Ok((content, Format::Text)),
            ),
            Err(text_failure) => next == FetchState::AwaitingHtml(doc, text_failure) && (
            match action {
                FetchAction::Request { url, format } => format == Format::Html && url@
                    == html_url_of(doc@),
                _ => false,
            }),
        },
        FetchState::AwaitingHtml(_, text_failure) => next is Finished && match outcome {
            Ok(content) => action == FetchAction::Complete(Ok((content, Format::Html))),
            Err(html_failure) => action == FetchAction::Complete(
                Err(RfcError::FetchFailed { text: text_failure, html: html_failure }),
            ),
        },
        _ => false,
    }
}

/// The retrieval policy over a whole run: a successful text retrieval ends it
/// with text content and asks for nothing more; after a failed text retrieval
/// a successful hypertext one ends it with hypertext content; when both fail
/// the error carries both failures.
pub proof fn lemma_fallback_policy(
    doc: DocumentType,
    text: Result<String, Failure>,
    html: Result<String, Failure>,
    s1: FetchState,
    a1: FetchAction,
    s2: FetchState,
    a2: FetchAction,
)
    requires
        fetch_transition(FetchState::AwaitingText(doc), text, s1, a1),
        s1 is AwaitingHtml ==> fetch_transition(s1, html, s2, a2),
    ensures
        text matches Ok(content) ==> s1 is Finished && a1 == FetchAction::Complete(
            Ok((content, Format::Text)),
        ),
        text is Err ==> (a1 matches FetchAction::Request { url, format } && format == Format::Html
            && url@ == html_url_of(doc@)),
        html matches Ok(content) ==> (text is Err ==> s2 is Finished && a2
            == FetchAction::Complete(Ok((content, Format::Html)))),
        text matches Err(tf) ==> (html matches Err(hf) ==> s2 is Finished && a2
            == FetchAction::Complete(Err(RfcError::FetchFailed { text: tf, html: hf }))),
{
}

/// Client for retrieving documents over HTTP.
pub struct DocumentFetcher {
    client: reqwest::Client,
    user_agent: String,
    timeout_secs: u64,
}

impl DocumentFetcher {
    /// The user agent that the client sends with every request.
    pub closed spec fn sent_user_agent(&self) -> Seq<char> {
        self.user_agent@
    }

    /// The timeout, in seconds, that the client applies to every request.
    pub closed spec fn sent_timeout(&self) -> u64 {
        self.timeout_secs
    }

    /// Builds the HTTP client, with the library's version-bearing user agent
    /// and a fixed timeout; fails only when the client cannot be built.
    pub fn new() -> (r: Result<DocumentFetcher, RfcError>)
        ensures
            r matches Ok(f) ==> f.sent_user_agent() == USER_AGENT@ && f.sent_timeout()
                == TIMEOUT_SECS,
            r matches Err(e) ==> e is Config,
    {
        match build_client(USER_AGENT, TIMEOUT_SECS) {
            Ok((client, user_agent, timeout_secs)) => Ok(
                DocumentFetcher { client, user_agent, timeout_secs },
            ),
            Err(msg) => Err(RfcError::Config(msg)),
        }
    }

    /// The user agent that the client sends with every request.
    pub fn user_agent(&self) -> (r: &str)
        ensures
            r@ == self.sent_user_agent(),
    {
        self.user_agent.as_str()
    }

    /// The timeout, in seconds, that the client applies to every request.
    pub fn timeout_secs(&self) -> (r: u64)
        ensures
            r == self.sent_timeout(),
    {
        self.timeout_secs
    }

    /// The HTTP client that requests are to be sent with.
    pub fn client(&self) -> &reqwest::Client {
        &self.client
    }

    /// Whether a draft name ends in a dash followed by one or more ASCII digits.
    pub fn has_version_suffix(name: &str) -> (r: bool)
        ensures
            r == has_version_suffix_spec(name@),
    {
        let ghost s = name@;
        let len = name.unicode_len();
        let mut k: usize = len;
        let mut scanning = true;
        while scanning && k > 0
            invariant
                k <= len,
                len == s.len(),
                s == name@,
                all_digits(s.skip(k as int)),
                !scanning ==> k > 0 && !('0' <= s[k - 1] && s[k - 1] <= '9'),
            decreases k + if scanning { 1int } else { 0int },
        {
            let c = name.get_char(k - 1);
            if '0' <= c && c <= '9' {
                assert forall|j: int| 0 <= j < s.skip(k - 1).len() implies crate::model::is_digit(
                    #[trigger] s.skip(k - 1)[j],
                ) by {
                    if j > 0 {
                        assert(s.skip(k - 1)[j] == s.skip(k as int)[j - 1]);
                    }
                }
                k = k - 1;
            } else {
                scanning = false;
            }
        }
        let r = k >= 1 && k < len && name.get_char(k - 1) == '-';
        proof {
            if r {
                assert(all_digits(s.skip(k as int)));
                assert(s.skip((k - 1) + 1) == s.skip(k as int));
            } else if has_version_suffix_spec(s) {
                let i = choose|i: int|
                    0 <= i < s.len() - 1 && s[i] == '-' && #[trigger] all_digits(s.skip(i + 1));
                if i >= k {
                    assert(s.skip(k as int)[i - k] == s[i]);
                } else if i < k - 1 {
                    assert(s.skip(i + 1)[k - 1 - (i + 1)] == s[k - 1]);
                }
            }
        }
        r
    }

    /// The URL of the hypertext representation of a document.
    pub fn html_url(&self, doc: &DocumentType) -> (r: String)
        ensures
            r@ == html_url_of(doc@),
    {
        match doc {
            DocumentType::Rfc(num) => {
                let mut url = String::from_str("https://www.rfc-editor.org/rfc/rfc");
                push_decimal(&mut url, *num);
                url.append(".html");
                url
            },
            DocumentType::Draft(name) => {
                let mut url = String::from_str("https://datatracker.ietf.org/doc/html/");
                url.append(name.as_str());
                url
            },
        }
    }

    /// The URL of the plain-text representation of a document.
    pub fn text_url(&self, doc: &DocumentType) -> (r: String)
        ensures
            r@ == text_url_of(doc@),
    {
        match doc {
            DocumentType::Rfc(num) => {
                let mut url = String::from_str("https://www.rfc-editor.org/rfc/rfc");
                push_decimal(&mut url, *num);
                url.append(".txt");
                url
            },
            DocumentType::Draft(name) => {
                let mut url = String::from_str("https://www.ietf.org/archive/id/");
                url.append(name.as_str());
                url.append(".txt");
                url
            },
        }
    }

    /// The metadata URL to consult before `doc` can be retrieved, if its
    /// revision is still to be resolved.
    pub fn metadata_query(doc: &DocumentType) -> (r: Option<String>)
        ensures
            match r {
                Some(url) => needs_resolution(doc@) && url@ == metadata_url_of(canonical_name(doc@)),
                None => !needs_resolution(doc@),
            },
    {
        match doc {
            DocumentType::Rfc(_) => None,
            DocumentType::Draft(name) => {
                if Self::has_version_suffix(name.as_str()) {
                    None
                } else {
                    let mut url = String::from_str("https://datatracker.ietf.org/doc/");
                    url.append(name.as_str());
                    url.append("/doc.json");
                    Some(url)
                }
            },
        }
    }

    /// Resolves `doc` to a revision-qualified identity, given what the metadata
    /// endpoint answered (the answer is not looked at when `doc` needs no resolution).
    pub fn resolve_draft_version(doc: &DocumentType, reply: MetadataReply) -> (r: Result<
        DocumentType,
        RfcError,
    >)
        ensures
            resolution(*doc, reply, r),
    {
        match doc {
            DocumentType::Rfc(n) => Ok(DocumentType::Rfc(*n)),
            DocumentType::Draft(name) => {
                if Self::has_version_suffix(name.as_str()) {
                    return Ok(DocumentType::Draft(name.clone()));
                }
                match reply {
                    MetadataReply::Unreachable(msg) => Err(RfcError::MetadataUnavailable(msg)),
                    MetadataReply::Unreadable(msg) => Err(RfcError::MetadataUnavailable(msg)),
                    MetadataReply::Rejected(_) => Err(RfcError::NotFound(name.clone())),
                    MetadataReply::Info(None) => Ok(DocumentType::Draft(name.clone())),
                    MetadataReply::Info(Some(rev)) => {
                        let mut qualified = name.clone();
                        qualified.append("-");
                        qualified.append(rev.as_str());
                        Ok(DocumentType::Draft(qualified))
                    },
                }
            },
        }
    }

    /// Starts retrieving a document: an unversioned draft is resolved first,
    /// otherwise its plain text is asked for at once.
    pub fn fetch_begin(&self, doc: &DocumentType) -> (r: (FetchState, FetchAction))
        ensures
            needs_resolution(doc@) ==> (r.0 matches FetchState::AwaitingMetadata(d) && d@ == doc@),
            needs_resolution(doc@) ==> (r.1 matches FetchAction::Resolve { url } && url@
                == metadata_url_of(canonical_name(doc@))),
            !needs_resolution(doc@) ==> (r.0 matches FetchState::AwaitingText(d) && d@ == doc@),
            !needs_resolution(doc@) ==> (r.1 matches FetchAction::Request { url, format } && format
                == Format::Text && url@ == text_url_of(doc@)),
    {
        match Self::metadata_query(doc) {
            Some(url) => (FetchState::AwaitingMetadata(doc.copied()), FetchAction::Resolve { url }),
            None => self.fetch_start(doc),
        }
    }

    /// Takes the metadata endpoint's answer for the draft that `state` awaits:
    /// a resolution error ends the retrieval before any content is asked for;
    /// otherwise the plain text of the resolved identity is asked for.
    pub fn resolve_step(&self, state: FetchState, reply: MetadataReply) -> (r: (
        FetchState,
        FetchAction,
    ))
        requires
            state is AwaitingMetadata,
        ensures
            match state {
                FetchState::AwaitingMetadata(doc) => match r.1 {
                    FetchAction::Request { url, format } => (r.0 matches FetchState::AwaitingText(
                        d,
                    ) && resolution(doc, reply, Ok::<DocumentType, RfcError>(d)) && format
                        == Format::Text && url@ == text_url_of(d@)),
                    FetchAction::Complete(Err(e)) => r.0 is Finished && resolution(
                        doc,
                        reply,
                        Err::<DocumentType, RfcError>(e),
                    ),
                    _ => false,
                },
                _ => false,
            },
    {
        match state {
            FetchState::AwaitingMetadata(doc) => match Self::resolve_draft_version(&doc, reply) {
                Ok(resolved) => self.fetch_start(&resolved),
                Err(e) => (FetchState::Finished, FetchAction::Complete(Err(e))),
            },
            // excluded by the precondition
            _ => (FetchState::Finished, FetchAction::Complete(Err(RfcError::Config(String::new())))),
        }
    }

    /// Starts retrieving a resolved document: its plain text is asked for first.
    pub fn fetch_start(&self, doc: &DocumentType) -> (r: (FetchState, FetchAction))
        ensures
            r.0 matches FetchState::AwaitingText(d) && d@ == doc@,
            r.1 matches FetchAction::Request { url, format } && format == Format::Text && url@
                == text_url_of(doc@),
    {
        let url = self.text_url(doc);
        (FetchState::AwaitingText(doc.copied()), FetchAction::Request { url, format: Format::Text })
    }

    /// Takes the outcome of the retrieval that `state` awaits and decides what follows.
    pub fn fetch_step(&self, state: FetchState, outcome: Result<String, Failure>) -> (r: (
        FetchState,
        FetchAction,
    ))
        requires
            state is AwaitingText || state is AwaitingHtml,
        ensures
            fetch_transition(state, outcome, r.0, r.1),
    {
        match state {
            FetchState::AwaitingText(doc) => match outcome {
                Ok(content) => (FetchState::Finished, FetchAction::Complete(Ok((content, Format::Text)))),
                Err(text_failure) => {
                    let url = self.html_url(&doc);
                    (
                        FetchState::AwaitingHtml(doc, text_failure),
                        FetchAction::Request { url, format: Format::Html },
                    )
                },
            },
            FetchState::AwaitingHtml(_, text_failure) => match outcome {
                Ok(content) => (FetchState::Finished, FetchAction::Complete(Ok((content, Format::Html)))),
                Err(html_failure) => (
                    FetchState::Finished,
                    FetchAction::Complete(
                        Err(RfcError::FetchFailed { text: text_failure, html: html_failure }),
                    ),
                ),
            },
            // excluded by the precondition
            _ => (FetchState::Finished, FetchAction::Complete(Err(RfcError::Config(String::new())))),
        }
    }
}

} // verus!
