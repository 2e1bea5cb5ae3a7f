//! The loopback API's request decisions: bearer tokens, origins, idempotency keys,
//! request bodies, and the status each storage error is answered with.

use vstd::prelude::*;
use crate::problems::{
    canonical_problem_url, canonical_url, problem_error_text, problem_fields_check, Difficulty,
    NewProblem,
};
use crate::storage::{IntegrationClient, PendingCompletion, StorageError};
use crate::text::{strip_prefix_text, trim, trimmed};

verus! {

/// The TCP port of the loopback API.
pub const LOOPBACK_PORT: u16 = 17342;

/// The address the loopback API binds: loopback only.
pub const LOOPBACK_ADDR: &'static str = "127.0.0.1";

/// The header an extension may carry its origin in when `Origin` is absent.
pub const ORIGIN_HEADER: &'static str = "x-ankicode-origin";

/// HTTP status codes the API answers with.
pub const STATUS_BAD_REQUEST: u16 = 400;
pub const STATUS_UNAUTHORIZED: u16 = 401;
pub const STATUS_FORBIDDEN: u16 = 403;
pub const STATUS_NOT_FOUND: u16 = 404;
pub const STATUS_CONFLICT: u16 = 409;
pub const STATUS_INTERNAL_SERVER_ERROR: u16 = 500;

/// A request's paired client, once its token and origin are checked.
#[derive(Debug, Clone)]
pub struct AuthenticatedClient(pub IntegrationClient);

/// A pairing request: the code shown in Settings and the extension's origin.
#[derive(Debug, Clone, PartialEq, Eq)]
pub struct PairRequest {
    pub code: String,
    pub origin: String,
}

/// A pairing answer: the plaintext bearer token and the client id.
#[derive(Debug, Clone, PartialEq, Eq)]
pub struct PairResponse {
    pub token: String,
    pub client_id: i64,
}

/// The health answer.
#[derive(Debug, Clone, Copy, PartialEq, Eq)]
pub struct HealthResponse {
    pub ok: bool,
}

/// A request to add a problem: slug, title, difficulty text and an optional URL.
#[derive(Debug, Clone, PartialEq, Eq)]
pub struct AddProblemRequest {
    pub slug: String,
    pub title: String,
    pub difficulty: String,
    pub url: Option<String>,
}

/// The answer to an added problem.
#[derive(Debug, Clone, PartialEq, Eq)]
pub struct AddProblemResponse {
    pub problem_id: i64,
    pub slug: String,
}

/// A report of an accepted submission, with an optional acceptance instant.
#[derive(Debug, Clone, PartialEq, Eq)]
pub struct AcceptedSubmissionRequest {
    pub slug: String,
    pub accepted_at: Option<i64>,
}

/// The answer to an accepted submission.
#[derive(Debug, Clone, PartialEq, Eq)]
pub struct AcceptedSubmissionResponse {
    pub pending_id: i64,
    pub problem_id: i64,
}

/// A pending completion as the UI receives it.
#[derive(Debug, Clone, PartialEq, Eq)]
pub struct PendingCompletionDto {
    pub id: i64,
    pub problem_id: i64,
    pub slug: String,
    pub title: String,
    pub difficulty: Difficulty,
    pub url: String,
    pub idempotency_key: String,
    pub accepted_at: i64,
    pub created_at: i64,
}

impl From<PendingCompletion> for PendingCompletionDto {
    fn from(value: PendingCompletion) -> (r: PendingCompletionDto) {
        PendingCompletionDto {
            id: value.id,
            problem_id: value.problem_id,
            slug: value.slug,
            title: value.title,
            difficulty: value.difficulty,
            url: value.url,
            idempotency_key: value.idempotency_key,
            accepted_at: value.accepted_at,
            created_at: value.created_at,
        }
    }
}

impl vstd::std_specs::convert::FromSpecImpl<PendingCompletion> for PendingCompletionDto {
    open spec fn obeys_from_spec() -> bool {
        true
    }

    open spec fn from_spec(value: PendingCompletion) -> PendingCompletionDto {
        PendingCompletionDto {
            id: value.id,
            problem_id: value.problem_id,
            slug: value.slug,
            title: value.title,
            difficulty: value.difficulty,
            url: value.url,
            idempotency_key: value.idempotency_key,
            accepted_at: value.accepted_at,
            created_at: value.created_at,
        }
    }
}

/// The token of an `Authorization` header value: after `Bearer ` or `bearer `, trimmed,
/// and not empty.
pub open spec fn bearer_token_of(value: Seq<char>) -> Option<Seq<char>> {
    let rest = if "Bearer "@.is_prefix_of(value) {
        Some(value.skip(7))
    } else if "bearer "@.is_prefix_of(value) {
        Some(value.skip(7))
    } else {
        None
    };
    match rest {
        None => None,
        Some(r) => if trimmed(r).len() == 0 {
            None
        } else {
            Some(trimmed(r))
        },
    }
}

/// The bearer token of a request, from its `Authorization` header value (absent
/// when the header is missing or not text).
pub fn extract_bearer_token(authorization: Option<&str>) -> (r: Option<String>)
    ensures
        match authorization {
            None => r is None,
            Some(v) => match bearer_token_of(v@) {
                None => r is None,
                Some(t) => r matches Some(s) && s@ == t,
            },
        },
{
    proof {
        reveal_strlit("Bearer ");
        reveal_strlit("bearer ");
    }
    let value = match authorization {
        Some(v) => v,
        None => {
            return None;
        },
    };
    let rest = match strip_prefix_text(value, "Bearer ") {
        Some(r) => r,
        None => match strip_prefix_text(value, "bearer ") {
            Some(r) => r,
            None => {
                return None;
            },
        },
    };
    let token = trim(rest);
    if token.unicode_len() == 0 {
        None
    } else {
        Some(token.to_owned())
    }
}

/// A header value, trimmed, when it is not blank.
pub open spec fn filled(value: Option<Seq<char>>) -> Option<Seq<char>> {
    match value {
        Some(v) => if trimmed(v).len() > 0 {
            Some(trimmed(v))
        } else {
            None
        },
        None => None,
    }
}

fn filled_header(value: Option<&str>) -> (r: Option<String>)
    ensures
        match filled(
            match value {
                Some(v) => Some(v@),
                None => None,
            },
        ) {
            None => r is None,
            Some(t) => r matches Some(s) && s@ == t,
        },
{
    match value {
        Some(v) => {
            let t = trim(v);
            if t.unicode_len() > 0 {
                Some(t.to_owned())
            } else {
                None
            }
        },
        None => None,
    }
}

/// The origin of a request: the `Origin` header value when it is not blank, else
/// the extension's own origin header value when that is not blank; trimmed.
pub fn extract_request_origin(origin: Option<&str>, extension_origin: Option<&str>) -> (r: Option<
    String,
>)
    ensures
        ({
            let o = filled(
                match origin {
                    Some(v) => Some(v@),
                    None => None,
                },
            );
            let x = filled(
                match extension_origin {
                    Some(v) => Some(v@),
                    None => None,
                },
            );
            match o {
                Some(t) => r matches Some(s) && s@ == t,
                None => match x {
                    Some(t) => r matches Some(s) && s@ == t,
                    None => r is None,
                },
            }
        }),
{
    match filled_header(origin) {
        Some(o) => Some(o),
        None => filled_header(extension_origin),
    }
}

/// A header's text, if the header is present.
pub open spec fn header_value(h: Option<&str>) -> Option<Seq<char>> {
    match h {
        Some(v) => Some(v@),
        None => None,
    }
}

/// The origin a request names: its `Origin` header when not blank, else the
/// extension's own origin header when not blank; trimmed.
pub open spec fn request_origin_of(origin: Option<Seq<char>>, extension_origin: Option<Seq<char>>) -> Option<
    Seq<char>,
> {
    match filled(origin) {
        Some(o) => Some(o),
        None => filled(extension_origin),
    }
}

/// Why a request to a paired-client endpoint carries no usable credentials.
#[derive(Debug, Clone, Copy, PartialEq, Eq, Structural)]
pub enum CredentialsError {
    MissingBearerToken,
    MissingOrigin,
}

impl CredentialsError {
    /// The status it is answered with: 401 without a token, 403 without an origin.
    pub fn status(&self) -> (r: u16)
        ensures
            r == (match *self {
                CredentialsError::MissingBearerToken => 401u16,
                CredentialsError::MissingOrigin => 403u16,
            }),
    {
        match self {
            CredentialsError::MissingBearerToken => STATUS_UNAUTHORIZED,
            CredentialsError::MissingOrigin => STATUS_FORBIDDEN,
        }
    }

    /// The text it is answered with.
    pub fn message(&self) -> (r: String)
        ensures
            r@ == (match *self {
                CredentialsError::MissingBearerToken => "missing bearer token"@,
                CredentialsError::MissingOrigin => "missing origin"@,
            }),
    {
        match self {
            CredentialsError::MissingBearerToken => String::from_str("missing bearer token"),
            CredentialsError::MissingOrigin => String::from_str("missing origin"),
        }
    }
}

/// A request's bearer token and origin, checked in that order: a request without a
/// token is refused (401) before its origin is looked at (403).
pub fn request_credentials(
    authorization: Option<&str>,
    origin: Option<&str>,
    extension_origin: Option<&str>,
) -> (r: Result<(String, String), CredentialsError>)
    ensures
        match header_value(authorization) {
            None => r == Err::<(String, String), CredentialsError>(CredentialsError::MissingBearerToken),
            Some(a) => match bearer_token_of(a) {
                None => r == Err::<(String, String), CredentialsError>(
                    CredentialsError::MissingBearerToken,
                ),
                Some(t) => match request_origin_of(header_value(origin), header_value(extension_origin)) {
                    None => r == Err::<(String, String), CredentialsError>(
                        CredentialsError::MissingOrigin,
                    ),
                    Some(o) => r matches Ok((ts, os)) && ts@ == t && os@ == o,
                },
            },
        },
{
    let token = match extract_bearer_token(authorization) {
        Some(t) => t,
        None => {
            return Err(CredentialsError::MissingBearerToken);
        },
    };
    match extract_request_origin(origin, extension_origin) {
        Some(o) => Ok((token, o)),
        None => Err(CredentialsError::MissingOrigin),
    }
}

/// The HTTP status a storage error is answered with.
pub open spec fn status_of(error: StorageError) -> u16 {
    match error {
        StorageError::UnauthorizedClient | StorageError::InvalidPairingCode => 401,
        StorageError::ClientRevoked | StorageError::OriginMismatch | StorageError::InvalidOrigin => 403,
        StorageError::ProblemNotFound(_) | StorageError::ProblemSlugNotFound(_) => 404,
        StorageError::IntegrationIdempotencyConflict { .. }
        | StorageError::ReviewIdempotencyConflict { .. } => 409,
        StorageError::InvalidData(_) | StorageError::Problem(_) | StorageError::Settings(_) => 400,
        _ => 500,
    }
}

/// The HTTP status a storage error is answered with.
pub fn auth_status(error: &StorageError) -> (r: u16)
    ensures
        r == status_of(*error),
{
    match error {
        StorageError::UnauthorizedClient | StorageError::InvalidPairingCode => STATUS_UNAUTHORIZED,
        StorageError::ClientRevoked | StorageError::OriginMismatch | StorageError::InvalidOrigin => {
            STATUS_FORBIDDEN
        },
        StorageError::ProblemNotFound(_) | StorageError::ProblemSlugNotFound(_) => STATUS_NOT_FOUND,
        StorageError::IntegrationIdempotencyConflict { .. }
        | StorageError::ReviewIdempotencyConflict { .. } => STATUS_CONFLICT,
        StorageError::InvalidData(_) | StorageError::Problem(_) | StorageError::Settings(_) => {
            STATUS_BAD_REQUEST
        },
        _ => STATUS_INTERNAL_SERVER_ERROR,
    }
}

/// The message of a missing `Idempotency-Key` header.
pub open spec fn missing_key_message() -> Seq<char> {
    "Idempotency-Key header is required"@
}

/// The request's idempotency key: the header value trimmed, when it is not blank.
pub fn header_idempotency_key(value: Option<&str>) -> (r: Result<String, (u16, String)>)
    ensures
        match filled(
            match value {
                Some(v) => Some(v@),
                None => None,
            },
        ) {
            Some(t) => r matches Ok(s) && s@ == t,
            None => r matches Err((code, m)) && code == 400 && m@ == missing_key_message(),
        },
{
    match filled_header(value) {
        Some(k) => Ok(k),
        None => Err((STATUS_BAD_REQUEST, String::from_str("Idempotency-Key header is required"))),
    }
}

/// ASCII uppercase letters turned lowercase; everything else kept.
pub open spec fn ascii_lowercase(s: Seq<char>) -> Seq<char> {
    s.map_values(|c: char| if 'A' <= c && c <= 'Z' { ((c as u32) + 32) as char } else { c })
}

/// The difficulty named by a request's text, ignoring surrounding whitespace and ASCII case.
pub open spec fn requested_difficulty(raw: Seq<char>) -> Option<Difficulty> {
    let t = ascii_lowercase(trimmed(raw));
    if t == "easy"@ {
        Some(Difficulty::Easy)
    } else if t == "medium"@ {
        Some(Difficulty::Medium)
    } else if t == "hard"@ {
        Some(Difficulty::Hard)
    } else {
        None
    }
}

fn lowercase_equals(s: &str, target: &str) -> (b: bool)
    ensures
        b == (ascii_lowercase(s@) == target@),
{
    let n = s.unicode_len();
    if n != target.unicode_len() {
        assert(ascii_lowercase(s@).len() != target@.len());
        return false;
    }
    let mut i: usize = 0;
    while i < n
        invariant
            n == s@.len(),
            n == target@.len(),
            0 <= i <= n,
            forall|k: int| 0 <= k < i ==> #[trigger] ascii_lowercase(s@)[k] == target@[k],
        decreases n - i,
    {
        let c = s.get_char(i);
        let t = target.get_char(i);
        let same = if 'A' <= c && c <= 'Z' {
            (c as u32) + 32 == t as u32
        } else {
            c == t
        };
        if !same {
            assert(ascii_lowercase(s@)[i as int] != target@[i as int]);
            return false;
        }
        i = i + 1;
    }
    assert(ascii_lowercase(s@) =~= target@);
    true
}

/// Reads a requested difficulty: `easy`, `medium` or `hard`, in any ASCII case.
pub fn parse_difficulty(raw: &str) -> (r: Option<Difficulty>)
    ensures
        r == requested_difficulty(raw@),
{
    let t = trim(raw);
    if lowercase_equals(t, "easy") {
        Some(Difficulty::Easy)
    } else if lowercase_equals(t, "medium") {
        Some(Difficulty::Medium)
    } else if lowercase_equals(t, "hard") {
        Some(Difficulty::Hard)
    } else {
        None
    }
}

/// The message of an unknown requested difficulty.
pub open spec fn bad_difficulty_message() -> Seq<char> {
    "difficulty must be Easy, Medium, or Hard"@
}

/// The URL an added problem is stored under: the given one trimmed, unless blank,
/// else the canonical URL of the trimmed slug.
pub open spec fn requested_url(url: Option<Seq<char>>, slug: Seq<char>) -> Seq<char> {
    match filled(url) {
        Some(u) => u,
        None => canonical_url(trimmed(slug)),
    }
}

/// Turns an add request into a new problem: a known difficulty, a URL (given or
/// canonical) and valid trimmed fields; a refusal is a bad request with its reason.
pub fn prepare_add_problem(body: &AddProblemRequest) -> (r: Result<NewProblem, (u16, String)>)
    ensures
        match requested_difficulty(body.difficulty@) {
            None => r matches Err((code, m)) && code == 400 && m@ == bad_difficulty_message(),
            Some(d) => {
                let url = requested_url(
                    match body.url {
                        Some(u) => Some(u@),
                        None => None,
                    },
                    body.slug@,
                );
                match problem_fields_check(trimmed(body.slug@), trimmed(body.title@), url) {
                    Ok(()) => r matches Ok(p) && p.slug@ == trimmed(body.slug@) && p.title@
                        == trimmed(body.title@) && p.url@ == url && p.difficulty == d,
                    Err(e) => r matches Err((code, m)) && code == 400 && m@ == problem_error_text(e),
                }
            },
        },
{
    let difficulty = match parse_difficulty(body.difficulty.as_str()) {
        Some(d) => d,
        None => {
            return Err(
                (STATUS_BAD_REQUEST, String::from_str("difficulty must be Easy, Medium, or Hard")),
            );
        },
    };
    let slug = trim(body.slug.as_str());
    let url = match &body.url {
        Some(u) => match filled_header(Some(u.as_str())) {
            Some(t) => t,
            None => canonical_problem_url(slug),
        },
        None => canonical_problem_url(slug),
    };
    match NewProblem::new(slug, trim(body.title.as_str()), url.as_str(), difficulty) {
        Ok(p) => Ok(p),
        Err(e) => Err((STATUS_BAD_REQUEST, e.message())),
    }
}

/// The slug of an accepted-submission report, trimmed; a blank slug is a bad request.
pub fn accepted_slug(slug: &str) -> (r: Result<&str, (u16, String)>)
    ensures
        match r {
            Ok(s) => s@ == trimmed(slug@) && s@.len() > 0,
            Err((code, m)) => trimmed(slug@).len() == 0 && code == 400 && m@ == "slug is required"@,
        },
{
    let s = trim(slug);
    if s.unicode_len() == 0 {
        return Err((STATUS_BAD_REQUEST, String::from_str("slug is required")));
    }
    Ok(s)
}

} // verus!
