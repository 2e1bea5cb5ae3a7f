//! Problem identity, metadata and lifecycle.

use vstd::prelude::*;
use crate::text::{
    cut_before, cut_before_class, in_class, lemma_cut_before_absent, lemma_cut_before_at,
    lemma_strip_back_keeps, lemma_strip_kept, strip_back,
    strip_front, is_blank, same_text, strip, strip_class, strip_prefix_text,
    trim, trimmed, CharClass,
};

verus! {

/// How hard a problem is; Hard problems are tracked but never queued.
#[derive(Debug, Clone, Copy, PartialEq, Eq, Structural)]
pub enum Difficulty {
    Easy,
    Medium,
    Hard,
}

/// Lifecycle state of a problem in the user's list.
#[derive(Debug, Clone, Copy, PartialEq, Eq, Structural)]
pub enum ProblemStatus {
    Active,
    Paused,
    Archived,
    Removed,
}

/// Why a problem or a stored problem value was refused.
#[derive(Debug, Clone, PartialEq, Eq)]
pub enum ProblemError {
    EmptyField(&'static str),
    InvalidSlug,
    InvalidUrl,
    InvalidDatabaseValue { kind: &'static str, value: String },
}

/// The stored spelling of a difficulty.
pub open spec fn difficulty_text(d: Difficulty) -> Seq<char> {
    match d {
        Difficulty::Easy => "easy"@,
        Difficulty::Medium => "medium"@,
        Difficulty::Hard => "hard"@,
    }
}

/// The queue cost of a difficulty: Easy 1, Medium 2, Hard not queued.
pub open spec fn difficulty_cost(d: Difficulty) -> Option<u8> {
    match d {
        Difficulty::Easy => Some(1u8),
        Difficulty::Medium => Some(2u8),
        Difficulty::Hard => None,
    }
}

/// The stored spelling of a status.
pub open spec fn status_text(s: ProblemStatus) -> Seq<char> {
    match s {
        ProblemStatus::Active => "active"@,
        ProblemStatus::Paused => "paused"@,
        ProblemStatus::Archived => "archived"@,
        ProblemStatus::Removed => "removed"@,
    }
}

/// The difficulty spelled `s`, if any.
pub open spec fn difficulty_of_text(s: Seq<char>) -> Option<Difficulty> {
    if s == "easy"@ {
        Some(Difficulty::Easy)
    } else if s == "medium"@ {
        Some(Difficulty::Medium)
    } else if s == "hard"@ {
        Some(Difficulty::Hard)
    } else {
        None
    }
}

/// The status spelled `s`, if any.
pub open spec fn status_of_text(s: Seq<char>) -> Option<ProblemStatus> {
    if s == "active"@ {
        Some(ProblemStatus::Active)
    } else if s == "paused"@ {
        Some(ProblemStatus::Paused)
    } else if s == "archived"@ {
        Some(ProblemStatus::Archived)
    } else if s == "removed"@ {
        Some(ProblemStatus::Removed)
    } else {
        None
    }
}

impl Difficulty {
    pub fn as_db_str(self) -> (r: &'static str)
        ensures
            r@ == difficulty_text(self),
    {
        match self {
            Difficulty::Easy => "easy",
            Difficulty::Medium => "medium",
            Difficulty::Hard => "hard",
        }
    }

    pub fn queue_cost(self) -> (r: Option<u8>)
        ensures
            r == difficulty_cost(self),
    {
        match self {
            Difficulty::Easy => Some(1),
            Difficulty::Medium => Some(2),
            Difficulty::Hard => None,
        }
    }

    /// Reads a stored difficulty; anything but the three spellings is refused.
    pub fn from_db_str(value: &str) -> (r: Result<Difficulty, ProblemError>)
        ensures
            match r {
                Ok(d) => difficulty_of_text(value@) == Some(d),
                Err(e) => difficulty_of_text(value@) is None && e == (ProblemError::InvalidDatabaseValue {
                    kind: "difficulty",
                    value: e->value,
                }) && e->value@ == value@,
            },
    {
        if same_text(value, "easy") {
            Ok(Difficulty::Easy)
        } else if same_text(value, "medium") {
            Ok(Difficulty::Medium)
        } else if same_text(value, "hard") {
            Ok(Difficulty::Hard)
        } else {
            Err(ProblemError::InvalidDatabaseValue { kind: "difficulty", value: value.to_owned() })
        }
    }

    /// The stored spelling as an owned string.
    pub fn to_db_string(self) -> (r: String)
        ensures
            r@ == difficulty_text(self),
    {
        self.as_db_str().to_owned()
    }
}

impl ProblemStatus {
    pub fn as_db_str(self) -> (r: &'static str)
        ensures
            r@ == status_text(self),
    {
        match self {
            ProblemStatus::Active => "active",
            ProblemStatus::Paused => "paused",
            ProblemStatus::Archived => "archived",
            ProblemStatus::Removed => "removed",
        }
    }

    /// Reads a stored status; anything but the four spellings is refused.
    pub fn from_db_str(value: &str) -> (r: Result<ProblemStatus, ProblemError>)
        ensures
            match r {
                Ok(s) => status_of_text(value@) == Some(s),
                Err(e) => status_of_text(value@) is None && e == (ProblemError::InvalidDatabaseValue {
                    kind: "problem status",
                    value: e->value,
                }) && e->value@ == value@,
            },
    {
        if same_text(value, "active") {
            Ok(ProblemStatus::Active)
        } else if same_text(value, "paused") {
            Ok(ProblemStatus::Paused)
        } else if same_text(value, "archived") {
            Ok(ProblemStatus::Archived)
        } else if same_text(value, "removed") {
            Ok(ProblemStatus::Removed)
        } else {
            Err(
                ProblemError::InvalidDatabaseValue {
                    kind: "problem status",
                    value: value.to_owned(),
                },
            )
        }
    }

    /// The stored spelling as an owned string.
    pub fn to_db_string(self) -> (r: String)
        ensures
            r@ == status_text(self),
    {
        self.as_db_str().to_owned()
    }
}


/// The canonical URL prefix of a LeetCode problem page.
pub open spec fn problem_prefix() -> Seq<char> {
    "https://leetcode.com/problems/"@
}

/// The plain-HTTP spelling of the prefix, accepted when pasting.
pub open spec fn problem_prefix_http() -> Seq<char> {
    "http://leetcode.com/problems/"@
}

/// The canonical URL of the problem with slug `slug`.
pub open spec fn canonical_url(slug: Seq<char>) -> Seq<char> {
    problem_prefix() + slug + "/"@
}

/// A slug character: ASCII lowercase letter, ASCII digit or `-`.
pub open spec fn is_slug_char(c: char) -> bool {
    ('a' <= c && c <= 'z') || ('0' <= c && c <= '9') || c == '-'
}

/// A slug is non-empty and made of slug characters only.
pub open spec fn valid_slug(s: Seq<char>) -> bool {
    s.len() > 0 && forall|i: int| 0 <= i < s.len() ==> is_slug_char(#[trigger] s[i])
}

/// The title derived from a slug: each `-` becomes a space.
pub open spec fn slug_title(slug: Seq<char>) -> Seq<char> {
    slug.map_values(|c: char| if c == '-' { ' ' } else { c })
}

/// What follows the problem prefix in a pasted URL, with query and fragment cut off.
pub open spec fn url_rest(raw: Seq<char>) -> Option<Seq<char>> {
    let w = cut_before(trimmed(raw), CharClass::QueryStart);
    if problem_prefix().is_prefix_of(w) {
        Some(w.skip(problem_prefix().len() as int))
    } else if problem_prefix_http().is_prefix_of(w) {
        Some(w.skip(problem_prefix_http().len() as int))
    } else {
        None
    }
}

/// The slug named by the path after the prefix: its first segment, trimmed.
pub open spec fn slug_of_rest(rest: Seq<char>) -> Seq<char> {
    trimmed(cut_before(strip(rest, CharClass::Slash), CharClass::Slash))
}

/// The result of parsing a pasted problem URL: `(slug, canonical_url)`.
pub open spec fn parsed_problem_url(raw: Seq<char>) -> Result<(Seq<char>, Seq<char>), ProblemError> {
    match url_rest(raw) {
        None => Err(ProblemError::InvalidUrl),
        Some(rest) => {
            let slug = slug_of_rest(rest);
            if valid_slug(slug) {
                Ok((slug, canonical_url(slug)))
            } else {
                Err(ProblemError::InvalidSlug)
            }
        },
    }
}

/// The outcome of validating a new problem's fields.
pub open spec fn problem_fields_check(slug: Seq<char>, title: Seq<char>, url: Seq<char>) -> Result<
    (),
    ProblemError,
> {
    if trimmed(slug).len() == 0 {
        Err(ProblemError::EmptyField("slug"))
    } else if trimmed(title).len() == 0 {
        Err(ProblemError::EmptyField("title"))
    } else if !valid_slug(slug) {
        Err(ProblemError::InvalidSlug)
    } else if url != canonical_url(slug) {
        Err(ProblemError::InvalidUrl)
    } else {
        Ok(())
    }
}

/// The title used when adding from a URL: the given one, trimmed, unless blank.
pub open spec fn chosen_title(title: Option<Seq<char>>, slug: Seq<char>) -> Seq<char> {
    match title {
        Some(t) => if trimmed(t).len() > 0 {
            trimmed(t)
        } else {
            slug_title(slug)
        },
        None => slug_title(slug),
    }
}

/// Whether `slug` is a valid slug.
pub fn is_valid_slug(slug: &str) -> (b: bool)
    ensures
        b == valid_slug(slug@),
{
    let n = slug.unicode_len();
    if n == 0 {
        return false;
    }
    let mut i: usize = 0;
    while i < n
        invariant
            n == slug@.len(),
            0 <= i <= n,
            forall|k: int| 0 <= k < i ==> is_slug_char(#[trigger] slug@[k]),
        decreases n - i,
    {
        let c = slug.get_char(i);
        if !(('a' <= c && c <= 'z') || ('0' <= c && c <= '9') || c == '-') {
            return false;
        }
        i = i + 1;
    }
    true
}

/// The canonical problem URL for a slug.
pub fn canonical_problem_url(slug: &str) -> (r: String)
    ensures
        r@ == canonical_url(slug@),
{
    let mut url = String::from_str("https://leetcode.com/problems/");
    url.append(slug);
    url.append("/");
    url
}

/// The title derived from a slug: `-` becomes a space.
pub fn title_from_slug(slug: &str) -> (r: String)
    ensures
        r@ == slug_title(slug@),
{
    proof {
        reveal_strlit(" ");
    }
    let n = slug.unicode_len();
    let mut out = String::new();
    let mut i: usize = 0;
    while i < n
        invariant
            n == slug@.len(),
            0 <= i <= n,
            out@ == slug_title(slug@.take(i as int)),
            " "@ == seq![' '],
        decreases n - i,
    {
        let c = slug.get_char(i);
        proof {
            assert(slug@.take(i + 1) =~= slug@.take(i as int).push(c));
            assert(slug_title(slug@.take(i + 1)) =~= slug_title(slug@.take(i as int)).push(
                if c == '-' { ' ' } else { c },
            ));
        }
        if c == '-' {
            out.append(" ");
        } else {
            let one = slug.substring_char(i, i + 1);
            assert(one@ =~= seq![c]);
            out.append(one);
        }
        i = i + 1;
    }
    assert(slug@.take(n as int) =~= slug@);
    out
}

/// Parses a pasted LeetCode problem URL into `(slug, canonical_url)`.
pub fn parse_leetcode_problem_url(raw_url: &str) -> (r: Result<(String, String), ProblemError>)
    ensures
        match r {
            Ok((slug, url)) => parsed_problem_url(raw_url@) == Ok::<
                (Seq<char>, Seq<char>),
                ProblemError,
            >((slug@, url@)),
            Err(e) => parsed_problem_url(raw_url@) == Err::<(Seq<char>, Seq<char>), ProblemError>(
                e,
            ),
        },
{
    let trimmed_url = trim(raw_url);
    let without_query = cut_before_class(trimmed_url, CharClass::QueryStart);
    let rest = match strip_prefix_text(without_query, "https://leetcode.com/problems/") {
        Some(rest) => rest,
        None => match strip_prefix_text(without_query, "http://leetcode.com/problems/") {
            Some(rest) => rest,
            None => {
                return Err(ProblemError::InvalidUrl);
            },
        },
    };
    assert(url_rest(raw_url@) == Some(rest@));
    let inner = strip_class(rest, CharClass::Slash);
    let first = cut_before_class(inner, CharClass::Slash);
    let slug = trim(first);
    if !is_valid_slug(slug) {
        return Err(ProblemError::InvalidSlug);
    }
    Ok((slug.to_owned(), canonical_problem_url(slug)))
}

/// A problem as entered by the user, before it is stored.
#[derive(Debug, Clone, PartialEq, Eq)]
pub struct NewProblem {
    pub slug: String,
    pub title: String,
    pub url: String,
    pub difficulty: Difficulty,
}

impl NewProblem {
    /// Builds a problem whose fields pass [`NewProblem::validate`].
    pub fn new(slug: &str, title: &str, url: &str, difficulty: Difficulty) -> (r: Result<
        NewProblem,
        ProblemError,
    >)
        ensures
            match r {
                Ok(p) => problem_fields_check(slug@, title@, url@) == Ok::<(), ProblemError>(())
                    && p.slug@ == slug@ && p.title@ == title@ && p.url@ == url@ && p.difficulty
                    == difficulty,
                Err(e) => problem_fields_check(slug@, title@, url@) == Err::<(), ProblemError>(e),
            },
    {
        let value = NewProblem {
            slug: slug.to_owned(),
            title: title.to_owned(),
            url: url.to_owned(),
            difficulty,
        };
        match value.validate() {
            Ok(()) => Ok(value),
            Err(e) => Err(e),
        }
    }

    /// Builds a problem from a pasted LeetCode URL, an optional title and a difficulty.
    /// A missing or blank title becomes the slug with `-` turned into spaces.
    pub fn from_url(raw_url: &str, title: Option<&str>, difficulty: Difficulty) -> (r: Result<
        NewProblem,
        ProblemError,
    >)
        ensures
            match parsed_problem_url(raw_url@) {
                Err(e) => r == Err::<NewProblem, ProblemError>(e),
                Ok((slug, url)) => {
                    let t = chosen_title(
                        match title {
                            Some(x) => Some(x@),
                            None => None,
                        },
                        slug,
                    );
                    match r {
                        Ok(p) => problem_fields_check(slug, t, url) == Ok::<(), ProblemError>(())
                            && p.slug@ == slug && p.title@ == t && p.url@ == url && p.difficulty
                            == difficulty,
                        Err(e) => problem_fields_check(slug, t, url) == Err::<(), ProblemError>(e),
                    }
                },
            },
    {
        let (slug, url) = match parse_leetcode_problem_url(raw_url) {
            Ok(parsed) => parsed,
            Err(e) => {
                return Err(e);
            },
        };
        let chosen = match title {
            Some(t) => {
                let t2 = trim(t);
                if t2.unicode_len() > 0 {
                    t2.to_owned()
                } else {
                    title_from_slug(slug.as_str())
                }
            },
            None => title_from_slug(slug.as_str()),
        };
        NewProblem::new(slug.as_str(), chosen.as_str(), url.as_str(), difficulty)
    }

    /// Checks that slug and title are not blank, the slug is valid and the URL is canonical.
    pub fn validate(&self) -> (r: Result<(), ProblemError>)
        ensures
            r == problem_fields_check(self.slug@, self.title@, self.url@),
    {
        if is_blank(self.slug.as_str()) {
            return Err(ProblemError::EmptyField("slug"));
        }
        if is_blank(self.title.as_str()) {
            return Err(ProblemError::EmptyField("title"));
        }
        if !is_valid_slug(self.slug.as_str()) {
            return Err(ProblemError::InvalidSlug);
        }
        let canonical = canonical_problem_url(self.slug.as_str());
        if !same_text(self.url.as_str(), canonical.as_str()) {
            return Err(ProblemError::InvalidUrl);
        }
        Ok(())
    }
}

/// A stored problem with its lifecycle metadata.
#[derive(Debug, Clone, PartialEq, Eq)]
pub struct Problem {
    pub id: i64,
    pub slug: String,
    pub title: String,
    pub url: String,
    pub difficulty: Difficulty,
    pub status: ProblemStatus,
    /// First-added instant in UTC epoch seconds.
    pub added_at: i64,
    /// Lifecycle metadata update instant in UTC epoch seconds.
    pub updated_at: i64,
}


/// The text of a problem error, as its `Display` writes it.
pub open spec fn problem_error_text(e: ProblemError) -> Seq<char> {
    match e {
        ProblemError::EmptyField(field) => field@ + " must not be empty"@,
        ProblemError::InvalidSlug => "slug contains unsupported characters"@,
        ProblemError::InvalidUrl => "URL must be the canonical LeetCode URL for the slug"@,
        ProblemError::InvalidDatabaseValue { kind, value } => "invalid "@ + kind@ + " database value: "@
            + value@,
    }
}

impl ProblemError {
    /// The error's text.
    pub fn message(&self) -> (r: String)
        ensures
            r@ == problem_error_text(*self),
    {
        match self {
            ProblemError::EmptyField(field) => {
                let mut m = String::from_str(field);
                m.append(" must not be empty");
                m
            },
            ProblemError::InvalidSlug => String::from_str("slug contains unsupported characters"),
            ProblemError::InvalidUrl => String::from_str(
                "URL must be the canonical LeetCode URL for the slug",
            ),
            ProblemError::InvalidDatabaseValue { kind, value } => {
                let mut m = String::from_str("invalid ");
                m.append(kind);
                m.append(" database value: ");
                m.append(value.as_str());
                m
            },
        }
    }
}

impl core::str::FromStr for Difficulty {
    type Err = ProblemError;

    fn from_str(value: &str) -> (r: Result<Difficulty, ProblemError>)
        ensures
            match r {
                Ok(d) => difficulty_of_text(value@) == Some(d),
                Err(e) => difficulty_of_text(value@) is None && e == (ProblemError::InvalidDatabaseValue {
                    kind: "difficulty",
                    value: e->value,
                }) && e->value@ == value@,
            },
    {
        Difficulty::from_db_str(value)
    }
}

impl core::str::FromStr for ProblemStatus {
    type Err = ProblemError;

    fn from_str(value: &str) -> (r: Result<ProblemStatus, ProblemError>)
        ensures
            match r {
                Ok(s) => status_of_text(value@) == Some(s),
                Err(e) => status_of_text(value@) is None && e == (ProblemError::InvalidDatabaseValue {
                    kind: "problem status",
                    value: e->value,
                }) && e->value@ == value@,
            },
    {
        ProblemStatus::from_db_str(value)
    }
}


/// Each stored difficulty spelling reads back as the same difficulty.
pub proof fn lemma_difficulty_text_roundtrip(d: Difficulty)
    ensures
        difficulty_of_text(difficulty_text(d)) == Some(d),
{
    reveal_strlit("easy");
    reveal_strlit("medium");
    reveal_strlit("hard");
    assert("medium"@[0] != "easy"@[0]);
    assert("hard"@[0] != "easy"@[0] && "hard"@[0] != "medium"@[0]);
}

/// Each stored status spelling reads back as the same status.
pub proof fn lemma_status_text_roundtrip(s: ProblemStatus)
    ensures
        status_of_text(status_text(s)) == Some(s),
{
    reveal_strlit("active");
    reveal_strlit("paused");
    reveal_strlit("archived");
    reveal_strlit("removed");
    assert("paused"@[0] != "active"@[0]);
    assert("archived"@[0] != "paused"@[0] && "archived"@[1] != "active"@[1]);
    assert("removed"@[0] != "active"@[0] && "removed"@[0] != "paused"@[0] && "removed"@[0]
        != "archived"@[0]);
}

/// A parsed URL and any non-blank title make a problem that passes validation.
pub proof fn lemma_parsed_url_makes_valid_problem(raw: Seq<char>, title: Seq<char>)
    requires
        parsed_problem_url(raw) is Ok,
        trimmed(title).len() > 0,
    ensures
        problem_fields_check(parsed_problem_url(raw)->Ok_0.0, title, parsed_problem_url(raw)->Ok_0.1)
            == Ok::<(), ProblemError>(()),
{
    let slug = parsed_problem_url(raw)->Ok_0.0;
    assert(is_slug_char(slug[0]));
    assert(strip_front(slug, CharClass::Whitespace) == slug);
    assert(is_slug_char(slug.last()));
    assert(strip_back(slug, CharClass::Whitespace) == slug);
}

/// The canonical URL of a valid slug parses back to that slug and that URL:
/// parsing normalizes a pasted URL to a fixed point.
pub proof fn lemma_canonical_url_parses_back(slug: Seq<char>)
    requires
        valid_slug(slug),
    ensures
        parsed_problem_url(canonical_url(slug)) == Ok::<(Seq<char>, Seq<char>), ProblemError>(
            (slug, canonical_url(slug)),
        ),
{
    reveal_strlit("https://leetcode.com/problems/");
    reveal_strlit("/");
    let p = problem_prefix();
    let url = canonical_url(slug);
    let rest = slug + "/"@;
    assert(url =~= p + rest);
    assert forall|i: int| 0 <= i < slug.len() implies !in_class(CharClass::Whitespace, #[trigger] slug[i])
        && !in_class(CharClass::QueryStart, slug[i]) && !in_class(CharClass::Slash, slug[i]) by {
        assert(is_slug_char(slug[i]));
    }
    assert(url[0] == 'h');
    assert(url.last() == '/');
    lemma_strip_kept(url, CharClass::Whitespace);
    assert forall|i: int| 0 <= i < url.len() implies !in_class(CharClass::QueryStart, #[trigger] url[i]) by {
        if i >= p.len() && i < p.len() + slug.len() {
            assert(url[i] == slug[i - p.len()]);
        }
    }
    lemma_cut_before_absent(url, CharClass::QueryStart);
    assert(p.is_prefix_of(url));
    assert(url.skip(p.len() as int) =~= rest);
    assert(rest[0] == slug[0]);
    assert(strip_front(rest, CharClass::Slash) == rest);
    assert(rest.drop_last() =~= slug);
    assert(strip_back(slug, CharClass::Slash) == slug);
    assert(strip_back(rest, CharClass::Slash) == slug);
    lemma_cut_before_absent(slug, CharClass::Slash);
    lemma_strip_kept(slug, CharClass::Whitespace);
}

/// A query string or fragment never reaches the slug: for every valid slug and
/// every text `q`, a problem URL (either accepted prefix) followed by `?` or `#`
/// and `q` parses to that slug and its canonical URL, whatever `q` holds.
pub proof fn lemma_query_never_reaches_slug(prefix: Seq<char>, slug: Seq<char>, sep: char, q: Seq<char>)
    requires
        prefix == problem_prefix() || prefix == problem_prefix_http(),
        valid_slug(slug),
        sep == '?' || sep == '#',
    ensures
        parsed_problem_url(prefix + slug + seq![sep] + q) == Ok::<(Seq<char>, Seq<char>), ProblemError>(
            (slug, canonical_url(slug)),
        ),
{
    reveal_strlit("https://leetcode.com/problems/");
    reveal_strlit("http://leetcode.com/problems/");
    let raw = prefix + slug + seq![sep] + q;
    let n: int = (prefix.len() + slug.len()) as int;
    assert(raw[0] == prefix[0]);
    assert(raw[n] == sep);
    assert forall|i: int| 0 <= i < slug.len() implies !in_class(CharClass::Whitespace, #[trigger] slug[i])
        && !in_class(CharClass::QueryStart, slug[i]) && !in_class(CharClass::Slash, slug[i]) by {
        assert(is_slug_char(slug[i]));
    }
    // Leading: the URL starts with 'h', so nothing is stripped in front.
    assert(strip_front(raw, CharClass::Whitespace) == raw);
    // Trailing: stripping stops at the separator at latest.
    lemma_strip_back_keeps(raw, CharClass::Whitespace, n);
    let t = trimmed(raw);
    assert(t == raw.take(t.len() as int));
    assert forall|i: int| 0 <= i < n implies !in_class(CharClass::QueryStart, #[trigger] t[i]) by {
        assert(t[i] == raw[i]);
        if i < prefix.len() {
            assert(raw[i] == prefix[i]);
        } else {
            assert(raw[i] == slug[i - prefix.len()]);
        }
    }
    assert(t[n] == sep);
    lemma_cut_before_at(t, CharClass::QueryStart, n);
    let w = cut_before(t, CharClass::QueryStart);
    assert(w =~= prefix + slug);
    if prefix == problem_prefix() {
        assert(problem_prefix().is_prefix_of(w));
    } else {
        assert(w[4] == ':');
        assert(problem_prefix()[4] == 's');
        if problem_prefix().is_prefix_of(w) {
            assert(w.take(problem_prefix().len() as int)[4] == w[4]);
            assert(false);
        }
        assert(problem_prefix_http().is_prefix_of(w));
    }
    assert(w.skip(prefix.len() as int) =~= slug);
    assert(url_rest(raw) == Some(slug));
    assert(strip_front(slug, CharClass::Slash) == slug);
    assert(strip_back(slug, CharClass::Slash) == slug);
    lemma_cut_before_absent(slug, CharClass::Slash);
    lemma_strip_kept(slug, CharClass::Whitespace);
}

} // verus!
