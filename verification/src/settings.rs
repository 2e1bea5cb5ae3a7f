//! Settings checks and pairing codes.

use vstd::prelude::*;
use crate::calendar::{is_known_timezone, timezone_known};
use crate::entropy::random_index;
use crate::text::{is_blank, same_text, trimmed};

verus! {

/// The time zone used until the user picks one.
pub const DEFAULT_TIMEZONE: &'static str = "America/New_York";

/// How many characters a pairing code has.
pub const PAIRING_CODE_LEN: usize = 8;

/// Why settings were refused.
#[derive(Debug, Clone, PartialEq, Eq)]
pub enum SettingsError {
    InvalidTimeZone(String),
    InvalidRetention,
    EmptyPairingCode,
}

/// The characters a pairing code is drawn from.
pub open spec fn code_alphabet() -> Seq<char> {
    "ABCDEFGHIJKLMNOPQRSTUVWXYZ0123456789"@
}

/// An ASCII uppercase letter or an ASCII digit.
pub open spec fn is_code_char(c: char) -> bool {
    ('A' <= c && c <= 'Z') || ('0' <= c && c <= '9')
}

/// A well-formed pairing code: eight uppercase letters or digits.
pub open spec fn is_pairing_code(s: Seq<char>) -> bool {
    &&& s.len() == PAIRING_CODE_LEN
    &&& forall|i: int| 0 <= i < s.len() ==> is_code_char(#[trigger] s[i])
}

/// Refuses a time-zone name that `chrono-tz` does not know.
pub fn validate_timezone(timezone_id: &str) -> (r: Result<(), SettingsError>)
    ensures
        match r {
            Ok(()) => timezone_known(timezone_id@),
            Err(e) => !timezone_known(timezone_id@) && (e matches SettingsError::InvalidTimeZone(t)
                && t@ == timezone_id@),
        },
{
    if is_known_timezone(timezone_id) {
        Ok(())
    } else {
        Err(SettingsError::InvalidTimeZone(timezone_id.to_owned()))
    }
}

/// Whether `r` is the outcome of checking settings with these fields: the time zone
/// first, then the retention range, then a non-blank pairing code.
pub open spec fn settings_outcome(
    timezone_id: Seq<char>,
    retention_in_range: bool,
    pairing_code: Seq<char>,
    r: Result<(), SettingsError>,
) -> bool {
    if !timezone_known(timezone_id) {
        r matches Err(SettingsError::InvalidTimeZone(t)) && t@ == timezone_id
    } else if !retention_in_range {
        r == Err::<(), SettingsError>(SettingsError::InvalidRetention)
    } else if trimmed(pairing_code).len() == 0 {
        r == Err::<(), SettingsError>(SettingsError::EmptyPairingCode)
    } else {
        r == Ok::<(), SettingsError>(())
    }
}

/// The checks that settings pass, in order: time zone, retention, then a
/// non-blank pairing code. Whether the retention lies strictly between 0 and 1
/// is decided by the caller, which holds it as a float.
pub fn validate_settings_fields(timezone_id: &str, retention_in_range: bool, pairing_code: &str) -> (r:
    Result<(), SettingsError>)
    ensures
        settings_outcome(timezone_id@, retention_in_range, pairing_code@, r),
{
    match validate_timezone(timezone_id) {
        Ok(()) => {},
        Err(e) => {
            return Err(e);
        },
    }
    if !retention_in_range {
        return Err(SettingsError::InvalidRetention);
    }
    if is_blank(pairing_code) {
        return Err(SettingsError::EmptyPairingCode);
    }
    Ok(())
}

/// The pairing code spelled by alphabet positions.
pub fn pairing_code_from_indices(indices: &[usize]) -> (r: String)
    requires
        forall|i: int| 0 <= i < indices@.len() ==> #[trigger] indices@[i] < 36,
    ensures
        r@.len() == indices@.len(),
        forall|i: int| 0 <= i < indices@.len() ==> #[trigger] r@[i] == code_alphabet()[indices@[i] as int],
{
    let alphabet = "ABCDEFGHIJKLMNOPQRSTUVWXYZ0123456789";
    proof {
        reveal_strlit("ABCDEFGHIJKLMNOPQRSTUVWXYZ0123456789");
    }
    let mut code = String::new();
    let mut i: usize = 0;
    while i < indices.len()
        invariant
            0 <= i <= indices@.len(),
            alphabet@ == code_alphabet(),
            alphabet@.len() == 36,
            forall|k: int| 0 <= k < indices@.len() ==> #[trigger] indices@[k] < 36,
            code@.len() == i,
            forall|k: int| 0 <= k < i ==> #[trigger] code@[k] == code_alphabet()[indices@[k] as int],
        decreases indices@.len() - i,
    {
        let at = indices[i];
        let one = alphabet.substring_char(at, at + 1);
        assert(one@ =~= seq![code_alphabet()[at as int]]);
        code.append(one);
        i = i + 1;
    }
    code
}

/// Every character of the pairing alphabet is an uppercase letter or a digit.
pub proof fn lemma_code_alphabet_chars()
    ensures
        code_alphabet().len() == 36,
        forall|i: int| 0 <= i < 36 ==> is_code_char(#[trigger] code_alphabet()[i]),
{
    reveal_strlit("ABCDEFGHIJKLMNOPQRSTUVWXYZ0123456789");
}

/// An 8-character pairing code of uppercase letters and digits drawn from OS entropy.
pub fn generate_pairing_code() -> (r: String)
    ensures
        r@.len() == PAIRING_CODE_LEN,
        forall|i: int| 0 <= i < r@.len() ==> is_code_char(#[trigger] r@[i]),
{
    let mut indices: Vec<usize> = Vec::new();
    let mut i: usize = 0;
    while i < PAIRING_CODE_LEN
        invariant
            0 <= i <= PAIRING_CODE_LEN,
            indices@.len() == i,
            forall|k: int| 0 <= k < i ==> #[trigger] indices@[k] < 36,
        decreases PAIRING_CODE_LEN - i,
    {
        indices.push(random_index(36));
        i = i + 1;
    }
    let code = pairing_code_from_indices(indices.as_slice());
    proof {
        lemma_code_alphabet_chars();
        assert forall|k: int| 0 <= k < code@.len() implies is_code_char(#[trigger] code@[k]) by {
            assert(code@[k] == code_alphabet()[indices@[k] as int]);
        }
    }
    code
}

/// A new pairing code that differs from `used`. It is drawn like any other; should
/// the draw repeat `used`, its first character is swapped for another code character.
pub fn fresh_pairing_code(used: &str) -> (r: String)
    ensures
        is_pairing_code(r@),
        r@ != used@,
{
    let code = generate_pairing_code();
    if !same_text(code.as_str(), used) {
        return code;
    }
    let first = code.as_str().get_char(0);
    let mut next = if first == 'A' {
        String::from_str("B")
    } else {
        String::from_str("A")
    };
    proof {
        reveal_strlit("A");
        reveal_strlit("B");
    }
    let rest = code.as_str().substring_char(1, PAIRING_CODE_LEN);
    next.append(rest);
    proof {
        assert(next@[0] != code@[0]);
        assert(next@.len() == PAIRING_CODE_LEN);
        assert forall|i: int| 0 <= i < next@.len() implies is_code_char(#[trigger] next@[i]) by {
            if i > 0 {
                assert(next@[i] == code@[i]);
            }
        }
    }
    next
}

} // verus!
