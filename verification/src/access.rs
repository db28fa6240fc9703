//! Passphrase handling and the Windows access rule that keeps client files
//! private to the current user.
use vstd::prelude::*;
use crate::json::{is_digit, text_eq};
use crate::vault::{b64url_encode, base64_url_encode, random_bytes, wipe};
use crate::text::{strip_line_ends, trim_white, after_last, trim_start_char, trim_end_char,
    trim_line_ends, trim_text, last_field, trim_char};

verus! {

/// Why a passphrase was refused.
#[derive(PartialEq, Eq, Structural, Clone, Copy, Debug)]
pub enum PassphraseError {
    Empty,
    Mismatch,
    Randomness,
}

pub open spec fn passphrase_message(e: PassphraseError) -> Seq<char> {
    match e {
        PassphraseError::Empty => "Passphrase cannot be empty"@,
        PassphraseError::Mismatch => "Passphrases do not match"@,
        PassphraseError::Randomness => "Cannot gather random bytes"@,
    }
}

impl PassphraseError {
    /// The message shown for this error.
    pub fn message(&self) -> (r: &'static str)
        ensures
            r@ == passphrase_message(*self),
    {
        match self {
            PassphraseError::Empty => "Passphrase cannot be empty",
            PassphraseError::Mismatch => "Passphrases do not match",
            PassphraseError::Randomness => "Cannot gather random bytes",
        }
    }
}

/// Accepts a passphrase typed at the prompt: it may not be empty.
pub fn check_passphrase(value: &str) -> (r: Result<(), PassphraseError>)
    ensures
        r is Ok <==> value@.len() > 0,
        r matches Err(e) ==> e == PassphraseError::Empty,
{
    if value.is_empty() {
        Err(PassphraseError::Empty)
    } else {
        Ok(())
    }
}

/// The passphrase held in a passphrase file: its text without trailing
/// carriage returns and line feeds, which may not be empty.
pub fn passphrase_from_file(text: &str) -> (r: Result<String, PassphraseError>)
    ensures
        r matches Ok(p) ==> p@ == strip_line_ends(text@) && p@.len() > 0,
        r matches Err(e) ==> strip_line_ends(text@).len() == 0 && e == PassphraseError::Empty,
{
    let value = trim_line_ends(text);
    match check_passphrase(value.as_str()) {
        Ok(()) => Ok(value),
        Err(e) => Err(e),
    }
}

/// Accepts a new passphrase only when its confirmation is the same text.
pub fn confirm_passphrase(first: &str, second: &str) -> (r: Result<(), PassphraseError>)
    ensures
        r is Ok <==> first@ == second@,
        r matches Err(e) ==> e == PassphraseError::Mismatch,
{
    if text_eq(first, second) {
        Ok(())
    } else {
        Err(PassphraseError::Mismatch)
    }
}

/// How many random bytes a generated passphrase holds (256 bits).
pub const GENERATED_PASSPHRASE_BYTES: usize = 32;

/// The passphrase made from random bytes: their URL-safe base64 text
/// without padding, 43 characters for 32 bytes.
pub fn passphrase_from_random(bytes: &[u8]) -> (r: String)
    requires
        bytes.len() == GENERATED_PASSPHRASE_BYTES,
    ensures
        r@ == b64url_encode(bytes@),
        r@.len() == 43,
{
    base64_url_encode(bytes)
}

/// A fresh passphrase of 256 random bits from the operating system. The
/// random bytes are wiped once encoded.
pub fn generate_passphrase() -> (r: Result<String, PassphraseError>)
    ensures
        r matches Ok(p) ==> p@.len() == 43 && exists|b: Seq<u8>|
            b.len() == GENERATED_PASSPHRASE_BYTES && #[trigger] b64url_encode(b) == p@,
        r matches Err(e) ==> e == PassphraseError::Randomness,
{
    let mut bytes = match random_bytes(GENERATED_PASSPHRASE_BYTES) {
        Ok(b) => b,
        Err(_) => {
            return Err(PassphraseError::Randomness);
        },
    };
    let p = passphrase_from_random(bytes.as_slice());
    let ghost drawn = bytes@;
    wipe(&mut bytes);
    assert(b64url_encode(drawn) == p@);
    Ok(p)
}

/// A character of a security identifier.
pub open spec fn is_sid_char(c: char) -> bool {
    is_digit(c) || c == 'S' || c == '-'
}

/// The candidate identifier in the output of `whoami /user /fo csv /nh`:
/// the last comma-separated field of the trimmed output, without quotes.
pub open spec fn sid_field(output: Seq<char>) -> Seq<char> {
    trim_end_char(trim_start_char(after_last(trim_white(output), ','), '"'), '"')
}

/// A security identifier: `S-1-` followed by digits, `S` and `-` only.
pub open spec fn valid_sid(sid: Seq<char>) -> bool {
    sid.len() >= 4 && sid.take(4) == "S-1-"@ && forall|i: int|
        0 <= i < sid.len() ==> is_sid_char(#[trigger] sid[i])
}

fn starts_with_sid_prefix(s: &str) -> (r: bool)
    ensures
        r == (s@.len() >= 4 && s@.take(4) == "S-1-"@),
{
    let chars = crate::json::chars_of(s);
    proof {
        reveal_strlit("S-1-");
    }
    if chars.len() < 4 {
        return false;
    }
    let r = chars[0] == 'S' && chars[1] == '-' && chars[2] == '1' && chars[3] == '-';
    proof {
        if r {
            assert(s@.take(4) =~= "S-1-"@);
        } else {
            assert(s@.take(4)[0] != "S-1-"@[0] || s@.take(4)[1] != "S-1-"@[1] || s@.take(4)[2]
                != "S-1-"@[2] || s@.take(4)[3] != "S-1-"@[3]);
        }
    }
    r
}

/// The current user's security identifier, read from the output of
/// `whoami /user /fo csv /nh`; `None` where it is not one.
pub fn user_sid(output: &str) -> (r: Option<String>)
    ensures
        r matches Some(s) ==> s@ == sid_field(output@) && valid_sid(s@),
        r is None ==> !valid_sid(sid_field(output@)),
{
    let trimmed = trim_text(output);
    let field = last_field(trimmed.as_str(), ',');
    let sid = trim_char(field.as_str(), '"');
    assert(sid@ == sid_field(output@));
    if !starts_with_sid_prefix(sid.as_str()) {
        return None;
    }
    let chars = crate::json::chars_of(sid.as_str());
    let mut i: usize = 0;
    while i < chars.len()
        invariant
            chars@ == sid@,
            sid@ == sid_field(output@),
            i <= chars.len(),
            forall|j: int| 0 <= j < i ==> is_sid_char(#[trigger] chars@[j]),
        decreases chars.len() - i,
    {
        let c = chars[i];
        if !(('0' <= c && c <= '9') || c == 'S' || c == '-') {
            assert(!is_sid_char(sid@[i as int]));
            return None;
        }
        i += 1;
    }
    Some(sid)
}

/// The access rule granting the user full control: `*SID:F` for a file, with
/// object and container inheritance `(OI)(CI)` for a directory.
pub fn acl_grant(sid: &str, directory: bool) -> (r: String)
    ensures
        r@ == "*"@ + sid@ + ":"@ + (if directory {
            "(OI)(CI)"@
        } else {
            ""@
        }) + "F"@,
{
    let mut r = "*".to_owned();
    r.append(sid);
    r.append(":");
    if directory {
        r.append("(OI)(CI)");
    } else {
        r.append("");
    }
    r.append("F");
    r
}

} // verus!
