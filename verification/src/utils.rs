//! Password hashing, and the chat message that reports a failing check.

use vstd::prelude::*;
use crate::models::Check;
use crate::text::{int_decimal, i64_to_string};
use crate::time::{in_calendar, second_stamp, format_second_stamp};
use vstd::utf8::encode_utf8;

verus! {

/// A chat message: a list of attachments.
#[derive(Debug)]
pub struct Message<'a> {
    pub attachments: Vec<Attachment<'a>>,
}

/// One attachment of a chat message.
#[derive(Debug)]
pub struct Attachment<'a> {
    pub fallback: &'a str,
    pub color: &'a str,
    pub pretext: &'a str,
    pub text: &'a str,
    pub title: &'a str,
    pub title_link: &'a str,
    pub image_url: &'a str,
    pub fields: Vec<Field>,
}

/// A titled value shown in an attachment.
#[derive(Debug)]
pub struct Field {
    pub short: bool,
    pub title: String,
    pub value: String,
}

#[verifier::external_type_specification]
#[verifier::external_body]
pub struct ExPwhashError(pwhash::error::Error);

/// The bcrypt variant tags that `pwhash` can write.
#[derive(Debug, Clone, Copy, PartialEq, Eq)]
pub enum BcryptVariant {
    V2a,
    V2b,
    V2y,
}

/// The tag that a bcrypt hash of `v` starts with, between `$` signs.
pub open spec fn variant_tag(v: BcryptVariant) -> Seq<char> {
    match v {
        BcryptVariant::V2a => seq!['2', 'a'],
        BcryptVariant::V2b => seq!['2', 'b'],
        BcryptVariant::V2y => seq!['2', 'y'],
    }
}

/// The first characters of a bcrypt hash with variant `v` and `cost`
/// (`4 <= cost <= 31`): `$`, the tag, `$`, the cost in two digits, `$`.
pub open spec fn bcrypt_prefix(v: BcryptVariant, cost: u32) -> Seq<char> {
    seq!['$'] + variant_tag(v) + seq![
        '$',
        crate::text::digit_char((cost / 10) as int),
        crate::text::digit_char((cost % 10) as int),
        '$',
    ]
}

/// The SHA-512 crypt hash (default rounds) that `pwhash` writes for the
/// password bytes `pass` under the salt `salt`.
pub uninterp spec fn sha512_crypt_text(pass: Seq<u8>, salt: Seq<char>) -> Seq<char>;

/// The bcrypt hash that `pwhash` writes with the variant tag `tag` and
/// `cost` for the password bytes `pass` under the 16 salt bytes `salt`.
pub uninterp spec fn bcrypt_text(tag: Seq<char>, cost: u32, salt: Seq<u8>, pass: Seq<u8>) -> Seq<char>;

/// Calls `pwhash::sha512_crypt::hash`, which salts the password at random.
/// Claims what its source shows: it always succeeds (the random salt is
/// written in the alphabet that the salt check accepts), and the hash is
/// the one for the password's bytes under some 16-character salt:
/// 106 characters, `$6$`, the salt, `$` and 86 characters of digest.
/// Which salt is drawn is left to chance.
#[verifier::external_body]
fn sha512_crypt_hash(pass: &str) -> (r: Result<String, pwhash::error::Error>)
    ensures
        r is Ok,
        r matches Ok(h) ==> exists|salt: Seq<char>| salt.len() == 16
            && h@ == #[trigger] sha512_crypt_text(encode_utf8(pass@), salt),
        r matches Ok(h) ==> h@.len() == 106 && h@.subrange(0, 3) == seq!['$', '6', '$'],
{
    pwhash::sha512_crypt::hash(pass)
}

/// Calls `pwhash::bcrypt::hash_with` with the given variant and cost and a
/// random salt. Claims what its source shows: for a cost from 4 to 31 it
/// always succeeds, for any other cost it fails; the hash is the one for
/// the password's bytes under some 16-byte salt, 60 characters that start
/// with `bcrypt_prefix`. Which salt is drawn is left to chance.
#[verifier::external_body]
fn bcrypt_hash_with(variant: BcryptVariant, cost: u32, pass: &str) -> (r: Result<String, pwhash::error::Error>)
    ensures
        r is Ok <==> 4 <= cost <= 31,
        r matches Ok(h) ==> exists|salt: Seq<u8>| salt.len() == 16
            && h@ == #[trigger] bcrypt_text(variant_tag(variant), cost, salt, encode_utf8(pass@)),
        r matches Ok(h) ==> h@.len() == 60 && h@.subrange(0, 7) == bcrypt_prefix(variant, cost),
{
    let variant = match variant {
        BcryptVariant::V2a => pwhash::bcrypt::BcryptVariant::V2a,
        BcryptVariant::V2b => pwhash::bcrypt::BcryptVariant::V2b,
        BcryptVariant::V2y => pwhash::bcrypt::BcryptVariant::V2y,
    };
    pwhash::bcrypt::hash_with(pwhash::bcrypt::BcryptSetup { variant: Some(variant), cost: Some(cost), salt: None }, pass)
}

/// The stored hash of the password `pass` under the salts `s1` (SHA-512
/// crypt) and `s2` (bcrypt): bcrypt, variant 2b, cost 10, over the bytes of
/// the SHA-512 crypt hash of the password's bytes.
pub open spec fn stored_hash(pass: Seq<char>, s1: Seq<char>, s2: Seq<u8>) -> Seq<char> {
    bcrypt_text(seq!['2', 'b'], 10, s2, encode_utf8(sha512_crypt_text(encode_utf8(pass), s1)))
}

/// The hash is the stored hash of `pass` under some pair of salts.
pub open spec fn is_stored_hash_of(h: Seq<char>, pass: Seq<char>) -> bool {
    exists|s1: Seq<char>, s2: Seq<u8>| s1.len() == 16 && s2.len() == 16 && h == #[trigger] stored_hash(pass, s1, s2)
}

/// A stored hash of a password is bcrypt (tag `2b`, cost 10) over the UTF-8
/// bytes of the SHA-512 crypt hash of the password's UTF-8 bytes, each under
/// a 16-unit salt; it depends on the password given, not on another one.
pub proof fn lemma_stored_hash_is_over_the_password(h: Seq<char>, pass: Seq<char>)
    ensures
        is_stored_hash_of(h, pass) <==> exists|s1: Seq<char>, s2: Seq<u8>| s1.len() == 16 && s2.len() == 16
            && h == #[trigger] bcrypt_text("2b"@, 10, s2, encode_utf8(sha512_crypt_text(encode_utf8(pass), s1))),
{
    reveal_strlit("2b");
    assert("2b"@ =~= seq!['2', 'b']);
    if is_stored_hash_of(h, pass) {
        let (s1, s2) = choose|s1: Seq<char>, s2: Seq<u8>| s1.len() == 16 && s2.len() == 16 && h == #[trigger] stored_hash(pass, s1, s2);
        assert(h == bcrypt_text("2b"@, 10, s2, encode_utf8(sha512_crypt_text(encode_utf8(pass), s1))));
    }
    if exists|s1: Seq<char>, s2: Seq<u8>| s1.len() == 16 && s2.len() == 16
            && h == #[trigger] bcrypt_text("2b"@, 10, s2, encode_utf8(sha512_crypt_text(encode_utf8(pass), s1))) {
        let (s1, s2) = choose|s1: Seq<char>, s2: Seq<u8>| s1.len() == 16 && s2.len() == 16
            && h == #[trigger] bcrypt_text("2b"@, 10, s2, encode_utf8(sha512_crypt_text(encode_utf8(pass), s1)));
        assert(h == stored_hash(pass, s1, s2));
    }
}

/// Why a password could not be hashed.
#[derive(Debug, Clone, PartialEq)]
pub enum PassError {
    /// `pwhash` reported an error.
    Hash,
}

/// Hashes a password for storage: its SHA-512 crypt hash, hashed again with
/// bcrypt (variant 2b, cost 10), each under a random salt. It always
/// succeeds; a stored hash has 60 characters and starts with `$2b$10$`, so
/// it differs from every password that does not have that shape itself.
pub fn process_pass(pass: &str) -> (r: Result<String, PassError>)
    ensures
        r is Ok,
        r matches Ok(h) ==> is_stored_hash_of(h@, pass@),
        r matches Ok(h) ==> exists|s1: Seq<char>, s2: Seq<u8>| s1.len() == 16 && s2.len() == 16
            && h@ == #[trigger] bcrypt_text("2b"@, 10, s2,
                encode_utf8(sha512_crypt_text(encode_utf8(pass@), s1))),
        r matches Ok(h) ==> h@.len() == 60 && h@.subrange(0, 7) == seq!['$', '2', 'b', '$', '1', '0', '$'],
        r matches Ok(h) ==> (!(pass@.len() == 60 && pass@.subrange(0, 7) == seq!['$', '2', 'b', '$', '1', '0', '$'])
            ==> h@ != pass@),
{
    let inner = match sha512_crypt_hash(pass) {
        Ok(h) => h,
        Err(_) => return Err(PassError::Hash),
    };
    match bcrypt_hash_with(BcryptVariant::V2b, 10, inner.as_str()) {
        Ok(h) => {
            assert(bcrypt_prefix(BcryptVariant::V2b, 10) =~= seq!['$', '2', 'b', '$', '1', '0', '$']);
            proof {
                let s1 = choose|salt: Seq<char>| salt.len() == 16
                    && inner@ == #[trigger] sha512_crypt_text(encode_utf8(pass@), salt);
                let s2 = choose|salt: Seq<u8>| salt.len() == 16
                    && h@ == #[trigger] bcrypt_text(variant_tag(BcryptVariant::V2b), 10, salt, encode_utf8(inner@));
                assert(variant_tag(BcryptVariant::V2b) == seq!['2', 'b']);
                assert(h@ == stored_hash(pass@, s1, s2));
                reveal_strlit("2b");
                assert("2b"@ =~= seq!['2', 'b']);
                assert(h@ == bcrypt_text("2b"@, 10, s2, encode_utf8(sha512_crypt_text(encode_utf8(pass@), s1))));
            }
            Ok(h)
        },
        Err(_) => Err(PassError::Hash),
    }
}

/// The webhook URL of a chat server: `{url}/hooks/{hook}`.
pub fn hook_endpoint(url: &str, hook: &str) -> (r: String)
    ensures
        r@ == url@ + "/hooks/"@ + hook@,
{
    let mut r = String::from_str(url);
    r.append("/hooks/");
    r.append(hook);
    r
}

/// The text that `format!("{:?}", s)` writes for a string: `s` quoted and
/// escaped as `Debug` does it.
pub uninterp spec fn debug_text(s: Seq<char>) -> Seq<char>;

/// Writes `s` with `format!("{:?}", s)`. Claims that the text is
/// `debug_text(s@)`, a function of `s` alone.
#[verifier::external_body]
fn debug_quote(s: &str) -> (r: String)
    ensures
        r@ == debug_text(s@),
{
    format!("{:?}", s)
}

/// The status that an alert reports: the check's HTTP status, or 418 when
/// it has none.
pub open spec fn reported_status(check: Check) -> i32 {
    match check.http_status {
        Some(s) => s,
        None => 418,
    }
}

/// When the check last ended, as the alert writes it.
pub open spec fn last_time_text(check: Check) -> Seq<char> {
    match check.last_end {
        Some(t) => second_stamp(t),
        None => "No timestamp for last check end, id: "@ + int_decimal(check.id as int),
    }
}

/// An alert reports the status that the check holds, and 418 only for a
/// check that has none; it dates the alert by the check's last end, written
/// with `%Y-%m-%dT%H:%M:%S`, or names the check by its id when it never
/// ended.
pub proof fn lemma_alert_reports_the_check(c: Check)
    ensures
        c.http_status matches Some(s) ==> reported_status(c) == s,
        c.http_status is None ==> reported_status(c) == 418,
        c.last_end matches Some(t) ==> last_time_text(c) == second_stamp(t),
        c.last_end is None ==> last_time_text(c) == "No timestamp for last check end, id: "@ + int_decimal(c.id as int),
{
}

/// The texts of an alert about a check that answered with an error.
#[derive(Debug, Clone, PartialEq)]
pub struct Alert {
    pub url: String,
    pub fallback: String,
    pub text: String,
}

impl Alert {
    /// The chat message for this alert: one crimson attachment titled and
    /// linked with the check's URL, with no pretext, image or fields.
    pub fn message(&self) -> (m: Message<'_>)
        ensures
            m.attachments@.len() == 1,
            m.attachments@[0].fallback@ == self.fallback@,
            m.attachments@[0].text@ == self.text@,
            m.attachments@[0].title@ == self.url@,
            m.attachments@[0].title_link@ == self.url@,
            m.attachments@[0].color@ == "#DC143C"@,
            m.attachments@[0].pretext@ == ""@,
            m.attachments@[0].image_url@ == ""@,
            m.attachments@[0].fields@.len() == 0,
    {
        let attachment = Attachment {
            fallback: self.fallback.as_str(),
            color: "#DC143C",
            pretext: "",
            text: self.text.as_str(),
            title: self.url.as_str(),
            title_link: self.url.as_str(),
            image_url: "",
            fields: Vec::new(),
        };
        let mut attachments = Vec::new();
        attachments.push(attachment);
        Message { attachments }
    }
}

/// The alert to send about a check: one exactly when its status (418 when it
/// has none) is above 400.
pub fn alert_on_error_code(check: &Check) -> (r: Option<Alert>)
    requires
        check.last_end matches Some(t) ==> in_calendar(t),
    ensures
        r is Some <==> reported_status(*check) > 400,
        check.http_status matches Some(s) ==> (r is Some <==> s > 400),
        check.http_status is None ==> r is Some,
        check.http_status matches Some(s) ==> (r is Some ==>
            r->0.text@ == debug_text(last_time_text(*check)) + " - code: "@ + int_decimal(s as int)),
        check.last_end matches Some(t) ==> (r is Some ==>
            r->0.text@ == debug_text(second_stamp(t)) + " - code: "@ + int_decimal(reported_status(*check) as int)),
        r matches Some(a) ==> {
            &&& a.url@ == check.url@
            &&& a.fallback@ == check.url@ + ", "@ + debug_text(last_time_text(*check)) + " - "@
                + int_decimal(reported_status(*check) as int)
            &&& a.text@ == debug_text(last_time_text(*check)) + " - code: "@
                + int_decimal(reported_status(*check) as int)
        },
{
    let last_time = match check.last_end {
        Some(time) => format_second_stamp(time),
        None => {
            let mut s = String::from_str("No timestamp for last check end, id: ");
            let id = i64_to_string(check.id as i64);
            s.append(id.as_str());
            s
        },
    };
    let status: i32 = match check.http_status {
        Some(s) => s,
        None => 418,
    };
    if status > 400 {
        let quoted = debug_quote(last_time.as_str());
        let code = i64_to_string(status as i64);
        let mut fallback = check.url.clone();
        fallback.append(", ");
        fallback.append(quoted.as_str());
        fallback.append(" - ");
        fallback.append(code.as_str());
        let mut text = quoted.clone();
        text.append(" - code: ");
        text.append(code.as_str());
        Some(Alert { url: check.url.clone(), fallback, text })
    } else {
        None
    }
}

} // verus!
