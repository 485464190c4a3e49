//! Sessions, invite codes and the gates of registration.

use vstd::prelude::*;
use crate::api::HttpError;
use crate::models::{NewUser, Session};
use crate::text::{bytes_before, utf8_bytes, compare_str, Precedence};
use crate::utils::{process_pass, PassError, is_stored_hash_of, bcrypt_text, sha512_crypt_text};
use vstd::utf8::encode_utf8;

verus! {

impl NewUser {
    /// Replaces the password by its stored hash (see `process_pass`), which
    /// always succeeds.
    pub fn hash_password(&mut self) -> (r: Result<(), PassError>)
        ensures
            r is Ok,
            is_stored_hash_of(final(self).pass@, old(self).pass@),
            exists|s1: Seq<char>, s2: Seq<u8>| s1.len() == 16 && s2.len() == 16
                && final(self).pass@ == #[trigger] bcrypt_text("2b"@, 10, s2,
                    encode_utf8(sha512_crypt_text(encode_utf8(old(self).pass@), s1))),
            final(self).email == old(self).email,
            final(self).created == old(self).created,
            r is Err ==> *final(self) == *old(self),
            r is Ok ==> final(self).pass@.len() == 60
                && final(self).pass@.subrange(0, 7) == seq!['$', '2', 'b', '$', '1', '0', '$'],
    {
        match process_pass(self.pass.as_str()) {
            Ok(h) => {
                self.pass = h;
                Ok(())
            },
            Err(e) => Err(e),
        }
    }
}

/// What a request with a session id is granted.
#[derive(Debug, Clone, Copy, PartialEq, Eq)]
pub enum SessionGate {
    /// The session exists and is still valid.
    Admit,
    /// The session has expired; it is to be deleted.
    Expired,
    /// No session with that id could be found.
    Unknown,
}

/// Decides whether a session found at `now` admits its request; `None`
/// stands for a session id that matches no session.
pub fn session_gate(found: Option<&Session>, now: i64) -> (g: SessionGate)
    ensures
        g == match found {
            None => SessionGate::Unknown,
            Some(s) => if now < s.valid_until { SessionGate::Admit } else { SessionGate::Expired },
        },
{
    match found {
        None => SessionGate::Unknown,
        Some(s) => if s.is_valid(now) { SessionGate::Admit } else { SessionGate::Expired },
    }
}

/// Length of an invite code.
pub const INVITE_CODE_LEN: usize = 10;

/// The characters of invite codes: ASCII letters and digits.
pub open spec fn is_code_char(c: char) -> bool {
    ||| 48 <= (c as u32) <= 57
    ||| 65 <= (c as u32) <= 90
    ||| 97 <= (c as u32) <= 122
}

/// The characters of invite codes are exactly the ASCII digits `0` to `9`
/// and the ASCII letters `A` to `Z` and `a` to `z`.
pub proof fn lemma_code_chars_are_ascii_alphanumerics(c: char)
    ensures
        is_code_char(c) <==> (('0' as u32) <= (c as u32) <= ('9' as u32)
            || ('A' as u32) <= (c as u32) <= ('Z' as u32)
            || ('a' as u32) <= (c as u32) <= ('z' as u32)),
{
}

/// A well-formed invite code: ten ASCII letters and digits.
pub open spec fn is_invite_code(s: Seq<char>) -> bool {
    &&& s.len() == INVITE_CODE_LEN
    &&& forall|i: int| 0 <= i < s.len() ==> #[trigger] is_code_char(s[i])
}

/// Calls `rand`'s `Alphanumeric.sample_string` with the thread-local
/// generator. Claims what holds of every outcome: `len` characters, each an
/// ASCII letter or digit; which ones is left to chance.
#[verifier::external_body]
fn random_alphanumeric(len: usize) -> (s: String)
    ensures
        s@.len() == len,
        forall|i: int| 0 <= i < s@.len() ==> #[trigger] is_code_char(s@[i]),
{
    rand::distributions::DistString::sample_string(&rand::distributions::Alphanumeric, &mut rand::thread_rng(), len)
}

/// Appends `n` fresh random invite codes to `codes`.
pub fn generate_invite_codes(codes: &mut Vec<String>, n: usize)
    requires
        old(codes)@.len() + n <= usize::MAX,
    ensures
        final(codes)@.len() == old(codes)@.len() + n,
        final(codes)@.subrange(0, old(codes)@.len() as int) == old(codes)@,
        forall|i: int| old(codes)@.len() <= i < final(codes)@.len() ==> is_invite_code(#[trigger] final(codes)@[i]@),
{
    let ghost before = codes@;
    let mut k: usize = 0;
    while k < n
        invariant
            k <= n,
            before.len() + n <= usize::MAX,
            codes@.len() == before.len() + k,
            codes@.subrange(0, before.len() as int) == before,
            forall|i: int| before.len() <= i < codes@.len() ==> is_invite_code(#[trigger] codes@[i]@),
        decreases n - k,
    {
        let code = random_alphanumeric(INVITE_CODE_LEN);
        let ghost prev = codes@;
        codes.push(code);
        assert(codes@.subrange(0, before.len() as int) =~= prev.subrange(0, before.len() as int));
        k = k + 1;
    }
}

/// The codes are in ascending byte order, the order of `Ord` on strings.
pub open spec fn codes_sorted(codes: Seq<String>) -> bool {
    forall|i: int, j: int|
        0 <= i < j < codes.len() ==> !bytes_before(utf8_bytes(#[trigger] codes[j]@), utf8_bytes(#[trigger] codes[i]@))
}

/// `code` is among `codes`.
pub open spec fn holds_code(codes: Seq<String>, code: Seq<char>) -> bool {
    exists|j: int| 0 <= j < codes.len() && #[trigger] codes[j]@ == code
}

/// Sortedness and membership of invite codes: no codes and a single code
/// are sorted, two codes are sorted exactly when the second does not come
/// before the first in byte order; every code at a place of the list is
/// held by it, and an empty list holds none.
pub proof fn lemma_sorted_and_held_codes(codes: Seq<String>, a: String, b: String, i: int)
    ensures
        codes_sorted(Seq::<String>::empty()),
        codes_sorted(seq![a]),
        codes_sorted(seq![a, b]) <==> !bytes_before(utf8_bytes(b@), utf8_bytes(a@)),
        0 <= i < codes.len() ==> holds_code(codes, codes[i]@),
        !holds_code(Seq::<String>::empty(), a@),
{
    let p = seq![a, b];
    if !bytes_before(utf8_bytes(b@), utf8_bytes(a@)) {
        assert forall|x: int, y: int| 0 <= x < y < p.len() implies
            !bytes_before(utf8_bytes(#[trigger] p[y]@), utf8_bytes(#[trigger] p[x]@)) by {
            assert(x == 0 && y == 1);
        }
    } else {
        assert(p[1] == b && p[0] == a);
    }
    if 0 <= i < codes.len() {
        assert(codes[i]@ == codes[i]@);
    }
}

/// Searches `codes` for `code` by halving. An index it gives always holds
/// the code; on sorted codes it finds every code that is there.
pub fn binary_search(codes: &Vec<String>, code: &str) -> (r: Option<usize>)
    ensures
        r matches Some(i) ==> i < codes@.len() && codes@[i as int]@ == code@,
        codes_sorted(codes@) && holds_code(codes@, code@) ==> r is Some,
{
    let mut lo: usize = 0;
    let mut hi: usize = codes.len();
    while lo < hi
        invariant
            lo <= hi <= codes@.len(),
            codes_sorted(codes@) ==> forall|j: int|
                0 <= j < codes@.len() && !(lo <= j < hi) ==> #[trigger] codes@[j]@ != code@,
        decreases hi - lo,
    {
        let mid = lo + (hi - lo) / 2;
        match compare_str(code, codes[mid].as_str()) {
            Precedence::Same => return Some(mid),
            Precedence::Before => {
                proof {
                    if codes_sorted(codes@) {
                        assert forall|j: int| 0 <= j < codes@.len() && !(lo <= j < mid) implies #[trigger] codes@[j]@ != code@ by {
                            if mid < j && j < codes@.len() && codes@[j]@ == code@ {
                                assert(!bytes_before(utf8_bytes(codes@[j]@), utf8_bytes(codes@[mid as int]@)));
                            }
                            if j == mid && codes@[j]@ == code@ {
                                let b = utf8_bytes(code@);
                                assert(!bytes_before(b, b));
                            }
                        }
                    }
                }
                hi = mid;
            },
            Precedence::After => {
                proof {
                    if codes_sorted(codes@) {
                        assert forall|j: int| 0 <= j < codes@.len() && !(mid + 1 <= j < hi) implies #[trigger] codes@[j]@ != code@ by {
                            if 0 <= j && j < mid && codes@[j]@ == code@ {
                                assert(!bytes_before(utf8_bytes(codes@[mid as int]@), utf8_bytes(codes@[j]@)));
                            }
                            if j == mid && codes@[j]@ == code@ {
                                let b = utf8_bytes(code@);
                                assert(!bytes_before(b, b));
                            }
                        }
                    }
                }
                lo = mid + 1;
            },
        }
    }
    None
}

/// Uses up an invite code: when the search finds it, it is removed (the last
/// code takes its place) and the result is `true`; otherwise nothing changes.
pub fn redeem_invite_code(codes: &mut Vec<String>, code: &str) -> (r: bool)
    ensures
        r ==> exists|i: int| 0 <= i < old(codes)@.len() && #[trigger] old(codes)@[i]@ == code@
            && final(codes)@ == old(codes)@.update(i, old(codes)@.last()).drop_last(),
        !r ==> final(codes)@ == old(codes)@,
        codes_sorted(old(codes)@) && holds_code(old(codes)@, code@) ==> r,
{
    match binary_search(codes, code) {
        Some(i) => {
            codes.swap_remove(i);
            true
        },
        None => false,
    }
}

/// Redeeming a code uses up exactly one copy of it: the codes that remain
/// are the old ones with one occurrence of the redeemed code taken out.
pub proof fn lemma_redeem_takes_out_one(codes: Seq<String>, i: int)
    requires
        0 <= i < codes.len(),
    ensures
        codes.update(i, codes.last()).drop_last().to_multiset() == codes.to_multiset().remove(codes[i]),
{
    broadcast use vstd::seq_lib::to_multiset_update, vstd::seq_lib::to_multiset_remove,
        vstd::multiset::group_multiset_axioms;
    let u = codes.update(i, codes.last());
    assert(u.drop_last() =~= u.remove(u.len() - 1));
    assert(u[u.len() - 1] == codes.last());
    assert(u.to_multiset() == codes.to_multiset().insert(codes.last()).remove(codes[i]));
    assert(u.to_multiset().remove(codes.last()) =~= codes.to_multiset().remove(codes[i]));
}

/// Whether a registration may go on: not for an email that is taken, and,
/// when an invite code is given, only if it can be redeemed (it is then used
/// up). Without an invite code registration is open.
pub fn register_gate(user_exists: bool, invite_code: Option<&str>, codes: &mut Vec<String>) -> (r: Result<(), HttpError>)
    ensures
        user_exists ==> r == Err::<(), HttpError>(HttpError::Conflict) && final(codes)@ == old(codes)@,
        !user_exists && invite_code is None ==> r is Ok && final(codes)@ == old(codes)@,
        !user_exists && invite_code is Some ==> {
            let code = invite_code->0@;
            &&& r is Ok ==> exists|i: int| 0 <= i < old(codes)@.len() && #[trigger] old(codes)@[i]@ == code
                && final(codes)@ == old(codes)@.update(i, old(codes)@.last()).drop_last()
            &&& r is Err ==> r == Err::<(), HttpError>(HttpError::Forbidden) && final(codes)@ == old(codes)@
            &&& codes_sorted(old(codes)@) && holds_code(old(codes)@, code) ==> r is Ok
        },
{
    if user_exists {
        return Err(HttpError::Conflict);
    }
    match invite_code {
        Some(code) => {
            if redeem_invite_code(codes, code) {
                Ok(())
            } else {
                Err(HttpError::Forbidden)
            }
        },
        None => Ok(()),
    }
}

/// How a login is answered once its body has been read: an email that no
/// user has is unauthorized, a password that does not match the stored
/// hash is forbidden, and otherwise a fresh session may be opened.
pub fn login_gate(user_found: bool, pass_matches: bool) -> (r: Result<(), HttpError>)
    ensures
        !user_found ==> r == Err::<(), HttpError>(HttpError::Unauthorized),
        user_found && !pass_matches ==> r == Err::<(), HttpError>(HttpError::Forbidden),
        user_found && pass_matches ==> r is Ok,
{
    if !user_found {
        Err(HttpError::Unauthorized)
    } else if !pass_matches {
        Err(HttpError::Forbidden)
    } else {
        Ok(())
    }
}

} // verus!
