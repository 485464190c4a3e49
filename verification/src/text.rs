//! Decimal text for integers, as `Display` writes it and `str::parse` reads it.

use vstd::prelude::*;
use vstd::utf8::*;

verus! {

/// The character for a decimal digit `d` (`0 <= d < 10`).
pub open spec fn digit_char(d: int) -> char {
    if d == 0 { '0' }
    else if d == 1 { '1' }
    else if d == 2 { '2' }
    else if d == 3 { '3' }
    else if d == 4 { '4' }
    else if d == 5 { '5' }
    else if d == 6 { '6' }
    else if d == 7 { '7' }
    else if d == 8 { '8' }
    else { '9' }
}

/// Decimal digits of a natural number, most significant first, no leading zeros.
pub open spec fn nat_digits(n: nat) -> Seq<char>
    decreases n,
{
    if n < 10 {
        seq![digit_char(n as int)]
    } else {
        nat_digits(n / 10).push(digit_char((n % 10) as int))
    }
}

/// How `Display` writes an integer: an optional `-`, then its decimal digits.
pub open spec fn int_decimal(x: int) -> Seq<char> {
    if x < 0 {
        seq!['-'] + nat_digits((-x) as nat)
    } else {
        nat_digits(x as nat)
    }
}

/// A one-character string holding the digit `d`.
fn digit_str(d: u64) -> (s: &'static str)
    requires
        d < 10,
    ensures
        s@ == seq![digit_char(d as int)],
{
    if d == 0 {
        proof { reveal_strlit("0"); }
        "0"
    } else if d == 1 {
        proof { reveal_strlit("1"); }
        "1"
    } else if d == 2 {
        proof { reveal_strlit("2"); }
        "2"
    } else if d == 3 {
        proof { reveal_strlit("3"); }
        "3"
    } else if d == 4 {
        proof { reveal_strlit("4"); }
        "4"
    } else if d == 5 {
        proof { reveal_strlit("5"); }
        "5"
    } else if d == 6 {
        proof { reveal_strlit("6"); }
        "6"
    } else if d == 7 {
        proof { reveal_strlit("7"); }
        "7"
    } else if d == 8 {
        proof { reveal_strlit("8"); }
        "8"
    } else {
        proof { reveal_strlit("9"); }
        "9"
    }
}

/// Appends the decimal digits of `n` to `s`.
fn append_digits(s: &mut String, n: u64)
    ensures
        final(s)@ == old(s)@ + nat_digits(n as nat),
    decreases n,
{
    if n >= 10 {
        append_digits(s, n / 10);
    }
    s.append(digit_str(n % 10));
    assert(nat_digits(n as nat) == if n < 10 {
        seq![digit_char(n as int)]
    } else {
        nat_digits((n / 10) as nat).push(digit_char((n % 10) as int))
    });
}

/// Appends `x` written in decimal, as `format!("{}", x)` would write it.
pub fn append_i64(s: &mut String, x: i64)
    ensures
        final(s)@ == old(s)@ + int_decimal(x as int),
{
    if x < 0 {
        proof { reveal_strlit("-"); }
        s.append("-");
        let m: u64 = (-(x as i128)) as u64;
        append_digits(s, m);
        assert(old(s)@ + seq!['-'] + nat_digits(m as nat) == old(s)@ + (seq!['-'] + nat_digits(m as nat)));
    } else {
        append_digits(s, x as u64);
    }
}

/// `x` written in decimal, as `format!("{}", x)` writes it.
pub fn i64_to_string(x: i64) -> (s: String)
    ensures
        s@ == int_decimal(x as int),
{
    let mut s = String::new();
    append_i64(&mut s, x);
    assert(Seq::<char>::empty() + int_decimal(x as int) == int_decimal(x as int));
    s
}


/// Whether `c` is an ASCII decimal digit.
pub open spec fn is_digit(c: char) -> bool {
    48 <= (c as u32) && (c as u32) <= 57
}

/// The value of the ASCII digit `c`.
pub open spec fn digit_value(c: char) -> int {
    (c as u32) - 48
}

/// Why a string is no integer, as `core::num::IntErrorKind` names it.
#[derive(Debug, Clone, Copy, PartialEq, Eq)]
pub enum IntError {
    /// The string is empty.
    Empty,
    /// A character is no digit, or the string is a sign alone.
    InvalidDigit,
    /// The number is too large for the type.
    PosOverflow,
    /// The number is too small for the type.
    NegOverflow,
}

/// Reads the digit string `body` from the left, as far as the magnitude
/// `limit` allows: the first character that is no digit gives
/// `InvalidDigit`, the first digit that takes the number past `limit` gives
/// `overflow`, and a string that passes gives its value.
pub open spec fn scan_digits(body: Seq<char>, limit: int, overflow: IntError) -> Result<int, IntError>
    decreases body.len(),
{
    if body.len() == 0 {
        Ok(0)
    } else {
        match scan_digits(body.drop_last(), limit, overflow) {
            Err(e) => Err(e),
            Ok(v) => if !is_digit(body.last()) {
                Err(IntError::InvalidDigit)
            } else if 10 * v + digit_value(body.last()) > limit {
                Err(overflow)
            } else {
                Ok(10 * v + digit_value(body.last()))
            },
        }
    }
}

/// What `str::parse` gives for a signed integer type whose values run from
/// `-min_mag` to `max_mag`: an optional `+` or `-`, then one or more ASCII
/// digits; an empty string is `Empty` and a sign alone is `InvalidDigit`.
pub open spec fn parse_signed(s: Seq<char>, max_mag: int, min_mag: int) -> Result<int, IntError> {
    if s.len() == 0 {
        Err(IntError::Empty)
    } else if (s[0] == '+' || s[0] == '-') && s.len() == 1 {
        Err(IntError::InvalidDigit)
    } else if s[0] == '-' {
        match scan_digits(s.drop_first(), min_mag, IntError::NegOverflow) {
            Ok(v) => Ok(-v),
            Err(e) => Err(e),
        }
    } else if s[0] == '+' {
        scan_digits(s.drop_first(), max_mag, IntError::PosOverflow)
    } else {
        scan_digits(s, max_mag, IntError::PosOverflow)
    }
}

/// What `s.parse::<i64>()` gives.
pub open spec fn parse_i64_spec(s: Seq<char>) -> Result<i64, IntError> {
    match parse_signed(s, i64::MAX as int, -(i64::MIN as int)) {
        Ok(v) => Ok(v as i64),
        Err(e) => Err(e),
    }
}

/// What `s.parse::<i32>()` gives.
pub open spec fn parse_i32_spec(s: Seq<char>) -> Result<i32, IntError> {
    match parse_signed(s, i32::MAX as int, -(i32::MIN as int)) {
        Ok(v) => Ok(v as i32),
        Err(e) => Err(e),
    }
}

proof fn lemma_scan_bounds(body: Seq<char>, limit: int, overflow: IntError)
    requires
        limit >= 0,
    ensures
        scan_digits(body, limit, overflow) matches Ok(v) ==> 0 <= v <= limit,
    decreases body.len(),
{
    if body.len() > 0 {
        lemma_scan_bounds(body.drop_last(), limit, overflow);
    }
}

/// Reads the digits of `s` from character `start` on, with magnitude `limit`.
fn scan(s: &str, n: usize, start: usize, limit: u128, overflow: IntError) -> (r: Result<u128, IntError>)
    requires
        n == s@.len(),
        start <= n,
        limit <= 9223372036854775808u128,
    ensures
        match scan_digits(s@.subrange(start as int, n as int), limit as int, overflow) {
            Ok(v) => r == Ok::<u128, IntError>(v as u128),
            Err(e) => r == Err::<u128, IntError>(e),
        },
{
    let ghost body = s@.subrange(start as int, n as int);
    let mut acc: u128 = 0;
    let mut i: usize = start;
    assert(body.subrange(0, 0) =~= Seq::<char>::empty());
    while i < n
        invariant
            n == s@.len(),
            start <= i <= n,
            limit <= 9223372036854775808u128,
            body == s@.subrange(start as int, n as int),
            scan_digits(body.subrange(0, i - start), limit as int, overflow) == Ok::<int, IntError>(acc as int),
        decreases n - i,
    {
        let c = s.get_char(i);
        let ghost pre = body.subrange(0, i - start);
        let ghost next = body.subrange(0, i + 1 - start);
        assert(next.drop_last() =~= pre);
        assert(next.last() == c);
        proof { lemma_scan_bounds(pre, limit as int, overflow); }
        let cu = c as u32;
        if !(48 <= cu && cu <= 57) {
            proof { lemma_scan_prefix_err(body, i + 1 - start, limit as int, overflow); }
            return Err(IntError::InvalidDigit);
        }
        assert(acc * 10 <= 92233720368547758080u128) by (nonlinear_arith)
            requires
                acc <= 9223372036854775808u128;
        let w = acc * 10 + (cu - 48) as u128;
        i = i + 1;
        if w > limit {
            proof { lemma_scan_prefix_err(body, i - start, limit as int, overflow); }
            return Err(overflow);
        }
        acc = w;
    }
    assert(body.subrange(0, n - start) =~= body);
    Ok(acc)
}

/// Once a prefix of a digit string fails, the whole string fails the same way.
proof fn lemma_scan_prefix_err(body: Seq<char>, k: int, limit: int, overflow: IntError)
    requires
        0 <= k <= body.len(),
        scan_digits(body.subrange(0, k), limit, overflow) is Err,
    ensures
        scan_digits(body, limit, overflow) == scan_digits(body.subrange(0, k), limit, overflow),
    decreases body.len() - k,
{
    if k < body.len() {
        let next = body.subrange(0, k + 1);
        assert(next.drop_last() =~= body.subrange(0, k));
        lemma_scan_prefix_err(body, k + 1, limit, overflow);
    } else {
        assert(body.subrange(0, k) =~= body);
    }
}

/// Reads a signed integer whose magnitudes run up to `max_mag` (positive)
/// and `min_mag` (negative).
fn parse_signed_exec(s: &str, max_mag: u128, min_mag: u128) -> (r: Result<i128, IntError>)
    requires
        min_mag <= 9223372036854775808u128,
        max_mag <= 9223372036854775808u128,
    ensures
        match parse_signed(s@, max_mag as int, min_mag as int) {
            Ok(v) => r == Ok::<i128, IntError>(v as i128),
            Err(e) => r == Err::<i128, IntError>(e),
        },
{
    let n = s.unicode_len();
    if n == 0 {
        return Err(IntError::Empty);
    }
    let c0 = s.get_char(0);
    if (c0 == '+' || c0 == '-') && n == 1 {
        return Err(IntError::InvalidDigit);
    }
    if c0 == '-' {
        assert(s@.subrange(1, n as int) =~= s@.drop_first());
        proof { lemma_scan_bounds(s@.drop_first(), min_mag as int, IntError::NegOverflow); }
        match scan(s, n, 1, min_mag, IntError::NegOverflow) {
            Ok(v) => Ok(-(v as i128)),
            Err(e) => Err(e),
        }
    } else if c0 == '+' {
        assert(s@.subrange(1, n as int) =~= s@.drop_first());
        proof { lemma_scan_bounds(s@.drop_first(), max_mag as int, IntError::PosOverflow); }
        match scan(s, n, 1, max_mag, IntError::PosOverflow) {
            Ok(v) => Ok(v as i128),
            Err(e) => Err(e),
        }
    } else {
        assert(s@.subrange(0, n as int) =~= s@);
        proof { lemma_scan_bounds(s@, max_mag as int, IntError::PosOverflow); }
        match scan(s, n, 0, max_mag, IntError::PosOverflow) {
            Ok(v) => Ok(v as i128),
            Err(e) => Err(e),
        }
    }
}

/// Reads a signed 64-bit integer as `s.parse::<i64>()` does.
pub fn parse_i64(s: &str) -> (res: Result<i64, IntError>)
    ensures
        res == parse_i64_spec(s@),
{
    proof {
        lemma_parse_signed_bounds(s@, i64::MAX as int, -(i64::MIN as int));
    }
    match parse_signed_exec(s, 9223372036854775807, 9223372036854775808) {
        Ok(v) => Ok(v as i64),
        Err(e) => Err(e),
    }
}

/// Reads a signed 32-bit integer as `s.parse::<i32>()` does.
pub fn parse_i32(s: &str) -> (res: Result<i32, IntError>)
    ensures
        res == parse_i32_spec(s@),
{
    proof {
        lemma_parse_signed_bounds(s@, i32::MAX as int, -(i32::MIN as int));
    }
    match parse_signed_exec(s, 2147483647, 2147483648) {
        Ok(v) => Ok(v as i32),
        Err(e) => Err(e),
    }
}

proof fn lemma_parse_signed_bounds(s: Seq<char>, max_mag: int, min_mag: int)
    requires
        max_mag >= 0,
        min_mag >= 0,
    ensures
        parse_signed(s, max_mag, min_mag) matches Ok(v) ==> -min_mag <= v <= max_mag,
{
    if s.len() > 0 {
        lemma_scan_bounds(s.drop_first(), min_mag, IntError::NegOverflow);
        lemma_scan_bounds(s.drop_first(), max_mag, IntError::PosOverflow);
        lemma_scan_bounds(s, max_mag, IntError::PosOverflow);
    }
}

proof fn lemma_digit_char(d: int)
    requires
        0 <= d < 10,
    ensures
        is_digit(digit_char(d)),
        digit_value(digit_char(d)) == d,
        digit_char(d) != '+',
        digit_char(d) != '-',
{
}

proof fn lemma_nat_digits_scan(n: nat, limit: int, overflow: IntError)
    requires
        n <= limit,
    ensures
        nat_digits(n).len() > 0,
        is_digit(nat_digits(n)[0]),
        scan_digits(nat_digits(n), limit, overflow) == Ok::<int, IntError>(n as int),
    decreases n,
{
    if n < 10 {
        lemma_digit_char(n as int);
        let s = nat_digits(n);
        assert(s.drop_last() =~= Seq::<char>::empty());
    } else {
        lemma_digit_char((n % 10) as int);
        lemma_nat_digits_scan(n / 10, limit, overflow);
        let s = nat_digits(n);
        assert(s.drop_last() =~= nat_digits(n / 10));
        assert(s[0] == nat_digits(n / 10)[0]);
    }
}

/// Every 64-bit integer that the library writes in decimal reads back as
/// itself: `parse_i64(i64_to_string(x)) == Ok(x)`.
pub proof fn lemma_decimal_round_trip_i64(x: i64)
    ensures
        parse_i64_spec(int_decimal(x as int)) == Ok::<i64, IntError>(x),
{
    let s = int_decimal(x as int);
    if x < 0 {
        lemma_nat_digits_scan((-x) as nat, -(i64::MIN as int), IntError::NegOverflow);
        assert(s.drop_first() =~= nat_digits((-x) as nat));
    } else {
        lemma_nat_digits_scan(x as nat, i64::MAX as int, IntError::PosOverflow);
    }
}

/// The same for 32-bit integers: `parse_i32` reads back what the library
/// writes for an `i32`, so an id written out is read back by `parse_id`.
pub proof fn lemma_decimal_round_trip_i32(x: i32)
    ensures
        parse_i32_spec(int_decimal(x as int)) == Ok::<i32, IntError>(x),
{
    let s = int_decimal(x as int);
    if x < 0 {
        lemma_nat_digits_scan((-x) as nat, -(i32::MIN as int), IntError::NegOverflow);
        assert(s.drop_first() =~= nat_digits((-x) as nat));
    } else {
        lemma_nat_digits_scan(x as nat, i32::MAX as int, IntError::PosOverflow);
    }
}

proof fn lemma_scan_ignores_leading_zero(d: Seq<char>, limit: int, overflow: IntError)
    requires
        limit >= 0,
    ensures
        scan_digits(seq!['0'] + d, limit, overflow) == scan_digits(d, limit, overflow),
    decreases d.len(),
{
    let z = seq!['0'] + d;
    if d.len() == 0 {
        assert(z.drop_last() =~= Seq::<char>::empty());
        assert(z.last() == '0');
    } else {
        assert(z.drop_last() =~= seq!['0'] + d.drop_last());
        assert(z.last() == d.last());
        lemma_scan_ignores_leading_zero(d.drop_last(), limit, overflow);
    }
}

/// Reading an integer ignores a leading `+` and leading zeros, as
/// `str::parse` does: for a string `d` that does not start with a sign,
/// `"+" + d` and `"0" + d` read as `d` reads, as `i64` and as `i32`.
pub proof fn lemma_parse_ignores_plus_and_leading_zeros(d: Seq<char>)
    requires
        d.len() > 0,
        d[0] != '+',
        d[0] != '-',
    ensures
        parse_i64_spec(seq!['+'] + d) == parse_i64_spec(d),
        parse_i64_spec(seq!['0'] + d) == parse_i64_spec(d),
        parse_i32_spec(seq!['+'] + d) == parse_i32_spec(d),
        parse_i32_spec(seq!['0'] + d) == parse_i32_spec(d),
{
    assert((seq!['+'] + d).drop_first() =~= d);
    assert((seq!['+'] + d)[0] == '+');
    assert((seq!['0'] + d)[0] == '0');
    lemma_scan_ignores_leading_zero(d, i64::MAX as int, IntError::PosOverflow);
    lemma_scan_ignores_leading_zero(d, i32::MAX as int, IntError::PosOverflow);
}

/// The UTF-8 bytes of a string.
pub open spec fn utf8_bytes(s: Seq<char>) -> Seq<u8> {
    encode_utf8(s)
}

/// Whether two strings hold the same characters.
pub fn str_eq(a: &str, b: &str) -> (r: bool)
    ensures
        r == (a@ == b@),
{
    let ab = a.as_bytes();
    let bb = b.as_bytes();
    if ab.len() != bb.len() {
        return false;
    }
    let mut i: usize = 0;
    while i < ab.len()
        invariant
            ab@ == encode_utf8(a@),
            bb@ == encode_utf8(b@),
            ab@.len() == bb@.len(),
            i <= ab@.len(),
            ab@.subrange(0, i as int) == bb@.subrange(0, i as int),
        decreases ab@.len() - i,
    {
        if ab[i] != bb[i] {
            return false;
        }
        i = i + 1;
        assert(ab@.subrange(0, i as int) =~= ab@.subrange(0, i - 1).push(ab@[i - 1]));
        assert(bb@.subrange(0, i as int) =~= bb@.subrange(0, i - 1).push(bb@[i - 1]));
    }
    proof {
        assert(ab@ =~= ab@.subrange(0, ab@.len() as int));
        assert(bb@ =~= bb@.subrange(0, bb@.len() as int));
        encode_utf8_decode_utf8(a@);
        encode_utf8_decode_utf8(b@);
    }
    true
}

/// `a` comes strictly before `b` in lexicographic byte order, the order of
/// `Ord` on strings: at the first place where they differ `a` has the smaller
/// byte, or `a` is a proper prefix of `b`.
pub open spec fn bytes_before(a: Seq<u8>, b: Seq<u8>) -> bool {
    exists|i: int| {
        &&& 0 <= i <= a.len()
        &&& i <= b.len()
        &&& #[trigger] a.subrange(0, i) == b.subrange(0, i)
        &&& ((i < a.len() && i < b.len() && a[i] < b[i]) || (i == a.len() && i < b.len()))
    }
}

/// Byte order is lexicographic: after a common prefix of length `i`, the
/// string with the smaller byte at `i` comes first and the other does not,
/// a proper prefix comes before the longer string and not after it, and no
/// string comes before itself.
pub proof fn lemma_bytes_before_is_lexicographic(a: Seq<u8>, b: Seq<u8>, i: int)
    requires
        0 <= i <= a.len(),
        i <= b.len(),
        a.subrange(0, i) == b.subrange(0, i),
    ensures
        i < a.len() && i < b.len() && a[i] < b[i] ==> bytes_before(a, b) && !bytes_before(b, a),
        i == a.len() && i < b.len() ==> bytes_before(a, b) && !bytes_before(b, a),
        !bytes_before(a, a),
{
    assert(forall|k: int| 0 <= k < i ==> a[k] == #[trigger] b[k]) by {
        assert forall|k: int| 0 <= k < i implies a[k] == #[trigger] b[k] by {
            assert(a.subrange(0, i)[k] == a[k]);
            assert(b.subrange(0, i)[k] == b[k]);
        }
    }
    if (i < a.len() && i < b.len() && a[i] < b[i]) || (i == a.len() && i < b.len()) {
        assert(bytes_before(a, b));
        if bytes_before(b, a) {
            let j = choose|j: int| {
                &&& 0 <= j <= b.len()
                &&& j <= a.len()
                &&& #[trigger] b.subrange(0, j) == a.subrange(0, j)
                &&& ((j < b.len() && j < a.len() && b[j] < a[j]) || (j == b.len() && j < a.len()))
            };
            if j > i {
                assert(b.subrange(0, j)[i] == a.subrange(0, j)[i]);
                assert(false);
            } else if j < i {
                assert(a[j] == b[j]);
                assert(false);
            }
        }
    }
    if bytes_before(a, a) {
        let j = choose|j: int| {
            &&& 0 <= j <= a.len()
            &&& j <= a.len()
            &&& #[trigger] a.subrange(0, j) == a.subrange(0, j)
            &&& ((j < a.len() && j < a.len() && a[j] < a[j]) || (j == a.len() && j < a.len()))
        };
        assert(false);
    }
}

/// The outcome of comparing two strings.
#[derive(Debug, Clone, Copy, PartialEq, Eq)]
pub enum Precedence {
    Before,
    Same,
    After,
}

/// Compares two strings in lexicographic byte order.
pub fn compare_str(a: &str, b: &str) -> (r: Precedence)
    ensures
        r == Precedence::Before ==> bytes_before(utf8_bytes(a@), utf8_bytes(b@)),
        r == Precedence::Same ==> a@ == b@,
        r == Precedence::After ==> bytes_before(utf8_bytes(b@), utf8_bytes(a@)),
{
    let ab = a.as_bytes();
    let bb = b.as_bytes();
    let mut i: usize = 0;
    while i < ab.len() && i < bb.len()
        invariant
            ab@ == encode_utf8(a@),
            bb@ == encode_utf8(b@),
            i <= ab@.len(),
            i <= bb@.len(),
            ab@.subrange(0, i as int) == bb@.subrange(0, i as int),
        decreases ab@.len() - i,
    {
        if ab[i] < bb[i] {
            assert(ab@.subrange(0, i as int) == bb@.subrange(0, i as int));
            return Precedence::Before;
        }
        if ab[i] > bb[i] {
            assert(bb@.subrange(0, i as int) == ab@.subrange(0, i as int));
            return Precedence::After;
        }
        i = i + 1;
        assert(ab@.subrange(0, i as int) =~= ab@.subrange(0, i - 1).push(ab@[i - 1]));
        assert(bb@.subrange(0, i as int) =~= bb@.subrange(0, i - 1).push(bb@[i - 1]));
    }
    if i < bb.len() {
        assert(ab@.subrange(0, i as int) == bb@.subrange(0, i as int));
        Precedence::Before
    } else if i < ab.len() {
        assert(bb@.subrange(0, i as int) == ab@.subrange(0, i as int));
        Precedence::After
    } else {
        proof {
            assert(ab@ =~= ab@.subrange(0, i as int));
            assert(bb@ =~= bb@.subrange(0, i as int));
            encode_utf8_decode_utf8(a@);
            encode_utf8_decode_utf8(b@);
        }
        Precedence::Same
    }
}

} // verus!
