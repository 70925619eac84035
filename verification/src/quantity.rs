//! Unsigned numbers as text: reading them in a radix, writing them, and the
//! `0x` prefix that chain quantities and words carry.

#[allow(unused_imports)]
use crate::text;
use vstd::prelude::*;

verus! {

/// Why a text is no `u64`.
#[derive(Debug, Clone, Copy, PartialEq, Eq, Structural)]
pub enum NumberError {
    /// There is no text.
    Empty,
    /// A character is no digit, or there is a sign and nothing more.
    InvalidDigit,
    /// The digits stand for too large a number.
    PosOverflow,
}

impl NumberError {
    /// The message for logs.
    pub fn message(&self) -> (r: String)
        ensures
            match *self {
                NumberError::Empty => r@ == "cannot parse integer from empty string"@,
                NumberError::InvalidDigit => r@ == "invalid digit found in string"@,
                NumberError::PosOverflow => r@ == "number too large to fit in target type"@,
            },
    {
        match self {
            NumberError::Empty => String::from_str("cannot parse integer from empty string"),
            NumberError::InvalidDigit => String::from_str("invalid digit found in string"),
            NumberError::PosOverflow => String::from_str("number too large to fit in target type"),
        }
    }
}

/// Why a chain quantity was refused.
#[derive(Debug, Clone, Copy, PartialEq, Eq, Structural)]
pub enum HexError {
    /// What follows the prefix is not a hexadecimal `u64`, for this reason.
    NotU64(NumberError),
}

impl HexError {
    /// The message for logs.
    pub fn message(&self) -> (r: String)
        ensures
            r@ == "parse u64 from hex"@,
    {
        String::from_str("parse u64 from hex")
    }

    /// What is behind it.
    pub fn cause(&self) -> (r: NumberError)
        ensures
            *self == HexError::NotU64(r),
    {
        match self {
            HexError::NotU64(e) => *e,
        }
    }
}

/// `s` starts with the two characters `0x`.
pub open spec fn has_prefix(s: Seq<char>) -> bool {
    s.len() >= 2 && s[0] == '0' && s[1] == 'x'
}

/// `s` without its leading `0x`, as often as it stands there.
pub open spec fn stripped(s: Seq<char>) -> Seq<char>
    decreases s.len(),
{
    if has_prefix(s) {
        stripped(s.skip(2))
    } else {
        s
    }
}

/// The value of a digit in a radix of at most 36, letters in either case.
pub open spec fn digit_value(c: char) -> Option<nat> {
    if '0' <= c <= '9' {
        Some((c as nat - '0' as nat) as nat)
    } else if 'a' <= c <= 'z' {
        Some((c as nat - 'a' as nat + 10) as nat)
    } else if 'A' <= c <= 'Z' {
        Some((c as nat - 'A' as nat + 10) as nat)
    } else {
        None
    }
}

/// `c` is a digit in the radix.
pub open spec fn is_digit(c: char, radix: nat) -> bool {
    digit_value(c) matches Some(v) && v < radix
}

/// `s` holds digits of the radix only.
pub open spec fn all_digits(s: Seq<char>, radix: nat) -> bool {
    forall|i: int| 0 <= i < s.len() ==> is_digit(#[trigger] s[i], radix)
}

/// The number that a run of digits stands for, most significant digit first.
pub open spec fn digits_value(s: Seq<char>, radix: nat) -> nat
    decreases s.len(),
{
    if s.len() == 0 {
        0
    } else {
        digits_value(s.drop_last(), radix) * radix + digit_value(s.last()).unwrap_or(0)
    }
}

/// `s` without one leading plus sign.
pub open spec fn unsigned_part(s: Seq<char>) -> Seq<char> {
    if s.len() > 0 && s[0] == '+' {
        s.skip(1)
    } else {
        s
    }
}

/// The `u64` that `s` writes in the radix: an optional plus sign, then one or
/// more digits, and nothing else.
pub open spec fn unsigned_value(s: Seq<char>, radix: nat) -> Option<u64> {
    let digits = unsigned_part(s);
    if digits.len() > 0 && all_digits(digits, radix) && digits_value(digits, radix) <= u64::MAX {
        Some(digits_value(digits, radix) as u64)
    } else {
        None
    }
}

/// The digits in front already stand for too large a number, whatever follows
/// them.
pub open spec fn starts_too_large(s: Seq<char>, radix: nat) -> bool {
    exists|k: int|
        0 <= k <= s.len() && all_digits(#[trigger] s.take(k), radix) && digits_value(
            s.take(k),
            radix,
        ) > u64::MAX
}

/// Why a text that writes no `u64` in the radix does not: the first fault from
/// the front counts.
pub open spec fn number_error(s: Seq<char>, radix: nat) -> NumberError {
    if s.len() == 0 {
        NumberError::Empty
    } else if starts_too_large(unsigned_part(s), radix) {
        NumberError::PosOverflow
    } else {
        NumberError::InvalidDigit
    }
}

/// What reading `s` as a `u64` in the radix gives.
pub open spec fn unsigned_result(s: Seq<char>, radix: nat) -> Result<u64, NumberError> {
    match unsigned_value(s, radix) {
        Some(n) => Ok(n),
        None => Err(number_error(s, radix)),
    }
}

/// The digits of `n` in the radix, without leading zeros; zero is one digit.
pub open spec fn number_text(n: nat, radix: nat) -> Seq<char>
    decreases n,
    when radix >= 2
{
    if n < radix {
        seq![digit_char(n)]
    } else {
        proof {
            assert(n / radix < n) by (nonlinear_arith)
                requires
                    n >= radix,
                    radix >= 2,
            ;
        }
        number_text(n / radix, radix).push(digit_char(n % radix))
    }
}

/// The lower-case digit for a value below 16.
pub open spec fn digit_char(v: nat) -> char {
    if v < 10 {
        (v + '0' as nat) as char
    } else {
        (v - 10 + 'a' as nat) as char
    }
}

/// A chain quantity: `0x` and the hexadecimal digits of `n`.
pub open spec fn quantity_text(n: u64) -> Seq<char> {
    seq!['0', 'x'] + number_text(n as nat, 16)
}

/// Strips every leading `0x`.
pub fn strip_hex(s: &str) -> (r: String)
    ensures
        r@ == stripped(s@),
{
    let n: usize = s.unicode_len();
    let mut i: usize = 0;
    let mut rest = s.chars();
    let mut go: bool = true;
    proof {
        assert(s@.skip(0) =~= s@);
    }
    while go
        invariant
            i <= n,
            n == s@.len(),
            stripped(s@) == stripped(s@.skip(i as int)),
            go ==> vstd::std_specs::iter::IteratorSpec::remaining(&rest) == s@.skip(i as int),
            !go ==> !has_prefix(s@.skip(i as int)),
        decreases n - i + (if go { 1int } else { 0int }),
    {
        let first = rest.next();
        let second = rest.next();
        if n - i >= 2 && first == Some('0') && second == Some('x') {
            i = i + 2;
            assert(s@.skip(i - 2).skip(2) =~= s@.skip(i as int));
        } else {
            go = false;
        }
    }
    String::from_str(s.substring_char(i, n))
}

/// The value of a digit, if `c` is one in any radix of at most 36.
fn digit(c: char) -> (r: Option<u64>)
    ensures
        match r {
            Some(v) => digit_value(c) == Some(v as nat) && v < 36,
            None => digit_value(c) is None,
        },
{
    let code: u64 = c as u64;
    if '0' <= c && c <= '9' {
        Some(code - 0x30)
    } else if 'a' <= c && c <= 'z' {
        Some(code - 0x61 + 10)
    } else if 'A' <= c && c <= 'Z' {
        Some(code - 0x41 + 10)
    } else {
        None
    }
}

/// What one more character does to the part after the sign.
proof fn lemma_unsigned_part_push(s: Seq<char>, k: int)
    requires
        0 <= k < s.len(),
    ensures
        unsigned_part(s.take(k + 1)) == if k == 0 && s[0] == '+' {
            Seq::<char>::empty()
        } else {
            unsigned_part(s.take(k)).push(s[k])
        },
{
    let before = s.take(k);
    let after = s.take(k + 1);
    if k == 0 && s[0] == '+' {
        assert(after.skip(1) =~= Seq::<char>::empty());
    } else if s[0] == '+' {
        assert(after.skip(1) =~= before.skip(1).push(s[k]));
    } else {
        assert(after =~= before.push(s[k]));
    }
}

/// What one more character does to whether the digits in front are too large.
proof fn lemma_starts_too_large_push(s: Seq<char>, c: char, radix: nat)
    ensures
        starts_too_large(s.push(c), radix) <==> starts_too_large(s, radix) || (all_digits(
            s.push(c),
            radix,
        ) && digits_value(s.push(c), radix) > u64::MAX),
{
    let t = s.push(c);
    if starts_too_large(t, radix) {
        let k = choose|k: int|
            0 <= k <= t.len() && all_digits(#[trigger] t.take(k), radix) && digits_value(
                t.take(k),
                radix,
            ) > u64::MAX;
        if k <= s.len() {
            assert(t.take(k) =~= s.take(k));
        } else {
            assert(t.take(k) =~= t);
        }
    }
    if starts_too_large(s, radix) {
        let k = choose|k: int|
            0 <= k <= s.len() && all_digits(#[trigger] s.take(k), radix) && digits_value(
                s.take(k),
                radix,
            ) > u64::MAX;
        assert(t.take(k) =~= s.take(k));
    }
    assert(t.take(t.len() as int) =~= t);
}

/// Reads an unsigned number: an optional plus sign and digits of the radix.
pub fn parse_unsigned(s: &str, radix: u64) -> (r: Result<u64, NumberError>)
    requires
        2 <= radix <= 36,
    ensures
        r == unsigned_result(s@, radix as nat),
{
    let mut value: u64 = 0;
    let mut fault: Option<NumberError> = None;
    let mut any: bool = false;
    let mut first: bool = true;
    let ghost base = radix as nat;
    for c in it: s.chars()
        invariant
            it.seq() == s@,
            2 <= radix <= 36,
            base == radix as nat,
            first == (it.index() == 0),
            any == (unsigned_part(s@.take(it.index())).len() > 0),
            fault is None ==> all_digits(unsigned_part(s@.take(it.index())), base) && value
                == digits_value(unsigned_part(s@.take(it.index())), base),
            fault is Some ==> it.index() > 0 && (!all_digits(
                unsigned_part(s@.take(it.index())),
                base,
            ) || digits_value(unsigned_part(s@.take(it.index())), base) > u64::MAX),
            fault is Some && fault != Some(NumberError::PosOverflow) ==> fault == Some(
                NumberError::InvalidDigit,
            ) && !all_digits(unsigned_part(s@.take(it.index())), base),
            starts_too_large(unsigned_part(s@.take(it.index())), base) <==> fault == Some(
                NumberError::PosOverflow,
            ),
    {
        let ghost k = it.index();
        let ghost done = unsigned_part(s@.take(k));
        proof {
            lemma_unsigned_part_push(s@, k);
            lemma_starts_too_large_push(done, c, base);
            assert(done.push(c).drop_last() =~= done);
        }
        if first && c == '+' {
            first = false;
        } else {
            first = false;
            any = true;
            let mut next: Result<u64, NumberError> = Err(NumberError::InvalidDigit);
            match digit(c) {
                Some(d) => {
                    if d < radix {
                        next = Err(NumberError::PosOverflow);
                        if let Some(shifted) = value.checked_mul(radix) {
                            if let Some(v) = shifted.checked_add(d) {
                                next = Ok(v);
                            }
                        }
                    }
                },
                None => {},
            }
            proof {
                assert(done.push(c)[done.len() as int] == c);
                assert(is_digit(c, base) && all_digits(done, base) ==> all_digits(
                    done.push(c),
                    base,
                ));
                assert(all_digits(done.push(c), base) ==> is_digit(c, base) && all_digits(
                    done,
                    base,
                )) by {
                    if all_digits(done.push(c), base) {
                        assert forall|i: int| 0 <= i < done.len() implies is_digit(
                            #[trigger] done[i],
                            base,
                        ) by {
                            assert(done.push(c)[i] == done[i]);
                        }
                    }
                }
                let v = digits_value(done, base);
                assert(v * base >= v) by (nonlinear_arith)
                    requires
                        base >= 2,
                ;
            }
            if fault.is_none() {
                match next {
                    Ok(v) => {
                        value = v;
                    },
                    Err(e) => {
                        fault = Some(e);
                    },
                }
            }
        }
    }
    assert(s@.take(s@.len() as int) =~= s@);
    match fault {
        Some(e) => Err(e),
        None => {
            if any {
                Ok(value)
            } else if first {
                Err(NumberError::Empty)
            } else {
                Err(NumberError::InvalidDigit)
            }
        },
    }
}

/// Reads a chain quantity, with any number of leading `0x`.
pub fn parse_hex_u64(s: &str) -> (r: Result<u64, HexError>)
    ensures
        r == match unsigned_result(stripped(s@), 16) {
            Ok(n) => Ok::<u64, HexError>(n),
            Err(e) => Err(HexError::NotU64(e)),
        },
{
    let digits = strip_hex(s);
    match parse_unsigned(digits.as_str(), 16) {
        Ok(n) => Ok(n),
        Err(e) => Err(HexError::NotU64(e)),
    }
}

/// The digit for a value below 16, as text.
fn digit_text(v: u64) -> (r: &'static str)
    requires
        v < 16,
    ensures
        r@ == seq![digit_char(v as nat)],
{
    proof {
        reveal_strlit("0");
        reveal_strlit("1");
        reveal_strlit("2");
        reveal_strlit("3");
        reveal_strlit("4");
        reveal_strlit("5");
        reveal_strlit("6");
        reveal_strlit("7");
        reveal_strlit("8");
        reveal_strlit("9");
        reveal_strlit("a");
        reveal_strlit("b");
        reveal_strlit("c");
        reveal_strlit("d");
        reveal_strlit("e");
        reveal_strlit("f");
    }
    let r = match v {
        0 => "0",
        1 => "1",
        2 => "2",
        3 => "3",
        4 => "4",
        5 => "5",
        6 => "6",
        7 => "7",
        8 => "8",
        9 => "9",
        10 => "a",
        11 => "b",
        12 => "c",
        13 => "d",
        14 => "e",
        _ => "f",
    };
    assert(r@ =~= seq![digit_char(v as nat)]);
    r
}

/// Writes `n` in the radix.
pub fn format_unsigned(n: u64, radix: u64) -> (r: String)
    requires
        2 <= radix <= 16,
    ensures
        r@ == number_text(n as nat, radix as nat),
    decreases n,
{
    if n < radix {
        String::from_str(digit_text(n))
    } else {
        assert(n / radix < n) by (nonlinear_arith)
            requires
                n >= radix,
                radix >= 2,
        ;
        let head = format_unsigned(n / radix, radix);
        let ghost before = head@;
        let r = head.concat(digit_text(n % radix));
        assert(r@ =~= before.push(digit_char((n % radix) as nat)));
        r
    }
}

/// Writes a chain quantity.
pub fn hex_quantity(n: u64) -> (r: String)
    ensures
        r@ == quantity_text(n),
{
    proof {
        reveal_strlit("0x");
    }
    let digits = format_unsigned(n, 16);
    let r = String::from_str("0x").concat(digits.as_str());
    assert(r@ =~= quantity_text(n));
    r
}

/// Nothing that was stripped starts with the prefix again.
pub proof fn law_stripped_has_no_prefix(s: Seq<char>)
    ensures
        !has_prefix(stripped(s)),
    decreases s.len(),
{
    if has_prefix(s) {
        law_stripped_has_no_prefix(s.skip(2));
    }
}

/// Stripping twice is stripping once.
pub proof fn law_strip_is_idempotent(s: Seq<char>)
    ensures
        stripped(stripped(s)) == stripped(s),
{
    law_stripped_has_no_prefix(s);
}

/// A prefix put in front makes no difference to what is left.
pub proof fn law_strip_ignores_prefix(s: Seq<char>)
    ensures
        stripped(seq!['0', 'x'] + s) == stripped(s),
{
    assert((seq!['0', 'x'] + s).skip(2) =~= s);
}

/// What is left is a suffix of the text, behind a prefix of even length.
pub proof fn law_stripped_is_suffix(s: Seq<char>)
    ensures
        stripped(s).len() <= s.len(),
        (s.len() - stripped(s).len()) % 2 == 0,
        stripped(s) == s.skip(s.len() - stripped(s).len()),
    decreases s.len(),
{
    if has_prefix(s) {
        law_stripped_is_suffix(s.skip(2));
        assert(s.skip(2).skip(s.skip(2).len() - stripped(s).len()) =~= s.skip(
            s.len() - stripped(s).len(),
        ));
    } else {
        assert(s.skip(0) =~= s);
    }
}

/// The digits of a number are digits, and stand for that number.
pub proof fn law_number_text_value(n: nat, radix: nat)
    requires
        2 <= radix <= 16,
    ensures
        number_text(n, radix).len() > 0,
        all_digits(number_text(n, radix), radix),
        digits_value(number_text(n, radix), radix) == n,
    decreases n,
{
    let text = number_text(n, radix);
    if n < radix {
        assert(text.drop_last() =~= Seq::<char>::empty());
        assert(digits_value(text.drop_last(), radix) == 0);
        assert(0 * radix == 0) by (nonlinear_arith);
    } else {
        assert(n / radix < n && n == (n / radix) * radix + n % radix && n % radix < radix)
            by (nonlinear_arith)
            requires
                n >= radix,
                radix >= 2,
        ;
        law_number_text_value(n / radix, radix);
        assert(text.drop_last() =~= number_text(n / radix, radix));
        assert(text.last() == digit_char(n % radix));
        assert forall|i: int| 0 <= i < text.len() implies is_digit(#[trigger] text[i], radix) by {
            if i < text.len() - 1 {
                assert(text[i] == number_text(n / radix, radix)[i]);
            }
        }
    }
}

/// Reading a written number gives it back, in every radix up to 16.
pub proof fn law_unsigned_round_trip(n: u64, radix: nat)
    requires
        2 <= radix <= 16,
    ensures
        unsigned_value(number_text(n as nat, radix), radix) == Some(n),
{
    law_number_text_value(n as nat, radix);
    let text = number_text(n as nat, radix);
    assert(is_digit(text[0], radix));
}

/// Reading a written chain quantity gives it back.
pub proof fn law_quantity_round_trip(n: u64)
    ensures
        unsigned_value(stripped(quantity_text(n)), 16) == Some(n),
{
    law_number_text_value(n as nat, 16);
    let text = number_text(n as nat, 16);
    law_strip_ignores_prefix(text);
    assert(!has_prefix(text)) by {
        if has_prefix(text) {
            assert(is_digit(text[1], 16));
        }
    }
    law_unsigned_round_trip(n, 16);
}

/// Leading zeros leave the value of a run of digits as it is.
pub proof fn law_leading_zeros_keep_value(n: nat, s: Seq<char>, radix: nat)
    ensures
        digits_value(text::zeros(n) + s, radix) == digits_value(s, radix),
    decreases n + s.len(),
{
    let whole = text::zeros(n) + s;
    if s.len() > 0 {
        law_leading_zeros_keep_value(n, s.drop_last(), radix);
        assert(whole.drop_last() =~= text::zeros(n) + s.drop_last());
    } else if n > 0 {
        law_leading_zeros_keep_value((n - 1) as nat, s, radix);
        assert(whole.drop_last() =~= text::zeros((n - 1) as nat) + s);
        assert(0 * radix == 0) by (nonlinear_arith);
    }
}

/// What stripping takes off is `0x` over and over, and it stops only where no
/// further `0x` stands.
pub proof fn law_stripping_takes_prefixes_only(s: Seq<char>)
    ensures
        stripped(s).len() <= s.len(),
        (s.len() - stripped(s).len()) % 2 == 0,
        stripped(s) == s.skip(s.len() - stripped(s).len()),
        forall|i: int|
            0 <= i < s.len() - stripped(s).len() ==> #[trigger] s[i] == if i % 2 == 0 {
                '0'
            } else {
                'x'
            },
        !(stripped(s).len() >= 2 && stripped(s)[0] == '0' && stripped(s)[1] == 'x'),
    decreases s.len(),
{
    law_stripped_is_suffix(s);
    law_stripped_has_no_prefix(s);
    if has_prefix(s) {
        let rest = s.skip(2);
        law_stripping_takes_prefixes_only(rest);
        assert forall|i: int| 0 <= i < s.len() - stripped(s).len() implies #[trigger] s[i] == if i
            % 2 == 0 {
            '0'
        } else {
            'x'
        } by {
            if i >= 2 {
                assert(rest[i - 2] == s[i]);
            }
        }
    }
}

/// The decimal digits count from zero, the letters go on from ten in either
/// case, and no other character is a digit.
pub proof fn law_digit_values(c: char)
    ensures
        '0' <= c <= '9' ==> digit_value(c) == Some((c as int - 0x30) as nat),
        'a' <= c <= 'z' ==> digit_value(c) == Some((c as int - 0x61 + 10) as nat),
        'A' <= c <= 'Z' ==> digit_value(c) == Some((c as int - 0x41 + 10) as nat),
        !('0' <= c <= '9') && !('a' <= c <= 'z') && !('A' <= c <= 'Z') ==> digit_value(c) is None,
{
}

/// A digit at the end multiplies the value of what stands before it by the
/// radix, and adds its own.
pub proof fn law_digits_value_by_place(s: Seq<char>, c: char, v: nat, radix: nat)
    requires
        digit_value(c) == Some(v),
    ensures
        digits_value(Seq::<char>::empty(), radix) == 0,
        digits_value(s.push(c), radix) == digits_value(s, radix) * radix + v,
{
    assert(s.push(c).drop_last() =~= s);
}

/// A text reads as a number exactly where it is an optional plus sign and then
/// digits, at least one, whose value is that number.
pub proof fn law_number_is_read_by_its_digits(s: Seq<char>, digits: Seq<char>, n: u64, radix: nat)
    requires
        digits == if s.len() > 0 && s[0] == '+' {
            s.skip(1)
        } else {
            s
        },
    ensures
        unsigned_value(s, radix) == Some(n) <==> {
            &&& digits.len() > 0
            &&& forall|i: int|
                0 <= i < digits.len() ==> digit_value(#[trigger] digits[i]) is Some && digit_value(
                    digits[i],
                )->0 < radix
            &&& digits_value(digits, radix) == n
        },
{
    if forall|i: int|
        0 <= i < digits.len() ==> digit_value(#[trigger] digits[i]) is Some && digit_value(
            digits[i],
        )->0 < radix {
        assert(all_digits(digits, radix));
    }
}

/// Reading succeeds with the number that a text writes, and fails where it
/// writes none: the empty text as empty; a text whose digits up to some place
/// already exceed a `u64` as too large; any other as having a bad digit.
pub proof fn law_reading_fails_at_the_first_fault(s: Seq<char>, digits: Seq<char>, radix: nat)
    requires
        digits == if s.len() > 0 && s[0] == '+' {
            s.skip(1)
        } else {
            s
        },
    ensures
        match unsigned_value(s, radix) {
            Some(n) => unsigned_result(s, radix) == Ok::<u64, NumberError>(n),
            None => unsigned_result(s, radix) is Err,
        },
        unsigned_result(s, radix) == Err::<u64, NumberError>(NumberError::Empty) <==> s.len() == 0,
        unsigned_result(s, radix) == Err::<u64, NumberError>(NumberError::PosOverflow) <==> exists|
            k: int,
        |
            #![trigger digits.take(k)]
            {
                &&& 0 <= k <= digits.len()
                &&& forall|i: int|
                    0 <= i < k ==> digit_value(#[trigger] digits[i]) is Some && digit_value(
                        digits[i],
                    )->0 < radix
                &&& digits_value(digits.take(k), radix) > u64::MAX
            },
{
    if s.len() == 0 {
        assert(digits.len() == 0);
        assert(digits.take(0) =~= digits);
    }
    if starts_too_large(digits, radix) {
        let k = choose|k: int|
            0 <= k <= digits.len() && all_digits(#[trigger] digits.take(k), radix) && digits_value(
                digits.take(k),
                radix,
            ) > u64::MAX;
        lemma_starts_too_large_is_no_number(digits, k, radix);
        assert forall|i: int| 0 <= i < k implies digit_value(#[trigger] digits[i]) is Some
            && digit_value(digits[i])->0 < radix by {
            assert(is_digit(digits.take(k)[i], radix));
        }
    }
    assert forall|k: int|
        #![trigger digits.take(k)]
        {
            &&& 0 <= k <= digits.len()
            &&& forall|i: int|
                0 <= i < k ==> digit_value(#[trigger] digits[i]) is Some && digit_value(
                    digits[i],
                )->0 < radix
            &&& digits_value(digits.take(k), radix) > u64::MAX
        } implies starts_too_large(digits, radix) by {
        assert(all_digits(digits.take(k), radix));
    }
}

/// Digits after a number that is too large leave it too large.
proof fn lemma_starts_too_large_is_no_number(digits: Seq<char>, k: int, radix: nat)
    requires
        0 <= k <= digits.len(),
        digits_value(digits.take(k), radix) > u64::MAX,
        all_digits(digits.take(k), radix),
    ensures
        all_digits(digits, radix) ==> digits_value(digits, radix) > u64::MAX,
    decreases digits.len() - k,
{
    if all_digits(digits, radix) {
        if k == digits.len() {
            assert(digits.take(k) =~= digits);
        } else {
            let (before, after) = (digits.take(k), digits.take(k + 1));
            assert(after.drop_last() =~= before);
            assert(after.last() == digits[k]);
            assert(is_digit(digits[k], radix));
            let v = digits_value(before, radix);
            assert(v * radix >= v) by (nonlinear_arith)
                requires
                    radix >= 1,
            ;
            assert(all_digits(after, radix));
            lemma_starts_too_large_is_no_number(digits, k + 1, radix);
        }
    }
}

/// A number is written in lower-case digits that stand for it, and starts with
/// a zero only where it is zero.
pub proof fn law_number_text_is_canonical(n: nat, radix: nat)
    requires
        2 <= radix <= 16,
    ensures
        number_text(n, radix).len() > 0,
        digits_value(number_text(n, radix), radix) == n,
        forall|i: int|
            0 <= i < number_text(n, radix).len() ==> '0' <= #[trigger] number_text(n, radix)[i]
                <= '9' || 'a' <= number_text(n, radix)[i] <= 'f',
        number_text(n, radix)[0] == '0' ==> n == 0 && number_text(n, radix).len() == 1,
    decreases n,
{
    law_number_text_value(n, radix);
    if n >= radix {
        let front = number_text(n / radix, radix);
        assert(0 < n / radix < n && n % radix < radix) by (nonlinear_arith)
            requires
                n >= radix,
                radix >= 2,
        ;
        law_number_text_is_canonical(n / radix, radix);
        assert forall|i: int| 0 <= i < number_text(n, radix).len() implies '0'
            <= #[trigger] number_text(n, radix)[i] <= '9' || 'a' <= number_text(n, radix)[i]
            <= 'f' by {
            if i < front.len() {
                assert(number_text(n, radix)[i] == front[i]);
            }
        }
        assert(number_text(n, radix)[0] == front[0]);
    }
}

/// A chain quantity is `0x` and the hexadecimal digits of the number.
pub proof fn law_quantity_has_one_prefix(n: u64)
    ensures
        quantity_text(n).len() > 2,
        quantity_text(n)[0] == '0',
        quantity_text(n)[1] == 'x',
        quantity_text(n).skip(2) == number_text(n as nat, 16),
        digits_value(quantity_text(n).skip(2), 16) == n,
{
    law_number_text_value(n as nat, 16);
    assert(quantity_text(n).skip(2) =~= number_text(n as nat, 16));
}

} // verus!
