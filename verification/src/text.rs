//! Text building blocks: runs of zeros, byte lengths, blank lines.

use vstd::prelude::*;

verus! {

/// A run of `n` zero digits.
pub open spec fn zeros(n: nat) -> Seq<char> {
    Seq::new(n, |i: int| '0')
}

/// The number of bytes that `s` takes in UTF-8.
pub open spec fn byte_len(s: Seq<char>) -> nat {
    vstd::utf8::encode_utf8(s).len()
}

/// UTF-8 encodes a concatenation piece by piece.
pub proof fn lemma_encode_concat(a: Seq<char>, b: Seq<char>)
    ensures
        vstd::utf8::encode_utf8(a + b) == vstd::utf8::encode_utf8(a) + vstd::utf8::encode_utf8(b),
    decreases a.len(),
{
    if a.len() == 0 {
        assert(a + b =~= b);
        assert(vstd::utf8::encode_utf8(a) + vstd::utf8::encode_utf8(b) =~= vstd::utf8::encode_utf8(
            b,
        ));
    } else {
        lemma_encode_concat(a.drop_first(), b);
        assert((a + b).drop_first() =~= a.drop_first() + b);
        assert((a + b)[0] == a[0]);
        assert(vstd::utf8::encode_utf8(a + b) =~= vstd::utf8::encode_utf8(a)
            + vstd::utf8::encode_utf8(b));
    }
}

/// A run of zeros takes one byte for each digit.
pub proof fn lemma_zeros_bytes(n: nat)
    ensures
        byte_len(zeros(n)) == n,
{
    vstd::utf8::is_ascii_chars_encode_utf8(zeros(n));
}

/// `n` zero digits.
pub fn repeat_zero(n: usize) -> (r: String)
    ensures
        r@ == zeros(n as nat),
        r@.len() == n,
        forall|i: int| 0 <= i < n ==> #[trigger] r@[i] == '0',
{
    let mut r = String::new();
    let mut i: usize = 0;
    while i < n
        invariant
            i <= n,
            r@ == zeros(i as nat),
        decreases n - i,
    {
        r.append("0");
        i = i + 1;
        proof {
            reveal_strlit("0");
        }
        assert(r@ =~= zeros(i as nat));
    }
    assert(r@ =~= zeros(n as nat));
    r
}

/// Whether two texts are the same.
pub fn same(a: &str, b: &str) -> (r: bool)
    ensures
        r == (a@ == b@),
{
    String::from_str(a) == String::from_str(b)
}

/// The characters with the Unicode property `White_Space`.
pub open spec fn is_white_space(c: char) -> bool {
    ||| '\u{9}' <= c <= '\u{d}'
    ||| c == '\u{20}'
    ||| c == '\u{85}'
    ||| c == '\u{a0}'
    ||| c == '\u{1680}'
    ||| '\u{2000}' <= c <= '\u{200a}'
    ||| c == '\u{2028}'
    ||| c == '\u{2029}'
    ||| c == '\u{202f}'
    ||| c == '\u{205f}'
    ||| c == '\u{3000}'
}

/// A line of white space only, the empty line included.
pub open spec fn blank(s: Seq<char>) -> bool {
    forall|i: int| 0 <= i < s.len() ==> is_white_space(#[trigger] s[i])
}

/// Whether nothing is left of `s` once white space is trimmed off.
pub fn is_blank(s: &str) -> (r: bool)
    ensures
        r == blank(s@),
{
    let mut all: bool = true;
    for c in it: s.chars()
        invariant
            it.seq() == s@,
            all == forall|i: int| 0 <= i < it.index() ==> is_white_space(#[trigger] s@[i]),
    {
        let white: bool = ('\u{9}' <= c && c <= '\u{d}') || c == '\u{20}' || c == '\u{85}'
            || c == '\u{a0}' || c == '\u{1680}' || ('\u{2000}' <= c && c <= '\u{200a}') || c
            == '\u{2028}' || c == '\u{2029}' || c == '\u{202f}' || c == '\u{205f}' || c
            == '\u{3000}';
        all = all && white;
    }
    all
}

/// A run of zeros has the length asked for, and a zero in every place.
pub proof fn law_zeros_are_zeros(n: nat)
    ensures
        zeros(n).len() == n,
        forall|i: int| 0 <= i < n ==> #[trigger] zeros(n)[i] == '0',
{
}

/// Byte lengths add up; an ASCII character takes one byte and no character
/// takes more than four.
pub proof fn law_byte_len_adds_up(a: Seq<char>, b: Seq<char>)
    ensures
        byte_len(a) == vstd::utf8::encode_utf8(a).len(),
        byte_len(a + b) == byte_len(a) + byte_len(b),
        vstd::utf8::is_ascii_chars(a) ==> byte_len(a) == a.len(),
        a.len() <= byte_len(a) <= 4 * a.len(),
    decreases a.len(),
{
    lemma_encode_concat(a, b);
    if vstd::utf8::is_ascii_chars(a) {
        vstd::utf8::is_ascii_chars_encode_utf8(a);
    }
    if a.len() > 0 {
        law_byte_len_adds_up(a.drop_first(), b);
    }
}

/// A text is blank exactly where its pieces are.
pub proof fn law_blank_by_pieces(a: Seq<char>, b: Seq<char>)
    ensures
        blank(Seq::<char>::empty()),
        blank(a + b) <==> blank(a) && blank(b),
{
    let whole = a + b;
    if blank(whole) {
        assert forall|i: int| 0 <= i < a.len() implies is_white_space(#[trigger] a[i]) by {
            assert(whole[i] == a[i]);
        }
        assert forall|i: int| 0 <= i < b.len() implies is_white_space(#[trigger] b[i]) by {
            assert(whole[a.len() + i] == b[i]);
        }
    }
}

/// One character is blank exactly where it is a tab, a line or page break, a
/// space, or one of the other white-space characters of Unicode.
pub proof fn law_blank_character(c: char)
    ensures
        blank(seq![c]) <==> {
            ||| c == '\t' || c == '\n' || c == '\u{b}' || c == '\u{c}' || c == '\r' || c == ' '
            ||| c == '\u{85}' || c == '\u{a0}' || c == '\u{1680}'
            ||| 0x2000 <= c as int && c as int <= 0x200a
            ||| c == '\u{2028}' || c == '\u{2029}' || c == '\u{202f}'
            ||| c == '\u{205f}' || c == '\u{3000}'
        },
{
    if blank(seq![c]) {
        assert(is_white_space(seq![c][0]));
    }
}

} // verus!
