//! Call data for the copy-bond contract: a selector, then words of 64
//! hexadecimal digits.

use crate::digest::keccak_selector;
use crate::intent::DispatchIntent;
use crate::quantity::strip_hex;
use crate::text::repeat_zero;
#[allow(unused_imports)]
use crate::{digest, quantity, text};
#[allow(unused_imports)]
use crate::intent::IntentView;
use vstd::prelude::*;

verus! {

/// The all-zero word, with its prefix.
pub open spec fn zero_bytes32_text() -> Seq<char> {
    seq!['0', 'x'] + text::zeros(64)
}

/// `s` filled up with zeros on the left to 64 bytes; a longer text stays as it
/// is.
pub open spec fn word(s: Seq<char>) -> Seq<char> {
    if text::byte_len(s) >= 64 {
        s
    } else {
        text::zeros((64 - text::byte_len(s)) as nat) + s
    }
}

/// The last `n` bytes of `s`, as text.
pub open spec fn last_bytes(s: Seq<char>, n: int) -> Seq<char> {
    let bytes = vstd::utf8::encode_utf8(s);
    vstd::utf8::decode_utf8(bytes.subrange(bytes.len() - n, bytes.len() as int))
}

/// Where an address has 40 bytes or more behind its prefix, the last 40 start
/// at a character.
pub open spec fn sliceable(addr: Seq<char>) -> bool {
    let bytes = vstd::utf8::encode_utf8(quantity::stripped(addr));
    bytes.len() >= 40 ==> vstd::utf8::is_char_boundary(bytes, bytes.len() - 40)
}

/// The word for an address: its last 40 bytes behind 24 zeros, or the whole of
/// a shorter one behind as many zeros as it takes.
pub open spec fn address_word(addr: Seq<char>) -> Seq<char> {
    let s = quantity::stripped(addr);
    if text::byte_len(s) >= 40 {
        text::zeros(24) + last_bytes(s, 40)
    } else {
        text::zeros((64 - text::byte_len(s)) as nat) + s
    }
}

/// The word for a number or a hash that may carry a prefix.
pub open spec fn prefixed_word(s: Seq<char>) -> Seq<char> {
    word(quantity::stripped(s))
}

/// The word for a truth value.
pub open spec fn bool_word(b: bool) -> Seq<char> {
    text::zeros(63).push(if b {
        '1'
    } else {
        '0'
    })
}

/// The signature of the call that an intent makes.
pub open spec fn signature(intent: IntentView) -> Seq<char> {
    match intent {
        IntentView::AttestDegradation { .. } => {
            "attestDegradation(address,bytes32,bytes32)"@
        },
        IntentView::ArbiterRule { .. } => {
            "arbiterRule(uint256,uint256,bool,bytes32)"@
        },
    }
}

/// The argument words of the call that an intent makes, in order.
pub open spec fn argument_words(intent: IntentView) -> Seq<Seq<char>> {
    match intent {
        IntentView::AttestDegradation { leader, evidence_hash, builder } => seq![
            address_word(leader),
            prefixed_word(evidence_hash),
            prefixed_word(builder),
        ],
        IntentView::ArbiterRule { claim_id, slash_amount, upheld, builder } => seq![
            prefixed_word(claim_id),
            prefixed_word(slash_amount),
            bool_word(upheld),
            prefixed_word(builder),
        ],
    }
}

/// The words one after the other.
pub open spec fn joined(words: Seq<Seq<char>>) -> Seq<char>
    decreases words.len(),
{
    if words.len() == 0 {
        Seq::empty()
    } else {
        joined(words.drop_last()) + words.last()
    }
}

/// The call data of an intent: prefix, selector, argument words.
pub open spec fn calldata_text(intent: IntentView) -> Seq<char> {
    seq!['0', 'x'] + digest::selector_text(signature(intent)) + joined(
        argument_words(intent),
    )
}

/// Call data can be made of the intent: a leader's address can be cut to its
/// last 40 bytes.
pub open spec fn encodable(intent: IntentView) -> bool {
    match intent {
        IntentView::AttestDegradation { leader, .. } => sliceable(leader),
        IntentView::ArbiterRule { .. } => true,
    }
}

/// No number or hash of the intent is longer than a word.
pub open spec fn words_fit(intent: IntentView) -> bool {
    match intent {
        IntentView::AttestDegradation { evidence_hash, builder, .. } => {
            &&& text::byte_len(quantity::stripped(evidence_hash)) <= 64
            &&& text::byte_len(quantity::stripped(builder)) <= 64
        },
        IntentView::ArbiterRule { claim_id, slash_amount, builder, .. } => {
            &&& text::byte_len(quantity::stripped(claim_id)) <= 64
            &&& text::byte_len(quantity::stripped(slash_amount)) <= 64
            &&& text::byte_len(quantity::stripped(builder)) <= 64
        },
    }
}

/// The all-zero word, with its prefix.
pub fn zero_bytes32() -> (r: String)
    ensures
        r@ == zero_bytes32_text(),
{
    proof {
        reveal_strlit("0x");
    }
    let zero = repeat_zero(64);
    let r = String::from_str("0x").concat(zero.as_str());
    assert(r@ =~= zero_bytes32_text());
    r
}

/// Whether an address can be cut to its last 40 bytes.
pub fn is_sliceable(addr: &str) -> (r: bool)
    ensures
        r == sliceable(addr@),
{
    let s = strip_hex(addr);
    let text = s.as_str();
    let len: usize = text.as_bytes().len();
    if len >= 40 {
        text.is_char_boundary(len - 40)
    } else {
        true
    }
}

/// The word for an address.
pub fn pad_left_address(addr: &str) -> (r: String)
    requires
        sliceable(addr@),
    ensures
        r@ == address_word(addr@),
{
    let s = strip_hex(addr);
    let text = s.as_str();
    let len: usize = text.as_bytes().len();
    if len >= 40 {
        let (_, tail) = text.split_at(len - 40);
        proof {
            vstd::utf8::encode_utf8_decode_utf8(tail@);
        }
        repeat_zero(24).concat(tail)
    } else {
        repeat_zero(64 - len).concat(text)
    }
}

/// `s` filled up with zeros on the left to 64 bytes.
pub fn pad_left_word(s: String) -> (r: String)
    ensures
        r@ == word(s@),
{
    let len: usize = s.as_str().as_bytes().len();
    if len >= 64 {
        s
    } else {
        repeat_zero(64 - len).concat(s.as_str())
    }
}

/// The word for a truth value.
fn bool_word_text(b: bool) -> (r: String)
    ensures
        r@ == bool_word(b),
{
    proof {
        reveal_strlit("1");
        reveal_strlit("0");
    }
    let digit = if b {
        "1"
    } else {
        "0"
    };
    let r = repeat_zero(63).concat(digit);
    assert(r@ =~= bool_word(b));
    r
}

/// Whether call data can be made of an intent.
pub fn is_encodable(intent: &DispatchIntent) -> (r: bool)
    ensures
        r == encodable(intent@),
{
    match intent {
        DispatchIntent::AttestDegradation { leader, .. } => is_sliceable(leader.as_str()),
        DispatchIntent::ArbiterRule { .. } => true,
    }
}

/// The call data of an intent.
pub fn calldata(intent: &DispatchIntent) -> (r: String)
    requires
        encodable(intent@),
    ensures
        r@ == calldata_text(intent@),
        words_fit(intent@) ==> text::byte_len(r@) == 10 + 64 * argument_words(intent@).len(),
{
    proof {
        reveal_strlit("0x");
        reveal_with_fuel(joined, 6);
    }
    let mut data = String::from_str("0x");
    match intent {
        DispatchIntent::AttestDegradation { leader, evidence_hash, builder } => {
            let selector = keccak_selector("attestDegradation(address,bytes32,bytes32)");
            let leader_word = pad_left_address(leader.as_str());
            let evidence_word = pad_left_word(strip_hex(evidence_hash.as_str()));
            let builder_word = pad_left_word(strip_hex(builder.as_str()));
            data.append(selector.as_str());
            data.append(leader_word.as_str());
            data.append(evidence_word.as_str());
            data.append(builder_word.as_str());
            proof {
                let words = argument_words(intent@);
                assert(words.drop_last() =~= words.take(2));
                assert(words.take(2).drop_last() =~= words.take(1));
                assert(words.take(1).drop_last() =~= words.take(0));
                assert(joined(words) =~= leader_word@ + evidence_word@ + builder_word@);
                assert(data@ =~= calldata_text(intent@));
            }
        },
        DispatchIntent::ArbiterRule { claim_id, slash_amount, upheld, builder } => {
            let selector = keccak_selector("arbiterRule(uint256,uint256,bool,bytes32)");
            let claim_word = pad_left_word(strip_hex(claim_id.as_str()));
            let amount_word = pad_left_word(strip_hex(slash_amount.as_str()));
            let upheld_word = bool_word_text(*upheld);
            let builder_word = pad_left_word(strip_hex(builder.as_str()));
            data.append(selector.as_str());
            data.append(claim_word.as_str());
            data.append(amount_word.as_str());
            data.append(upheld_word.as_str());
            data.append(builder_word.as_str());
            proof {
                let words = argument_words(intent@);
                assert(words.drop_last() =~= words.take(3));
                assert(words.take(3).drop_last() =~= words.take(2));
                assert(words.take(2).drop_last() =~= words.take(1));
                assert(words.take(1).drop_last() =~= words.take(0));
                assert(joined(words) =~= claim_word@ + amount_word@ + upheld_word@
                    + builder_word@);
                assert(data@ =~= calldata_text(intent@));
            }
        },
    }
    proof {
        if words_fit(intent@) {
            lemma_calldata_width(intent@);
        }
    }
    data
}

/// A padded text takes 64 bytes, or what it took before where that is more.
pub proof fn law_word_width(s: Seq<char>)
    ensures
        text::byte_len(word(s)) == if text::byte_len(s) >= 64 {
            text::byte_len(s)
        } else {
            64
        },
{
    if text::byte_len(s) < 64 {
        let n = (64 - text::byte_len(s)) as nat;
        text::lemma_encode_concat(text::zeros(n), s);
        text::lemma_zeros_bytes(n);
    }
}

/// An address takes one word exactly, whatever its length.
pub proof fn law_address_word_width(addr: Seq<char>)
    requires
        sliceable(addr),
    ensures
        text::byte_len(address_word(addr)) == 64,
{
    let s = quantity::stripped(addr);
    let bytes = vstd::utf8::encode_utf8(s);
    if bytes.len() >= 40 {
        let tail = bytes.subrange(bytes.len() - 40, bytes.len() as int);
        vstd::utf8::encode_utf8_valid_utf8(s);
        vstd::utf8::valid_utf8_split(bytes, bytes.len() - 40);
        vstd::utf8::decode_utf8_encode_utf8(tail);
        text::lemma_encode_concat(text::zeros(24), last_bytes(s, 40));
        text::lemma_zeros_bytes(24);
    } else {
        let n = (64 - bytes.len()) as nat;
        text::lemma_encode_concat(text::zeros(n), s);
        text::lemma_zeros_bytes(n);
    }
}

/// Padding leaves the number that a run of hexadecimal digits stands for as it
/// is.
pub proof fn law_word_keeps_value(s: Seq<char>)
    ensures
        quantity::digits_value(word(s), 16) == quantity::digits_value(s, 16),
{
    if text::byte_len(s) < 64 {
        quantity::law_leading_zeros_keep_value(
            (64 - text::byte_len(s)) as nat,
            s,
            16,
        );
    }
}

/// A word is padded already.
pub proof fn law_word_is_idempotent(s: Seq<char>)
    ensures
        word(word(s)) == word(s),
{
    law_word_width(s);
}

/// The default builder tag is the all-zero word.
pub proof fn law_zero_bytes32_word()
    ensures
        prefixed_word(zero_bytes32_text()) == text::zeros(64),
{
    let zero = text::zeros(64);
    quantity::law_strip_ignores_prefix(zero);
    assert(!quantity::has_prefix(zero));
    text::lemma_zeros_bytes(64);
}

/// The words for the truth values stand for one and zero, and are as wide as
/// any other.
pub proof fn law_bool_word(b: bool)
    ensures
        quantity::digits_value(bool_word(b), 16) == if b {
            1nat
        } else {
            0nat
        },
        text::byte_len(bool_word(b)) == 64,
{
    let zeros = text::zeros(63);
    assert(bool_word(b).drop_last() =~= zeros);
    assert(zeros =~= zeros + Seq::<char>::empty());
    quantity::law_leading_zeros_keep_value(63, Seq::<char>::empty(), 16);
    vstd::utf8::is_ascii_chars_encode_utf8(bool_word(b));
}

/// An ASCII address can always be cut, and its word is 24 zeros and its last
/// 40 digits.
pub proof fn law_ascii_address_word(addr: Seq<char>)
    requires
        vstd::utf8::is_ascii_chars(addr),
    ensures
        sliceable(addr),
        quantity::stripped(addr).len() >= 40 ==> address_word(addr)
            == text::zeros(24) + quantity::stripped(addr).skip(
            quantity::stripped(addr).len() - 40,
        ),
        quantity::stripped(addr).len() < 40 ==> address_word(addr) == text::zeros(
            (64 - quantity::stripped(addr).len()) as nat,
        ) + quantity::stripped(addr),
{
    let s = quantity::stripped(addr);
    quantity::law_stripped_is_suffix(addr);
    assert(vstd::utf8::is_ascii_chars(s));
    let bytes = vstd::utf8::encode_utf8(s);
    vstd::utf8::is_ascii_chars_encode_utf8(s);
    if s.len() >= 40 {
        let cut = s.len() - 40;
        vstd::utf8::encode_utf8_valid_utf8(s);
        assert(bytes[cut] == s[cut] as u8);
        vstd::utf8::is_char_boundary_iff_not_is_continuation_byte(bytes, cut);
        let tail = s.skip(cut);
        assert(vstd::utf8::is_ascii_chars(tail));
        vstd::utf8::is_ascii_chars_encode_utf8(tail);
        assert(vstd::utf8::encode_utf8(tail) =~= bytes.subrange(cut, bytes.len() as int)) by {
            assert forall|i: int| 0 <= i < 40 implies vstd::utf8::encode_utf8(tail)[i]
                == bytes.subrange(cut, bytes.len() as int)[i] by {
                assert(tail[i] == s[cut + i]);
            }
        }
        vstd::utf8::encode_utf8_decode_utf8(tail);
    }
}

/// Every argument of a fitting intent takes one word.
pub proof fn law_argument_words_width(intent: IntentView, i: int)
    requires
        encodable(intent),
        words_fit(intent),
        0 <= i < argument_words(intent).len(),
    ensures
        text::byte_len(argument_words(intent)[i]) == 64,
{
    match intent {
        IntentView::AttestDegradation { leader, evidence_hash, builder } => {
            law_address_word_width(leader);
            law_word_width(quantity::stripped(evidence_hash));
            law_word_width(quantity::stripped(builder));
        },
        IntentView::ArbiterRule { claim_id, slash_amount, upheld, builder } => {
            law_word_width(quantity::stripped(claim_id));
            law_word_width(quantity::stripped(slash_amount));
            law_bool_word(upheld);
            law_word_width(quantity::stripped(builder));
        },
    }
}

/// Words of 64 bytes stand one after the other, each in its slot.
pub proof fn law_words_stand_in_slots(words: Seq<Seq<char>>, i: int)
    requires
        forall|k: int|
            0 <= k < words.len() ==> text::byte_len(#[trigger] words[k]) == 64,
        0 <= i < words.len(),
    ensures
        text::byte_len(joined(words)) == 64 * words.len(),
        vstd::utf8::encode_utf8(joined(words)).subrange(64 * i, 64 * i + 64)
            == vstd::utf8::encode_utf8(words[i]),
    decreases words.len(),
{
    let front = words.drop_last();
    let bytes = vstd::utf8::encode_utf8(joined(words));
    text::lemma_encode_concat(joined(front), words.last());
    if front.len() == 0 {
        assert(vstd::utf8::encode_utf8(joined(front)) =~= Seq::<u8>::empty());
        assert(bytes.subrange(64 * i, 64 * i + 64) =~= vstd::utf8::encode_utf8(words[i]));
    } else {
        let k = if i < front.len() {
            i
        } else {
            0
        };
        law_words_stand_in_slots(front, k);
        let head = vstd::utf8::encode_utf8(joined(front));
        if i < front.len() {
            assert(bytes.subrange(64 * i, 64 * i + 64) =~= head.subrange(64 * i, 64 * i + 64));
        } else {
            assert(bytes.subrange(64 * i, 64 * i + 64) =~= vstd::utf8::encode_utf8(words.last()));
        }
    }
}

/// The argument part of the call data of a fitting intent takes 64 bytes for
/// each argument.
proof fn lemma_calldata_width(intent: IntentView)
    requires
        encodable(intent),
        words_fit(intent),
    ensures
        text::byte_len(calldata_text(intent)) == 2 + text::byte_len(
            digest::selector_text(signature(intent)),
        ) + 64 * argument_words(intent).len(),
{
    let words = argument_words(intent);
    assert forall|k: int| 0 <= k < words.len() implies text::byte_len(#[trigger] words[k])
        == 64 by {
        law_argument_words_width(intent, k);
    }
    law_words_stand_in_slots(words, 0);
    let prefix = seq!['0', 'x'];
    let selector = digest::selector_text(signature(intent));
    text::lemma_encode_concat(prefix + selector, joined(words));
    text::lemma_encode_concat(prefix, selector);
    vstd::utf8::is_ascii_chars_encode_utf8(prefix);
}

/// Fitting intents for the same call and with the same call data have the same
/// argument words: nothing of an argument is lost or runs into another.
pub proof fn law_calldata_is_unambiguous(
    a: IntentView,
    b: IntentView,
)
    requires
        encodable(a),
        encodable(b),
        words_fit(a),
        words_fit(b),
        signature(a) == signature(b),
    ensures
        calldata_text(a) == calldata_text(b) ==> argument_words(a) == argument_words(b),
{
    reveal_strlit("attestDegradation(address,bytes32,bytes32)");
    reveal_strlit("arbiterRule(uint256,uint256,bool,bytes32)");
    assert("attestDegradation(address,bytes32,bytes32)"@.len()
        != "arbiterRule(uint256,uint256,bool,bytes32)"@.len());
    assert(argument_words(a).len() == argument_words(b).len());
    if calldata_text(a) == calldata_text(b) {
        let head = seq!['0', 'x'] + digest::selector_text(signature(a));
        let (aw, bw) = (argument_words(a), argument_words(b));
        assert(joined(aw) =~= calldata_text(a).skip(head.len() as int));
        assert(joined(bw) =~= calldata_text(b).skip(head.len() as int));
        assert forall|i: int| 0 <= i < aw.len() implies aw[i] == bw[i] by {
            assert forall|k: int| 0 <= k < aw.len() implies text::byte_len(#[trigger] aw[k])
                == 64 by {
                law_argument_words_width(a, k);
            }
            assert forall|k: int| 0 <= k < bw.len() implies text::byte_len(#[trigger] bw[k])
                == 64 by {
                law_argument_words_width(b, k);
            }
            law_words_stand_in_slots(aw, i);
            law_words_stand_in_slots(bw, i);
            vstd::utf8::encode_utf8_decode_utf8(aw[i]);
            vstd::utf8::encode_utf8_decode_utf8(bw[i]);
        }
        assert(aw =~= bw);
    }
}

/// The default builder tag is `0x` and 64 zeros.
pub proof fn law_zero_bytes32_by_character()
    ensures
        zero_bytes32_text().len() == 66,
        zero_bytes32_text()[0] == '0',
        zero_bytes32_text()[1] == 'x',
        forall|i: int| 2 <= i < 66 ==> #[trigger] zero_bytes32_text()[i] == '0',
{
}

/// A text of fewer than 64 bytes ends its word, and only zeros stand before
/// it; a longer one is its own word.
pub proof fn law_word_ends_with_its_text(s: Seq<char>)
    ensures
        vstd::utf8::encode_utf8(s).len() >= 64 ==> word(s) == s,
        vstd::utf8::encode_utf8(s).len() < 64 ==> {
            let zeros = 64 - vstd::utf8::encode_utf8(s).len();
            &&& word(s).len() == zeros + s.len()
            &&& word(s).skip(zeros) == s
            &&& forall|i: int| 0 <= i < zeros ==> #[trigger] word(s)[i] == '0'
        },
        prefixed_word(s) == word(quantity::stripped(s)),
{
    if vstd::utf8::encode_utf8(s).len() < 64 {
        assert(word(s).skip(64 - vstd::utf8::encode_utf8(s).len()) =~= s);
    }
}

/// An address can be cut where fewer than 40 bytes follow its prefix, or where
/// the last 40 of them start at a character. The last 40 bytes, or all of a
/// shorter address, end its word, and only zeros stand before them.
pub proof fn law_address_word_by_byte(addr: Seq<char>)
    ensures
        ({
            let bytes = vstd::utf8::encode_utf8(quantity::stripped(addr));
            let kept = if bytes.len() >= 40 {
                40
            } else {
                bytes.len() as int
            };
            let word = vstd::utf8::encode_utf8(address_word(addr));
            &&& sliceable(addr) <==> bytes.len() < 40 || vstd::utf8::is_char_boundary(
                bytes,
                bytes.len() - 40,
            )
            &&& sliceable(addr) ==> {
                &&& word.len() == 64
                &&& word.skip(64 - kept) == bytes.skip(bytes.len() - kept)
                &&& forall|i: int| 0 <= i < 64 - kept ==> #[trigger] word[i] == 0x30
            }
        }),
{
    let s = quantity::stripped(addr);
    let bytes = vstd::utf8::encode_utf8(s);
    if sliceable(addr) {
        law_address_word_width(addr);
        let word = vstd::utf8::encode_utf8(address_word(addr));
        if bytes.len() >= 40 {
            let tail = bytes.subrange(bytes.len() - 40, bytes.len() as int);
            vstd::utf8::encode_utf8_valid_utf8(s);
            vstd::utf8::valid_utf8_split(bytes, bytes.len() - 40);
            vstd::utf8::decode_utf8_encode_utf8(tail);
            text::lemma_encode_concat(text::zeros(24), last_bytes(s, 40));
            vstd::utf8::is_ascii_chars_encode_utf8(text::zeros(24));
            assert(word.skip(24) =~= bytes.skip(bytes.len() - 40));
        } else {
            let n = (64 - bytes.len()) as nat;
            text::lemma_encode_concat(text::zeros(n), s);
            vstd::utf8::is_ascii_chars_encode_utf8(text::zeros(n));
            assert(word.skip(n as int) =~= bytes.skip(0));
        }
    }
}

/// Call data can be made of every ruling, and of an attestation exactly where
/// the leader's address can be cut.
pub proof fn law_rulings_are_encodable(
    leader: Seq<char>,
    evidence_hash: Seq<char>,
    claim_id: Seq<char>,
    slash_amount: Seq<char>,
    upheld: bool,
    builder: Seq<char>,
)
    ensures
        encodable(IntentView::ArbiterRule { claim_id, slash_amount, upheld, builder }),
        encodable(IntentView::AttestDegradation { leader, evidence_hash, builder }) <==> sliceable(
            leader,
        ),
{
}

/// `text` ends `bytes`, and only zero digits stand before it.
spec fn ends_zero_padded(bytes: Seq<u8>, text: Seq<u8>) -> bool {
    &&& text.len() <= bytes.len()
    &&& bytes.skip(bytes.len() - text.len()) == text
    &&& forall|i: int| 0 <= i < bytes.len() - text.len() ==> #[trigger] bytes[i] == 0x30
}

/// A fitting text ends its word.
proof fn lemma_word_bytes(s: Seq<char>)
    requires
        text::byte_len(s) <= 64,
    ensures
        text::byte_len(word(s)) == 64,
        ends_zero_padded(vstd::utf8::encode_utf8(word(s)), vstd::utf8::encode_utf8(s)),
{
    let n = (64 - text::byte_len(s)) as nat;
    text::lemma_encode_concat(text::zeros(n), s);
    vstd::utf8::is_ascii_chars_encode_utf8(text::zeros(n));
    let bytes = vstd::utf8::encode_utf8(word(s));
    if n == 0 {
        assert(bytes.skip(0) =~= bytes);
    } else {
        assert(bytes.skip(n as int) =~= vstd::utf8::encode_utf8(s));
    }
}

/// Behind the prefix and a selector of eight digits, argument `i` of a fitting
/// intent takes the 64 bytes from `10 + 64 * i` on.
proof fn lemma_calldata_slot(intent: IntentView, i: int)
    requires
        encodable(intent),
        words_fit(intent),
        digest::keccak256_digest(vstd::utf8::encode_utf8(signature(intent))).len() == 32,
        0 <= i < argument_words(intent).len(),
    ensures
        text::byte_len(calldata_text(intent)) == 10 + 64 * argument_words(intent).len(),
        vstd::utf8::encode_utf8(calldata_text(intent)).take(10) == vstd::utf8::encode_utf8(
            seq!['0', 'x'] + digest::selector_text(signature(intent)),
        ),
        vstd::utf8::encode_utf8(calldata_text(intent)).subrange(10 + 64 * i, 74 + 64 * i)
            == vstd::utf8::encode_utf8(argument_words(intent)[i]),
{
    let words = argument_words(intent);
    assert forall|k: int| 0 <= k < words.len() implies text::byte_len(#[trigger] words[k])
        == 64 by {
        law_argument_words_width(intent, k);
    }
    law_words_stand_in_slots(words, i);
    let digest = digest::keccak256_digest(vstd::utf8::encode_utf8(signature(intent)));
    let head = seq!['0', 'x'] + digest::selector_text(signature(intent));
    digest::lemma_hex_text_ascii(digest);
    assert(vstd::utf8::is_ascii_chars(head)) by {
        assert forall|k: int| 0 <= k < head.len() implies '\0' <= #[trigger] head[k] <= '\u{7f}' by {
            if k >= 2 {
                digest::lemma_hex_text_digit(digest, k - 2);
            }
        }
    }
    vstd::utf8::is_ascii_chars_encode_utf8(head);
    text::lemma_encode_concat(head, joined(words));
    let data = vstd::utf8::encode_utf8(calldata_text(intent));
    let tail = vstd::utf8::encode_utf8(joined(words));
    assert(data.take(10) =~= vstd::utf8::encode_utf8(head));
    assert(data.subrange(10 + 64 * i, 74 + 64 * i) =~= tail.subrange(64 * i, 64 * i + 64));
}

/// A slot that ends with a text, read in place.
proof fn lemma_slot_in_place(data: Seq<u8>, at: int, text: Seq<u8>)
    requires
        0 <= at <= at + 64 <= data.len(),
        ends_zero_padded(data.subrange(at, at + 64), text),
    ensures
        text.len() <= 64,
        data.subrange(at + 64 - text.len(), at + 64) == text,
        forall|i: int| at <= i < at + 64 - text.len() ==> #[trigger] data[i] == 0x30,
{
    let slot = data.subrange(at, at + 64);
    assert(data.subrange(at + 64 - text.len(), at + 64) =~= slot.skip(64 - text.len()));
    assert forall|i: int| at <= i < at + 64 - text.len() implies #[trigger] data[i] == 0x30 by {
        assert(slot[i - at] == data[i]);
    }
}

/// A ruling whose arguments fit is `0x`, the selector of
/// `arbiterRule(uint256,uint256,bool,bytes32)`, and then, 64 digits each: the
/// claim, the amount, one or zero for the verdict, the builder tag. Each text
/// ends its slot, behind zeros. (A Keccak-256 digest has 32 bytes.)
pub proof fn law_ruling_calldata_by_slot(
    claim_id: Seq<char>,
    slash_amount: Seq<char>,
    upheld: bool,
    builder: Seq<char>,
)
    requires
        vstd::utf8::encode_utf8(quantity::stripped(claim_id)).len() <= 64,
        vstd::utf8::encode_utf8(quantity::stripped(slash_amount)).len() <= 64,
        vstd::utf8::encode_utf8(quantity::stripped(builder)).len() <= 64,
    ensures
        ({
            let intent = IntentView::ArbiterRule { claim_id, slash_amount, upheld, builder };
            let data = vstd::utf8::encode_utf8(calldata_text(intent));
            let digest = digest::keccak256_digest(
                vstd::utf8::encode_utf8("arbiterRule(uint256,uint256,bool,bytes32)"@),
            );
            let claim = vstd::utf8::encode_utf8(quantity::stripped(claim_id));
            let amount = vstd::utf8::encode_utf8(quantity::stripped(slash_amount));
            let tag = vstd::utf8::encode_utf8(quantity::stripped(builder));
            digest.len() == 32 ==> {
                &&& data.len() == 266
                &&& data.take(10) == vstd::utf8::encode_utf8(
                    seq!['0', 'x'] + digest::hex_text(digest).take(8),
                )
                &&& data.subrange(74 - claim.len(), 74) == claim
                &&& forall|i: int| 10 <= i < 74 - claim.len() ==> #[trigger] data[i] == 0x30
                &&& data.subrange(138 - amount.len(), 138) == amount
                &&& forall|i: int| 74 <= i < 138 - amount.len() ==> #[trigger] data[i] == 0x30
                &&& data[201] == if upheld {
                    0x31u8
                } else {
                    0x30u8
                }
                &&& forall|i: int| 138 <= i < 201 ==> #[trigger] data[i] == 0x30
                &&& data.subrange(266 - tag.len(), 266) == tag
                &&& forall|i: int| 202 <= i < 266 - tag.len() ==> #[trigger] data[i] == 0x30
            }
        }),
{
    let intent = IntentView::ArbiterRule { claim_id, slash_amount, upheld, builder };
    let data = vstd::utf8::encode_utf8(calldata_text(intent));
    let digest = digest::keccak256_digest(
        vstd::utf8::encode_utf8("arbiterRule(uint256,uint256,bool,bytes32)"@),
    );
    if digest.len() == 32 {
        lemma_calldata_slot(intent, 0);
        lemma_calldata_slot(intent, 1);
        lemma_calldata_slot(intent, 2);
        lemma_calldata_slot(intent, 3);
        lemma_word_bytes(quantity::stripped(claim_id));
        lemma_word_bytes(quantity::stripped(slash_amount));
        lemma_word_bytes(quantity::stripped(builder));
        lemma_slot_in_place(data, 10, vstd::utf8::encode_utf8(quantity::stripped(claim_id)));
        lemma_slot_in_place(data, 74, vstd::utf8::encode_utf8(quantity::stripped(slash_amount)));
        lemma_slot_in_place(data, 202, vstd::utf8::encode_utf8(quantity::stripped(builder)));
        vstd::utf8::is_ascii_chars_encode_utf8(bool_word(upheld));
        let verdict = vstd::utf8::encode_utf8(bool_word(upheld));
        assert forall|i: int| 138 <= i < 202 implies #[trigger] data[i] == verdict[i - 138] by {
            assert(data.subrange(138, 202)[i - 138] == data[i]);
        }
    }
}

/// An attestation whose arguments fit is `0x`, the selector of
/// `attestDegradation(address,bytes32,bytes32)`, and then, 64 digits each: the
/// last 40 bytes of the leader's address or the whole of a shorter one, the
/// evidence hash, the builder tag. Each ends its slot, behind zeros. (A
/// Keccak-256 digest has 32 bytes.)
pub proof fn law_attestation_calldata_by_slot(
    leader: Seq<char>,
    evidence_hash: Seq<char>,
    builder: Seq<char>,
)
    requires
        ({
            let bytes = vstd::utf8::encode_utf8(quantity::stripped(leader));
            bytes.len() < 40 || vstd::utf8::is_char_boundary(bytes, bytes.len() - 40)
        }),
        vstd::utf8::encode_utf8(quantity::stripped(evidence_hash)).len() <= 64,
        vstd::utf8::encode_utf8(quantity::stripped(builder)).len() <= 64,
    ensures
        ({
            let intent = IntentView::AttestDegradation { leader, evidence_hash, builder };
            let data = vstd::utf8::encode_utf8(calldata_text(intent));
            let digest = digest::keccak256_digest(
                vstd::utf8::encode_utf8("attestDegradation(address,bytes32,bytes32)"@),
            );
            let whole = vstd::utf8::encode_utf8(quantity::stripped(leader));
            let address = if whole.len() >= 40 {
                whole.skip(whole.len() - 40)
            } else {
                whole
            };
            let evidence = vstd::utf8::encode_utf8(quantity::stripped(evidence_hash));
            let tag = vstd::utf8::encode_utf8(quantity::stripped(builder));
            digest.len() == 32 ==> {
                &&& data.len() == 202
                &&& data.take(10) == vstd::utf8::encode_utf8(
                    seq!['0', 'x'] + digest::hex_text(digest).take(8),
                )
                &&& data.subrange(74 - address.len(), 74) == address
                &&& forall|i: int| 10 <= i < 74 - address.len() ==> #[trigger] data[i] == 0x30
                &&& data.subrange(138 - evidence.len(), 138) == evidence
                &&& forall|i: int| 74 <= i < 138 - evidence.len() ==> #[trigger] data[i] == 0x30
                &&& data.subrange(202 - tag.len(), 202) == tag
                &&& forall|i: int| 138 <= i < 202 - tag.len() ==> #[trigger] data[i] == 0x30
            }
        }),
{
    let intent = IntentView::AttestDegradation { leader, evidence_hash, builder };
    let data = vstd::utf8::encode_utf8(calldata_text(intent));
    let digest = digest::keccak256_digest(
        vstd::utf8::encode_utf8("attestDegradation(address,bytes32,bytes32)"@),
    );
    if digest.len() == 32 {
        let whole = vstd::utf8::encode_utf8(quantity::stripped(leader));
        let address = if whole.len() >= 40 {
            whole.skip(whole.len() - 40)
        } else {
            whole
        };
        lemma_calldata_slot(intent, 0);
        lemma_calldata_slot(intent, 1);
        lemma_calldata_slot(intent, 2);
        law_address_word_by_byte(leader);
        assert(whole.skip(0) =~= whole);
        lemma_word_bytes(quantity::stripped(evidence_hash));
        lemma_word_bytes(quantity::stripped(builder));
        lemma_slot_in_place(data, 10, address);
        lemma_slot_in_place(data, 74, vstd::utf8::encode_utf8(quantity::stripped(evidence_hash)));
        lemma_slot_in_place(data, 138, vstd::utf8::encode_utf8(quantity::stripped(builder)));
    }
}

/// Whatever the length of its arguments, a call is `0x`, the selector, and the
/// words of its arguments in the order of its signature.
pub proof fn law_calldata_by_argument(
    leader: Seq<char>,
    evidence_hash: Seq<char>,
    claim_id: Seq<char>,
    slash_amount: Seq<char>,
    upheld: bool,
    builder: Seq<char>,
)
    ensures
        calldata_text(IntentView::AttestDegradation { leader, evidence_hash, builder }) == seq![
            '0',
            'x',
        ] + digest::selector_text("attestDegradation(address,bytes32,bytes32)"@) + address_word(
            leader,
        ) + word(quantity::stripped(evidence_hash)) + word(quantity::stripped(builder)),
        calldata_text(IntentView::ArbiterRule { claim_id, slash_amount, upheld, builder }) == seq![
            '0',
            'x',
        ] + digest::selector_text("arbiterRule(uint256,uint256,bool,bytes32)"@) + word(
            quantity::stripped(claim_id),
        ) + word(quantity::stripped(slash_amount)) + text::zeros(63).push(
            if upheld {
                '1'
            } else {
                '0'
            },
        ) + word(quantity::stripped(builder)),
{
    reveal_with_fuel(joined, 6);
    let a = IntentView::AttestDegradation { leader, evidence_hash, builder };
    let aw = argument_words(a);
    assert(aw.drop_last() =~= aw.take(2));
    assert(aw.take(2).drop_last() =~= aw.take(1));
    assert(aw.take(1).drop_last() =~= aw.take(0));
    assert(joined(aw) =~= aw[0] + aw[1] + aw[2]);
    assert(calldata_text(a) =~= seq!['0', 'x'] + digest::selector_text(signature(a)) + aw[0] + aw[1]
        + aw[2]);
    let b = IntentView::ArbiterRule { claim_id, slash_amount, upheld, builder };
    let bw = argument_words(b);
    assert(bw.drop_last() =~= bw.take(3));
    assert(bw.take(3).drop_last() =~= bw.take(2));
    assert(bw.take(2).drop_last() =~= bw.take(1));
    assert(bw.take(1).drop_last() =~= bw.take(0));
    assert(joined(bw) =~= bw[0] + bw[1] + bw[2] + bw[3]);
    assert(calldata_text(b) =~= seq!['0', 'x'] + digest::selector_text(signature(b)) + bw[0] + bw[1]
        + bw[2] + bw[3]);
}

/// Two rulings that differ in the verdict alone have call data that differ in
/// one digit alone: the last before the builder's word, one for a claim that is
/// upheld and zero for one that is denied.
pub proof fn law_verdict_is_one_digit(
    claim_id: Seq<char>,
    slash_amount: Seq<char>,
    builder: Seq<char>,
)
    ensures
        ({
            let yes = calldata_text(
                IntentView::ArbiterRule { claim_id, slash_amount, upheld: true, builder },
            );
            let no = calldata_text(
                IntentView::ArbiterRule { claim_id, slash_amount, upheld: false, builder },
            );
            let at = yes.len() - word(quantity::stripped(builder)).len() - 1;
            &&& 0 <= at < yes.len()
            &&& yes.len() == no.len()
            &&& yes[at] == '1'
            &&& no[at] == '0'
            &&& forall|i: int| 0 <= i < yes.len() && i != at ==> #[trigger] yes[i] == no[i]
        }),
{
    let none = Seq::<char>::empty();
    law_calldata_by_argument(none, none, claim_id, slash_amount, true, builder);
    law_calldata_by_argument(none, none, claim_id, slash_amount, false, builder);
}

} // verus!
