//! Canonical hex encoding of bytes and fixed-width integers, and its inverse.

use alloy::primitives::hex::ToHexExt;
use vstd::prelude::*;
use vstd::string::*;

verus! {

/// The lowercase hexadecimal digit that stands for `n`, for `0 <= n < 16`.
pub open spec fn hex_digit(n: int) -> char {
    seq!['0', '1', '2', '3', '4', '5', '6', '7', '8', '9', 'a', 'b', 'c', 'd', 'e', 'f'][n]
}

/// Two lowercase hex digits per byte, high nibble first.
pub open spec fn hex_digits(bytes: Seq<u8>) -> Seq<char> {
    Seq::new(
        2 * bytes.len(),
        |i: int| if i % 2 == 0 {
            hex_digit(bytes[i / 2] as int / 16)
        } else {
            hex_digit(bytes[i / 2] as int % 16)
        },
    )
}

/// The canonical text of a byte string: `0x` followed by its hex digits.
pub open spec fn hex_with_prefix(bytes: Seq<u8>) -> Seq<char> {
    seq!['0', 'x'] + hex_digits(bytes)
}

/// Calls `const_hex`'s `ToHexExt::encode_hex_with_prefix` (re-exported as
/// `alloy::primitives::hex`). Its documentation promises the prefix `0x`
/// followed by the lowercase hex digits of every byte in order; that is
/// what this contract claims and what nothing here proves.
#[verifier::external_body]
fn encode_hex_with_prefix(bytes: &[u8]) -> (text: String)
    ensures
        text@ == hex_with_prefix(bytes@),
{
    bytes.encode_hex_with_prefix()
}

/// Renders `bytes` as lowercase `0x`-prefixed hex.
pub fn to_hex_string_internal(bytes: &[u8]) -> (text: String)
    ensures
        text@ == hex_with_prefix(bytes@),
        text@.len() == 2 + 2 * bytes@.len(),
{
    encode_hex_with_prefix(bytes)
}

/// The `width` bytes that stand for `value` with the most significant
/// byte first; a value too large for them loses its upper part.
pub open spec fn be_bytes(value: nat, width: nat) -> Seq<u8>
    decreases width,
{
    if width == 0 {
        Seq::empty()
    } else {
        be_bytes(value / 256, (width - 1) as nat).push((value % 256) as u8)
    }
}

/// The number that bytes stand for, most significant byte first.
pub open spec fn be_value(bytes: Seq<u8>) -> nat
    decreases bytes.len(),
{
    if bytes.len() == 0 {
        0
    } else {
        be_value(bytes.drop_last()) * 256 + bytes.last() as nat
    }
}

/// `value` can be written in `width` bytes.
pub open spec fn fits_in(value: nat, width: nat) -> bool
    decreases width,
{
    if width == 0 {
        value == 0
    } else {
        fits_in(value / 256, (width - 1) as nat)
    }
}

/// A value that fits in its bytes is read back from them unchanged.
pub proof fn lemma_be_round_trip(value: nat, width: nat)
    requires
        fits_in(value, width),
    ensures
        be_bytes(value, width).len() == width,
        be_value(be_bytes(value, width)) == value,
    decreases width,
{
    if width > 0 {
        lemma_be_round_trip(value / 256, (width - 1) as nat);
        let high = be_bytes(value / 256, (width - 1) as nat);
        let low = (value % 256) as u8;
        assert(high.push(low).drop_last() =~= high);
        assert(high.push(low).last() == low);
    }
}

/// What fits in some bytes fits in more, and so does every smaller value.
pub proof fn lemma_fits_widens(value: nat, smaller: nat, width: nat, wider: nat)
    requires
        fits_in(value, width),
        smaller <= value,
        width <= wider,
    ensures
        fits_in(smaller, wider),
    decreases wider,
{
    if wider > 0 {
        if width == 0 {
            lemma_fits_widens(0, smaller / 256, 0, (wider - 1) as nat);
        } else {
            lemma_fits_widens(value / 256, smaller / 256, (width - 1) as nat, (wider - 1) as nat);
        }
    }
}

/// Every 128-bit value fits in a 32-byte word.
pub proof fn lemma_u128_fits_word(value: u128)
    ensures
        fits_in(value as nat, 32),
{
    let v = value as nat;
    reveal_with_fuel(fits_in, 17);
    let v4 = v / 256 / 256 / 256 / 256;
    let v8 = v4 / 256 / 256 / 256 / 256;
    let v12 = v8 / 256 / 256 / 256 / 256;
    let v16 = v12 / 256 / 256 / 256 / 256;
    assert(v4 <= 0xffff_ffff_ffff_ffff_ffff_ffff);
    assert(v8 <= 0xffff_ffff_ffff_ffff);
    assert(v12 <= 0xffff_ffff);
    assert(v16 == 0);
    assert(fits_in(v, 16));
    lemma_fits_widens(v, v, 16, 32);
}

/// The number, most significant byte first, in a word of 32 bytes.
pub open spec fn word(value: nat) -> Seq<u8> {
    be_bytes(value, 32)
}

/// Writes `value` as a word of 32 bytes, most significant byte first.
pub fn word_bytes(value: u128) -> (bytes: Vec<u8>)
    ensures
        bytes@ == word(value as nat),
{
    let mut low: Vec<u8> = Vec::new();
    let mut rest: u128 = value;
    let mut i: usize = 0;
    // least significant byte first
    while i < 32
        invariant
            i <= 32,
            low.len() == i,
            word(value as nat) == be_bytes(rest as nat, (32 - i) as nat) + low@.reverse(),
        decreases 32 - i,
    {
        let b: u8 = (rest % 256) as u8;
        proof {
            let high = be_bytes((rest / 256) as nat, (32 - i - 1) as nat);
            assert(be_bytes(rest as nat, (32 - i) as nat) == high.push(b));
            assert(high.push(b) + low@.reverse() =~= high + low@.push(b).reverse());
        }
        low.push(b);
        rest = rest / 256;
        i = i + 1;
    }
    let mut bytes: Vec<u8> = Vec::new();
    let mut k: usize = 32;
    while k > 0
        invariant
            k <= 32,
            low.len() == 32,
            bytes@ == low@.reverse().subrange(0, 32 - k),
        decreases k,
    {
        k = k - 1;
        bytes.push(low[k]);
        proof {
            let r = low@.reverse();
            assert(r.subrange(0, 32 - k) =~= r.subrange(0, 32 - k - 1).push(low@[k as int]));
        }
    }
    proof {
        assert(low@.reverse().subrange(0, 32) =~= low@.reverse());
        assert(be_bytes(rest as nat, 0) + low@.reverse() =~= low@.reverse());
    }
    bytes
}

/// Values that are stored as lowercase `0x`-prefixed hex text.
pub trait ToHexString {
    /// The text that the value is stored as.
    spec fn hex_text(&self) -> Seq<char>;

    /// Renders the value as it is stored.
    fn to_hex_string(&self) -> (text: String)
        ensures
            text@ == self.hex_text(),
    ;
}

impl ToHexString for Vec<u8> {
    /// Bytes are stored as they are.
    open spec fn hex_text(&self) -> Seq<char> {
        hex_with_prefix(self@)
    }

    fn to_hex_string(&self) -> (text: String) {
        to_hex_string_internal(self.as_slice())
    }
}

impl ToHexString for u8 {
    /// An 8-bit number is stored as a word of 32 bytes.
    open spec fn hex_text(&self) -> Seq<char> {
        hex_with_prefix(word(*self as nat))
    }

    fn to_hex_string(&self) -> (text: String) {
        let bytes = word_bytes(*self as u128);
        to_hex_string_internal(bytes.as_slice())
    }
}

impl ToHexString for u64 {
    /// A 64-bit number is stored as a word of 32 bytes.
    open spec fn hex_text(&self) -> Seq<char> {
        hex_with_prefix(word(*self as nat))
    }

    fn to_hex_string(&self) -> (text: String) {
        let bytes = word_bytes(*self as u128);
        to_hex_string_internal(bytes.as_slice())
    }
}

impl ToHexString for u128 {
    /// A 128-bit number is stored as a word of 32 bytes.
    open spec fn hex_text(&self) -> Seq<char> {
        hex_with_prefix(word(*self as nat))
    }

    fn to_hex_string(&self) -> (text: String) {
        let bytes = word_bytes(*self);
        to_hex_string_internal(bytes.as_slice())
    }
}

impl ToHexString for bool {
    /// A flag is stored as the word of one or of zero.
    open spec fn hex_text(&self) -> Seq<char> {
        hex_with_prefix(
            word(
                if *self {
                    1
                } else {
                    0
                },
            ),
        )
    }

    fn to_hex_string(&self) -> (text: String) {
        let bytes = word_bytes(
            if *self {
                1
            } else {
                0
            },
        );
        to_hex_string_internal(bytes.as_slice())
    }
}

/// The value of a hex digit given by its code point, in either case.
pub open spec fn nibble_value(code: int) -> Option<int> {
    if 48 <= code <= 57 {
        Some(code - 48)
    } else if 97 <= code <= 102 {
        Some(code - 87)
    } else if 65 <= code <= 70 {
        Some(code - 55)
    } else {
        None
    }
}

/// The value of a hex digit, in either case.
pub open spec fn hex_value(c: char) -> Option<int> {
    nibble_value(c as int)
}

/// The text is `0x` followed by an even number of hex digits.
pub open spec fn is_hex_text(text: Seq<char>) -> bool {
    &&& text.len() >= 2
    &&& text[0] == '0'
    &&& text[1] == 'x'
    &&& text.len() % 2 == 0
    &&& forall|i: int| 2 <= i < text.len() ==> hex_value(#[trigger] text[i]) is Some
}

/// The bytes that a hex text stands for; `None` for any other text.
pub open spec fn decoded_hex(text: Seq<char>) -> Option<Seq<u8>> {
    if is_hex_text(text) {
        Some(
            Seq::new(
                ((text.len() - 2) / 2) as nat,
                |i: int|
                    (hex_value(text[2 + 2 * i])->0 * 16 + hex_value(text[3 + 2 * i])->0) as u8,
            ),
        )
    } else {
        None
    }
}

/// Reading a hex digit back gives its value.
pub proof fn lemma_hex_digit_value(n: int)
    requires
        0 <= n < 16,
    ensures
        hex_value(hex_digit(n)) == Some(n),
{
    let digits = seq![
        '0',
        '1',
        '2',
        '3',
        '4',
        '5',
        '6',
        '7',
        '8',
        '9',
        'a',
        'b',
        'c',
        'd',
        'e',
        'f',
    ];
    assert(hex_digit(n) == digits[n]);
}

/// Hex text that is read back gives the bytes it was written from.
pub proof fn lemma_hex_round_trip(bytes: Seq<u8>)
    ensures
        decoded_hex(hex_with_prefix(bytes)) == Some(bytes),
{
    let text = hex_with_prefix(bytes);
    assert(text.len() == 2 + 2 * bytes.len());
    assert forall|i: int| 2 <= i < text.len() implies hex_value(#[trigger] text[i]) is Some by {
        let j = i - 2;
        assert(text[i] == hex_digits(bytes)[j]);
        lemma_hex_digit_value(bytes[j / 2] as int / 16);
        lemma_hex_digit_value(bytes[j / 2] as int % 16);
    }
    assert(is_hex_text(text));
    let back = decoded_hex(text)->0;
    assert forall|k: int| 0 <= k < bytes.len() implies back[k] == bytes[k] by {
        assert(text[2 + 2 * k] == hex_digits(bytes)[2 * k]);
        assert(text[3 + 2 * k] == hex_digits(bytes)[2 * k + 1]);
        lemma_hex_digit_value(bytes[k] as int / 16);
        lemma_hex_digit_value(bytes[k] as int % 16);
    }
    assert(back =~= bytes);
}

/// The number that a hex text stands for, most significant digit first.
pub open spec fn hex_number(text: Seq<char>) -> Option<nat> {
    match decoded_hex(text) {
        Some(bytes) => Some(be_value(bytes)),
        None => None,
    }
}

/// An integer field that is written as a 32-byte word in hex and read
/// back is the integer that was written.
pub proof fn lemma_integer_round_trip(value: u128)
    ensures
        hex_number(hex_with_prefix(word(value as nat))) == Some(value as nat),
{
    lemma_u128_fits_word(value);
    lemma_be_round_trip(value as nat, 32);
    lemma_hex_round_trip(word(value as nat));
}

fn nibble(b: u8) -> (v: Option<u8>)
    ensures
        match v {
            Some(n) => nibble_value(b as int) == Some(n as int) && n < 16,
            None => nibble_value(b as int) is None,
        },
{
    if 48 <= b && b <= 57 {
        Some(b - 48)
    } else if 97 <= b && b <= 102 {
        Some(b - 87)
    } else if 65 <= b && b <= 70 {
        Some(b - 55)
    } else {
        None
    }
}

/// Reads hex text back into bytes: `0x`, then two digits per byte, in
/// either case. Any other text gives `None`.
pub fn from_hex_string(text: &str) -> (bytes: Option<Vec<u8>>)
    ensures
        match bytes {
            Some(b) => decoded_hex(text@) == Some(b@),
            None => decoded_hex(text@) is None,
        },
{
    if !text.is_ascii() {
        proof {
            if is_hex_text(text@) {
                assert forall|i: int| 0 <= i < text@.len() implies '\0' <= #[trigger] text@[i]
                    <= '\u{7f}' by {
                    if i >= 2 {
                        assert(hex_value(text@[i]) is Some);
                    }
                }
            }
        }
        return None;
    }
    let raw = text.as_bytes();
    proof {
        is_ascii_spec_bytes(text);
    }
    assert(raw@.len() == text@.len());
    assert(forall|i: int| 0 <= i < raw@.len() ==> #[trigger] raw@[i] as int == text@[i] as int);
    let len = raw.len();
    if len < 2 || raw[0] != 48 || raw[1] != 120 || len % 2 != 0 {
        return None;
    }
    let mut bytes: Vec<u8> = Vec::new();
    let mut i: usize = 2;
    while i < len
        invariant
            2 <= i <= len,
            len == raw@.len(),
            len % 2 == 0,
            i % 2 == 0,
            raw@.len() == text@.len(),
            text@[0] == '0',
            text@[1] == 'x',
            forall|j: int| 0 <= j < raw@.len() ==> #[trigger] raw@[j] as int == text@[j] as int,
            forall|j: int| 2 <= j < i ==> hex_value(#[trigger] text@[j]) is Some,
            bytes.len() == (i - 2) / 2,
            forall|k: int|
                0 <= k < bytes.len() ==> #[trigger] bytes[k] == (hex_value(text@[2 + 2 * k])->0 * 16
                    + hex_value(text@[3 + 2 * k])->0) as u8,
        decreases len - i,
    {
        let high = nibble(raw[i]);
        let low = nibble(raw[i + 1]);
        match (high, low) {
            (Some(h), Some(l)) => {
                bytes.push(h * 16 + l);
            },
            _ => {
                proof {
                    if high is None {
                        assert(hex_value(text@[i as int]) is None);
                    } else {
                        assert(hex_value(text@[i + 1]) is None);
                    }
                }
                return None;
            },
        }
        i = i + 2;
    }
    proof {
        assert(is_hex_text(text@));
        assert(bytes@ =~= decoded_hex(text@)->0);
    }
    Some(bytes)
}

/// Reads the number that bytes stand for, most significant byte first,
/// where it fits in 128 bits.
pub fn number_of(bytes: &Vec<u8>) -> (value: Option<u128>)
    ensures
        match value {
            Some(v) => be_value(bytes@) == v,
            None => be_value(bytes@) > u128::MAX,
        },
{
    let mut acc: u128 = 0;
    let mut i: usize = 0;
    while i < bytes.len()
        invariant
            i <= bytes.len(),
            acc == be_value(bytes@.subrange(0, i as int)),
        decreases bytes.len() - i,
    {
        proof {
            let upto = bytes@.subrange(0, i + 1);
            assert(upto.drop_last() =~= bytes@.subrange(0, i as int));
            assert(upto.last() == bytes[i as int]);
        }
        if acc > 0x00ff_ffff_ffff_ffff_ffff_ffff_ffff_ffff {
            proof {
                lemma_be_value_grows(bytes@, i + 1);
            }
            return None;
        }
        acc = acc * 256 + bytes[i] as u128;
        i = i + 1;
    }
    proof {
        assert(bytes@.subrange(0, bytes.len() as int) =~= bytes@);
    }
    Some(acc)
}

/// Bytes stand for no less than their leading bytes alone do.
pub proof fn lemma_be_value_grows(bytes: Seq<u8>, k: int)
    requires
        0 <= k <= bytes.len(),
    ensures
        be_value(bytes.subrange(0, k)) <= be_value(bytes),
    decreases bytes.len(),
{
    if k == bytes.len() {
        assert(bytes.subrange(0, k) =~= bytes);
    } else {
        assert(bytes.drop_last().subrange(0, k) =~= bytes.subrange(0, k));
        lemma_be_value_grows(bytes.drop_last(), k);
    }
}

} // verus!
