//! Lower-case hexadecimal text for byte strings.

use vstd::prelude::*;

verus! {

/// `String::push` appends one character at the end of the string.
pub assume_specification[ String::push ](s: &mut String, ch: char)
    ensures
        final(s)@ == old(s)@.push(ch),
;

/// The digit that stands for a value below sixteen.
pub open spec fn digit(n: int) -> char {
    if n < 10 {
        (n + 48) as char
    } else {
        (n + 87) as char
    }
}

/// Whether `c` is one of `0`..`9`, `a`..`f`.
pub open spec fn is_digit(c: char) -> bool {
    ('0' <= c && c <= '9') || ('a' <= c && c <= 'f')
}

/// The value of a digit.
pub open spec fn digit_value(c: char) -> int {
    if c <= '9' {
        c as int - 48
    } else {
        c as int - 87
    }
}

/// The text of a byte string: two digits per byte, the high half first.
pub open spec fn encode(bytes: Seq<u8>) -> Seq<char> {
    Seq::new(
        2 * bytes.len(),
        |i: int|
            if i % 2 == 0 {
                digit(bytes[i / 2] as int / 16)
            } else {
                digit(bytes[i / 2] as int % 16)
            },
    )
}

/// Whether `text` is the text of some byte string.
pub open spec fn is_hex(text: Seq<char>) -> bool {
    &&& text.len() % 2 == 0
    &&& forall|i: int| 0 <= i < text.len() ==> is_digit(#[trigger] text[i])
}

/// The byte string that `text` stands for.
pub open spec fn decode(text: Seq<char>) -> Seq<u8> {
    Seq::new(
        text.len() / 2,
        |i: int| (digit_value(text[2 * i]) * 16 + digit_value(text[2 * i + 1])) as u8,
    )
}

/// Encoded text is well formed, and decoding it gives the bytes back.
pub proof fn lemma_decode_encode(bytes: Seq<u8>)
    ensures
        is_hex(encode(bytes)),
        decode(encode(bytes)) == bytes,
{
    let text = encode(bytes);
    assert forall|i: int| 0 <= i < text.len() implies is_digit(#[trigger] text[i]) by {
        let b = bytes[i / 2] as int;
        assert(0 <= b / 16 < 16 && 0 <= b % 16 < 16);
    }
    assert forall|i: int| 0 <= i < bytes.len() implies decode(text)[i] == bytes[i] by {
        let b = bytes[i] as int;
        assert((2 * i) / 2 == i && (2 * i + 1) / 2 == i);
        assert((2 * i) % 2 == 0 && (2 * i + 1) % 2 == 1);
        assert(0 <= b / 16 < 16 && 0 <= b % 16 < 16);
        assert(digit_value(digit(b / 16)) == b / 16);
        assert(digit_value(digit(b % 16)) == b % 16);
        assert((b / 16) * 16 + b % 16 == b);
    }
    assert(decode(text) =~= bytes);
}

/// Well-formed text is the encoding of the bytes it decodes to.
pub proof fn lemma_encode_decode(text: Seq<char>)
    requires
        is_hex(text),
    ensures
        encode(decode(text)) == text,
{
    let bytes = decode(text);
    assert forall|i: int| 0 <= i < text.len() implies encode(bytes)[i] == text[i] by {
        let k = i / 2;
        let hi = digit_value(text[2 * k]);
        let lo = digit_value(text[2 * k + 1]);
        assert(is_digit(text[2 * k]) && is_digit(text[2 * k + 1]));
        assert(0 <= hi < 16 && 0 <= lo < 16);
        assert((hi * 16 + lo) / 16 == hi && (hi * 16 + lo) % 16 == lo);
        assert(digit(hi) == text[2 * k]);
        assert(digit(lo) == text[2 * k + 1]);
    }
    assert(encode(bytes) =~= text);
}

/// Different byte strings have different texts.
pub proof fn lemma_encode_injective(a: Seq<u8>, b: Seq<u8>)
    requires
        encode(a) == encode(b),
    ensures
        a == b,
{
    lemma_decode_encode(a);
    lemma_decode_encode(b);
}

/// The digit of a value below sixteen.
pub fn digit_of(n: u8) -> (c: char)
    requires
        n < 16,
    ensures
        c == digit(n as int),
{
    if n < 10 {
        (n + 48) as char
    } else {
        (n + 87) as char
    }
}

/// Writes `bytes` as lower-case hexadecimal text.
pub fn encode_hex(bytes: &[u8]) -> (text: String)
    ensures
        text@ == encode(bytes@),
{
    let mut text = String::new();
    let mut i: usize = 0;
    while i < bytes.len()
        invariant
            i <= bytes.len(),
            text@ == encode(bytes@.take(i as int)),
        decreases bytes.len() - i,
    {
        let b = bytes[i];
        text.push(digit_of(b / 16));
        text.push(digit_of(b % 16));
        proof {
            let before = bytes@.take(i as int);
            let after = bytes@.take(i + 1);
            assert(after == before.push(b));
            assert(encode(after) =~= encode(before).push(digit(b as int / 16)).push(
                digit(b as int % 16),
            )) by {
                assert forall|j: int| 0 <= j < 2 * after.len() implies encode(after)[j] == encode(
                    before,
                ).push(digit(b as int / 16)).push(digit(b as int % 16))[j] by {
                    if j < 2 * i {
                        assert(after[j / 2] == before[j / 2]);
                    } else {
                        assert(j / 2 == i);
                    }
                }
            }
        }
        i += 1;
    }
    assert(bytes@.take(i as int) == bytes@);
    text
}

/// The value of the digit whose ASCII code is `c`, if `c` is one.
fn value_of(c: u8) -> (v: Option<u8>)
    ensures
        match v {
            Some(n) => is_digit(c as char) && n == digit_value(c as char),
            None => !is_digit(c as char),
        },
{
    if 48 <= c && c <= 57 {
        Some(c - 48)
    } else if 97 <= c && c <= 102 {
        Some(c - 87)
    } else {
        None
    }
}

/// Reads lower-case hexadecimal text back into bytes. Text of odd length, or
/// with any character that is no lower-case digit, stands for nothing.
pub fn decode_hex(text: &str) -> (bytes: Option<Vec<u8>>)
    ensures
        match bytes {
            Some(b) => is_hex(text@) && b@ == decode(text@),
            None => !is_hex(text@),
        },
{
    broadcast use vstd::string::is_ascii_spec_bytes;

    if !text.is_ascii() {
        proof {
            if is_hex(text@) {
                assert forall|i: int| 0 <= i < text@.len() implies '\0' <= #[trigger] text@[i]
                    <= '\u{7f}' by {
                    assert(is_digit(text@[i]));
                }
            }
        }
        return None;
    }
    let raw = text.as_bytes();
    assert(raw@.len() == text@.len());
    assert(forall|i: int| 0 <= i < raw@.len() ==> raw@[i] == text@[i] as u8);
    let n = raw.len();
    if n % 2 != 0 {
        return None;
    }
    let mut bytes: Vec<u8> = Vec::new();
    let mut i: usize = 0;
    while i < n
        invariant
            n == raw@.len(),
            n == text@.len(),
            n % 2 == 0,
            i % 2 == 0,
            i <= n,
            forall|j: int| 0 <= j < n ==> raw@[j] == text@[j] as u8,
            forall|j: int| 0 <= j < n ==> '\0' <= #[trigger] text@[j] <= '\u{7f}',
            forall|j: int| 0 <= j < i ==> is_digit(#[trigger] text@[j]),
            bytes@.len() == i / 2,
            forall|k: int| 0 <= k < i / 2 ==> #[trigger] bytes@[k] == decode(text@)[k],
        decreases n - i,
    {
        let ghost hi_char = text@[i as int];
        let ghost lo_char = text@[i + 1];
        assert(raw@[i as int] as char == hi_char && raw@[i + 1] as char == lo_char);
        let hi = match value_of(raw[i]) {
            Some(v) => v,
            None => {
                return None;
            },
        };
        let lo = match value_of(raw[i + 1]) {
            Some(v) => v,
            None => {
                return None;
            },
        };
        bytes.push(hi * 16 + lo);
        assert(2 * (i / 2) == i);
        i += 2;
    }
    assert(bytes@ =~= decode(text@));
    Some(bytes)
}

} // verus!
