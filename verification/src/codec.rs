//! Bytes as text: hexadecimal and base64.

use vstd::prelude::*;

verus! {

// ---------------------------------------------------------------------------
// Hexadecimal
// ---------------------------------------------------------------------------

/// The lower case digit for a value below sixteen.
pub open spec fn hex_digit(d: int) -> Seq<char> {
    if d == 0 {
        "0"@
    } else if d == 1 {
        "1"@
    } else if d == 2 {
        "2"@
    } else if d == 3 {
        "3"@
    } else if d == 4 {
        "4"@
    } else if d == 5 {
        "5"@
    } else if d == 6 {
        "6"@
    } else if d == 7 {
        "7"@
    } else if d == 8 {
        "8"@
    } else if d == 9 {
        "9"@
    } else if d == 10 {
        "a"@
    } else if d == 11 {
        "b"@
    } else if d == 12 {
        "c"@
    } else if d == 13 {
        "d"@
    } else if d == 14 {
        "e"@
    } else {
        "f"@
    }
}

/// Two lower case digits for each byte.
pub open spec fn hex_text(bytes: Seq<u8>) -> Seq<char>
    decreases bytes.len(),
{
    if bytes.len() == 0 {
        Seq::empty()
    } else {
        hex_text(bytes.drop_last()) + hex_digit(bytes.last() as int / 16) + hex_digit(
            bytes.last() as int % 16,
        )
    }
}

fn hex_digit_of(d: u8) -> (s: &'static str)
    requires
        d < 16,
    ensures
        s@ == hex_digit(d as int),
{
    match d {
        0 => "0",
        1 => "1",
        2 => "2",
        3 => "3",
        4 => "4",
        5 => "5",
        6 => "6",
        7 => "7",
        8 => "8",
        9 => "9",
        10 => "a",
        11 => "b",
        12 => "c",
        13 => "d",
        14 => "e",
        _ => "f",
    }
}

/// Writes bytes in hexadecimal.
pub fn hex_encode(bytes: &Vec<u8>) -> (text: String)
    ensures
        text@ == hex_text(bytes@),
{
    let mut text = String::new();
    let mut i: usize = 0;
    while i < bytes.len()
        invariant
            i <= bytes@.len(),
            text@ == hex_text(bytes@.take(i as int)),
        decreases bytes@.len() - i,
    {
        proof {
            assert(bytes@.take(i + 1).drop_last() =~= bytes@.take(i as int));
        }
        text.append(hex_digit_of(bytes[i] / 16));
        text.append(hex_digit_of(bytes[i] % 16));
        i = i + 1;
    }
    assert(bytes@.take(i as int) =~= bytes@);
    text
}

/// The value of a hexadecimal digit of either case.
pub open spec fn hex_value(c: char) -> Option<int> {
    if '0' <= c <= '9' {
        Some(c as int - '0' as int)
    } else if 'a' <= c <= 'f' {
        Some(c as int - 'a' as int + 10)
    } else if 'A' <= c <= 'F' {
        Some(c as int - 'A' as int + 10)
    } else {
        None
    }
}

/// The bytes that a text of hexadecimal digits stands for, where it is one.
pub open spec fn hex_bytes(text: Seq<char>) -> Option<Seq<u8>> {
    if text.len() % 2 == 0 && forall|i: int|
        0 <= i < text.len() ==> hex_value(#[trigger] text[i]) is Some {
        Some(
            Seq::new(
                text.len() / 2,
                |i: int| (16 * hex_value(text[2 * i])->0 + hex_value(text[2 * i + 1])->0) as u8,
            ),
        )
    } else {
        None
    }
}

/// What `hex` says is wrong with a text that it does not decode.
pub uninterp spec fn hex_error_text(text: Seq<char>) -> Seq<char>;

/// `hex::decode`: the bytes of a text made of an even number of hexadecimal digits of either
/// case, and the message of its error for any other text. What the message says is left
/// unsaid; it depends on the text alone.
#[verifier::external_body]
pub(crate) fn hex_decode(text: &str) -> (bytes: Result<Vec<u8>, String>)
    ensures
        bytes is Ok <==> hex_bytes(text@) is Some,
        bytes matches Ok(b) ==> Some(b@) == hex_bytes(text@),
        bytes matches Err(e) ==> e@ == hex_error_text(text@),
{
    hex::decode(text).map_err(|e| e.to_string())
}

// ---------------------------------------------------------------------------
// Base64
// ---------------------------------------------------------------------------

/// The symbol for a value below sixty-four.
pub open spec fn base64_symbol(n: int) -> char {
    "ABCDEFGHIJKLMNOPQRSTUVWXYZabcdefghijklmnopqrstuvwxyz0123456789+/"@[n]
}

/// The standard base64 encoding: four symbols for each three bytes, the last group padded.
pub open spec fn base64_text(bytes: Seq<u8>) -> Seq<char>
    decreases bytes.len(),
{
    if bytes.len() == 0 {
        Seq::empty()
    } else if bytes.len() == 1 {
        seq![
            base64_symbol(bytes[0] as int / 4),
            base64_symbol(bytes[0] as int % 4 * 16),
            '=',
            '=',
        ]
    } else if bytes.len() == 2 {
        seq![
            base64_symbol(bytes[0] as int / 4),
            base64_symbol(bytes[0] as int % 4 * 16 + bytes[1] as int / 16),
            base64_symbol(bytes[1] as int % 16 * 4),
            '=',
        ]
    } else {
        seq![
            base64_symbol(bytes[0] as int / 4),
            base64_symbol(bytes[0] as int % 4 * 16 + bytes[1] as int / 16),
            base64_symbol(bytes[1] as int % 16 * 4 + bytes[2] as int / 64),
            base64_symbol(bytes[2] as int % 64),
        ] + base64_text(bytes.skip(3))
    }
}

/// Whether the encoding of so many bytes fits in memory.
pub open spec fn encodable(len: nat) -> bool {
    4 * ((len + 2) / 3) <= isize::MAX
}

/// `base64::Engine::encode` of the standard engine: the standard encoding. It panics where
/// the encoding is longer than a string can be.
#[verifier::external_body]
pub(crate) fn base64_encode(bytes: &Vec<u8>) -> (text: String)
    requires
        encodable(bytes@.len()),
    ensures
        text@ == base64_text(bytes@),
{
    base64::Engine::encode(&base64::engine::general_purpose::STANDARD, bytes)
}

/// What `base64` says is wrong with a text that it does not decode.
pub uninterp spec fn base64_error_text(text: Seq<char>) -> Seq<char>;

/// `base64::Engine::decode` of the standard engine: the bytes whose standard encoding the
/// text is, and the message of its error where it is none. The padding has to be there, and
/// bits that the encoding leaves unused have to be zero. What the message says is left
/// unsaid; it depends on the text alone.
#[verifier::external_body]
pub(crate) fn base64_decode(text: &str) -> (bytes: Result<Vec<u8>, String>)
    ensures
        bytes matches Ok(b) ==> base64_text(b@) == text@,
        bytes matches Err(e) ==> e@ == base64_error_text(text@) && forall|b: Seq<u8>|
            #[trigger] base64_text(b) != text@,
{
    base64::Engine::decode(&base64::engine::general_purpose::STANDARD, text.as_bytes()).map_err(
        |e| e.to_string(),
    )
}

proof fn symbols_differ(m: int, n: int)
    requires
        0 <= m < 64,
        0 <= n < 64,
        base64_symbol(m) == base64_symbol(n),
    ensures
        m == n,
{
    reveal_strlit("ABCDEFGHIJKLMNOPQRSTUVWXYZabcdefghijklmnopqrstuvwxyz0123456789+/");
}

proof fn no_symbol_pads(n: int)
    requires
        0 <= n < 64,
    ensures
        base64_symbol(n) != '=',
{
    reveal_strlit("ABCDEFGHIJKLMNOPQRSTUVWXYZabcdefghijklmnopqrstuvwxyz0123456789+/");
}

/// A byte of a sequence, zero past its end.
spec fn byte_at(bytes: Seq<u8>, i: int) -> int {
    if i < bytes.len() {
        bytes[i] as int
    } else {
        0
    }
}

proof fn first_group(bytes: Seq<u8>)
    requires
        bytes.len() > 0,
    ensures
        base64_text(bytes).len() >= 4,
        base64_text(bytes)[0] == base64_symbol(byte_at(bytes, 0) / 4),
        base64_text(bytes)[1] == base64_symbol(
            byte_at(bytes, 0) % 4 * 16 + byte_at(bytes, 1) / 16,
        ),
        base64_text(bytes)[2] == (if bytes.len() == 1 {
            '='
        } else {
            base64_symbol(byte_at(bytes, 1) % 16 * 4 + byte_at(bytes, 2) / 64)
        }),
        base64_text(bytes)[3] == (if bytes.len() <= 2 {
            '='
        } else {
            base64_symbol(byte_at(bytes, 2) % 64)
        }),
        bytes.len() <= 2 ==> base64_text(bytes).len() == 4,
        bytes.len() > 2 ==> base64_text(bytes.skip(3)) == base64_text(bytes).skip(4),
{
    if bytes.len() > 2 {
        assert(base64_text(bytes.skip(3)) =~= base64_text(bytes).skip(4));
    }
}

/// Different bytes have different encodings.
pub proof fn base64_is_injective(a: Seq<u8>, b: Seq<u8>)
    requires
        base64_text(a) == base64_text(b),
    ensures
        a == b,
    decreases a.len(),
{
    if a.len() == 0 {
        if b.len() > 0 {
            first_group(b);
        }
        assert(a =~= b);
    } else if b.len() == 0 {
        first_group(a);
    } else {
        first_group(a);
        first_group(b);
        let (a0, a1, a2) = (byte_at(a, 0), byte_at(a, 1), byte_at(a, 2));
        let (b0, b1, b2) = (byte_at(b, 0), byte_at(b, 1), byte_at(b, 2));
        no_symbol_pads(a1 % 16 * 4 + a2 / 64);
        no_symbol_pads(b1 % 16 * 4 + b2 / 64);
        no_symbol_pads(a2 % 64);
        no_symbol_pads(b2 % 64);
        symbols_differ(a0 / 4, b0 / 4);
        symbols_differ(a0 % 4 * 16 + a1 / 16, b0 % 4 * 16 + b1 / 16);
        if a.len() > 1 {
            symbols_differ(a1 % 16 * 4 + a2 / 64, b1 % 16 * 4 + b2 / 64);
        }
        if a.len() > 2 {
            symbols_differ(a2 % 64, b2 % 64);
            base64_is_injective(a.skip(3), b.skip(3));
            assert(a =~= a.take(3) + a.skip(3));
            assert(b =~= b.take(3) + b.skip(3));
            assert(a.take(3) =~= b.take(3));
        } else {
            assert(a =~= b);
        }
    }
}

} // verus!
