use vstd::prelude::*;
use vstd::string::*;
use vstd::utf8::*;

verus! {

/// The lowercase hexadecimal digit for a value below 16.
pub open spec fn hex_char(v: int) -> char {
    if v < 10 {
        (v + 48) as char
    } else {
        (v + 87) as char
    }
}

/// Lowercase hexadecimal text of `bytes`: two digits per byte, high nibble first.
pub open spec fn hex_encode_spec(bytes: Seq<u8>) -> Seq<char> {
    Seq::new(
        2 * bytes.len(),
        |i: int|
            if i % 2 == 0 {
                hex_char((bytes[i / 2] / 16) as int)
            } else {
                hex_char((bytes[i / 2] % 16) as int)
            },
    )
}

/// Whether `b` is the ASCII code of a hexadecimal digit, in either case.
pub open spec fn is_hex_byte(b: u8) -> bool {
    (48 <= b <= 57) || (65 <= b <= 70) || (97 <= b <= 102)
}

/// The value of the hexadecimal digit with ASCII code `b`.
pub open spec fn hex_value(b: u8) -> int {
    if 48 <= b <= 57 {
        b - 48
    } else if 65 <= b <= 70 {
        b - 55
    } else {
        b - 87
    }
}

/// Whether `text` decodes as hexadecimal: an even number of bytes, all of them digits.
pub open spec fn hex_decodable(text: Seq<u8>) -> bool {
    text.len() % 2 == 0 && forall|i: int| 0 <= i < text.len() ==> is_hex_byte(#[trigger] text[i])
}

/// The bytes that hexadecimal `text` stands for, one per pair of digits.
pub open spec fn hex_decode_spec(text: Seq<u8>) -> Seq<u8> {
    Seq::new(
        text.len() / 2,
        |i: int| (hex_value(text[2 * i]) * 16 + hex_value(text[2 * i + 1])) as u8,
    )
}

/// Calls `hex::encode`.
/// Trusted: the result is the lowercase hexadecimal text of `data`, two digits per byte,
/// high nibble first (the `hex` source writes each byte as table[b >> 4], table[b & 0x0f]
/// with the table "0123456789abcdef").
#[verifier::external_body]
pub(crate) fn hex_encode(data: &[u8]) -> (res: String)
    ensures
        res@ == hex_encode_spec(data@),
{
    hex::encode(data)
}

/// The text that the error of `hex::decode` prints for `text` (the first character that is
/// not a hexadecimal digit and its position, or an odd number of digits).
pub uninterp spec fn hex_decode_error_text(text: Seq<u8>) -> Seq<char>;

/// Calls `hex::decode` on the UTF-8 bytes of `text`, and prints its error.
/// Trusted: it succeeds exactly when the bytes are an even number of hexadecimal digits
/// (either case), and then gives one byte per pair of digits, high nibble first. The error
/// prints as `hex_decode_error_text(text)`; for an odd number of bytes the `hex` source
/// refuses with `OddLength` before it looks at a digit, printed "Odd number of digits".
#[verifier::external_body]
pub(crate) fn hex_decode(text: &str) -> (res: Result<Vec<u8>, String>)
    ensures
        res is Ok <==> hex_decodable(text.spec_bytes()),
        res matches Ok(bytes) ==> bytes@ == hex_decode_spec(text.spec_bytes()),
        res matches Err(msg) ==> msg@ == hex_decode_error_text(text.spec_bytes()),
        res matches Err(msg) ==> (text.spec_bytes().len() % 2 == 1 ==> msg@
            == "Odd number of digits"@),
{
    match hex::decode(text) {
        Ok(bytes) => Ok(bytes),
        Err(e) => Err(e.to_string()),
    }
}

/// The decimal digit character for a value below 10.
pub open spec fn digit_char(d: int) -> char {
    (d + 48) as char
}

/// Decimal text of `n`, without leading zeros.
pub open spec fn decimal_spec(n: nat) -> Seq<char>
    decreases n,
{
    if n < 10 {
        seq![digit_char(n as int)]
    } else {
        decimal_spec(n / 10).push(digit_char((n % 10) as int))
    }
}

/// The one-character text of the digit `d`.
pub(crate) fn digit_str(d: u64) -> (res: &'static str)
    requires
        d < 10,
    ensures
        res@ == seq![digit_char(d as int)],
{
    if d == 0 {
        proof { reveal_strlit("0"); }
        "0"
    } else if d == 1 {
        proof { reveal_strlit("1"); }
        "1"
    } else if d == 2 {
        proof { reveal_strlit("2"); }
        "2"
    } else if d == 3 {
        proof { reveal_strlit("3"); }
        "3"
    } else if d == 4 {
        proof { reveal_strlit("4"); }
        "4"
    } else if d == 5 {
        proof { reveal_strlit("5"); }
        "5"
    } else if d == 6 {
        proof { reveal_strlit("6"); }
        "6"
    } else if d == 7 {
        proof { reveal_strlit("7"); }
        "7"
    } else if d == 8 {
        proof { reveal_strlit("8"); }
        "8"
    } else {
        proof { reveal_strlit("9"); }
        "9"
    }
}

/// Decimal text of `n`, as `u64`'s `Display` writes it.
pub fn decimal_string(n: u64) -> (res: String)
    ensures
        res@ == decimal_spec(n as nat),
    decreases n,
{
    if n < 10 {
        String::from_str(digit_str(n))
    } else {
        let mut s = decimal_string(n / 10);
        s.append(digit_str(n % 10));
        s
    }
}


/// Hexadecimal text is ASCII, so its UTF-8 bytes are its characters' codes.
pub proof fn lemma_hex_text_bytes(bytes: Seq<u8>)
    ensures
        is_ascii_chars(hex_encode_spec(bytes)),
        encode_utf8(hex_encode_spec(bytes)).len() == 2 * bytes.len(),
        forall|i: int|
            0 <= i < 2 * bytes.len() ==> #[trigger] encode_utf8(hex_encode_spec(bytes))[i]
                == hex_encode_spec(bytes)[i] as u8,
{
    let chars = hex_encode_spec(bytes);
    assert forall|i: int| 0 <= i < chars.len() implies '\0' <= #[trigger] chars[i] <= '\u{7f}' by {
        let b = bytes[i / 2];
        assert(b / 16 < 16);
        assert(b % 16 < 16);
    }
    is_ascii_chars_encode_utf8(chars);
}

/// Decoding the hexadecimal text of some bytes gives those bytes back.
pub proof fn lemma_hex_roundtrip(bytes: Seq<u8>)
    ensures
        hex_decodable(encode_utf8(hex_encode_spec(bytes))),
        hex_decode_spec(encode_utf8(hex_encode_spec(bytes))) == bytes,
{
    lemma_hex_text_bytes(bytes);
    let text = encode_utf8(hex_encode_spec(bytes));
    let chars = hex_encode_spec(bytes);
    assert forall|i: int| 0 <= i < text.len() implies is_hex_byte(#[trigger] text[i]) by {
        let b = bytes[i / 2];
        assert(b / 16 < 16);
        assert(b % 16 < 16);
        assert(text[i] == chars[i] as u8);
    }
    assert forall|k: int| 0 <= k < bytes.len() implies #[trigger] hex_decode_spec(text)[k]
        == bytes[k] by {
        let b = bytes[k];
        assert(text[2 * k] == chars[2 * k] as u8);
        assert(text[2 * k + 1] == chars[2 * k + 1] as u8);
        assert((2 * k) / 2 == k);
        assert((2 * k + 1) / 2 == k);
        assert(hex_value(text[2 * k]) == b / 16);
        assert(hex_value(text[2 * k + 1]) == b % 16);
    }
    assert(hex_decode_spec(text) =~= bytes);
}


/// Whether two texts are the same.
pub fn text_equal(a: &str, b: &str) -> (res: bool)
    ensures
        res == (a@ == b@),
{
    let a_owned = String::from_str(a);
    let b_owned = String::from_str(b);
    a_owned == b_owned
}

} // verus!
