//! Bytes as text in base 64, with the standard alphabet and padding.
use vstd::prelude::*;

verus! {

/// The character for six bits.
pub open spec fn sextet_char(sextet: int) -> char {
    if sextet < 26 {
        ('A' as int + sextet) as char
    } else if sextet < 52 {
        ('a' as int + sextet - 26) as char
    } else if sextet < 62 {
        ('0' as int + sextet - 52) as char
    } else if sextet == 62 {
        '+'
    } else {
        '/'
    }
}

/// The text for some bytes: four characters for three bytes, and a last group filled up with
/// equals signs.
pub open spec fn base64_text(bytes: Seq<u8>) -> Seq<char>
    decreases bytes.len(),
{
    if bytes.len() == 0 {
        Seq::empty()
    } else if bytes.len() == 1 {
        seq![sextet_char(bytes[0] as int / 4), sextet_char(bytes[0] as int % 4 * 16), '=', '=']
    } else if bytes.len() == 2 {
        seq![
            sextet_char(bytes[0] as int / 4),
            sextet_char(bytes[0] as int % 4 * 16 + bytes[1] as int / 16),
            sextet_char(bytes[1] as int % 16 * 4),
            '=',
        ]
    } else {
        seq![
            sextet_char(bytes[0] as int / 4),
            sextet_char(bytes[0] as int % 4 * 16 + bytes[1] as int / 16),
            sextet_char(bytes[1] as int % 16 * 4 + bytes[2] as int / 64),
            sextet_char(bytes[2] as int % 64),
        ] + base64_text(bytes.skip(3))
    }
}

/// Calls `encode` of the `base64` crate's `STANDARD` engine, which writes the standard
/// alphabet with padding.
#[verifier::external_body]
pub(crate) fn base64_encode(bytes: &[u8]) -> (text: String)
    ensures
        text@ == base64_text(bytes@),
{
    base64::Engine::encode(&base64::engine::general_purpose::STANDARD, bytes)
}

/// The six bits that a character stands for.
pub open spec fn char_sextet(c: char) -> int {
    if 'A' <= c <= 'Z' {
        c as int - 'A' as int
    } else if 'a' <= c <= 'z' {
        c as int - 'a' as int + 26
    } else if '0' <= c <= '9' {
        c as int - '0' as int + 52
    } else if c == '+' {
        62
    } else {
        63
    }
}

/// The bytes that a text stands for.
pub open spec fn base64_bytes(text: Seq<char>) -> Seq<u8>
    decreases text.len(),
{
    if text.len() < 4 {
        Seq::empty()
    } else {
        let first = (char_sextet(text[0]) * 4 + char_sextet(text[1]) / 16) as u8;
        let second = (char_sextet(text[1]) % 16 * 16 + char_sextet(text[2]) / 4) as u8;
        let third = (char_sextet(text[2]) % 4 * 64 + char_sextet(text[3])) as u8;
        if text[2] == '=' {
            seq![first]
        } else if text[3] == '=' {
            seq![first, second]
        } else {
            seq![first, second, third] + base64_bytes(text.skip(4))
        }
    }
}

proof fn lemma_sextet(sextet: int)
    requires
        0 <= sextet < 64,
    ensures
        char_sextet(sextet_char(sextet)) == sextet,
        sextet_char(sextet) != '=',
{
}

/// Reading the text for some bytes gives the bytes back.
pub proof fn law_base64_read_back(bytes: Seq<u8>)
    ensures
        base64_bytes(base64_text(bytes)) == bytes,
    decreases bytes.len(),
{
    let text = base64_text(bytes);
    if bytes.len() > 0 {
        lemma_sextet(bytes[0] as int / 4);
        if bytes.len() == 1 {
            lemma_sextet(bytes[0] as int % 4 * 16);
            assert(base64_bytes(text) == bytes);
        } else {
            lemma_sextet(bytes[0] as int % 4 * 16 + bytes[1] as int / 16);
            if bytes.len() == 2 {
                lemma_sextet(bytes[1] as int % 16 * 4);
                assert(base64_bytes(text) == bytes);
            } else {
                lemma_sextet(bytes[1] as int % 16 * 4 + bytes[2] as int / 64);
                lemma_sextet(bytes[2] as int % 64);
                law_base64_read_back(bytes.skip(3));
                assert(text.skip(4) == base64_text(bytes.skip(3)));
                assert(base64_bytes(text) == bytes);
            }
        }
    } else {
        assert(base64_bytes(text) == bytes);
    }
}

} // verus!
