use vstd::prelude::*;
use vstd::string::StrSliceExecFns;
use vstd::utf8::*;

verus! {

/// The value of the `x-signature` request header.
#[derive(Debug, Clone, PartialEq)]
pub struct XSignature(pub String);

/// A header that is missing or whose value is not visible ASCII text.
#[derive(Debug, Clone, PartialEq)]
pub struct HeaderError;

/// A byte that a header value may hold as text: a visible ASCII character, a
/// space or a tab.
pub open spec fn is_visible_ascii(b: u8) -> bool {
    (32 <= b && b < 127) || b == 9
}

pub open spec fn all_visible_ascii(bytes: Seq<u8>) -> bool {
    forall|i: int| 0 <= i < bytes.len() ==> is_visible_ascii(#[trigger] bytes[i])
}

/// A byte that a header value may hold at all: anything but the control
/// characters, where a tab is allowed.
pub open spec fn is_header_byte(b: u8) -> bool {
    (32 <= b && b != 127) || b == 9
}

pub open spec fn all_header_bytes(bytes: Seq<u8>) -> bool {
    forall|i: int| 0 <= i < bytes.len() ==> is_header_byte(#[trigger] bytes[i])
}

/// Text made of visible ASCII characters, spaces and tabs.
pub open spec fn is_visible_text(text: Seq<char>) -> bool {
    forall|i: int| 0 <= i < text.len() ==> (' ' <= #[trigger] text[i] <= '~' || text[i] == '\t')
}

/// The text that ASCII bytes spell, one character per byte.
pub open spec fn ascii_text(bytes: Seq<u8>) -> Seq<char> {
    bytes.map_values(|b: u8| b as char)
}

/// Converts bytes with `String::from_utf8`, which std documents to succeed exactly
/// on valid UTF-8 and to hold then the characters that the bytes encode.
#[verifier::external_body]
fn string_from_utf8(bytes: &[u8]) -> (r: Option<String>)
    ensures
        r is Some <==> valid_utf8(bytes@),
        r matches Some(s) ==> s@ == decode_utf8(bytes@),
{
    String::from_utf8(bytes.to_vec()).ok()
}

proof fn lemma_ascii_text_decodes(bytes: Seq<u8>)
    requires
        all_visible_ascii(bytes),
    ensures
        valid_utf8(bytes),
        decode_utf8(bytes) == ascii_text(bytes),
{
    let chars = ascii_text(bytes);
    assert forall|i: int| 0 <= i < chars.len() implies '\0' <= #[trigger] chars[i] <= '\u{7f}' by {
        assert(chars[i] == bytes[i] as char);
        assert(is_visible_ascii(bytes[i]));
    }
    is_ascii_chars_encode_utf8(chars);
    assert forall|i: int| 0 <= i < bytes.len() implies encode_utf8(chars)[i] == bytes[i] by {
        assert(chars[i] == bytes[i] as char);
        assert(chars[i] as u8 == encode_utf8(chars)[i]);
        assert(is_visible_ascii(bytes[i]));
    }
    assert(encode_utf8(chars) =~= bytes);
    encode_utf8_valid_utf8(chars);
    encode_utf8_decode_utf8(chars);
}

/// Whether every byte is visible ASCII text.
fn visible_ascii(bytes: &Vec<u8>) -> (b: bool)
    ensures
        b == all_visible_ascii(bytes@),
{
    let mut i: usize = 0;
    while i < bytes.len()
        invariant
            i <= bytes@.len(),
            forall|j: int| 0 <= j < i ==> is_visible_ascii(#[trigger] bytes@[j]),
        decreases bytes@.len() - i,
    {
        let b: u8 = bytes[i];
        if !((32 <= b && b < 127) || b == 9) {
            return false;
        }
        i += 1;
    }
    true
}

/// Whether every byte may stand in a header value.
fn header_bytes(bytes: &Vec<u8>) -> (b: bool)
    ensures
        b == all_header_bytes(bytes@),
{
    let mut i: usize = 0;
    while i < bytes.len()
        invariant
            i <= bytes@.len(),
            forall|j: int| 0 <= j < i ==> is_header_byte(#[trigger] bytes@[j]),
        decreases bytes@.len() - i,
    {
        let b: u8 = bytes[i];
        if !((32 <= b && b != 127) || b == 9) {
            return false;
        }
        i += 1;
    }
    true
}

impl XSignature {
    /// The header value that carries this signature: the UTF-8 bytes of its text,
    /// or `None` where one of them may not stand in a header value.
    pub fn encode(&self) -> (r: Option<Vec<u8>>)
        ensures
            r is Some <==> all_header_bytes(encode_utf8(self.0@)),
            r matches Some(bytes) ==> bytes@ == encode_utf8(self.0@),
    {
        let bytes = self.0.as_str().as_bytes_vec();
        if header_bytes(&bytes) {
            Some(bytes)
        } else {
            None
        }
    }

    /// The header's name.
    pub fn name() -> (r: &'static str)
        ensures
            r@ == "x-signature"@,
    {
        "x-signature"
    }

    /// Reads the header from its values, given as raw bytes: the first value is
    /// the signature, which must be visible ASCII text.
    pub fn decode(values: &Vec<Vec<u8>>) -> (r: Result<XSignature, HeaderError>)
        ensures
            r is Ok <==> values@.len() > 0 && all_visible_ascii(values@[0]@),
            r matches Ok(s) ==> s.0@ == ascii_text(values@[0]@),
    {
        if values.len() == 0 {
            return Err(HeaderError);
        }
        let first = &values[0];
        if !visible_ascii(first) {
            return Err(HeaderError);
        }
        proof {
            lemma_ascii_text_decodes(first@);
        }
        match string_from_utf8(first.as_slice()) {
            Some(text) => Ok(XSignature(text)),
            None => Err(HeaderError),
        }
    }
}

/// Decoding undoes encoding: a signature of visible text encodes to header
/// bytes that decode back to the same text.
pub proof fn lemma_decode_undoes_encode(text: Seq<char>)
    requires
        is_visible_text(text),
    ensures
        all_header_bytes(encode_utf8(text)),
        all_visible_ascii(encode_utf8(text)),
        ascii_text(encode_utf8(text)) == text,
{
    assert forall|i: int| 0 <= i < text.len() implies '\0' <= #[trigger] text[i] <= '\u{7f}' by {
        assert(' ' <= text[i] <= '~' || text[i] == '\t');
    }
    is_ascii_chars_encode_utf8(text);
    let bytes = encode_utf8(text);
    assert forall|i: int| 0 <= i < bytes.len() implies is_visible_ascii(#[trigger] bytes[i]) && is_header_byte(bytes[i]) && bytes[i] as char == text[i] by {
        assert(text[i] as u8 == bytes[i]);
        assert(' ' <= text[i] <= '~' || text[i] == '\t');
    }
    assert(ascii_text(bytes) =~= text);
}

} // verus!
