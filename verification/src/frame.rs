//! The wire broker's protocol: a minimal subset of a publish protocol, read
//! from raw bytes.

use crate::json::{parse_json, parsed_json, text_document, text_document_view, JsonDocument,
    JsonDocumentView};
use crate::text::{all_kept, chars_of, lemma_remove_all_identity, lemma_remove_all_keeps,
    lemma_strip_control_identity, lemma_strip_control_keeps, remove_all,
    remove_all_chars, string_of, strip_control, strip_control_chars};
use vstd::prelude::*;
use vstd::utf8::{decode_utf8, valid_utf8};

verus! {

/// What a frame's first byte says it is.
#[derive(Debug, Clone, Copy, PartialEq, Eq)]
pub enum PacketKind {
    Connect,
    Publish,
    Other,
}

/// A frame as the broker reads it.
#[derive(Debug, PartialEq, Eq)]
pub enum Packet {
    /// The client's opening frame.
    Connect,
    /// A published payload, with the delivery level that the sender asked for.
    Publish { qos: u8, payload: Vec<u8> },
    /// Anything else, a frame under two bytes included.
    Other,
}

/// The frame type: the high four bits of the first byte.
pub open spec fn type_bits(first: u8) -> u8 {
    (first & 0xF0) >> 4
}

/// The delivery level: bits 1 and 2 of the first byte.
pub open spec fn qos_bits(first: u8) -> u8 {
    (first & 0x06) >> 1
}

/// Type 1 is a connect, type 3 a publish.
pub open spec fn kind_of(first: u8) -> PacketKind {
    if type_bits(first) == 1 {
        PacketKind::Connect
    } else if type_bits(first) == 3 {
        PacketKind::Publish
    } else {
        PacketKind::Other
    }
}

/// Whether the sender asks for an acknowledgment: a delivery level above 0.
pub open spec fn requests_ack(first: u8) -> bool {
    first & 0x06 != 0
}

/// The frame types by the value of the first byte: a connect has it from
/// 0x10 to 0x1f, a publish from 0x30 to 0x3f; and an acknowledgment is
/// asked for exactly when the delivery level is not 0.
pub proof fn lemma_first_byte(first: u8)
    ensures
        kind_of(first) == PacketKind::Connect <==> 0x10 <= first <= 0x1f,
        kind_of(first) == PacketKind::Publish <==> 0x30 <= first <= 0x3f,
        requests_ack(first) <==> qos_bits(first) != 0,
        qos_bits(first) <= 3,
{
    assert(((first & 0xF0) >> 4 == 1) <==> (0x10 <= first <= 0x1f)) by (bit_vector);
    assert(((first & 0xF0) >> 4 == 3) <==> (0x30 <= first <= 0x3f)) by (bit_vector);
    assert((first & 0x06 != 0) <==> ((first & 0x06) >> 1 != 0)) by (bit_vector);
    assert((first & 0x06) >> 1 <= 3) by (bit_vector);
}

/// Reads the frame type off the first byte.
pub fn packet_kind(first: u8) -> (kind: PacketKind)
    ensures
        kind == kind_of(first),
{
    let bits: u8 = (first & 0xF0) >> 4;
    if bits == 1 {
        PacketKind::Connect
    } else if bits == 3 {
        PacketKind::Publish
    } else {
        PacketKind::Other
    }
}

/// Tells whether the sender asks for an acknowledgment.
pub fn wants_ack(first: u8) -> (b: bool)
    ensures
        b == requests_ack(first),
{
    first & 0x06 != 0
}

/// Parses one frame. A publish carries everything after its two header
/// bytes as payload.
pub fn parse_packet(bytes: &[u8]) -> (packet: Packet)
    ensures
        bytes@.len() < 2 ==> packet == Packet::Other,
        bytes@.len() >= 2 && kind_of(bytes@[0]) == PacketKind::Connect ==> packet
            == Packet::Connect,
        bytes@.len() >= 2 && kind_of(bytes@[0]) == PacketKind::Other ==> packet == Packet::Other,
        bytes@.len() >= 2 && kind_of(bytes@[0]) == PacketKind::Publish ==> (packet matches Packet::Publish {
            qos,
            payload,
        } && qos == qos_bits(bytes@[0]) && payload@ == bytes@.skip(2)),
{
    if bytes.len() < 2 {
        return Packet::Other;
    }
    match packet_kind(bytes[0]) {
        PacketKind::Connect => Packet::Connect,
        PacketKind::Other => Packet::Other,
        PacketKind::Publish => {
            let mut payload: Vec<u8> = Vec::new();
            let mut i: usize = 2;
            while i < bytes.len()
                invariant
                    2 <= i <= bytes.len(),
                    payload@ == bytes@.subrange(2, i as int),
                decreases bytes.len() - i,
            {
                payload.push(bytes[i]);
                i += 1;
            }
            Packet::Publish { qos: (bytes[0] & 0x06) >> 1, payload }
        },
    }
}

/// The handshake acknowledgment itself: two bytes, of which the first says
/// that no session was taken up and the second reports success.
pub open spec fn connack_body() -> Seq<u8> {
    seq![0x00u8, 0x00u8]
}

/// The handshake acknowledgment as it goes over the wire: its type and its
/// length of two, then the two bytes of the acknowledgment.
pub open spec fn connack_bytes() -> Seq<u8> {
    seq![0x20u8, 0x02u8] + connack_body()
}

/// The acknowledgment of a publish: type and length, then the third and
/// fourth byte of the read buffer.
pub open spec fn puback_bytes(buffer: Seq<u8>) -> Seq<u8> {
    seq![0x40u8, 0x02u8, buffer[2], buffer[3]]
}

/// The frame that the broker sends as soon as a client is accepted.
pub fn connack() -> (frame: Vec<u8>)
    ensures
        frame@ == connack_bytes(),
{
    let frame: Vec<u8> = vec![0x20u8, 0x02u8, 0x00u8, 0x00u8];
    assert(frame@ =~= connack_bytes());
    frame
}

/// The acknowledgment owed after a read of `n` bytes into `buffer`, if any.
/// The buffer is the whole read buffer: its third and fourth byte are
/// echoed as they stand.
pub fn puback(buffer: &[u8], n: usize) -> (frame: Option<Vec<u8>>)
    requires
        1 <= n <= buffer@.len(),
        buffer@.len() >= 4,
    ensures
        requests_ack(buffer@[0]) ==> frame is Some && frame->0@ == puback_bytes(buffer@),
        !requests_ack(buffer@[0]) ==> frame is None,
{
    if wants_ack(buffer[0]) {
        Some(vec![0x40u8, 0x02u8, buffer[2], buffer[3]])
    } else {
        None
    }
}

/// The last two hexadecimal digits of the escapes that are removed, in the
/// order in which they are removed.
pub open spec fn escape_codes() -> Seq<(char, char)> {
    seq![
        ('0', '0'),
        ('0', 'e'),
        ('1', 'f'),
        ('7', 'f'),
        ('0', '1'),
        ('0', '2'),
        ('0', '3'),
        ('0', '4'),
        ('0', '5'),
        ('0', '6'),
        ('0', '7'),
        ('0', '8'),
        ('0', 'b'),
        ('0', 'c'),
        ('0', 'f'),
    ]
}

/// The six characters of a written-out escape: backslash, `u`, `00` and the code.
pub open spec fn escape_of(code: (char, char)) -> Seq<char> {
    seq!['\\', 'u', '0', '0', code.0, code.1]
}

/// `s` after removing the escapes of `codes`, one code after the other.
pub open spec fn remove_escapes(s: Seq<char>, codes: Seq<(char, char)>) -> Seq<char>
    decreases codes.len(),
{
    if codes.len() == 0 {
        s
    } else {
        remove_escapes(remove_all(s, escape_of(codes[0])), codes.skip(1))
    }
}

/// A payload text made safe: control codes dropped, then the written-out
/// escapes of control codes removed.
pub open spec fn cleaned(s: Seq<char>) -> Seq<char> {
    remove_escapes(strip_control(s), escape_codes())
}

/// A cleaned text holds no control code but line feed, carriage return and tab.
pub proof fn lemma_cleaned_has_no_control(s: Seq<char>)
    ensures
        all_kept(cleaned(s)),
{
    lemma_strip_control_keeps(s);
    lemma_remove_escapes_keeps(strip_control(s), escape_codes());
}

/// Cleaning changes nothing in a text that holds no control code but line
/// feed, carriage return and tab, and no backslash.
pub proof fn lemma_cleaned_identity(s: Seq<char>)
    requires
        all_kept(s),
        !s.contains('\\'),
    ensures
        cleaned(s) == s,
{
    lemma_strip_control_identity(s);
    lemma_remove_escapes_identity(s, escape_codes());
}

proof fn lemma_remove_escapes_identity(s: Seq<char>, codes: Seq<(char, char)>)
    requires
        !s.contains('\\'),
    ensures
        remove_escapes(s, codes) == s,
    decreases codes.len(),
{
    if codes.len() > 0 {
        lemma_remove_all_identity(s, escape_of(codes[0]));
        lemma_remove_escapes_identity(s, codes.skip(1));
    }
}

proof fn lemma_remove_escapes_keeps(s: Seq<char>, codes: Seq<(char, char)>)
    requires
        all_kept(s),
    ensures
        all_kept(remove_escapes(s, codes)),
    decreases codes.len(),
{
    if codes.len() > 0 {
        lemma_remove_all_keeps(s, escape_of(codes[0]));
        lemma_remove_escapes_keeps(remove_all(s, escape_of(codes[0])), codes.skip(1));
    }
}

fn escape_code_list() -> (codes: Vec<(char, char)>)
    ensures
        codes@ == escape_codes(),
{
    let codes: Vec<(char, char)> = vec![
        ('0', '0'),
        ('0', 'e'),
        ('1', 'f'),
        ('7', 'f'),
        ('0', '1'),
        ('0', '2'),
        ('0', '3'),
        ('0', '4'),
        ('0', '5'),
        ('0', '6'),
        ('0', '7'),
        ('0', '8'),
        ('0', 'b'),
        ('0', 'c'),
        ('0', 'f'),
    ];
    codes
}

/// Strips control characters from a payload text and removes the escapes
/// that spell them out.
pub fn clean_unicode_escapes(input: &str) -> (output: String)
    ensures
        output@ == cleaned(input@),
{
    let raw: Vec<char> = chars_of(input);
    let mut current: Vec<char> = strip_control_chars(&raw);
    let codes: Vec<(char, char)> = escape_code_list();
    let mut i: usize = 0;
    assert(codes@.skip(0) == codes@);
    while i < codes.len()
        invariant
            i <= codes.len(),
            codes@ == escape_codes(),
            remove_escapes(current@, codes@.skip(i as int)) == cleaned(input@),
        decreases codes.len() - i,
    {
        let pattern: Vec<char> = vec!['\\', 'u', '0', '0', codes[i].0, codes[i].1];
        assert(codes@.skip(i as int).skip(1) == codes@.skip(i as int + 1));
        current = remove_all_chars(&current, &pattern);
        i += 1;
    }
    string_of(&current)
}

/// `String::from_utf8`: the text that the bytes encode, or nothing where
/// they are not valid UTF-8.
#[verifier::external_body]
pub(crate) fn utf8_text(bytes: Vec<u8>) -> (text: Option<String>)
    ensures
        valid_utf8(bytes@) ==> text is Some && text->0@ == decode_utf8(bytes@),
        !valid_utf8(bytes@) ==> text is None,
{
    String::from_utf8(bytes).ok()
}

/// The wrapping of a text that is not JSON: the text under `raw_message`,
/// marked as `text` under `message_type`.
pub open spec fn raw_text_document(text: Seq<char>) -> JsonDocumentView {
    text_document_view(seq![("raw_message"@, text), ("message_type"@, "text"@)])
}

/// The payload of a cleaned text, given what parsing made of it.
pub open spec fn payload_from(parsed: Option<JsonDocumentView>, text: Seq<char>) -> JsonDocumentView {
    match parsed {
        Some(doc) => doc,
        None => raw_text_document(text),
    }
}

/// The payload that a published text stands for: the text cleaned, then
/// parsed as JSON, or wrapped where it is not JSON.
pub open spec fn payload_of_text(text: Seq<char>) -> JsonDocumentView {
    payload_from(parsed_json(cleaned(text)), cleaned(text))
}

/// Chooses between the parsed document and the wrapping of the raw text.
pub fn payload_or_raw(parsed: Option<JsonDocument>, text: String) -> (doc: JsonDocument)
    ensures
        doc@ == payload_from(parsed.deep_view(), text@),
{
    match parsed {
        Some(doc) => doc,
        None => {
            let pairs: Vec<(String, String)> = vec![
                ("raw_message".to_owned(), text),
                ("message_type".to_owned(), "text".to_owned()),
            ];
            assert(pairs.deep_view() =~= seq![("raw_message"@, text@), ("message_type"@, "text"@)]);
            text_document(pairs)
        },
    }
}

/// Turns a published text into its payload.
pub fn decode_text(text: &str) -> (doc: JsonDocument)
    ensures
        doc@ == payload_of_text(text@),
{
    let clean: String = clean_unicode_escapes(text);
    let parsed: Option<JsonDocument> = parse_json(clean.as_str());
    payload_or_raw(parsed, clean)
}

/// Turns the payload bytes of a publish into its payload; nothing where the
/// bytes are not UTF-8.
pub fn decode_publish(payload: Vec<u8>) -> (doc: Option<JsonDocument>)
    ensures
        valid_utf8(payload@) ==> doc is Some && doc->0@ == payload_of_text(decode_utf8(payload@)),
        !valid_utf8(payload@) ==> doc is None,
{
    match utf8_text(payload) {
        Some(text) => Some(decode_text(text.as_str())),
        None => None,
    }
}

} // verus!
