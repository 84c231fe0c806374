//! NS protocol: `#%#%` magic, four bytes of big-endian length, and a payload
//! of text whose fields each end in a semicolon.
//!
//! Used for the connection handshake, ahead of FIX messaging.

use crate::reading::{
    a_written_number_reads_as_itself, characters, number,
    read_number, split, split_from, the_first_part_ends_at_the_separator, utf8_text,
};
use crate::text::{digits, joined3, texts, uint_text};
use vstd::prelude::*;
use vstd::utf8::{
    decode_utf8, encode_utf8, encode_utf8_decode_utf8, encode_utf8_valid_utf8, valid_utf8,
};

verus! {

/// NS framing magic bytes.
pub const NS_MAGIC: &'static [u8; 4] = &[35u8, 37u8, 35u8, 37u8];

pub const NS_ERROR_RESPONSE: u32 = 519;

pub const NS_AUTH_START: u32 = 520;

pub const NS_CONNECT_REQUEST: u32 = 521;

pub const NS_CONNECT_RESPONSE: u32 = 523;

pub const NS_REDIRECT: u32 = 524;

pub const NS_FIX_START: u32 = 525;

pub const NS_NEWCOMMPORTTYPE: u32 = 526;

pub const NS_BACKUP_HOST: u32 = 527;

pub const NS_MISC_URLS_REQUEST: u32 = 528;

pub const NS_MISC_URLS_RESPONSE: u32 = 529;

pub const NS_SECURE_CONNECT: u32 = 532;

pub const NS_SECURE_CONNECTION_START: u32 = 533;

pub const NS_SECURE_MESSAGE: u32 = 534;

pub const NS_SECURE_ERROR: u32 = 535;

/// Server keepalive probe, whose timestamp the client echoes verbatim.
pub const NS_TEST_REQUEST: u32 = 530;

/// Client keepalive reply to a test request.
pub const NS_HEART_BEAT: u32 = 531;

/// The magic bytes.
pub open spec fn magic() -> Seq<u8> {
    seq![35u8, 37u8, 35u8, 37u8]
}

/// Four bytes, the highest first.
pub open spec fn big_endian(n: nat) -> Seq<u8> {
    seq![
        (n / 0x100_0000 % 0x100) as u8,
        (n / 0x1_0000 % 0x100) as u8,
        (n / 0x100 % 0x100) as u8,
        (n % 0x100) as u8,
    ]
}

/// The number four bytes stand for, the highest first.
pub open spec fn from_big_endian(bytes: Seq<u8>) -> nat {
    (bytes[0] as nat) * 0x100_0000 + (bytes[1] as nat) * 0x1_0000 + (bytes[2] as nat) * 0x100 + (
    bytes[3] as nat)
}

/// The fields of a payload, each with its semicolon.
pub open spec fn terminated(fields: Seq<Seq<char>>) -> Seq<char>
    decreases fields.len(),
{
    if fields.len() == 0 {
        Seq::empty()
    } else {
        terminated(fields.drop_last()) + fields.last().push(';')
    }
}

/// The payload of a message.
pub open spec fn payload_text(
    version: u32,
    msg_type: u32,
    fields: Seq<Seq<char>>,
    prefix: Seq<char>,
) -> Seq<char> {
    prefix + digits(version as nat).push(';') + digits(msg_type as nat).push(';') + terminated(
        fields,
    )
}

/// A payload in its frame.
pub open spec fn framed(payload: Seq<u8>) -> Seq<u8> {
    magic() + big_endian(payload.len() % 0x1_0000_0000) + payload
}

/// The texts of a list of borrowed texts.
pub open spec fn borrowed_texts(list: Seq<&str>) -> Seq<Seq<char>> {
    list.map_values(|s: &str| s@)
}

fn push_all(bytes: &mut Vec<u8>, more: &[u8])
    ensures
        final(bytes)@ == old(bytes)@ + more@,
{
    let mut at: usize = 0;
    proof {
        assert(bytes@ =~= old(bytes)@ + more@.take(0));
    }
    while at < more.len()
        invariant
            at <= more@.len(),
            bytes@ == old(bytes)@ + more@.take(at as int),
        decreases more@.len() - at,
    {
        bytes.push(more[at]);
        at = at + 1;
        proof {
            assert(bytes@ =~= old(bytes)@ + more@.take(at as int));
        }
    }
    proof {
        assert(more@.take(at as int) =~= more@);
    }
}

/// A payload in its frame: the magic, the payload's length and the payload.
fn in_a_frame(payload: &[u8]) -> (msg: Vec<u8>)
    ensures
        msg@ == framed(payload@),
{
    let length: u64 = payload.len() as u64 % 0x1_0000_0000;
    let mut msg: Vec<u8> = Vec::new();
    msg.push(35);
    msg.push(37);
    msg.push(35);
    msg.push(37);
    msg.push((length / 0x100_0000 % 0x100) as u8);
    msg.push((length / 0x1_0000 % 0x100) as u8);
    msg.push((length / 0x100 % 0x100) as u8);
    msg.push((length % 0x100) as u8);
    proof {
        assert(msg@ =~= magic() + big_endian(payload@.len() % 0x1_0000_0000));
    }
    push_all(&mut msg, payload);
    msg
}

/// Build an NS message: `#%#%`, the payload's length in four bytes, and the
/// payload `[prefix]{version};{msg_type};{field1};{field2};...;`.
pub fn ns_build(version: u32, msg_type: u32, fields: &[&str], prefix: &str) -> (msg: Vec<u8>)
    ensures
        msg@ == framed(
            encode_utf8(payload_text(version, msg_type, borrowed_texts(fields@), prefix@)),
        ),
{
    let head: String = joined3(prefix, uint_text(version as u64).as_str(), ";");
    let mut payload: String = joined3(head.as_str(), uint_text(msg_type as u64).as_str(), ";");
    let ghost start = payload@;
    proof {
        reveal_strlit(";");
        assert(";"@ =~= seq![';']);
        assert(start =~= prefix@ + digits(version as nat).push(';') + digits(msg_type as nat).push(
            ';',
        ));
        assert(payload@ =~= start + terminated(borrowed_texts(fields@).take(0)));
    }
    let mut at: usize = 0;
    while at < fields.len()
        invariant
            at <= fields@.len(),
            payload@ == start + terminated(borrowed_texts(fields@).take(at as int)),
        decreases fields@.len() - at,
    {
        let ghost given = borrowed_texts(fields@);
        payload.append(fields[at]);
        payload.push(';');
        proof {
            assert(given.take(at + 1).drop_last() =~= given.take(at as int));
            assert(payload@ =~= start + terminated(given.take(at + 1)));
        }
        at = at + 1;
    }
    proof {
        assert(borrowed_texts(fields@).take(at as int) =~= borrowed_texts(fields@));
    }
    in_a_frame(payload.as_str().as_bytes())
}

/// Whether a character's capital is `I`.
pub open spec fn capital_i(c: char) -> bool {
    c == 'i' || c == 'I' || c as u32 == 0x131
}

/// Whether a character's capital is `S`.
pub open spec fn capital_s(c: char) -> bool {
    c == 's' || c == 'S' || c as u32 == 0x17f
}

/// Whether a text begins with `MISC` once it is made capitals. Besides the
/// ASCII letters, the dotless i and the long s have these capitals.
pub open spec fn begins_misc(text: Seq<char>) -> bool {
    &&& text.len() >= 4
    &&& text[0] == 'm' || text[0] == 'M'
    &&& capital_i(text[1])
    &&& capital_s(text[2])
    &&& text[3] == 'c' || text[3] == 'C'
}

/// Whether a letter of a payload's prefix lies across its first four bytes:
/// the dotless i and the long s are two bytes each.
pub open spec fn prefix_is_cut(text: Seq<char>) -> bool {
    begins_misc(text) && text[1] as u32 == 0x131 && text[2] as u32 == 0x17f
}

/// How many characters of a text are its prefix: those in its first four
/// bytes where it begins with `MISC`, and none otherwise.
pub open spec fn prefix_length(text: Seq<char>) -> int {
    if !begins_misc(text) {
        0
    } else if text[1] as u32 == 0x131 || text[2] as u32 == 0x17f {
        3
    } else {
        4
    }
}

/// The text of a payload without its `MISC` prefix.
pub open spec fn stripped(text: Seq<char>) -> Seq<char> {
    text.skip(prefix_length(text))
}

/// The version, the type and the fields of a payload's text: its parts but for
/// the empty ones among the fields.
pub open spec fn parsed(text: Seq<char>) -> Option<(u32, u32, Seq<Seq<char>>)> {
    let parts = split(stripped(text), ';');
    if parts.len() < 2 {
        None
    } else {
        match (number(parts[0], u32::MAX as nat), number(parts[1], u32::MAX as nat)) {
            (Some(version), Some(msg_type)) => Some(
                (
                    version as u32,
                    msg_type as u32,
                    parts.skip(2).filter(|part: Seq<char>| part.len() > 0),
                ),
            ),
            _ => None,
        }
    }
}

/// Whether a letter of the payload's prefix lies across its first four bytes,
/// where no prefix can be taken off it.
pub open spec fn cuts_a_letter(payload: Seq<u8>) -> bool {
    valid_utf8(payload) && prefix_is_cut(decode_utf8(payload))
}

fn misc_at_the_front(chars: &Vec<char>) -> (begins: bool)
    ensures
        begins == begins_misc(chars@),
{
    chars.len() >= 4 && (chars[0] == 'm' || chars[0] == 'M') && (chars[1] == 'i' || chars[1] == 'I'
        || chars[1] as u32 == 0x131) && (chars[2] == 's' || chars[2] == 'S' || chars[2] as u32
        == 0x17f) && (chars[3] == 'c' || chars[3] == 'C')
}

/// Whether a letter of the payload's prefix lies across its first four bytes.
pub fn ns_cuts_a_letter(payload: &[u8]) -> (cut: bool)
    ensures
        cut == cuts_a_letter(payload@),
{
    match utf8_text(payload) {
        Some(text) => {
            let chars: Vec<char> = characters(text);
            misc_at_the_front(&chars) && chars[1] as u32 == 0x131 && chars[2] as u32 == 0x17f
        },
        None => false,
    }
}

fn filled(parts: &Vec<String>, from: usize) -> (kept: Vec<String>)
    requires
        from <= parts@.len(),
    ensures
        texts(kept@) == texts(parts@).skip(from as int).filter(|part: Seq<char>| part.len() > 0),
{
    let ghost rest = texts(parts@).skip(from as int);
    let ghost full = |part: Seq<char>| part.len() > 0;
    let mut kept: Vec<String> = Vec::new();
    let mut at: usize = from;
    proof {
        reveal(Seq::filter);
        assert(rest.take(0) =~= Seq::empty());
        assert(texts(kept@) =~= rest.take(0).filter(full));
    }
    while at < parts.len()
        invariant
            from <= at <= parts@.len(),
            rest == texts(parts@).skip(from as int),
            full == (|part: Seq<char>| part.len() > 0),
            texts(kept@) == rest.take(at - from).filter(full),
        decreases parts@.len() - at,
    {
        let ghost before = rest.take(at - from);
        let ghost next = rest.take(at + 1 - from);
        proof {
            reveal(Seq::filter);
            assert(next.drop_last() =~= before);
            assert(next.last() == parts@[at as int]@);
        }
        if !parts[at].as_str().is_empty() {
            kept.push(parts[at].clone());
            proof {
                assert(texts(kept@) =~= before.filter(full).push(next.last()));
            }
        }
        at = at + 1;
    }
    proof {
        assert(rest.take(at - from) =~= rest);
    }
    kept
}

/// Parse an NS payload into its version, its type and the fields that are not
/// empty.
pub fn ns_parse(payload: &[u8]) -> (read: Option<(u32, u32, Vec<String>)>)
    requires
        !cuts_a_letter(payload@),
    ensures
        match read {
            Some((version, msg_type, fields)) => valid_utf8(payload@) && parsed(
                decode_utf8(payload@),
            ) == Some((version, msg_type, texts(fields@))),
            None => !valid_utf8(payload@) || parsed(decode_utf8(payload@)) is None,
        },
{
    let text: &str = match utf8_text(payload) {
        Some(text) => text,
        None => {
            return None;
        },
    };
    let chars: Vec<char> = characters(text);
    let from: usize = if !misc_at_the_front(&chars) {
        0
    } else if chars[1] as u32 == 0x131 || chars[2] as u32 == 0x17f {
        3
    } else {
        4
    };
    let parts: Vec<String> = split_from(&chars, from, ';');
    proof {
        assert(texts(parts@).len() == parts@.len());
    }
    if parts.len() < 2 {
        return None;
    }
    proof {
        assert(texts(parts@)[0] == parts@[0]@);
        assert(texts(parts@)[1] == parts@[1]@);
    }
    let version: u64 = match read_number(parts[0].as_str(), u32::MAX as u64) {
        Some(version) => version,
        None => {
            return None;
        },
    };
    let msg_type: u64 = match read_number(parts[1].as_str(), u32::MAX as u64) {
        Some(msg_type) => msg_type,
        None => {
            return None;
        },
    };
    Some((version as u32, msg_type as u32, filled(&parts, 2)))
}

/// Build the reply to a test request, echoing its timestamp.
pub fn ns_build_heart_beat(ns_version: u32, test_req_timestamp: &str) -> (msg: Vec<u8>)
    ensures
        msg@ == framed(
            encode_utf8(
                payload_text(ns_version, NS_HEART_BEAT, seq![test_req_timestamp@], "MISC"@),
            ),
        ),
{
    let fields: [&str; 1] = [test_req_timestamp];
    let msg: Vec<u8> = ns_build(ns_version, NS_HEART_BEAT, &fields, "MISC");
    proof {
        assert(borrowed_texts(fields@) =~= seq![test_req_timestamp@]);
    }
    msg
}

/// The timestamp of a test request's payload: the first of its fields, where
/// it reads as a test request and has one.
pub open spec fn test_request_timestamp(text: Seq<char>) -> Option<Seq<char>> {
    match parsed(text) {
        Some((_, msg_type, fields)) => if msg_type == NS_TEST_REQUEST && fields.len() > 0 {
            Some(fields[0])
        } else {
            None
        },
        None => None,
    }
}

/// Extract the timestamp from an inbound test request. Nothing where the
/// payload does not parse or is of another type.
pub fn parse_test_request_timestamp(payload: &[u8]) -> (timestamp: Option<String>)
    requires
        !cuts_a_letter(payload@),
    ensures
        match timestamp {
            Some(timestamp) => valid_utf8(payload@) && test_request_timestamp(decode_utf8(payload@))
                == Some(timestamp@),
            None => !valid_utf8(payload@) || test_request_timestamp(decode_utf8(payload@)) is None,
        },
{
    match ns_parse(payload) {
        Some((_, msg_type, fields)) => {
            proof {
                assert(texts(fields@).len() == fields@.len());
            }
            if msg_type != NS_TEST_REQUEST || fields.len() == 0 {
                return None;
            }
            proof {
                assert(texts(fields@)[0] == fields@[0]@);
            }
            Some(fields[0].clone())
        },
        None => None,
    }
}

/// What kept a framed message from being received.
#[derive(Clone, Copy, Debug, PartialEq, Eq, Structural)]
pub enum NsErrorKind {
    /// The bytes do not begin with the magic.
    InvalidData,
    /// The bytes end before the message does.
    UnexpectedEof,
}

/// A framed message that was not received, and why.
#[derive(Debug, PartialEq, Eq)]
pub struct NsError {
    pub what: NsErrorKind,
    pub message: String,
}

impl NsError {
    /// What kept the message from being received.
    pub fn kind(&self) -> (what: NsErrorKind)
        ensures
            what == self.what,
    {
        self.what
    }

    /// The error as prose.
    pub fn to_string(&self) -> (prose: String)
        ensures
            prose@ == self.message@,
    {
        self.message.clone()
    }
}

/// The list of some bytes, as it is printed: `[65, 66]`.
pub open spec fn byte_list(bytes: Seq<u8>) -> Seq<char>
    decreases bytes.len(),
{
    if bytes.len() == 0 {
        Seq::empty()
    } else if bytes.len() == 1 {
        digits(bytes[0] as nat)
    } else {
        byte_list(bytes.drop_last()) + ", "@ + digits(bytes.last() as nat)
    }
}

/// What is said of bytes that do not begin with the magic.
pub open spec fn bad_magic(got: Seq<u8>) -> Seq<char> {
    "Expected #%#% magic, got ["@ + byte_list(got) + "]"@
}

fn list_bytes(bytes: &[u8]) -> (text: String)
    ensures
        text@ == byte_list(bytes@),
{
    let mut text: String = String::new();
    let mut at: usize = 0;
    proof {
        assert(bytes@.take(0) =~= Seq::empty());
    }
    while at < bytes.len()
        invariant
            at <= bytes@.len(),
            text@ == byte_list(bytes@.take(at as int)),
        decreases bytes@.len() - at,
    {
        proof {
            assert(bytes@.take(at + 1).drop_last() =~= bytes@.take(at as int));
        }
        if at > 0 {
            text.append(", ");
        }
        text.append(uint_text(bytes[at] as u64).as_str());
        at = at + 1;
        proof {
            assert(text@ =~= byte_list(bytes@.take(at as int)));
        }
    }
    proof {
        assert(bytes@.take(at as int) =~= bytes@);
    }
    text
}

/// The length of the payload a header announces.
pub fn ns_payload_length(header: &[u8]) -> (length: Result<usize, NsError>)
    requires
        header@.len() == 8,
    ensures
        match length {
            Ok(length) => header@.take(4) == magic() && length == from_big_endian(header@.skip(4)),
            Err(error) => header@.take(4) != magic() && error.what is InvalidData
                && error.message@ == bad_magic(header@.take(4)),
        },
{
    let front: &[u8] = vstd::slice::slice_subrange(header, 0, 4);
    proof {
        assert(front@ =~= header@.take(4));
    }
    if !(header[0] == 35 && header[1] == 37 && header[2] == 35 && header[3] == 37) {
        proof {
            assert(header@.take(4) != magic()) by {
                assert(magic()[0] == 35 && magic()[1] == 37 && magic()[2] == 35 && magic()[3]
                    == 37);
                assert(header@.take(4)[0] == header@[0]);
                assert(header@.take(4)[1] == header@[1]);
                assert(header@.take(4)[2] == header@[2]);
                assert(header@.take(4)[3] == header@[3]);
            }
        }
        let message: String = joined3("Expected #%#% magic, got [", list_bytes(front).as_str(), "]");
        return Err(NsError { what: NsErrorKind::InvalidData, message });
    }
    proof {
        assert(header@.take(4) =~= magic());
    }
    let length: u32 = (header[4] as u32) * 0x100_0000 + (header[5] as u32) * 0x1_0000 + (
    header[6] as u32) * 0x100 + (header[7] as u32);
    Ok(length as usize)
}

/// What is said of bytes that end before the message does.
pub open spec fn cut_short() -> Seq<char> {
    "failed to fill whole buffer"@
}

/// Receive one `#%#%` framed message from the bytes that came: its payload,
/// and how many bytes it took.
pub fn ns_recv(received: &[u8]) -> (taken: Result<(Vec<u8>, usize), NsError>)
    ensures
        match taken {
            Ok((payload, total)) => {
                &&& received@.len() >= 8
                &&& received@.take(4) == magic()
                &&& payload@.len() == from_big_endian(received@.subrange(4, 8))
                &&& total == payload@.len() + 8 <= received@.len()
                &&& payload@ == received@.subrange(8, total as int)
            },
            Err(error) => if received@.len() < 8 {
                error.what is UnexpectedEof && error.message@ == cut_short()
            } else if received@.take(4) != magic() {
                error.what is InvalidData && error.message@ == bad_magic(received@.take(4))
            } else {
                &&& received@.len() < 8 + from_big_endian(received@.subrange(4, 8))
                &&& error.what is UnexpectedEof
                &&& error.message@ == cut_short()
            },
        },
{
    if received.len() < 8 {
        return Err(
            NsError {
                what: NsErrorKind::UnexpectedEof,
                message: "failed to fill whole buffer".to_owned(),
            },
        );
    }
    let header: &[u8] = vstd::slice::slice_subrange(received, 0, 8);
    proof {
        assert(header@.take(4) =~= received@.take(4));
        assert(header@.skip(4) =~= received@.subrange(4, 8));
    }
    let length: usize = match ns_payload_length(header) {
        Ok(length) => length,
        Err(error) => {
            return Err(error);
        },
    };
    if received.len() - 8 < length {
        return Err(
            NsError {
                what: NsErrorKind::UnexpectedEof,
                message: "failed to fill whole buffer".to_owned(),
            },
        );
    }
    let mut payload: Vec<u8> = Vec::new();
    push_all(&mut payload, vstd::slice::slice_subrange(received, 8, 8 + length));
    proof {
        assert(payload@ =~= received@.subrange(8, 8 + length));
    }
    Ok((payload, length + 8))
}

/// Whether a payload is NS text: it begins with an ASCII digit, or with the
/// `MISC` prefix.
pub open spec fn ns_text(payload: Seq<u8>) -> bool {
    &&& payload.len() > 0
    &&& 48 <= payload[0] <= 57 || (payload.len() >= 4 && payload.take(4) == seq![
        77u8,
        73u8,
        83u8,
        67u8,
    ])
}

/// Classify a framed payload as NS text or as binary.
pub fn is_ns_text(payload: &[u8]) -> (text: bool)
    ensures
        text == ns_text(payload@),
{
    if payload.len() == 0 {
        return false;
    }
    if 48 <= payload[0] && payload[0] <= 57 {
        return true;
    }
    if payload.len() < 4 {
        return false;
    }
    let misc: bool = payload[0] == 77 && payload[1] == 73 && payload[2] == 83 && payload[3] == 67;
    proof {
        let front = payload@.take(4);
        let prefix = seq![77u8, 73u8, 83u8, 67u8];
        assert(front[0] == payload@[0] && front[1] == payload@[1] && front[2] == payload@[2]
            && front[3] == payload@[3]);
        assert(prefix[0] == 77 && prefix[1] == 73 && prefix[2] == 83 && prefix[3] == 67);
        if misc {
            assert(front =~= prefix);
        }
    }
    misc
}

proof fn a_part_grows_to_the_separator(before: Seq<char>, part: Seq<char>)
    requires
        !part.contains(';'),
    ensures
        split(before + part, ';') == split(before, ';').drop_last().push(
            split(before, ';').last() + part,
        ),
        split(before, ';').len() > 0,
    decreases part.len(),
{
    if part.len() == 0 {
        assert(before + part =~= before);
        the_parts_are_some(before);
        assert(split(before, ';').last() + part =~= split(before, ';').last());
        assert(split(before, ';') =~= split(before, ';').drop_last().push(
            split(before, ';').last(),
        ));
    } else {
        let shorter = part.drop_last();
        assert(!shorter.contains(';')) by {
            assert forall|i: int| 0 <= i < shorter.len() implies shorter[i] != ';' by {
                assert(part[i] != ';');
            }
        }
        a_part_grows_to_the_separator(before, shorter);
        assert((before + part).drop_last() =~= before + shorter);
        assert((before + part).last() == part.last());
        assert(part.last() == part[part.len() - 1]);
        let head = split(before, ';').drop_last();
        let grown = split(before, ';').last() + shorter;
        assert(head.push(grown).drop_last() =~= head);
        assert(grown.push(part.last()) =~= split(before, ';').last() + part);
    }
}

proof fn the_parts_are_some(text: Seq<char>)
    ensures
        split(text, ';').len() > 0,
    decreases text.len(),
{
    if text.len() > 0 {
        the_parts_are_some(text.drop_last());
    }
}

/// Whether a field is one a payload can carry: not empty, and without the
/// semicolon that ends it.
pub open spec fn carried(fields: Seq<Seq<char>>) -> bool {
    forall|i: int|
        0 <= i < fields.len() ==> (#[trigger] fields[i]).len() > 0 && !fields[i].contains(';')
}

proof fn terminated_fields_split_back(fields: Seq<Seq<char>>)
    requires
        carried(fields),
    ensures
        split(terminated(fields), ';') == fields.push(Seq::empty()),
    decreases fields.len(),
{
    if fields.len() == 0 {
        assert(split(terminated(fields), ';') =~= fields.push(Seq::empty()));
    } else {
        let before = fields.drop_last();
        assert(carried(before)) by {
            assert forall|i: int| 0 <= i < before.len() implies (#[trigger] before[i]).len() > 0
                && !before[i].contains(';') by {
                assert(before[i] == fields[i]);
            }
        }
        terminated_fields_split_back(before);
        let last = fields.last();
        assert(last == fields[fields.len() - 1]);
        a_part_grows_to_the_separator(terminated(before), last);
        let whole = terminated(fields);
        assert(whole =~= (terminated(before) + last).push(';'));
        assert(whole.drop_last() =~= terminated(before) + last);
        assert(before.push(Seq::empty()).drop_last() =~= before);
        assert(Seq::<char>::empty() + last =~= last);
        assert(before.push(last) =~= fields);
    }
}

proof fn full_parts_are_kept(fields: Seq<Seq<char>>)
    requires
        carried(fields),
    ensures
        fields.filter(|part: Seq<char>| part.len() > 0) == fields,
    decreases fields.len(),
{
    reveal(Seq::filter);
    if fields.len() > 0 {
        let before = fields.drop_last();
        assert(carried(before)) by {
            assert forall|i: int| 0 <= i < before.len() implies (#[trigger] before[i]).len() > 0
                && !before[i].contains(';') by {
                assert(before[i] == fields[i]);
            }
        }
        full_parts_are_kept(before);
        assert(fields.last() == fields[fields.len() - 1]);
        assert(before.push(fields.last()) =~= fields);
    } else {
        assert(fields =~= Seq::empty());
    }
}

/// What is built parses back: a payload whose fields it can carry, with no
/// prefix or the `MISC` one, reads as the version, the type and the fields it
/// was built from.
pub proof fn a_built_payload_parses_back(
    version: u32,
    msg_type: u32,
    fields: Seq<Seq<char>>,
    prefix: Seq<char>,
)
    requires
        carried(fields),
        prefix == Seq::<char>::empty() || prefix == "MISC"@,
    ensures
        parsed(payload_text(version, msg_type, fields, prefix)) == Some(
            (version, msg_type, fields),
        ),
{
    reveal_strlit("MISC");
    let text = payload_text(version, msg_type, fields, prefix);
    let v = digits(version as nat);
    let m = digits(msg_type as nat);
    a_written_number_reads_as_itself(version as nat, u32::MAX as nat);
    a_written_number_reads_as_itself(msg_type as nat, u32::MAX as nat);
    crate::reading::digits_stand_for_their_number(version as nat);
    crate::reading::digits_stand_for_their_number(msg_type as nat);
    assert(!v.contains(';'));
    assert(!m.contains(';'));
    let rest = m.push(';') + terminated(fields);
    if prefix.len() == 0 {
        assert(text =~= v.push(';') + rest);
        assert(text[0] == v[0]);
        assert(!begins_misc(text));
        assert(text.skip(0) =~= text);
    } else {
        assert(prefix =~= seq!['M', 'I', 'S', 'C']);
        assert(text[0] == 'M' && text[1] == 'I' && text[2] == 'S' && text[3] == 'C');
        assert(prefix_length(text) == 4);
        assert(text.skip(4) =~= v.push(';') + rest);
    }
    the_first_part_ends_at_the_separator(v, rest, ';');
    the_first_part_ends_at_the_separator(m, terminated(fields), ';');
    terminated_fields_split_back(fields);
    let parts = split(stripped(text), ';');
    assert(parts =~= seq![v, m] + fields.push(Seq::empty()));
    assert(parts.skip(2) =~= fields.push(Seq::empty()));
    full_parts_are_kept(fields);
    let full = |part: Seq<char>| part.len() > 0;
    reveal(Seq::filter);
    assert(fields.push(Seq::empty()).drop_last() =~= fields);
}

/// A test request's timestamp is the one it was built with, and the reply to
/// it carries that timestamp and no other field.
pub proof fn the_heart_beat_echoes_the_timestamp(version: u32, timestamp: Seq<char>)
    requires
        timestamp.len() > 0,
        !timestamp.contains(';'),
    ensures
        test_request_timestamp(
            payload_text(version, NS_TEST_REQUEST, seq![timestamp], "MISC"@),
        ) == Some(timestamp),
        parsed(payload_text(version, NS_HEART_BEAT, seq![timestamp], "MISC"@)) == Some(
            (version, NS_HEART_BEAT, seq![timestamp]),
        ),
{
    a_built_payload_parses_back(version, NS_TEST_REQUEST, seq![timestamp], "MISC"@);
    a_built_payload_parses_back(version, NS_HEART_BEAT, seq![timestamp], "MISC"@);
}

/// What is framed is received: the frame of a payload its length can count is
/// the magic, that length and the payload.
pub proof fn a_framed_payload_is_received_whole(payload: Seq<u8>)
    requires
        payload.len() < 0x1_0000_0000,
    ensures
        framed(payload).len() == 8 + payload.len(),
        framed(payload).take(4) == magic(),
        from_big_endian(framed(payload).subrange(4, 8)) == payload.len(),
        framed(payload).subrange(8, 8 + payload.len() as int) == payload,
{
    let n = payload.len();
    assert(framed(payload).take(4) =~= magic());
    assert(framed(payload).subrange(4, 8) =~= big_endian(n));
    assert(framed(payload).subrange(8, 8 + n as int) =~= payload);
}

/// A payload's bytes read as the text they were made from.
pub proof fn a_payload_reads_as_its_text(text: Seq<char>)
    ensures
        valid_utf8(encode_utf8(text)),
        decode_utf8(encode_utf8(text)) == text,
{
    encode_utf8_valid_utf8(text);
    encode_utf8_decode_utf8(text);
}

} // verus!
