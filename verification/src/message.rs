//! Message screening and classification.
//!
//! Raw pubsub payloads are padded base64 of UTF-8 text. A malformed payload
//! is a protocol-level failure reported to the caller (the run aborts on it);
//! payloads carrying the reserved keep-alive marker are discarded before any
//! classification or lookup; everything else is handed on as the message
//! text. Channel names are classified into the two known topics, and the
//! small metadata blobs fetched per pollen are classified here as well.

use vstd::prelude::*;
use vstd::string::StrSliceExecFns;
use vstd::utf8::{decode_utf8, valid_utf8};

use crate::registry::{Model, Topic};

verus! {

/// The reserved keep-alive marker whose presence discards a message.
pub open spec fn keepalive_marker() -> Seq<char> {
    "HEARTBEAT"@
}

/// `n` occurs in `h` starting at position `i`.
pub open spec fn contains_seq_at(h: Seq<char>, n: Seq<char>, i: int) -> bool {
    0 <= i && i + n.len() <= h.len() && h.subrange(i, i + n.len() as int) == n
}

/// `n` occurs somewhere in `h`.
pub open spec fn contains_seq(h: Seq<char>, n: Seq<char>) -> bool {
    exists|i: int| contains_seq_at(h, n, i)
}

/// Character-wise string equality.
pub fn str_eq(a: &str, b: &str) -> (r: bool)
    ensures
        r == (a@ == b@),
{
    let al = a.unicode_len();
    let bl = b.unicode_len();
    if al != bl {
        return false;
    }
    let mut k: usize = 0;
    while k < al
        invariant
            al == a@.len(),
            al == b@.len(),
            0 <= k <= al,
            forall|p: int| 0 <= p < k ==> a@[p] == b@[p],
        decreases al - k,
    {
        if a.get_char(k) != b.get_char(k) {
            return false;
        }
        k = k + 1;
    }
    proof {
        assert(a@ =~= b@);
    }
    true
}

/// Whether `n` occurs in `h` at position `i`.
fn match_at(h: &str, n: &str, i: usize) -> (r: bool)
    requires
        i + n@.len() <= h@.len(),
    ensures
        r == contains_seq_at(h@, n@, i as int),
{
    let nl = n.unicode_len();
    let hl = h.unicode_len();
    let mut k: usize = 0;
    while k < nl
        invariant
            nl == n@.len(),
            hl == h@.len(),
            i + nl <= hl,
            0 <= k <= nl,
            forall|p: int| 0 <= p < k ==> h@[i + p] == n@[p],
        decreases nl - k,
    {
        if h.get_char(i + k) != n.get_char(k) {
            proof {
                assert(h@.subrange(i as int, i + nl as int)[k as int] != n@[k as int]);
            }
            return false;
        }
        k = k + 1;
    }
    proof {
        assert(h@.subrange(i as int, i + nl as int) =~= n@);
    }
    true
}

/// Substring search: whether `n` occurs anywhere in `h`.
pub fn str_contains(h: &str, n: &str) -> (r: bool)
    ensures
        r == contains_seq(h@, n@),
{
    let hl = h.unicode_len();
    let nl = n.unicode_len();
    if nl > hl {
        return false;
    }
    if nl == 0 {
        proof {
            assert(h@.subrange(0, 0) =~= n@);
            assert(contains_seq_at(h@, n@, 0));
        }
        return true;
    }
    let mut i: usize = 0;
    while i <= hl - nl
        invariant
            hl == h@.len(),
            nl == n@.len(),
            1 <= nl <= hl,
            0 <= i <= hl - nl + 1,
            forall|p: int| 0 <= p < i ==> !contains_seq_at(h@, n@, p),
        decreases hl - nl + 1 - i,
    {
        if match_at(h, n, i) {
            return true;
        }
        i = i + 1;
    }
    false
}

/// A message contains the keep-alive marker and is to be discarded.
pub open spec fn spec_is_keepalive(m: Seq<char>) -> bool {
    contains_seq(m, keepalive_marker())
}

pub fn is_keepalive(m: &str) -> (r: bool)
    ensures
        r == spec_is_keepalive(m@),
{
    str_contains(m, "HEARTBEAT")
}

/// Why a payload could not be decoded. Either failure is fatal for the run:
/// it indicates a protocol-level incompatibility, not a per-message glitch.
#[derive(Debug, Clone, Copy, PartialEq, Eq, Structural)]
pub enum DecodeError {
    /// The payload is not well-formed padded base64.
    InvalidBase64,
    /// The decoded bytes are not valid UTF-8.
    InvalidUtf8,
}

/// What `multibase::Base::Base64Pad.decode` returns for a given input: padded
/// base64 decoding depends on the input string alone.
pub uninterp spec fn base64pad_decoded(s: Seq<char>) -> Option<Seq<u8>>;

/// Relies on multibase's `Base::Base64Pad.decode` (data-encoding's
/// `BASE64_PAD` codec): it either decodes the string or rejects it, as a
/// function of the input string alone.
#[verifier::external_body]
fn base64pad_decode(input: &str) -> (r: Option<Vec<u8>>)
    ensures
        match r {
            Some(v) => base64pad_decoded(input@) == Some(v@),
            None => base64pad_decoded(input@) is None,
        },
{
    match multibase::Base::Base64Pad.decode(input) {
        Ok(v) => Some(v),
        Err(_) => None,
    }
}

/// Relies on `String::from_utf8`: it succeeds exactly on valid UTF-8 and
/// returns the decoded characters of the given bytes.
#[verifier::external_body]
fn bytes_to_string(bytes: Vec<u8>) -> (r: Option<String>)
    ensures
        r is Some <==> valid_utf8(bytes@),
        r matches Some(s) ==> s@ == decode_utf8(bytes@),
{
    match String::from_utf8(bytes) {
        Ok(s) => Some(s),
        Err(_) => None,
    }
}

/// The decoded text of a raw payload, or the exact reason it is malformed.
pub open spec fn spec_decode_msg(input: Seq<char>) -> Result<Seq<char>, DecodeError> {
    match base64pad_decoded(input) {
        None => Err(DecodeError::InvalidBase64),
        Some(bytes) => if valid_utf8(bytes) {
            Ok(decode_utf8(bytes))
        } else {
            Err(DecodeError::InvalidUtf8)
        },
    }
}

/// Decodes one raw payload: padded base64, then UTF-8.
pub fn decode_msg(input: String) -> (r: Result<String, DecodeError>)
    ensures
        match r {
            Ok(s) => spec_decode_msg(input@) == Ok::<Seq<char>, DecodeError>(s@),
            Err(e) => spec_decode_msg(input@) == Err::<Seq<char>, DecodeError>(e),
        },
{
    match base64pad_decode(input.as_str()) {
        None => Err(DecodeError::InvalidBase64),
        Some(bytes) => match bytes_to_string(bytes) {
            None => Err(DecodeError::InvalidUtf8),
            Some(s) => Ok(s),
        },
    }
}

/// Verdict of the message source on one raw item.
#[derive(Debug)]
pub enum ScreenedMessage {
    /// The payload could not be decoded: fatal for the run.
    Malformed(DecodeError),
    /// A keep-alive message: discarded before classification.
    KeepAlive,
    /// A real message, carrying the content reference of an iteration.
    Payload(String),
}

/// Screens decoded message text: keep-alives are discarded, everything else
/// is the payload.
pub fn screen_text(msg: String) -> (r: ScreenedMessage)
    ensures
        match r {
            ScreenedMessage::KeepAlive => spec_is_keepalive(msg@),
            ScreenedMessage::Payload(m) => m@ == msg@ && !spec_is_keepalive(msg@),
            ScreenedMessage::Malformed(_) => false,
        },
{
    if is_keepalive(msg.as_str()) {
        ScreenedMessage::KeepAlive
    } else {
        ScreenedMessage::Payload(msg)
    }
}

/// Screens one raw base64 payload end to end: decodes it and discards
/// keep-alives. Keep-alive messages are dropped here, before any
/// classification, registry access or remote lookup can happen.
pub fn screen_message(input: String) -> (r: ScreenedMessage)
    ensures
        match r {
            ScreenedMessage::Malformed(e) => spec_decode_msg(input@) == Err::<
                Seq<char>,
                DecodeError,
            >(e),
            ScreenedMessage::KeepAlive => spec_decode_msg(input@) matches Ok(m)
                && spec_is_keepalive(m),
            ScreenedMessage::Payload(m) => spec_decode_msg(input@) == Ok::<
                Seq<char>,
                DecodeError,
            >(m@) && !spec_is_keepalive(m@),
        },
{
    match decode_msg(input) {
        Err(e) => ScreenedMessage::Malformed(e),
        Ok(msg) => screen_text(msg),
    }
}

/// Screens a payload the transport already base64-decoded: UTF-8 decoding
/// and the keep-alive filter only.
pub fn screen_payload(bytes: Vec<u8>) -> (r: ScreenedMessage)
    ensures
        match r {
            ScreenedMessage::Malformed(e) => e is InvalidUtf8 && !valid_utf8(bytes@),
            ScreenedMessage::KeepAlive => valid_utf8(bytes@) && spec_is_keepalive(
                decode_utf8(bytes@),
            ),
            ScreenedMessage::Payload(m) => valid_utf8(bytes@) && m@ == decode_utf8(bytes@)
                && !spec_is_keepalive(m@),
        },
{
    match bytes_to_string(bytes) {
        None => ScreenedMessage::Malformed(DecodeError::InvalidUtf8),
        Some(s) => screen_text(s),
    }
}

/// The first channel name attached to a message; the transport guarantees
/// there is one.
pub fn get_current_topic(topics: &[String]) -> (r: String)
    requires
        topics@.len() > 0,
    ensures
        r@ == topics@[0]@,
{
    match topics.first() {
        Some(t) => t.clone(),
        None => String::new(),
    }
}

/// Classification of a channel name into a topic.
pub open spec fn spec_classify_topic(name: Seq<char>) -> Topic {
    if name == "done_pollen"@ {
        Topic::DonePollen
    } else if name == "processing_pollen"@ {
        Topic::ProcessingPollen
    } else {
        Topic::Unknown
    }
}

pub fn classify_topic(name: &str) -> (t: Topic)
    ensures
        t == spec_classify_topic(name@),
{
    if str_eq(name, "done_pollen") {
        Topic::DonePollen
    } else if str_eq(name, "processing_pollen") {
        Topic::ProcessingPollen
    } else {
        Topic::Unknown
    }
}

/// Classification of the model-name blob stored beside a pollen.
pub open spec fn spec_classify_model(name: Seq<char>) -> Model {
    if name == "\"Wiki Art\""@ {
        Model::WikiArt
    } else if name == "\"ViT-B/32\""@ {
        Model::VitB32
    } else if name == "\"QoL tweaks for nshepperd\u{e2}\u{20ac}\u{a6}P Guided Diffusion v2.4\""@ {
        Model::GuidedDiffusion
    } else {
        Model::Unknown
    }
}

/// Maps the model-name text fetched for a pollen to a model: an empty blob
/// means the lookup found nothing.
pub fn classify_model(name: &str) -> (r: Option<Model>)
    ensures
        name@.len() == 0 ==> r is None,
        name@.len() > 0 ==> r == Some(spec_classify_model(name@)),
{
    if name.unicode_len() == 0 {
        return None;
    }
    if str_eq(name, "\"Wiki Art\"") {
        Some(Model::WikiArt)
    } else if str_eq(name, "\"ViT-B/32\"") {
        Some(Model::VitB32)
    } else if str_eq(name, "\"QoL tweaks for nshepperd\u{e2}\u{20ac}\u{a6}P Guided Diffusion v2.4\"") {
        Some(Model::GuidedDiffusion)
    } else {
        Some(Model::Unknown)
    }
}

/// Maps the text-input blob fetched for a pollen: an empty blob means the
/// lookup found nothing.
pub fn normalize_text_input(text: String) -> (r: Option<String>)
    ensures
        text@.len() == 0 ==> r is None,
        text@.len() > 0 ==> (r matches Some(t) && t@ == text@),
{
    if text.as_str().unicode_len() == 0 {
        None
    } else {
        Some(text)
    }
}

} // verus!
