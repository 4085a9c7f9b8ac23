use pollen_wall::message::{
    classify_model, classify_topic, decode_msg, get_current_topic, is_keepalive,
    normalize_text_input, screen_message, screen_payload, str_contains, str_eq, DecodeError,
    ScreenedMessage,
};
use pollen_wall::registry::{Model, Topic};

fn encode_b64pad(data: &[u8]) -> String {
    multibase::Base::Base64Pad.encode(data)
}

#[test]
fn decode_msg_round_trips_base64() {
    let raw = encode_b64pad(b"QmSomePollenHash");
    let decoded = decode_msg(raw).expect("valid payload must decode");
    assert_eq!(decoded, "QmSomePollenHash");
}

#[test]
fn decode_msg_rejects_bad_base64() {
    let r = decode_msg("!!!not base64!!!".to_string());
    assert_eq!(r, Err(DecodeError::InvalidBase64));
}

#[test]
fn decode_msg_rejects_bad_utf8() {
    let raw = encode_b64pad(&[0xff, 0xfe, 0xfd]);
    let r = decode_msg(raw);
    assert_eq!(r, Err(DecodeError::InvalidUtf8));
}

#[test]
fn screen_discards_exact_keepalive() {
    let raw = encode_b64pad(b"HEARTBEAT");
    match screen_message(raw) {
        ScreenedMessage::KeepAlive => {}
        other => panic!("expected keep-alive, got {:?}", other),
    }
}

#[test]
fn screen_discards_embedded_keepalive() {
    let raw = encode_b64pad(b"xxHEARTBEATyy");
    match screen_message(raw) {
        ScreenedMessage::KeepAlive => {}
        other => panic!("expected keep-alive, got {:?}", other),
    }
}

#[test]
fn screen_passes_real_payload_through() {
    let raw = encode_b64pad(b"QmHash123");
    match screen_message(raw) {
        ScreenedMessage::Payload(m) => assert_eq!(m, "QmHash123"),
        other => panic!("expected payload, got {:?}", other),
    }
}

#[test]
fn screen_payload_works_on_decoded_bytes() {
    match screen_payload(b"QmHash123".to_vec()) {
        ScreenedMessage::Payload(m) => assert_eq!(m, "QmHash123"),
        other => panic!("expected payload, got {:?}", other),
    }
    match screen_payload(b"aHEARTBEATb".to_vec()) {
        ScreenedMessage::KeepAlive => {}
        other => panic!("expected keep-alive, got {:?}", other),
    }
    match screen_payload(vec![0xff, 0x00]) {
        ScreenedMessage::Malformed(DecodeError::InvalidUtf8) => {}
        other => panic!("expected malformed, got {:?}", other),
    }
}

#[test]
fn keepalive_is_case_sensitive_containment() {
    assert!(is_keepalive("HEARTBEAT"));
    assert!(is_keepalive("...HEARTBEAT..."));
    assert!(!is_keepalive("heartbeat"));
    assert!(!is_keepalive("HEART BEAT"));
    assert!(!is_keepalive(""));
}

#[test]
fn contains_and_equality_edges() {
    assert!(str_contains("abc", ""));
    assert!(str_contains("", ""));
    assert!(!str_contains("", "a"));
    assert!(str_contains("abcabd", "abd"));
    assert!(!str_contains("abcab", "abd"));
    assert!(str_eq("", ""));
    assert!(str_eq("abc", "abc"));
    assert!(!str_eq("abc", "abd"));
    assert!(!str_eq("abc", "abcd"));
}

#[test]
fn topics_classify_to_the_two_channels() {
    assert_eq!(classify_topic("done_pollen"), Topic::DonePollen);
    assert_eq!(classify_topic("processing_pollen"), Topic::ProcessingPollen);
    assert_eq!(classify_topic("something_else"), Topic::Unknown);
    assert_eq!(classify_topic(""), Topic::Unknown);
}

#[test]
fn first_channel_name_is_taken() {
    let topics = vec!["done_pollen".to_string(), "processing_pollen".to_string()];
    assert_eq!(get_current_topic(&topics), "done_pollen");
}

#[test]
fn model_blobs_classify() {
    assert_eq!(classify_model("\"Wiki Art\""), Some(Model::WikiArt));
    assert_eq!(classify_model("\"ViT-B/32\""), Some(Model::VitB32));
    assert_eq!(
        classify_model("\"QoL tweaks for nshepperd\u{e2}\u{20ac}\u{a6}P Guided Diffusion v2.4\""),
        Some(Model::GuidedDiffusion)
    );
    assert_eq!(classify_model("\"Something New\""), Some(Model::Unknown));
    assert_eq!(classify_model(""), None);
}

#[test]
fn text_input_blob_is_normalized() {
    assert_eq!(normalize_text_input(String::new()), None);
    assert_eq!(
        normalize_text_input("a gleaming city".to_string()),
        Some("a gleaming city".to_string())
    );
}
