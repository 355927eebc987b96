use wifi_node::provisioning::{
    append_chunk, credentials_from_form, handle_setup, Credentials, HandoffSlot, SetupReply,
    MAX_BODY_LEN,
};

fn creds(id: &str, secret: &str) -> Credentials {
    Credentials { network_id: id.to_string(), secret: secret.to_string() }
}

#[test]
fn empty_ssid_is_refused_with_400() {
    let mut slot = HandoffSlot::new();
    let reply = handle_setup(b"ssid=&pass=x", &mut slot);
    assert_eq!(reply, SetupReply::MissingSsid);
    assert_eq!(reply.status(), 400);
    assert_eq!(reply.message(), "Missing ssid");
    assert!(!slot.is_pending());
    assert!(slot.take().is_none());
}

#[test]
fn missing_ssid_key_is_refused() {
    let mut slot = HandoffSlot::new();
    let reply = handle_setup(b"pass=x", &mut slot);
    assert_eq!(reply.status(), 400);
    assert!(!slot.is_pending());
}

#[test]
fn valid_submission_is_handed_over() {
    let mut slot = HandoffSlot::new();
    let reply = handle_setup(b"ssid=HomeNet&pass=secret123", &mut slot);
    assert_eq!(reply, SetupReply::Accepted);
    assert_eq!(reply.status(), 200);
    assert_eq!(reply.message(), "Accepted. Trying to connect...");
    let c = slot.take().unwrap();
    assert_eq!(c.network_id, "HomeNet");
    assert_eq!(c.secret, "secret123");
    assert!(!slot.is_pending());
}

#[test]
fn second_submission_while_pending_is_refused() {
    let mut slot = HandoffSlot::new();
    assert_eq!(handle_setup(b"ssid=First&pass=1", &mut slot), SetupReply::Accepted);
    let reply = handle_setup(b"ssid=Second&pass=2", &mut slot);
    assert_eq!(reply, SetupReply::Busy);
    assert_eq!(reply.status(), 409);
    assert_eq!(slot.take().unwrap().network_id, "First");
}

#[test]
fn last_occurrence_of_a_key_wins() {
    let c = credentials_from_form(b"ssid=a&pass=p&ssid=b");
    assert_eq!(c.network_id, "b");
    assert_eq!(c.secret, "p");
}

#[test]
fn form_fields_are_decoded() {
    let c = credentials_from_form(b"pass=a%2Bb&ssid=My%20Net&other=1");
    assert_eq!(c.network_id, "My Net");
    assert_eq!(c.secret, "a+b");
}

#[test]
fn slot_holds_one_value() {
    let mut slot = HandoffSlot::new();
    assert!(slot.try_send(creds("a", "1")));
    assert!(!slot.try_send(creds("b", "2")));
    assert_eq!(slot.take().unwrap().network_id, "a");
    assert!(slot.take().is_none());
    assert!(slot.try_send(creds("c", "3")));
    assert_eq!(slot.take().unwrap().network_id, "c");
}

#[test]
fn credentials_validity_and_copy() {
    assert!(creds("net", "").is_valid());
    assert!(!creds("", "pw").is_valid());
    let c = creds("net", "pw").duplicate();
    assert_eq!(c.network_id, "net");
    assert_eq!(c.secret, "pw");
}

#[test]
fn body_chunks_accumulate_up_to_the_limit() {
    let mut body = Vec::new();
    assert!(append_chunk(&mut body, b"ssid="));
    assert!(append_chunk(&mut body, b"x"));
    assert_eq!(body, b"ssid=x".to_vec());
    let big = vec![b'a'; MAX_BODY_LEN - body.len()];
    assert!(append_chunk(&mut body, &big));
    assert_eq!(body.len(), MAX_BODY_LEN);
    assert!(!append_chunk(&mut body, b"y"));
    assert_eq!(body.len(), MAX_BODY_LEN);
}

#[test]
fn oversized_chunk_is_refused_whole() {
    let mut body = b"ab".to_vec();
    let big = vec![b'a'; MAX_BODY_LEN];
    assert!(!append_chunk(&mut body, &big));
    assert_eq!(body, b"ab".to_vec());
    assert_eq!(SetupReply::TooLarge.status(), 413);
}

#[test]
fn every_reply_has_its_text() {
    assert_eq!(SetupReply::Accepted.message(), "Accepted. Trying to connect...");
    assert_eq!(SetupReply::MissingSsid.message(), "Missing ssid");
    assert_eq!(SetupReply::Busy.message(), "Credentials already pending");
    assert_eq!(SetupReply::TooLarge.message(), "Body too large");
}
