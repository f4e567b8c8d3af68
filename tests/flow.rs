use bookmarker::auth::{verify, VerificationFailure};
use bookmarker::dispatch::{command_reply, route, Interaction, Registry, ResponseKind, Route};
use bookmarker::token::decode;
use ed25519_dalek::{Signer, SigningKey};

fn signed(ts: &str, body: &[u8]) -> (String, String) {
    let key = SigningKey::from_bytes(&[3u8; 32]);
    let mut msg = ts.as_bytes().to_vec();
    msg.extend_from_slice(body);
    (hex::encode(key.sign(&msg).to_bytes()), hex::encode(key.verifying_key().to_bytes()))
}

/// The steps a request goes through: authenticate, then route.
fn authenticate_then_route(body: &[u8], sig: &str, ts: &str, key: &str, interaction: Interaction) -> Result<Route, String> {
    verify(body, sig, ts, key).map_err(|e| format!("{:?}", e))?;
    route(&Registry::standard(), &interaction).map_err(|e| format!("{:?}", e))
}

#[test]
fn signed_help_command_gets_a_new_message() {
    let body = br#"{"type":2,"data":{"name":"help"}}"#;
    let (sig, key) = signed("1700000000", body);
    let r = authenticate_then_route(body, &sig, "1700000000", &key, Interaction::Command { name: "help".to_string() });
    assert_eq!(r, Ok(Route::Command(0)));
    let reply = command_reply("Server Help".to_string());
    assert_eq!(reply.kind, ResponseKind::ChannelMessageWithSource);
    assert!(!reply.data.unwrap().is_empty());
}

#[test]
fn bad_signature_stops_before_routing() {
    let body = br#"{"type":2,"data":{"name":"help"}}"#;
    let (sig, key) = signed("1700000000", b"something else");
    assert_eq!(verify(body, &sig, "1700000000", &key), Err(VerificationFailure::BadSignature));
    let r = authenticate_then_route(body, &sig, "1700000000", &key, Interaction::Command { name: "help".to_string() });
    assert_eq!(r, Err("BadSignature".to_string()));
}

#[test]
fn color_component_decodes_with_compound_path() {
    let r = route(&Registry::standard(), &Interaction::Component { custom_id: "color:5793266:1/2/3".to_string() });
    assert_eq!(r, Ok(Route::Component(1)));
    let (action, fields) = decode("color:5793266:1/2/3", 2).unwrap();
    assert_eq!(action, "color");
    assert_eq!(fields, vec!["5793266".to_string(), "1/2/3".to_string()]);
}
