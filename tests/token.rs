use bookmarker::token::{decode, encode, TokenError, MAX_TOKEN_LEN};

fn strings(v: &[&str]) -> Vec<String> {
    v.iter().map(|s| s.to_string()).collect()
}

#[test]
fn encode_joins_with_delimiter() {
    let t = encode("color", &strings(&["5793266", "1/2/3"])).unwrap();
    assert_eq!(t, "color:5793266:1/2/3");
}

#[test]
fn round_trip_keeps_action_and_fields() {
    let fields = strings(&["update", "10/20/30"]);
    let t = encode("color", &fields).unwrap();
    let (a, fs) = decode(&t, fields.len()).unwrap();
    assert_eq!(a, "color");
    assert_eq!(fs, fields);
}

#[test]
fn round_trip_single_field() {
    let fields = strings(&[""]);
    let t = encode("delete", &fields).unwrap();
    assert_eq!(t, "delete:");
    assert_eq!(decode(&t, 1).unwrap(), ("delete".to_string(), fields));
}

#[test]
fn encode_rejects_delimiter_in_field() {
    assert_eq!(encode("color", &strings(&["a:b"])), Err(TokenError::InvalidField));
    assert_eq!(encode("co:lor", &strings(&["a"])), Err(TokenError::InvalidField));
}

#[test]
fn encode_rejects_long_token() {
    let long = "x".repeat(MAX_TOKEN_LEN);
    assert_eq!(encode("color", &strings(&[&long])), Err(TokenError::TooLong));
    let fits = "x".repeat(MAX_TOKEN_LEN - 6);
    assert_eq!(encode("color", &strings(&[&fits])).unwrap().chars().count(), MAX_TOKEN_LEN);
}

#[test]
fn decode_keeps_compound_remainder() {
    let (a, fs) = decode("color:5793266:1/2/3", 2).unwrap();
    assert_eq!(a, "color");
    assert_eq!(fs, strings(&["5793266", "1/2/3"]));
}

#[test]
fn decode_last_field_keeps_delimiters() {
    let (a, fs) = decode("a:b:c:d", 2).unwrap();
    assert_eq!(a, "a");
    assert_eq!(fs, strings(&["b", "c:d"]));
}

#[test]
fn decode_plain_token_is_no_action() {
    assert_eq!(decode("color", 2), Err(TokenError::NoAction));
}

#[test]
fn decode_rejects_long_token() {
    let t = format!("a:{}", "b".repeat(MAX_TOKEN_LEN));
    assert_eq!(decode(&t, 1), Err(TokenError::TooLong));
}

#[test]
fn decode_missing_field() {
    assert_eq!(decode("color:5793266", 2), Err(TokenError::MissingField));
}

#[test]
fn decode_counts_characters_not_bytes() {
    let t = format!("a:{}", "é".repeat(90));
    let (_, fs) = decode(&t, 1).unwrap();
    assert_eq!(fs[0].chars().count(), 90);
}
