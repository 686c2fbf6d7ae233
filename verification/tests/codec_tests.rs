use shareoxide::claims::GroupClaims;
use shareoxide::codec::{AuthCookie, DecodeError, SessionField};
use shareoxide::groups::{decode_groups, encode_groups};
use shareoxide::jar::{Cookie, CookieJar};

fn session_cookie(name: &str, value: &str) -> Cookie {
    Cookie {
        name: String::from(name),
        value: String::from(value),
        root_path: true,
        max_age_days: 14,
    }
}

fn sample_session() -> AuthCookie {
    AuthCookie {
        id_token: String::from("header.payload.signature"),
        access_token: String::from("access-secret"),
        refresh_token: String::from("refresh-secret"),
        additional_claims: GroupClaims {
            groups: vec![String::from("admins"), String::from("dev \"ops\"\\team")],
        },
    }
}

#[test]
fn groups_encoding_has_expected_form() {
    let groups = vec![String::from("admins"), String::from("users")];
    let encoded = encode_groups(&groups);
    assert_eq!(encoded, "{\"groups\":[\"admins\",\"users\"]}");
}

#[test]
fn groups_encoding_escapes_specials() {
    let groups = vec![String::from("a\"b\\c\nd")];
    let encoded = encode_groups(&groups);
    assert_eq!(encoded, "{\"groups\":[\"a\\\"b\\\\c\\u000ad\"]}");
}

#[test]
fn groups_empty_list_round_trips() {
    let groups: Vec<String> = Vec::new();
    let encoded = encode_groups(&groups);
    assert_eq!(encoded, "{\"groups\":[]}");
    let decoded = decode_groups(&encoded).expect("empty list should parse");
    assert_eq!(decoded.len(), 0);
}

#[test]
fn groups_round_trip_keeps_names() {
    let groups = vec![
        String::from("plain"),
        String::from("with space"),
        String::from("q\"uote"),
        String::from("back\\slash"),
        String::from("ctrl\u{1}\u{1f}end"),
        String::from("unicode \u{e9}\u{4e2d}"),
    ];
    let encoded = encode_groups(&groups);
    let decoded = decode_groups(&encoded).expect("encoder output should parse");
    assert_eq!(decoded, groups);
    let re_encoded = encode_groups(&decoded);
    assert_eq!(re_encoded, encoded);
}

#[test]
fn groups_decode_rejects_malformed() {
    assert!(decode_groups("").is_none());
    assert!(decode_groups("{\"groups\":[").is_none());
    assert!(decode_groups("{\"groups\":[\"a\"").is_none());
    assert!(decode_groups("{\"groups\":[\"a\"]}x").is_none());
    assert!(decode_groups("{\"groups\":\"a\"}").is_none());
    assert!(decode_groups("[\"a\"]").is_none());
    // The decoder accepts exactly the encoder's form: an upper-case hex
    // escape or a raw control character is not that form.
    assert!(decode_groups("{\"groups\":[\"\\u000A\"]}").is_none());
    assert!(decode_groups("{\"groups\":[\"a\nb\"]}").is_none());
}

#[test]
fn session_round_trip_restores_every_field() {
    let session = sample_session();
    let jar = session.add_to_jar(CookieJar::new());
    let decoded = AuthCookie::get_from_jar(&jar).expect("a full cookie set should decode");
    assert_eq!(decoded.id_token, session.id_token);
    assert_eq!(decoded.access_token, session.access_token);
    assert_eq!(decoded.refresh_token, session.refresh_token);
    assert_eq!(decoded.additional_claims.groups, session.additional_claims.groups);
}

#[test]
fn re_encoding_decoded_session_is_byte_identical() {
    let session = sample_session();
    let jar1 = session.add_to_jar(CookieJar::new());
    let decoded = AuthCookie::get_from_jar(&jar1).expect("decode");
    let jar2 = decoded.add_to_jar(CookieJar::new());
    for name in ["id_token", "access_token", "refresh_token", "additional_claims"] {
        assert_eq!(jar1.get(name).expect(name), jar2.get(name).expect(name));
    }
}

#[test]
fn decode_names_first_missing_field() {
    let session = sample_session();
    let full = session.add_to_jar(CookieJar::new());

    let mut jar = CookieJar::new();
    match AuthCookie::get_from_jar(&jar) {
        Err(DecodeError::Missing(SessionField::IdToken)) => {}
        _ => panic!("an empty jar must miss the ID token first"),
    }

    jar.add(session_cookie("id_token", full.get("id_token").unwrap()));
    match AuthCookie::get_from_jar(&jar) {
        Err(DecodeError::Missing(SessionField::AccessToken)) => {}
        _ => panic!("the access token must be the next missing field"),
    }

    jar.add(session_cookie("access_token", full.get("access_token").unwrap()));
    match AuthCookie::get_from_jar(&jar) {
        Err(DecodeError::Missing(SessionField::RefreshToken)) => {}
        _ => panic!("the refresh token must be the next missing field"),
    }

    jar.add(session_cookie("refresh_token", full.get("refresh_token").unwrap()));
    match AuthCookie::get_from_jar(&jar) {
        Err(DecodeError::Missing(SessionField::AdditionalClaims)) => {}
        _ => panic!("the supplemental claims must be the last missing field"),
    }

    jar.add(session_cookie("additional_claims", full.get("additional_claims").unwrap()));
    assert!(AuthCookie::get_from_jar(&jar).is_ok());
}

#[test]
fn decode_ignores_later_fields_when_one_is_missing() {
    // Only the access token is missing: the failure must name it, never a
    // later field.
    let session = sample_session();
    let full = session.add_to_jar(CookieJar::new());
    let mut jar = CookieJar::new();
    jar.add(session_cookie("id_token", full.get("id_token").unwrap()));
    jar.add(session_cookie("refresh_token", full.get("refresh_token").unwrap()));
    jar.add(session_cookie("additional_claims", full.get("additional_claims").unwrap()));
    match AuthCookie::get_from_jar(&jar) {
        Err(DecodeError::Missing(SessionField::AccessToken)) => {}
        _ => panic!("the missing access token must be named"),
    }
}

#[test]
fn decode_rejects_malformed_claims_cookie() {
    let session = sample_session();
    let full = session.add_to_jar(CookieJar::new());
    let mut jar = CookieJar::new();
    jar.add(session_cookie("id_token", full.get("id_token").unwrap()));
    jar.add(session_cookie("access_token", full.get("access_token").unwrap()));
    jar.add(session_cookie("refresh_token", full.get("refresh_token").unwrap()));
    jar.add(session_cookie("additional_claims", "not json at all"));
    match AuthCookie::get_from_jar(&jar) {
        Err(DecodeError::MalformedClaims) => {}
        _ => panic!("an unreadable claims cookie must be reported as malformed"),
    }
}

#[test]
fn session_cookies_carry_path_and_max_age() {
    let session = sample_session();
    let jar = session.add_to_jar(CookieJar::new());
    assert_eq!(jar.entries.len(), 4);
    for cookie in &jar.entries {
        assert!(cookie.root_path);
        assert_eq!(cookie.max_age_days, 14);
    }
}
