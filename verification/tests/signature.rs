use mcpatch::decimal::{format_u64, parse_u64};
use mcpatch::digest::hash;
use mcpatch::extract_file::{
    api_extract_file, check_token, digest_for, parse_signature, sign, verify, Rejection,
    SignedToken,
};

const ABC: &str = "ba7816bf8f01cfea414140de5dae2223b00361a396177a9cb410ff61f20015ad";
const EMPTY: &str = "e3b0c44298fc1c149afbf4c8996fb92427ae41e4649b934ca495991b7852b855";
const A_TXT: &str = "c072ff69465394c03bdac68b35a99b04e5d6604aa827fb958004251332da4fa3";

#[test]
fn hash_is_lower_hex_sha256() {
    assert_eq!(hash(b"abc"), ABC.as_bytes().to_vec());
    assert_eq!(hash(b""), EMPTY.as_bytes().to_vec());
}

#[test]
fn hash_is_64_hex_digits() {
    let out = hash(b"anything at all");
    assert_eq!(out.len(), 64);
    assert!(out.iter().all(|b| b.is_ascii_digit() || (b'a'..=b'f').contains(b)));
}

#[test]
fn format_u64_writes_decimal() {
    assert_eq!(format_u64(0), b"0".to_vec());
    assert_eq!(format_u64(7), b"7".to_vec());
    assert_eq!(format_u64(10), b"10".to_vec());
    assert_eq!(format_u64(1700000000), b"1700000000".to_vec());
    assert_eq!(format_u64(u64::MAX), b"18446744073709551615".to_vec());
}

#[test]
fn parse_u64_reads_decimal() {
    assert_eq!(parse_u64(b"0"), Some(0));
    assert_eq!(parse_u64(b"42"), Some(42));
    assert_eq!(parse_u64(b"0042"), Some(42));
    assert_eq!(parse_u64(b"+42"), Some(42));
    assert_eq!(parse_u64(b"18446744073709551615"), Some(u64::MAX));
}

#[test]
fn parse_u64_refuses_what_is_no_number() {
    assert_eq!(parse_u64(b""), None);
    assert_eq!(parse_u64(b"+"), None);
    assert_eq!(parse_u64(b"-1"), None);
    assert_eq!(parse_u64(b"++1"), None);
    assert_eq!(parse_u64(b"12a"), None);
    assert_eq!(parse_u64(b" 12"), None);
    assert_eq!(parse_u64(b"12 "), None);
    assert_eq!(parse_u64(b"1.5"), None);
    assert_eq!(parse_u64(b"18446744073709551616"), None);
    assert_eq!(parse_u64(b"99999999999999999999999"), None);
}

#[test]
fn parse_u64_agrees_with_the_standard_library() {
    let samples = [
        "", "0", "1", "9", "10", "+0", "+", "-", "-0", "+-1", "007", "123456789", "1_000", "0x10",
        "18446744073709551615", "18446744073709551616", "+18446744073709551615",
        "184467440737095516150", "a", "1a", "a1", " 1", "1\n", "００１",
    ];
    for text in samples {
        assert_eq!(parse_u64(text.as_bytes()), u64::from_str_radix(text, 10).ok(), "{:?}", text);
    }
}

#[test]
fn parse_of_format_is_identity() {
    for n in [0u64, 1, 9, 10, 99, 100, 12345, u64::MAX - 1, u64::MAX] {
        assert_eq!(parse_u64(&format_u64(n)), Some(n));
    }
}

#[test]
fn digest_is_taken_over_path_expiry_user_and_password() {
    assert_eq!(digest_for(b"a.txt", 100, b"user", b"pass"), A_TXT.as_bytes().to_vec());
    let path = "docs/读我.txt".as_bytes();
    assert_eq!(
        digest_for(path, 1700000000, b"admin", b"s3cret"),
        b"b7a1963e158b8160f448553edaf589f733845a167e5821712c25629faef69c4b".to_vec()
    );
}

#[test]
fn sign_writes_path_expiry_digest() {
    let token = sign(b"a.txt", 100, b"user", b"pass");
    assert_eq!(token, format!("a.txt:100:{}", A_TXT).into_bytes());
}

#[test]
fn parse_signature_splits_three_fields() {
    let token = parse_signature(b"dir/a.txt:100:abcdef").unwrap();
    assert_eq!(token.path, b"dir/a.txt".to_vec());
    assert_eq!(token.expiry, 100);
    assert_eq!(token.digest, b"abcdef".to_vec());
}

#[test]
fn parse_signature_ignores_what_follows_a_third_colon() {
    let token = parse_signature(b"a:1:dd:more:fields").unwrap();
    assert_eq!(token.path, b"a".to_vec());
    assert_eq!(token.expiry, 1);
    assert_eq!(token.digest, b"dd".to_vec());
}

#[test]
fn parse_signature_accepts_empty_path_and_digest() {
    let token = parse_signature(b":7:").unwrap();
    assert_eq!(token.path, Vec::<u8>::new());
    assert_eq!(token.expiry, 7);
    assert_eq!(token.digest, Vec::<u8>::new());
}

#[test]
fn parse_signature_refuses_fewer_than_three_fields() {
    assert!(parse_signature(b"").is_none());
    assert!(parse_signature(b"a.txt").is_none());
    assert!(parse_signature(b"a.txt:100").is_none());
}

#[test]
fn parse_signature_refuses_an_expiry_that_is_no_number() {
    assert!(parse_signature(b"a.txt:soon:abcdef").is_none());
    assert!(parse_signature(b"a.txt::abcdef").is_none());
    assert!(parse_signature(b"a.txt:-5:abcdef").is_none());
    assert!(parse_signature(b"a.txt:18446744073709551616:abcdef").is_none());
}

#[test]
fn signature_round_trip() {
    let token = sign(b"a.txt", 100, b"user", b"pass");
    assert_eq!(verify(&token, b"user", b"pass"), Ok(b"a.txt".to_vec()));
    let path = "docs/读我.txt".as_bytes();
    let token = sign(path, 1700000000, b"admin", b"s3cret");
    assert_eq!(verify(&token, b"admin", b"s3cret"), Ok(path.to_vec()));
    let token = sign(b"", 0, b"", b"");
    assert_eq!(verify(&token, b"", b""), Ok(Vec::new()));
}

#[test]
fn a_path_with_a_colon_does_not_round_trip() {
    let token = sign(b"a:b", 100, b"user", b"pass");
    assert_eq!(verify(&token, b"user", b"pass"), Err(Rejection::Forbidden));
}

#[test]
fn a_changed_username_is_rejected() {
    let token = sign(b"a.txt", 100, b"user", b"pass");
    assert_eq!(verify(&token, b"usex", b"pass"), Err(Rejection::InvalidSignature));
}

#[test]
fn a_changed_password_is_rejected() {
    let token = sign(b"a.txt", 100, b"user", b"pass");
    assert_eq!(verify(&token, b"user", b"Pass"), Err(Rejection::InvalidSignature));
}

#[test]
fn a_changed_path_is_rejected() {
    let forged = format!("b.txt:100:{}", A_TXT).into_bytes();
    assert_eq!(verify(&forged, b"user", b"pass"), Err(Rejection::InvalidSignature));
}

#[test]
fn a_changed_expiry_is_rejected() {
    let forged = format!("a.txt:101:{}", A_TXT).into_bytes();
    assert_eq!(verify(&forged, b"user", b"pass"), Err(Rejection::InvalidSignature));
}

#[test]
fn an_upper_case_digest_is_rejected() {
    let forged = format!("a.txt:100:{}", A_TXT.to_uppercase()).into_bytes();
    assert_eq!(verify(&forged, b"user", b"pass"), Err(Rejection::InvalidSignature));
}

#[test]
fn a_truncated_signature_is_forbidden() {
    let token = sign(b"a.txt", 100, b"user", b"pass");
    assert_eq!(verify(&token[..9], b"user", b"pass"), Err(Rejection::Forbidden));
    assert_eq!(verify(&token[..5], b"user", b"pass"), Err(Rejection::Forbidden));
    assert_eq!(verify(b"", b"user", b"pass"), Err(Rejection::Forbidden));
}

#[test]
fn a_shortened_digest_is_an_invalid_signature() {
    let token = sign(b"a.txt", 100, b"user", b"pass");
    assert_eq!(
        verify(&token[..token.len() - 1], b"user", b"pass"),
        Err(Rejection::InvalidSignature)
    );
}

#[test]
fn the_expiry_is_digested_in_its_shortest_form() {
    let padded = format!("a.txt:+0100:{}", A_TXT).into_bytes();
    assert_eq!(verify(&padded, b"user", b"pass"), Ok(b"a.txt".to_vec()));
}

#[test]
fn credentials_that_give_the_same_message_give_the_same_digest() {
    assert_eq!(
        digest_for(b"a.txt", 5, b"a:b", b"c"),
        b"15b991802426f4d91a8d59a51e82bc6639ae98f31361f7734f6fc486b44953cf".to_vec()
    );
    let token = sign(b"a.txt", 5, b"a:b", b"c");
    assert_eq!(verify(&token, b"a", b"b:c"), Ok(b"a.txt".to_vec()));
}

#[test]
fn an_expiry_beyond_the_clock_is_outdated() {
    let token = sign(b"a.txt", u64::MAX, b"user", b"pass");
    assert_eq!(
        token,
        b"a.txt:18446744073709551615:f4dfdc6f39cb30eb4e94b2cd70f5db4f29e2276e698cf109ae7d75c0de66c7e7"
            .to_vec()
    );
    assert_eq!(verify(&token, b"user", b"pass"), Err(Rejection::Outdated));
}

#[test]
fn an_expiry_in_the_past_is_still_accepted() {
    let token = sign(b"a.txt", 0, b"user", b"pass");
    assert_eq!(verify(&token, b"user", b"pass"), Ok(b"a.txt".to_vec()));
}

#[test]
fn check_token_compares_the_digest_before_the_expiry() {
    let token = |digest: &[u8]| SignedToken {
        path: b"a.txt".to_vec(),
        expiry: 100,
        digest: digest.to_vec(),
    };
    assert_eq!(check_token(token(A_TXT.as_bytes()), b"user", b"pass", true), Ok(b"a.txt".to_vec()));
    assert_eq!(
        check_token(token(A_TXT.as_bytes()), b"user", b"pass", false),
        Err(Rejection::Outdated)
    );
    assert_eq!(check_token(token(b"00"), b"user", b"pass", true), Err(Rejection::InvalidSignature));
    assert_eq!(
        check_token(token(b"00"), b"user", b"pass", false),
        Err(Rejection::InvalidSignature)
    );
}

#[test]
fn a_request_without_a_signature_is_forbidden() {
    assert_eq!(api_extract_file(None, b"user", b"pass"), Err(Rejection::Forbidden));
}

#[test]
fn a_request_with_a_signature_is_verified() {
    let token = sign(b"a.txt", 100, b"user", b"pass");
    assert_eq!(api_extract_file(Some(&token), b"user", b"pass"), Ok(b"a.txt".to_vec()));
    assert_eq!(
        api_extract_file(Some(&token), b"user", b"other"),
        Err(Rejection::InvalidSignature)
    );
    assert_eq!(api_extract_file(Some(b"a.txt"), b"user", b"pass"), Err(Rejection::Forbidden));
}

#[test]
fn rejections_are_answered_with_403_and_a_reason() {
    assert_eq!(Rejection::Forbidden.status(), 403);
    assert_eq!(Rejection::InvalidSignature.status(), 403);
    assert_eq!(Rejection::Outdated.status(), 403);
    assert_eq!(Rejection::Forbidden.reason(), "");
    assert_eq!(Rejection::InvalidSignature.reason(), "invalid signature");
    assert_eq!(Rejection::Outdated.reason(), "signature is outdate");
}
