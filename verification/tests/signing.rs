use base64::Engine;
use hmac::{KeyInit, Mac, SimpleHmac};
use post_x::config::Config;
use post_x::params::ParamList;
use post_x::signer::{make_nonce, oauth_header, oauth_header_with, param_segment, signature_base_string};

fn unreserved(b: u8) -> bool {
    b.is_ascii_alphanumeric() || b == b'-' || b == b'.' || b == b'_' || b == b'~'
}

fn reference_pct(s: &str) -> String {
    let mut out = String::new();
    for b in s.as_bytes() {
        if unreserved(*b) {
            out.push(*b as char);
        } else {
            out.push_str(&format!("%{:02X}", b));
        }
    }
    out
}

#[test]
fn percent_encoding_exact_values() {
    assert_eq!(post_x::encoding::pct_encode(b"Hello World!"), "Hello%20World%21");
    assert_eq!(post_x::encoding::pct_encode(b"Ladies + Gentlemen"), "Ladies%20%2B%20Gentlemen");
    assert_eq!(post_x::encoding::pct_encode(b"safe-._~AZaz09"), "safe-._~AZaz09");
    assert_eq!(post_x::encoding::pct_encode("\u{00e9}".as_bytes()), "%C3%A9");
}

#[test]
fn percent_encoding_every_byte() {
    for b in 0..=255u8 {
        let got = post_x::encoding::pct_encode(&[b]);
        let expected = if unreserved(b) {
            (b as char).to_string()
        } else {
            format!("%{:02X}", b)
        };
        assert_eq!(got, expected, "byte {b}");
    }
}

#[test]
fn hex_encoding_exact_values() {
    assert_eq!(post_x::encoding::encode(&[0x00, 0xff, 0x1a]), "00ff1a");
    assert_eq!(post_x::encoding::encode(&[]), "");
}

#[test]
fn decimal_rendering_exact_values() {
    assert_eq!(post_x::numbers::u64_to_string(0), "0");
    assert_eq!(post_x::numbers::u64_to_string(281), "281");
    assert_eq!(post_x::numbers::u64_to_string(5242881), "5242881");
    assert_eq!(post_x::numbers::u64_to_string(u64::MAX), "18446744073709551615");
}

#[test]
fn parameter_segment_sorted_regardless_of_insertion_order() {
    let mut a = ParamList::new();
    a.insert("b".to_string(), "2".to_string());
    a.insert("a".to_string(), "1".to_string());
    a.insert("c".to_string(), "3".to_string());
    let mut b = ParamList::new();
    b.insert("c".to_string(), "3".to_string());
    b.insert("a".to_string(), "1".to_string());
    b.insert("b".to_string(), "2".to_string());
    assert_eq!(param_segment(&a), "a=1&b=2&c=3");
    assert_eq!(param_segment(&a), param_segment(&b));
}

#[test]
fn parameter_insert_last_write_wins() {
    let mut a = ParamList::new();
    a.insert("k".to_string(), "old".to_string());
    a.insert("k".to_string(), "new".to_string());
    assert_eq!(param_segment(&a), "k=new");
}

fn test_config() -> Config {
    Config {
        api_key: "xvz1evFS4wEEPTGEFPHBog".to_string(),
        api_key_secret: "kAcSOqF21Fu85e7zjz7ZN2U4ZRhfV3WpwPAoE3Z7kBw".to_string(),
        access_token: "370773112-GmHxMAgYyLbNEtIKZeRNFsMKPR9EyMZeS9weJAEb".to_string(),
        access_token_secret: "LswwdoUaIvS8ltyTt5jkRh4J50vUPVVHtR2YPi5kE".to_string(),
    }
}

#[test]
fn base_string_shape() {
    let mut params = ParamList::new();
    params.insert("oauth_version".to_string(), "1.0".to_string());
    params.insert("status".to_string(), "hi there".to_string());
    let base = signature_base_string("post", "https://api.x.com/2/tweets", &params);
    assert_eq!(
        base,
        "POST&https%3A%2F%2Fapi.x.com%2F2%2Ftweets&oauth_version%3D1.0%26status%3Dhi%2520there"
    );
}

#[test]
fn header_matches_independent_reconstruction() {
    let config = test_config();
    let url = "https://api.x.com/2/tweets";
    let nonce = "0123456789abcdef0123456789abcdef";
    let ts = "1700000000";
    let got = oauth_header_with(&config, "POST", url, &ParamList::new(), nonce, ts);

    let mut pairs = vec![
        ("oauth_consumer_key", config.api_key.clone()),
        ("oauth_nonce", nonce.to_string()),
        ("oauth_signature_method", "HMAC-SHA1".to_string()),
        ("oauth_timestamp", ts.to_string()),
        ("oauth_token", config.access_token.clone()),
        ("oauth_version", "1.0".to_string()),
    ];
    let seg = pairs
        .iter()
        .map(|(k, v)| format!("{}={}", reference_pct(k), reference_pct(v)))
        .collect::<Vec<_>>()
        .join("&");
    let base = format!("POST&{}&{}", reference_pct(url), reference_pct(&seg));
    let key = format!(
        "{}&{}",
        reference_pct(&config.api_key_secret),
        reference_pct(&config.access_token_secret)
    );
    let mut mac = <SimpleHmac<sha1::Sha1> as KeyInit>::new_from_slice(key.as_bytes()).unwrap();
    mac.update(base.as_bytes());
    let sig = base64::engine::general_purpose::STANDARD.encode(mac.finalize().into_bytes());
    pairs.push(("oauth_signature", sig));
    pairs.sort_by(|x, y| x.0.cmp(y.0));
    let expected = format!(
        "OAuth {}",
        pairs
            .iter()
            .map(|(k, v)| format!("{}=\"{}\"", reference_pct(k), reference_pct(v)))
            .collect::<Vec<_>>()
            .join(", ")
    );
    assert_eq!(got, expected);
}

#[test]
fn body_extras_sign_but_stay_out_of_the_header() {
    let config = test_config();
    let url = "https://api.x.com/2/tweets";
    let nonce = "0123456789abcdef0123456789abcdef";
    let ts = "1700000000";
    let plain = oauth_header_with(&config, "POST", url, &ParamList::new(), nonce, ts);
    let mut extra = ParamList::new();
    extra.insert("status".to_string(), "hello".to_string());
    let with_extra = oauth_header_with(&config, "POST", url, &extra, nonce, ts);
    // the extra parameter entered the signature base, so the signature moved
    assert_ne!(plain, with_extra);
    // but the emitted header holds protocol parameters only
    assert!(!with_extra.contains("status"));
}

#[test]
fn header_is_deterministic_for_fixed_nonce_and_timestamp() {
    let config = test_config();
    let url = "https://api.x.com/2/users/me";
    let nonce = "00112233445566778899aabbccddeeff";
    let h1 = oauth_header_with(&config, "GET", url, &ParamList::new(), nonce, "1700000000");
    let h2 = oauth_header_with(&config, "GET", url, &ParamList::new(), nonce, "1700000000");
    assert_eq!(h1, h2);
}

#[test]
fn empty_parameter_list_renders_empty_segment() {
    assert_eq!(param_segment(&ParamList::new()), "");
}

#[test]
fn signing_twice_differs() {
    let config = test_config();
    let extra = ParamList::new();
    let h1 = oauth_header(&config, "GET", "https://api.x.com/2/users/me", &extra);
    let h2 = oauth_header(&config, "GET", "https://api.x.com/2/users/me", &extra);
    assert_ne!(h1, h2);
    assert!(h1.starts_with("OAuth "));
    assert!(h1.contains("oauth_nonce=\""));
    assert!(h1.contains("oauth_signature=\""));
}

#[test]
fn nonce_is_fresh_lowercase_hex() {
    let n1 = make_nonce();
    let n2 = make_nonce();
    assert_eq!(n1.len(), 32);
    assert!(n1.chars().all(|c| c.is_ascii_hexdigit() && !c.is_ascii_uppercase()));
    assert_ne!(n1, n2);
}
