use post_x::config::Config;
use post_x::engine::{validate_tweet_text, XError};
use post_x::media::{extension_of, media_precheck, mime_from_path};

fn message_of(e: XError) -> String {
    e.render()
}

#[test]
fn text_at_limit_accepted_one_over_rejected() {
    let at = "a".repeat(280);
    assert!(validate_tweet_text(&at).is_ok());
    let over = "a".repeat(281);
    let msg = message_of(validate_tweet_text(&over).unwrap_err());
    assert_eq!(msg, "Tweet text is 281 characters (max 280)");
    assert!(msg.contains("281"));
    assert!(msg.contains("280"));
}

#[test]
fn text_counts_characters_not_bytes() {
    let wide = "\u{65e5}".repeat(280);
    assert!(wide.len() > 280);
    assert!(validate_tweet_text(&wide).is_ok());
    let wide_over = "\u{65e5}".repeat(281);
    assert!(validate_tweet_text(&wide_over).is_err());
}

#[test]
fn empty_or_whitespace_text_rejected() {
    for t in ["", " ", "   \t\n", "\u{a0}\u{2003}"] {
        let msg = message_of(validate_tweet_text(t).unwrap_err());
        assert_eq!(msg, "Tweet text cannot be empty");
    }
    assert!(validate_tweet_text(" x ").is_ok());
}

#[test]
fn config_validate_names_first_blank_field() {
    let good = Config {
        api_key: "k".to_string(),
        api_key_secret: "s".to_string(),
        access_token: "t".to_string(),
        access_token_secret: "ts".to_string(),
    };
    assert!(good.validate().is_ok());
    let blank_key = Config { api_key: "  ".to_string(), ..good_clone(&good) };
    assert_eq!(blank_key.validate().unwrap_err(), "'api_key' is empty in config");
    let blank_secret = Config { api_key_secret: "".to_string(), ..good_clone(&good) };
    assert_eq!(blank_secret.validate().unwrap_err(), "'api_key_secret' is empty in config");
    let blank_token = Config { access_token: "\t".to_string(), ..good_clone(&good) };
    assert_eq!(blank_token.validate().unwrap_err(), "'access_token' is empty in config");
    let blank_ts = Config { access_token_secret: " ".to_string(), ..good_clone(&good) };
    assert_eq!(blank_ts.validate().unwrap_err(), "'access_token_secret' is empty in config");
}

fn good_clone(c: &Config) -> Config {
    Config {
        api_key: c.api_key.clone(),
        api_key_secret: c.api_key_secret.clone(),
        access_token: c.access_token.clone(),
        access_token_secret: c.access_token_secret.clone(),
    }
}

#[test]
fn redacted_rendering_holds_no_secret() {
    let c = Config {
        api_key: "hunter2".to_string(),
        api_key_secret: "hunter2".to_string(),
        access_token: "hunter2".to_string(),
        access_token_secret: "hunter2".to_string(),
    };
    let r = c.redacted();
    assert!(!r.contains("hunter2"));
    assert!(r.contains("***"));
}

#[test]
fn bmp_extension_rejected_citing_allowed_formats() {
    let e = mime_from_path("picture.bmp").unwrap_err();
    assert!(matches!(e, XError::Format { .. }));
    let msg = message_of(e);
    assert_eq!(msg, "Unsupported image format '.bmp'. Allowed: jpeg, png, gif, webp");
}

#[test]
fn allowed_extensions_map_to_mime_types() {
    assert_eq!(mime_from_path("a.jpg").unwrap(), "image/jpeg");
    assert_eq!(mime_from_path("dir/a.JPEG").unwrap(), "image/jpeg");
    assert_eq!(mime_from_path("a.png").unwrap(), "image/png");
    assert_eq!(mime_from_path("a.gif").unwrap(), "image/gif");
    assert_eq!(mime_from_path("a.tar.webp").unwrap(), "image/webp");
}

#[test]
fn extension_extraction() {
    assert_eq!(extension_of("dir/file.tar.gz").unwrap(), "gz");
    assert_eq!(extension_of("file.PNG").unwrap(), "PNG");
    assert!(extension_of("noext").is_none());
    assert!(extension_of("dir.d/noext").is_none());
    assert!(extension_of(".gitignore").is_none());
    assert!(extension_of("dir/.hidden").is_none());
}

#[test]
fn media_precheck_order_and_messages() {
    let e = media_precheck("a.png", false, 0).unwrap_err();
    assert_eq!(message_of(e), "File not found: a.png");
    let e = media_precheck("a.png", true, 5242881).unwrap_err();
    assert_eq!(message_of(e), "File too large: 5242881 bytes (max 5MB)");
    assert_eq!(media_precheck("a.png", true, 5242880).unwrap(), "image/png");
    let e = media_precheck("a.bmp", true, 10).unwrap_err();
    assert!(matches!(e, XError::Format { .. }));
}
