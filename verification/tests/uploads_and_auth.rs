//! Image-safety rating logic, emoji-name validation, the safety-service
//! request body, and the staged authentication decisions.

use std::collections::HashMap;

use dem_core::auth::{
    auth_cached_step, auth_revalidate_finish, auth_store_step, login_expiry, make_logged_user,
    normalize_avatar, revalidated_expiry, CachedAuthStep, UserAuthError,
};
use dem_core::discord::{DiscordUser, LoggedUser};
use dem_core::image::{
    encode_base64, rating_of_label, safe_search_request_body, upload_permission_granted,
    validate_emoji_name, ImageRating, ImageType, Rating,
};
use dem_core::image::decode_image_rating;
use dem_core::session_cache::SessionCache;

#[test]
fn rating_labels_decode() {
    assert_eq!(rating_of_label("UNKNOWN"), Some(Rating::Unknown));
    assert_eq!(rating_of_label("VERY_UNLIKELY"), Some(Rating::VeryUnlikely));
    assert_eq!(rating_of_label("UNLIKELY"), Some(Rating::Unlikely));
    assert_eq!(rating_of_label("POSSIBLE"), Some(Rating::Possible));
    assert_eq!(rating_of_label("LIKELY"), Some(Rating::Likely));
    assert_eq!(rating_of_label("VERY_LIKELY"), Some(Rating::VeryLikely));
    assert_eq!(rating_of_label("SOMETHING"), None);
}

#[test]
fn rating_threshold_is_lexicographic() {
    let safe = ImageRating {
        racy: Rating::Unknown,
        adult: Rating::VeryUnlikely,
        spoof: Rating::Unknown,
        violance: Rating::Unlikely,
        medical: Rating::Possible,
    };
    assert!(safe.passes_upload_check());
    let racy = ImageRating { racy: Rating::Likely, ..safe };
    assert!(!racy.passes_upload_check());
    let adult = ImageRating { adult: Rating::Likely, ..safe };
    assert!(!adult.passes_upload_check());
    // the minimum itself passes: only strictly lower ratings fail
    assert!(ImageRating::minimum().passes_upload_check());
    assert_eq!(Rating::Unknown.rank(), 5);
    assert_eq!(Rating::VeryLikely.rank(), 0);
}

#[test]
fn rating_response_decodes() {
    let text = "{\"response\":{\"racy\":\"UNKNOWN\",\"adult\":\"VERY_UNLIKELY\",\"spoof\":\"UNKNOWN\",\"violance\":\"UNLIKELY\",\"medical\":\"POSSIBLE\"}}";
    let rating = decode_image_rating(text).unwrap();
    assert_eq!(rating.racy, Rating::Unknown);
    assert_eq!(rating.medical, Rating::Possible);
    assert!(decode_image_rating("{}").is_none());
}

#[test]
fn emoji_names_are_validated() {
    assert!(validate_emoji_name("ab"));
    assert!(validate_emoji_name("Smile99"));
    assert!(!validate_emoji_name("a"));
    assert!(!validate_emoji_name("aaaaaaaaaaaaaaaaaaaaaaaaaaaaaaaaa"));
    assert!(validate_emoji_name("aaaaaaaaaaaaaaaaaaaaaaaaaaaaaaaa"));
    assert!(!validate_emoji_name("has space"));
    assert!(!validate_emoji_name("dash-ed"));
}

#[test]
fn upload_permission_mask() {
    assert!(upload_permission_granted(0));
    assert!(!upload_permission_granted(1 << 3));
    assert!(!upload_permission_granted(1 << 30));
    assert!(upload_permission_granted(1 << 4));
}

#[test]
fn safety_request_body_embeds_encoded_image() {
    let bytes = vec![b'a', b'b', b'c'];
    let encoded = encode_base64(&bytes);
    assert_eq!(encoded, "YWJj");
    let body = safe_search_request_body(&encoded);
    assert_eq!(
        body,
        "{\"requests\":[{\"image\":{\"content\":\"YWJj\"},\"features\":[{\"type\":\"SAFE_SEARCH_DETECTION\"}]}]}"
    );
    // padding: one byte encodes to four characters
    assert_eq!(encode_base64(&vec![0u8]), "AA==");
}

#[test]
fn content_type_names() {
    assert_eq!(ImageType::Gif.content_type_name(), "image/gif");
    assert_eq!(ImageType::Png.content_type_name(), "image/png");
}

#[test]
fn avatar_prefix_is_stripped() {
    assert_eq!(
        normalize_avatar(Some("_aXYZ".to_string())),
        Some("XYZ".to_string())
    );
    assert_eq!(
        normalize_avatar(Some("plain".to_string())),
        Some("plain".to_string())
    );
    assert_eq!(normalize_avatar(Some("_a".to_string())), Some("".to_string()));
    assert_eq!(normalize_avatar(None), None);
}

#[test]
fn expiries_are_clamped() {
    assert_eq!(login_expiry(1_000, Some(2)), 3_000);
    assert_eq!(login_expiry(1_000, Some(-5)), 1_000);
    assert_eq!(login_expiry(1_000, None), 3_601_000);
    assert_eq!(login_expiry(u64::MAX, Some(1)), u64::MAX);
    assert_eq!(revalidated_expiry(5_000, Some(9_000)), 9_000);
    assert_eq!(revalidated_expiry(5_000, Some(1_000)), 5_000);
    assert_eq!(revalidated_expiry(5_000, None), 5_000);
}

#[test]
fn logged_user_is_assembled_from_profile() {
    let user = DiscordUser {
        id: 7,
        username: "ada".to_string(),
        discriminator: "0007".to_string(),
        avatar: Some("_aANIM".to_string()),
    };
    let mut guilds = HashMap::new();
    guilds.insert(42u64, 8u64);
    let session: LoggedUser = make_logged_user(user, guilds, 99_000);
    assert_eq!(session.user_id, 7);
    assert_eq!(session.expires_at, 99_000);
    assert_eq!(session.user_icon.as_deref(), Some("ANIM"));
    assert_eq!(session.guilds.get(&42), Some(&8));
}

#[test]
fn auth_stages_decide_as_specified() {
    let mut sessions = SessionCache::new(4);
    // no cookie at all
    assert_eq!(auth_cached_step(&mut sessions, None), CachedAuthStep::NoToken);
    // a token the cache does not hold goes to the store
    match auth_cached_step(&mut sessions, Some("t".to_string())) {
        CachedAuthStep::CheckStore(t) => assert_eq!(t, "t"),
        other => panic!("unexpected step: {:?}", other),
    }
    // the store's verdicts
    assert_eq!(auth_store_step(None), Err(UserAuthError::InternalError));
    assert_eq!(auth_store_step(Some(false)), Err(UserAuthError::InvalidToken));
    assert_eq!(auth_store_step(Some(true)), Ok(()));
    // a revalidated token ends up cached and authorized
    let user = DiscordUser {
        id: 7,
        username: "ada".to_string(),
        discriminator: "0007".to_string(),
        avatar: None,
    };
    let authorized =
        auth_revalidate_finish(&mut sessions, "t".to_string(), user, HashMap::new(), 99_000);
    assert_eq!(authorized.token, "t");
    match auth_cached_step(&mut sessions, Some("t".to_string())) {
        CachedAuthStep::Authorized(u) => assert_eq!(u.token, "t"),
        other => panic!("unexpected step: {:?}", other),
    }
}
