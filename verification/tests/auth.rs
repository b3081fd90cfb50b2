use duocb::auth::{
    key_fingerprint, unix_now, verify_auth_signature, Identity, IdentityCard, PublicKey,
    CARD_TTL_SECS, CLOCK_SKEW_GRACE_SECS, FINGERPRINT_BYTES, IDENTITY_CARD_KIND,
};
use nostr_sdk::{EventBuilder, JsonUtil, Keys, Kind, Tag, Timestamp};

#[test]
fn identity_nsec_round_trip_and_card_verifies() {
    let identity = Identity::generate();
    let restored = Identity::parse_nsec(&identity.to_nsec()).ok().unwrap();
    assert_eq!(identity.public_key(), restored.public_key());
    assert_eq!(identity.to_npub(), restored.to_npub());

    let card = identity.card("mac-book", "a7B2c3D4").unwrap();
    let parsed = IdentityCard::parse(&card.encode()).unwrap();
    assert_eq!(parsed.name(), "mac-book_a7B2c3D4");
    assert_eq!(parsed.short_name(), "mac-book");
    assert_eq!(parsed.suffix(), "a7B2c3D4");
    assert_eq!(parsed.public_key(), identity.public_key());
    assert_eq!(parsed.expires_at(), parsed.created_at() + CARD_TTL_SECS);
    assert!(!parsed.is_expired());
}

#[test]
fn fingerprint_is_key_bound_and_survives_a_card_renewal() {
    let identity = Identity::generate();
    let early = identity.card_issued_at("mac-book", "a7B2c3D4", 1_700_000_000).unwrap();
    let renewed = identity
        .card_issued_at("mac-book", "a7B2c3D4", 1_700_000_000 + CARD_TTL_SECS)
        .unwrap();
    assert_ne!(early.encode(), renewed.encode(), "a renewal is a new card");
    assert_eq!(early.fingerprint(), renewed.fingerprint());
    assert_eq!(early.fingerprint(), key_fingerprint(&identity.public_key()));

    let renamed = identity.card("desktop", "a7B2c3D4").unwrap();
    assert_eq!(renamed.fingerprint(), early.fingerprint());

    let other = Identity::generate();
    assert_ne!(key_fingerprint(&identity.public_key()), key_fingerprint(&other.public_key()));
}

#[test]
fn fingerprint_is_grouped_uppercase_hex_of_a_fixed_width() {
    let fp = key_fingerprint(&Identity::generate().public_key());
    let groups: Vec<&str> = fp.split(' ').collect();
    assert_eq!(groups.len(), FINGERPRINT_BYTES / 2);
    assert!(groups.iter().all(|g| g.len() == 4));
    assert!(
        fp.chars().all(|c| c == ' ' || c.is_ascii_digit() || c.is_ascii_uppercase()),
        "unexpected characters in {fp}"
    );
    assert!(fp.chars().filter(|c| *c != ' ').all(|c| c.is_ascii_hexdigit()));
    assert_eq!(FINGERPRINT_BYTES * 8, 80);
}

#[test]
fn card_validity_is_bounded_by_its_expiry() {
    let issued_at = 1_700_000_000;
    let card = Identity::generate().card_issued_at("desktop", "a7B2c3D4", issued_at).unwrap();
    let expires_at = issued_at + CARD_TTL_SECS;
    assert_eq!(card.expires_at(), expires_at);

    assert!(card.is_valid_at(issued_at));
    assert!(card.is_valid_at(expires_at - 1));
    assert!(!card.is_valid_at(expires_at));
    assert_eq!(card.remaining_secs_at(expires_at - 90), 90);
    assert_eq!(card.remaining_secs_at(expires_at), 0);
}

#[test]
fn expired_cards_still_parse_but_are_not_valid() {
    let issued_at = 1_700_000_000;
    let card = Identity::generate().card_issued_at("laptop", "a7B2c3D4", issued_at).unwrap();
    let parsed = IdentityCard::parse(&card.encode()).unwrap();
    assert_eq!(parsed.name(), "laptop_a7B2c3D4");
    assert!(!parsed.is_valid_at(issued_at + CARD_TTL_SECS + 1));
}

#[test]
fn future_dated_cards_are_not_valid() {
    let now = 1_700_000_000;
    let card = Identity::generate()
        .card_issued_at("desktop", "a7B2c3D4", now + 10 * CARD_TTL_SECS)
        .unwrap();
    assert!(IdentityCard::parse(&card.encode()).is_ok());
    assert!(!card.is_valid_at(now));
    assert!(card.is_valid_at(now + 10 * CARD_TTL_SECS));
}

#[test]
fn a_card_from_a_clock_slightly_ahead_is_valid() {
    let now = 1_700_000_000;
    let card = Identity::generate()
        .card_issued_at("desktop", "a7B2c3D4", now + CLOCK_SKEW_GRACE_SECS)
        .unwrap();
    assert!(card.is_valid_at(now));
    assert!(!card.is_valid_at(now - 1));
}

fn mint(keys: &Keys, content: &str, tag: &str, kind: u16, tag_expires_at: u64) -> String {
    EventBuilder::new(Kind::from_u16(kind), content)
        .tags([
            Tag::identifier(tag),
            Tag::expiration(Timestamp::from_secs(tag_expires_at)),
        ])
        .custom_created_at(Timestamp::from_secs(1_700_000_000))
        .sign_with_keys(keys)
        .unwrap()
        .as_json()
}

fn payload(version: u32, name: &str, expires_at: u64) -> String {
    format!("{{\"version\":{version},\"name\":\"{name}\",\"expires_at\":{expires_at}}}")
}

#[test]
fn cards_with_dishonest_expiry_are_rejected() {
    let keys = Keys::generate();
    let issued_at: u64 = 1_700_000_000;
    let mint = |expires_at: u64, tag_expires_at: u64| {
        mint(
            &keys,
            &payload(3, "desktop_a7B2c3D4", expires_at),
            "duocb:identity-card:v3",
            IDENTITY_CARD_KIND,
            tag_expires_at,
        )
    };

    let honest = issued_at + CARD_TTL_SECS;
    assert!(IdentityCard::parse(&mint(honest, honest)).is_ok());
    assert!(IdentityCard::parse(&mint(honest + 1, honest + 1)).is_err());
    assert!(IdentityCard::parse(&mint(issued_at, issued_at)).is_err());
    assert!(IdentityCard::parse(&mint(honest, honest - 60)).is_err());
}

#[test]
fn every_rejection_of_a_card_names_its_reason() {
    let keys = Keys::generate();
    let honest = 1_700_000_000 + CARD_TTL_SECS;
    let tag = "duocb:identity-card:v3";
    let good = payload(3, "desktop_a7B2c3D4", honest);
    let reason = |text: &str| IdentityCard::parse(text).err().unwrap();

    assert_eq!(reason("{"), "identity card is not valid JSON");
    assert_eq!(reason(&"x".repeat(2049)), "identity card exceeds 2048 bytes");
    assert_eq!(
        reason(&mint(&keys, &good, tag, IDENTITY_CARD_KIND + 1, honest)),
        "identity card has the wrong event kind"
    );
    assert_eq!(
        reason(&mint(&keys, &good, "other", IDENTITY_CARD_KIND, honest)),
        "identity card has the wrong identifier"
    );
    assert_eq!(
        reason(&mint(&keys, "{}", tag, IDENTITY_CARD_KIND, honest)),
        "identity card payload is invalid"
    );
    let extra = good.replace('}', ",\"more\":1}");
    assert_eq!(
        reason(&mint(&keys, &extra, tag, IDENTITY_CARD_KIND, honest)),
        "identity card payload is invalid"
    );
    assert_eq!(
        reason(&mint(&keys, &payload(4, "desktop_a7B2c3D4", honest), tag, IDENTITY_CARD_KIND, honest)),
        "identity card version 4 is unsupported"
    );
    assert!(IdentityCard::parse(&mint(
        &keys,
        &payload(3, "desktop", honest),
        tag,
        IDENTITY_CARD_KIND,
        honest
    ))
    .is_err());
    assert!(IdentityCard::parse(&mint(&keys, &good, tag, IDENTITY_CARD_KIND, honest)).is_ok());
}

#[test]
fn extending_a_card_expiry_breaks_its_signature() {
    let card = Identity::generate()
        .card_issued_at("desktop", "a7B2c3D4", 1_700_000_000)
        .unwrap();
    let stretched = card.encode().replace(
        &(1_700_000_000u64 + CARD_TTL_SECS).to_string(),
        &(1_700_000_000u64 + 10 * CARD_TTL_SECS).to_string(),
    );
    assert!(IdentityCard::parse(&stretched).is_err());
}

#[test]
fn card_tampering_is_rejected() {
    let card = Identity::generate().card("desktop", "a7B2c3D4").unwrap().encode();
    assert!(IdentityCard::parse(&card.replace("desktop", "laptop")).is_err());
    assert_eq!(
        IdentityCard::parse(&card.replace("desktop", "laptop")).err().unwrap(),
        "identity card signature is invalid"
    );
}

#[test]
fn authentication_signatures_are_identity_bound() {
    let a = Identity::generate();
    let b = Identity::generate();
    let transcript = b"client|server|nonce-a|nonce-b";
    let signature = a.sign_auth(transcript);
    verify_auth_signature(a.public_key(), transcript, &signature).unwrap();
    assert!(verify_auth_signature(b.public_key(), transcript, &signature).is_err());
    assert!(verify_auth_signature(a.public_key(), b"other", &signature).is_err());
}

#[test]
fn signature_errors_are_told_apart() {
    let a = Identity::generate();
    let signature = a.sign_auth(b"x");
    assert_eq!(
        verify_auth_signature(a.public_key(), b"x", "nonsense").unwrap_err(),
        "authentication proof is not a Schnorr signature"
    );
    assert_eq!(
        verify_auth_signature(PublicKey { bytes: [0xff; 32] }, b"x", &signature).unwrap_err(),
        "authentication public key is invalid"
    );
    assert_eq!(
        verify_auth_signature(a.public_key(), b"y", &signature).unwrap_err(),
        "authentication proof did not verify"
    );
}

#[test]
fn private_keys_are_read_from_nsec_alone() {
    let identity = Identity::generate();
    let spaced = format!(" {}\n", identity.to_nsec());
    assert_eq!(
        Identity::parse_nsec(&spaced).ok().unwrap().public_key(),
        identity.public_key()
    );
    assert_eq!(
        Identity::parse_nsec(&"11".repeat(32)).err().unwrap(),
        "identity private key must be an nsec"
    );
    assert_eq!(Identity::parse_nsec("nsec1qqqq").err().unwrap(), "invalid identity private key");
    assert!(Identity::from_secret(&[0; 32]).is_none());
}

#[test]
fn known_key_has_its_known_texts() {
    let mut secret = [0u8; 32];
    secret[31] = 1;
    let identity = Identity::from_secret(&secret).unwrap();
    let key = identity.public_key();
    assert_eq!(
        key.to_hex(),
        "79be667ef9dcbbac55a06295ce870b07029bfcdb2dce28d959f2815b16f81798"
    );
    assert_eq!(PublicKey::parse(&key.to_hex()), Some(key));
    assert_eq!(PublicKey::parse(&key.to_npub()), Some(key));
    assert!(key.to_npub().starts_with("npub1"));
    assert!(identity.to_nsec().starts_with("nsec1"));
    assert_eq!(PublicKey::parse("npub1nothing"), None);
}

#[test]
fn the_clock_is_past_the_epoch() {
    assert!(unix_now() > 1_700_000_000);
}

#[test]
fn every_valid_name_is_minted() {
    let identity = Identity::generate();
    for name in ["a", "abcdefghijklmnopqrstuvwx", "-"] {
        for issued_at in [0, 1, u64::MAX - CARD_TTL_SECS] {
            let card = identity.card_issued_at(name, "a7B2c3D4", issued_at).unwrap();
            assert_eq!(card.name(), format!("{name}_a7B2c3D4"));
            assert_eq!(card.expires_at(), issued_at + CARD_TTL_SECS);
            let read = IdentityCard::parse(&card.encode()).ok().unwrap();
            assert_eq!(read.encode(), card.encode());
        }
    }
    assert!(identity.card_issued_at("a", "a7B2c3D", 0).is_err());
    assert!(identity.card_issued_at("a_b", "a7B2c3D4", 0).is_err());
}
