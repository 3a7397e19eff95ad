use base64::Engine;
use sculptor::admin::CMotd;
use sculptor::hex_decode;
use sculptor::hex_encode;
use sculptor::motd::{build_motd, Motd};
use sculptor::profile::{avatar_hash, format_uuid};
use sculptor::text::{dec_string, dec_string_pad2, hex_string};
use sculptor::users::{AuthProvider, AuthSystem, Userinfo};

const UUID_A: u128 = 0x11111111_1111_1111_1111_111111111111;

#[test]
fn decimal_strings_are_exact() {
    assert_eq!(dec_string(0), "0");
    assert_eq!(dec_string(7), "7");
    assert_eq!(dec_string(10), "10");
    assert_eq!(dec_string(252645133), "252645133");
    assert_eq!(dec_string(u64::MAX), "18446744073709551615");
    assert_eq!(dec_string_pad2(3), "03");
    assert_eq!(dec_string_pad2(59), "59");
    assert_eq!(dec_string_pad2(100), "100");
}

#[test]
fn hex_encoding_matches_the_reference() {
    let data = vec![0x00, 0x0f, 0xa5, 0xff];
    assert_eq!(hex_string(&data), hex::encode(&data));
    assert_eq!(hex_encode(&data), hex::encode(&data).into_bytes());
}

#[test]
fn hex_decoding_matches_the_reference() {
    assert_eq!(hex_decode(b"01aa").unwrap(), hex::decode("01aa").unwrap());
    assert_eq!(hex_decode(b"01AA").unwrap(), hex::decode("01AA").unwrap());
    assert_eq!(hex_decode(b"").unwrap(), Vec::<u8>::new());
    assert!(hex_decode(b"0").is_err());
    assert!(hex_decode(b"zz").is_err());
    assert!(hex::decode("zz").is_err());
}

#[test]
fn hex_decode_inverts_hex_encode() {
    let data: Vec<u8> = (0u8..=255).collect();
    let encoded = hex_encode(&data);
    assert_eq!(hex_decode(&encoded).unwrap(), data);
}

#[test]
fn avatar_hash_of_empty_content_is_the_empty_digest() {
    // base64("") is "", and this is the well-known SHA-256 of the empty string.
    assert_eq!(
        avatar_hash(&[]),
        "e3b0c44298fc1c149afbf4c8996fb92427ae41e4649b934ca495991b7852b855"
    );
}

#[test]
fn avatar_hash_matches_the_reference_chain() {
    let content = b"moon file bytes";
    let b64 = base64::engine::general_purpose::STANDARD.encode(content);
    let digest = ring::digest::digest(&ring::digest::SHA256, b64.as_bytes());
    let expected = hex::encode(digest.as_ref());
    assert_eq!(avatar_hash(content), expected);
}

#[test]
fn format_uuid_matches_the_reference() {
    assert_eq!(
        format_uuid(UUID_A),
        uuid::Uuid::from_u128(UUID_A).as_hyphenated().to_string()
    );
    assert_eq!(format_uuid(0), "00000000-0000-0000-0000-000000000000");
    let mixed: u128 = 0x0123456789abcdef_0123456789abcdef;
    assert_eq!(
        format_uuid(mixed),
        uuid::Uuid::from_u128(mixed).as_hyphenated().to_string()
    );
}

fn motd_settings(display: bool, indent: bool) -> CMotd {
    CMotd {
        display_server_info: display,
        custom_text: "[]".to_string(),
        text_uptime: "Uptime: ".to_string(),
        text_authclients: "Clients: ".to_string(),
        draw_indent: indent,
    }
}

fn custom_line(text: &str) -> Motd {
    Motd { text: text.to_string(), color: None, click_event: None, underlined: None }
}

#[test]
fn motd_without_server_info_is_the_custom_text() {
    let lines = build_motd(&motd_settings(false, true), 3723, 2, vec![custom_line("hi")]);
    assert_eq!(lines.len(), 1);
    assert_eq!(lines[0].text, "hi");
}

#[test]
fn motd_with_server_info_shows_the_clock_and_count() {
    let lines = build_motd(&motd_settings(true, true), 3723, 2, vec![custom_line("hi")]);
    assert_eq!(lines.len(), 4);
    assert_eq!(lines[0].text, "Uptime: 01:02:03\n");
    assert_eq!(lines[1].text, "Clients: 2\n");
    assert_eq!(lines[2].text, "----\n\n");
    assert_eq!(lines[2].color.as_deref(), Some("gold"));
    assert_eq!(lines[3].text, "hi");
}

#[test]
fn motd_indent_is_optional() {
    let lines = build_motd(&motd_settings(true, false), 59, 0, Vec::new());
    assert_eq!(lines.len(), 2);
    assert_eq!(lines[0].text, "Uptime: 00:00:59\n");
    assert_eq!(lines[1].text, "Clients: 0\n");
}

#[test]
fn provider_defaults_are_the_two_known_validators() {
    let providers = sculptor::users::default_authproviders();
    assert_eq!(providers.0.len(), 2);
    assert_eq!(providers.0[0].name, "Mojang");
    assert_eq!(
        providers.0[0].url,
        "https://sessionserver.mojang.com/session/minecraft/hasJoined"
    );
    assert_eq!(providers.0[1].name, "ElyBy");
    assert_eq!(providers.0[1].url, "http://minecraft.ely.by/session/hasJoined");
}

#[test]
fn placeholder_provider_is_empty() {
    assert!(AuthProvider::default().is_empty());
    let real = AuthProvider { name: "Mojang".to_string(), url: String::new() };
    assert!(!real.is_empty());
}

#[test]
fn auth_system_urls_and_names() {
    assert_eq!(
        AuthSystem::ElyBy.get_url(),
        "http://minecraft.ely.by/session/hasJoined"
    );
    assert_eq!(
        AuthSystem::Mojang.get_url(),
        "https://sessionserver.mojang.com/session/minecraft/hasJoined"
    );
    assert_eq!(AuthSystem::Internal.name_string(), "internal");
    assert_eq!(AuthSystem::ElyBy.name_string(), "elyby");
    assert_eq!(AuthSystem::Mojang.name_string(), "mojang");
}

#[test]
fn default_profile_fields() {
    let info = Userinfo::default();
    assert_eq!(info.uuid, 0);
    assert_eq!(info.nickname, "");
    assert_eq!(info.rank, "default");
    assert_eq!(info.version, "0.1.4+1.20.1");
    assert_eq!(info.auth_provider.name, "Unknown");
    assert!(info.token.is_none());
    assert!(!info.banned);
    // The creation timestamp comes from the clock: only its shape is checked.
    assert!(info.last_used.contains('T'));
}
