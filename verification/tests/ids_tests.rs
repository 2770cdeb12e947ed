use codexmanager_service::ids::{
    canonical_uuid, existing_installation_id, format_rpc_token, format_uuid_v4,
    generate_rpc_token_hex_32bytes, random_uuid_v4, resolve_installation_id_from_locked_file,
    InstallationIdChoice,
};
use codexmanager_service::paths::read_rpc_token_from_file;

#[test]
fn canonical_uuid_accepts_and_lowercases() {
    assert_eq!(
        canonical_uuid("123E4567-E89B-12D3-A456-426614174000"),
        Some("123e4567-e89b-12d3-a456-426614174000".to_string())
    );
    assert_eq!(canonical_uuid("123e4567e89b12d3a456426614174000"), None);
    assert_eq!(canonical_uuid("123e4567-e89b-12d3-a456-42661417400g"), None);
    assert_eq!(canonical_uuid("123e4567-e89b-12d3-a456-4266141740000"), None);
    assert_eq!(canonical_uuid("123e4567+e89b-12d3-a456-426614174000"), None);
    assert_eq!(canonical_uuid(""), None);
}

#[test]
fn stored_installation_id_is_trimmed_first() {
    assert_eq!(
        existing_installation_id("  123e4567-e89b-12d3-a456-426614174000\n"),
        Some("123e4567-e89b-12d3-a456-426614174000".to_string())
    );
    assert_eq!(existing_installation_id("garbage"), None);
}

#[test]
fn uuid_v4_text_sets_version_and_variant() {
    assert_eq!(format_uuid_v4([0u8; 16]), "00000000-0000-4000-8000-000000000000");
    assert_eq!(format_uuid_v4([0xffu8; 16]), "ffffffff-ffff-4fff-bfff-ffffffffffff");
    let bytes: [u8; 16] = [
        0x12, 0x34, 0x56, 0x78, 0x9a, 0xbc, 0xde, 0xf0, 0x12, 0x34, 0x56, 0x78, 0x9a, 0xbc, 0xde,
        0xf0,
    ];
    assert_eq!(format_uuid_v4(bytes), "12345678-9abc-4ef0-9234-56789abcdef0");
}

#[test]
fn rpc_token_is_lower_hex() {
    let mut bytes = [0u8; 32];
    for (i, b) in bytes.iter_mut().enumerate() {
        *b = i as u8 * 8;
    }
    let token = format_rpc_token(bytes);
    assert_eq!(token.len(), 64);
    assert!(token.starts_with("0008101820"));
    assert!(token.ends_with("f8"));
}

#[test]
fn random_ids_have_their_shapes() {
    let id = random_uuid_v4().unwrap();
    assert_eq!(id.len(), 36);
    assert_eq!(&id[14..15], "4");
    assert!(matches!(&id[19..20], "8" | "9" | "a" | "b"));
    let token = generate_rpc_token_hex_32bytes().unwrap();
    assert_eq!(token.len(), 64);
    assert!(token.chars().all(|c| c.is_ascii_hexdigit() && !c.is_ascii_uppercase()));
    assert_ne!(random_uuid_v4().unwrap(), random_uuid_v4().unwrap());
}

#[test]
fn installation_id_round_trip_on_fresh_id() {
    let id = random_uuid_v4().unwrap();
    assert_eq!(existing_installation_id(&format!("{id}\n")), Some(id));
}

#[test]
fn rpc_token_round_trip_on_fresh_token() {
    let token = generate_rpc_token_hex_32bytes().unwrap();
    assert_eq!(read_rpc_token_from_file(&format!("{token}\n")), Some(token));
}

#[test]
fn installation_id_is_kept_or_written_once() {
    match resolve_installation_id_from_locked_file(" 123E4567-E89B-12D3-A456-426614174000\n") {
        Some(InstallationIdChoice::Keep(id)) => assert_eq!(id, "123e4567-e89b-12d3-a456-426614174000"),
        _ => panic!("a stored id is kept"),
    }
    let written = match resolve_installation_id_from_locked_file("") {
        Some(InstallationIdChoice::Write(id)) => id,
        _ => panic!("an empty file gets a fresh id"),
    };
    match resolve_installation_id_from_locked_file(&written) {
        Some(InstallationIdChoice::Keep(id)) => assert_eq!(id, written),
        _ => panic!("a written id is kept on the next call"),
    }
}
