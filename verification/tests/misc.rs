use std::collections::HashSet;
use std::time::{SystemTime, UNIX_EPOCH};

use notemaker::ids::{generate_entry_id, hex_string};
use notemaker::kinds::language_to_extension;
use notemaker::process::{get_default_interpreter, ProcessManager};
use notemaker::session::{
    armor_encrypt, dearmor_decrypt, is_encrypted, EncryptionError, EncryptionMethod,
    EncryptionSession,
};
use notemaker::settings::{
    default_auto_format, default_branch, default_card_density, default_font_family,
    default_font_size, default_indent, default_remote, default_tree_expanded, default_true,
};
use notemaker::types::{FsError, NotebookIndex};

#[test]
fn id_formatting_is_exact() {
    assert_eq!(generate_entry_id(255, 0, 0), "ff0000");
    assert_eq!(generate_entry_id(1, 0x12345, 0), "12345");
    assert_eq!(generate_entry_id(0, 0xABCD, 0), "0abcd");
    assert_eq!(generate_entry_id(0x1a2b3c, 0xFFFF, 0xFFFF), "1a2b3c0000");
    assert_eq!(hex_string(0), "0");
    assert_eq!(hex_string(0xdeadbeef), "deadbeef");
}

#[test]
fn id_salt_masks_to_sixteen_bits() {
    assert_eq!(generate_entry_id(16, 0x12_0001, 0), "100001");
}

#[test]
fn ten_thousand_ids_unique_across_distinct_inputs() {
    // Ids generated in a tight loop are unique exactly as far as their clock
    // inputs are: the formatting never conflates two distinct
    // (millisecond, salt) readings.
    let pid = 0x5e41;
    let mut inputs: HashSet<(u64, u32)> = HashSet::new();
    let mut ids: HashSet<String> = HashSet::new();
    for _ in 0..10_000 {
        let d = SystemTime::now().duration_since(UNIX_EPOCH).unwrap_or_default();
        let millis = d.as_millis() as u64;
        let nanos = d.subsec_nanos();
        inputs.insert((millis, (nanos ^ pid) & 0xFFFF));
        ids.insert(generate_entry_id(millis, nanos, pid));
    }
    assert_eq!(ids.len(), inputs.len());
}

#[test]
fn language_extension_table() {
    assert_eq!(language_to_extension("python"), "py");
    assert_eq!(language_to_extension("javascript"), "js");
    assert_eq!(language_to_extension("typescript"), "ts");
    assert_eq!(language_to_extension("rust"), "rs");
    assert_eq!(language_to_extension("sql"), "sql");
    assert_eq!(language_to_extension("bash"), "sh");
    assert_eq!(language_to_extension("shell"), "sh");
    assert_eq!(language_to_extension("sh"), "sh");
    assert_eq!(language_to_extension("markdown"), "md");
    assert_eq!(language_to_extension("md"), "md");
    assert_eq!(language_to_extension("cobol"), "txt");
    assert_eq!(language_to_extension(""), "txt");
}

#[test]
fn default_interpreters() {
    assert_eq!(get_default_interpreter("shell"), "bash");
    assert_eq!(get_default_interpreter("python"), "python3");
    assert_eq!(get_default_interpreter("ruby"), "ruby");
    assert_eq!(get_default_interpreter("lua"), "sh");
}

#[test]
fn test_is_encrypted() {
    let encrypted =
        "-----BEGIN AGE ENCRYPTED FILE-----\nbase64data\n-----END AGE ENCRYPTED FILE-----";
    let plain = "# Hello World\nThis is plain text";

    assert!(is_encrypted(encrypted));
    assert!(!is_encrypted(plain));
}

#[test]
fn test_session_lifecycle() {
    let mut session = EncryptionSession::new();

    assert!(!session.is_unlocked());

    session.set_password("test".to_string());
    assert!(session.is_unlocked());

    session.lock();
    assert!(!session.is_unlocked());
}

#[test]
fn test_armor_roundtrip() {
    let data = vec![1, 2, 3, 4, 5, 6, 7, 8, 9, 10];
    let armored = armor_encrypt(&data);
    let dearmored = dearmor_decrypt(&armored).unwrap();

    assert_eq!(data, dearmored);
}

#[test]
fn armor_output_is_marked_and_detected() {
    let data = vec![42u8; 100];
    let armored = armor_encrypt(&data);
    assert!(armored.starts_with("-----BEGIN AGE ENCRYPTED FILE-----\n"));
    assert!(armored.ends_with("\n-----END AGE ENCRYPTED FILE-----"));
    assert!(is_encrypted(&armored));
    for line in armored.lines() {
        assert!(line.len() <= 64 || line.starts_with("-----"));
    }
}

#[test]
fn armor_encodes_exact_base64() {
    let armored = armor_encrypt(b"hello");
    assert_eq!(
        armored,
        "-----BEGIN AGE ENCRYPTED FILE-----\naGVsbG8=\n-----END AGE ENCRYPTED FILE-----"
    );
    let bytes = dearmor_decrypt(
        "-----BEGIN AGE ENCRYPTED FILE-----\naGVsbG8=\n-----END AGE ENCRYPTED FILE-----",
    )
    .unwrap();
    assert_eq!(bytes, b"hello");
}

#[test]
fn dearmor_rejects_plain_text() {
    assert!(matches!(
        dearmor_decrypt("just some text"),
        Err(EncryptionError::DecryptionFailed(_))
    ));
}

#[test]
fn dearmor_rejects_bad_base64() {
    let bad = "-----BEGIN AGE ENCRYPTED FILE-----\n!!!not base64!!!\n-----END AGE ENCRYPTED FILE-----";
    assert!(matches!(
        dearmor_decrypt(bad),
        Err(EncryptionError::DecryptionFailed(_))
    ));
}

#[test]
fn session_methods_and_keys() {
    let mut session = EncryptionSession::new();
    assert_eq!(session.get_method(), None);

    session.set_identity_file("/keys/id.txt".to_string());
    assert_eq!(
        session.get_method(),
        Some(EncryptionMethod::IdentityFile("/keys/id.txt".to_string()))
    );

    session.set_public_keys(vec!["age1abc".to_string()]);
    assert_eq!(session.get_public_keys(), vec!["age1abc".to_string()]);

    session.set_recipient_identities(vec!["/keys/a".to_string()]);
    session.add_recipient_identity("/keys/b".to_string());
    session.add_recipient_identity("/keys/a".to_string());
    assert_eq!(
        session.get_method(),
        Some(EncryptionMethod::Recipients(vec![
            "/keys/a".to_string(),
            "/keys/b".to_string()
        ]))
    );

    session.lock();
    assert_eq!(session.get_method(), None);
    assert!(session.get_public_keys().is_empty());
}

#[test]
fn add_recipient_identity_switches_mode() {
    let mut session = EncryptionSession::new();
    session.set_password("pw".to_string());
    session.add_recipient_identity("/keys/a".to_string());
    assert_eq!(
        session.get_method(),
        Some(EncryptionMethod::Recipients(vec!["/keys/a".to_string()]))
    );
}

#[test]
fn process_manager_tracks_and_kills() {
    let mut pm = ProcessManager::new();
    assert_eq!(pm.track("b1".to_string(), 100), None);
    assert_eq!(pm.track("b2".to_string(), 200), None);
    assert_eq!(pm.track("b1".to_string(), 300), Some(100));
    assert_eq!(pm.kill("b1"), Some(300));
    assert_eq!(pm.kill("b1"), None);
    pm.untrack("b2");
    assert_eq!(pm.kill("b2"), None);
}

#[test]
fn settings_default_values() {
    assert_eq!(default_tree_expanded(), "remember");
    assert_eq!(default_font_family(), "JetBrains Mono");
    assert_eq!(default_font_size(), 14);
    assert!(default_true());
    assert_eq!(default_remote(), "origin");
    assert_eq!(default_branch(), "main");
    assert_eq!(default_auto_format(), "ask");
    assert_eq!(default_indent(), 2);
    assert_eq!(default_card_density(), "standard");
}

#[test]
fn notebook_index_default_is_empty_v1() {
    let index = NotebookIndex::default();
    assert_eq!(index.version, 1);
    assert!(index.blocks.is_empty());
}

#[test]
fn error_labels() {
    assert_eq!(
        FsError::NotFound("/x".to_string()).label(),
        "Path not found: /x"
    );
    assert_eq!(
        FsError::InvalidPath("bad".to_string()).label(),
        "Invalid path: bad"
    );
    assert_eq!(FsError::PathTraversal.label(), "Path traversal detected");
}
