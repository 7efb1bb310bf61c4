use cosmic_scribe::traits::usable_credential;
use cosmic_scribe::crypto::{decrypt_bytes, derive_key, encrypt_bytes, looks_encrypted, KeyringError};
use cosmic_scribe::keyring::{
    api_key_file_bytes, api_key_from_file, bearer_before_key_file, correction_key_from_file,
    has_any_speech_credentials, key_path, language_choice, machine_id_bytes, output_mode_from_file,
    parse_history_time_mode, parse_output_mode, parse_stt_endpoint, stt_endpoint_choice, KeyFileError,
    correction_model_choice, history_time_mode_from_file, trimmed,
};

#[test]
fn encrypted_key_round_trip() {
    let mid = machine_id_bytes(Some("0123456789abcdef\n"));
    assert_eq!(mid, b"0123456789abcdef".to_vec());
    let data = encrypt_bytes(&mid, b"xai-secret").unwrap();
    assert_eq!(data.len(), 10 + 28);
    assert!(looks_encrypted(&data));
    assert_eq!(decrypt_bytes(&mid, &data).unwrap(), b"xai-secret".to_vec());
    let other = machine_id_bytes(Some("another-machine"));
    assert_eq!(decrypt_bytes(&other, &data), Err(KeyringError::DecryptionFailed));
    assert_eq!(decrypt_bytes(&mid, &data[..12]), Err(KeyringError::TooShort));
    assert_eq!(encrypt_bytes(&[], b"x"), Err(KeyringError::NoMachineId));
    let k1 = derive_key(&mid).unwrap();
    let k2 = derive_key(&other).unwrap();
    assert_eq!(k1.len(), 32);
    assert_ne!(k1, k2);
    let e2 = encrypt_bytes(&mid, b"xai-secret").unwrap();
    assert_ne!(data[..12], e2[..12]);
}

#[test]
fn key_file_contents() {
    let mid = machine_id_bytes(Some("machine"));
    let file = api_key_file_bytes(&mid, "  sk-abc \n").unwrap();
    assert_eq!(api_key_from_file(&mid, &file).unwrap(), "sk-abc");
    assert_eq!(api_key_from_file(&mid, b"  legacy-key\n").unwrap(), "legacy-key");
    assert_eq!(api_key_from_file(&mid, &[0xff, 0xfe]), Err(KeyFileError::PlainNotUtf8));
    assert_eq!(correction_key_from_file(&mid, b" k "), "k");
    assert_eq!(key_path("/d"), "/d/api-key");
}

#[test]
fn settings_values() {
    assert_eq!(language_choice(Some("fr"), Some("de")), "fr");
    assert_eq!(language_choice(Some(""), Some(" de ")), "de");
    assert_eq!(language_choice(None, None), "en");
    assert_eq!(output_mode_from_file(Some("always")).0, "wtype");
    assert_eq!(output_mode_from_file(Some("clipboard")), ("clipboard".to_string(), false));
    assert!(parse_output_mode("auto").unwrap_err().contains("wtype"));
    assert_eq!(parse_output_mode(" clipboard ").unwrap(), "clipboard");
    assert!(parse_history_time_mode("absolute").is_ok());
    assert!(parse_history_time_mode("sometimes").is_err());
    assert_eq!(parse_stt_endpoint("").unwrap(), None);
    assert!(parse_stt_endpoint("ftp://x").is_err());
    assert_eq!(stt_endpoint_choice(None, None), "https://api.x.ai/v1/stt");
    assert!(has_any_speech_credentials(None, None, true, false));
    assert!(!has_any_speech_credentials(Some(""), None, false, false));
    assert_eq!(bearer_before_key_file(Some(""), Some("x"), Some("t")).as_deref(), Some("x"));
    assert_eq!(bearer_before_key_file(None, None, Some("t")).as_deref(), Some("t"));
    assert_eq!(bearer_before_key_file(None, None, Some("")), None);
}

#[test]
fn saved_settings_read_back_as_written() {
    let lang = trimmed("  de \n");
    assert_eq!(language_choice(None, Some(&lang)), "de");
    let mode = parse_output_mode(" wtype ").unwrap();
    assert_eq!(output_mode_from_file(Some(&mode)), ("wtype".to_string(), false));
    let time = parse_history_time_mode("absolute ").unwrap();
    assert_eq!(history_time_mode_from_file(Some(&time)), "absolute");
    let url = parse_stt_endpoint(" https://stt.example/v1/stt ").unwrap().unwrap();
    assert_eq!(stt_endpoint_choice(None, Some(&url)), "https://stt.example/v1/stt");
    assert_eq!(parse_stt_endpoint("https://api.x.ai/v1/stt").unwrap(), None);
    let model = trimmed(" openai/gpt-4o-mini ");
    assert_eq!(correction_model_choice(Some(&model)), "openai/gpt-4o-mini");
}

#[test]
fn credential_lookup_counts_only_nonempty_keys() {
    assert!(usable_credential(&Ok("xai-1".to_string())));
    assert!(!usable_credential(&Ok(String::new())));
    assert!(!usable_credential(&Err("no key".to_string())));
}
