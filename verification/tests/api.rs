use cosmic_scribe::api::{
    chat_reply_text, config_update_from_json, correct_body_from_json, correction_request, edit_body_from_json,
    save_config_from_json, ChatReply,
};
use cosmic_scribe::api::{
    clear_stored_api_key, duration_label_for_recording, encode_pcm_to_wav, get_config,
    has_stored_api_key, history_entry, recording_path, recording_ts, save_config, ts_to_human,
    validate_recording_id, ApiError, ConfigStep, ConfigUpdate, ConfigWrite, SettingsSources,
};

fn rejection(steps: &[ConfigStep]) -> Option<&ApiError> {
    steps.iter().find_map(|s| match s {
        ConfigStep::Reject(e) => Some(e),
        _ => None,
    })
}

#[test]
fn test_validate_recording_id_rejects_path_escape() {
    assert!(validate_recording_id("../etc/passwd").is_err());
    assert!(validate_recording_id("/tmp/x").is_err());
    assert!(validate_recording_id("a/b").is_err());
    assert!(validate_recording_id("").is_err());
    assert!(validate_recording_id("2026-06-01_15-13-17_25414ms").is_ok());
}

#[test]
fn test_save_config_accepts_wtype() {
    let update = ConfigUpdate {
        lang: Some("en".into()),
        output_mode: Some("wtype".into()),
        correction_model: Some("deepseek/deepseek-chat-v4".into()),
        ..Default::default()
    };
    let steps = save_config(&update);
    assert!(rejection(&steps).is_none());
    assert!(steps.iter().any(|s| matches!(s, ConfigStep::Write(ConfigWrite::OutputMode(m)) if m == "wtype")));
}

#[test]
fn test_save_config_rejects_invalid_output_mode() {
    let update = ConfigUpdate { output_mode: Some("auto".into()), ..Default::default() };
    let steps = save_config(&update);
    let err = rejection(&steps).expect("rejected");
    assert!(matches!(err, ApiError::BadRequest(_)));
    assert!(err.message().contains("wtype"));
}

#[test]
fn recording_timestamps_and_paths() {
    assert_eq!(ts_to_human(&["2026-06-01", "15-13-17", "25414ms"]), "2026-06-01 15:13:17");
    assert_eq!(ts_to_human(&["solo"]), "solo");
    assert_eq!(recording_ts("2026-06-01_15-13-17_25414ms"), "2026-06-01 15:13:17");
    assert_eq!(
        recording_path("/data/rec", "2026-06-01_15-13-17_25414ms", "raw").unwrap(),
        "/data/rec/2026-06-01_15-13-17_25414ms.raw"
    );
    assert!(recording_path("/data/rec", "../x", "raw").is_err());
    assert_eq!(duration_label_for_recording("2026-06-01_15-13-17_25414ms", Some(32000)), "1s");
    assert_eq!(duration_label_for_recording("2026-06-01_15-13-17_25414ms", None), "25s");
}

#[test]
fn history_entry_from_disk_values() {
    let e = history_entry("2026-06-01_15-13-17_25414ms", Some(32000), Some("test transcript".into()), vec![], false);
    assert_eq!(e.file, "2026-06-01_15-13-17_25414ms");
    assert_eq!(e.ts, "2026-06-01 15:13:17");
    assert_eq!(e.text.as_deref(), Some("test transcript"));
    assert!(e.has_text);
    let blank = history_entry("x_1000ms", None, Some("   ".into()), vec![], false);
    assert!(!blank.has_text);
}

#[test]
fn wav_header_of_pcm() {
    let wav = encode_pcm_to_wav(&[1u8, 2, 3, 4]);
    assert_eq!(wav.len(), 48);
    assert_eq!(&wav[0..4], b"RIFF");
    assert_eq!(&wav[8..12], b"WAVE");
    assert_eq!(u32::from_le_bytes([wav[4], wav[5], wav[6], wav[7]]), 40);
    assert_eq!(u32::from_le_bytes([wav[24], wav[25], wav[26], wav[27]]), 16000);
    assert_eq!(u32::from_le_bytes([wav[40], wav[41], wav[42], wav[43]]), 4);
    assert_eq!(&wav[44..], &[1u8, 2, 3, 4]);
}

#[test]
fn settings_page_from_sources() {
    let src = SettingsSources {
        lang_env: None,
        lang_file: Some(" de \n".into()),
        output_mode_file: Some("never".into()),
        history_time_mode_file: None,
        stt_endpoint_env: None,
        stt_endpoint_file: None,
        api_key_env: Some("".into()),
        xai_key_env: None,
        logged_in: true,
        stored_key: false,
        correction_key_env: None,
        correction_key_stored: None,
        correction_model_file: None,
    };
    let c = get_config(&src);
    assert_eq!(c.lang, "de");
    assert_eq!(c.output_mode, "clipboard");
    assert_eq!(c.auth_mode, "oauth");
    assert!(c.has_key);
    assert!(!c.has_correction_key);
    assert_eq!(c.correction_model, "deepseek/deepseek-chat-v4");
    assert!(has_stored_api_key(true, Some(10)));
    assert!(!has_stored_api_key(true, Some(0)));
    assert!(matches!(clear_stored_api_key(Err("denied".into())), Err(ApiError::Internal(m)) if m == "denied"));
}

#[test]
fn openrouter_replies_give_text_or_error() {
    let ok = ChatReply {
        success: true,
        status: "200 OK".into(),
        error_message: None,
        content: Some("fixed text".into()),
        body: "{}".into(),
    };
    assert_eq!(chat_reply_text(ok), Ok("fixed text".to_string()));
    let odd = ChatReply { success: true, status: "200 OK".into(), error_message: None, content: None, body: "{\"x\":1}".into() };
    assert_eq!(chat_reply_text(odd), Err("unexpected response: {\"x\":1}".to_string()));
    let bad = ChatReply {
        success: false,
        status: "401 Unauthorized".into(),
        error_message: Some("No auth credentials found".into()),
        content: None,
        body: String::new(),
    };
    assert_eq!(chat_reply_text(bad), Err("OpenRouter 401 Unauthorized: No auth credentials found".to_string()));
    let bare = ChatReply { success: false, status: "500 Internal Server Error".into(), error_message: None, content: None, body: String::new() };
    assert_eq!(chat_reply_text(bare), Err("OpenRouter 500 Internal Server Error: unknown".to_string()));
}

#[test]
fn correction_requests_check_id_then_key() {
    let marked = vec!["wrld".to_string()];
    let kept: Vec<String> = vec![];
    let bad_id = correction_request("../etc", "sk-or-v1-x", "", "hello wrld", &marked, &kept);
    assert!(matches!(bad_id, Err(ApiError::BadRequest(_))));
    let no_key = correction_request("2026-06-06_22-11-27_2000ms", "", "", "hello wrld", &marked, &kept);
    match no_key {
        Err(ApiError::BadRequest(m)) => assert_eq!(m, "OpenRouter API key not configured. Add it in Settings."),
        other => panic!("unexpected: {other:?}"),
    }
    let req = correction_request("2026-06-06_22-11-27_2000ms", "sk-or-v1-x", "", "hello wrld", &marked, &kept).unwrap();
    assert_eq!(req.id, "2026-06-06_22-11-27_2000ms");
    assert_eq!(req.key, "sk-or-v1-x");
    assert_eq!(req.model, "deepseek/deepseek-chat");
    assert!(req.prompt.contains("- RED (must change): wrld\n- GREEN (must keep): none\n"));
    assert!(req.prompt.contains("Full transcript:\nhello wrld\n"));
    let custom = correction_request("abc", "k", "openai/gpt-4o", "t", &[], &[]).unwrap();
    assert_eq!(custom.model, "openai/gpt-4o");
}

#[test]
fn settings_bodies_are_read_as_updates() {
    match config_update_from_json("  \n") {
        Err(ApiError::BadRequest(m)) => assert_eq!(m, "empty request body"),
        other => panic!("unexpected: {other:?}"),
    }
    match config_update_from_json("{\"lang\": ") {
        Err(ApiError::BadRequest(m)) => assert!(m.starts_with("invalid JSON: "), "{m}"),
        other => panic!("unexpected: {other:?}"),
    }
    let u = config_update_from_json(r#"{"lang":"en","output_mode":"wtype","key":7,"correction_model":"x/y"}"#).unwrap();
    assert_eq!(u.lang.as_deref(), Some("en"));
    assert_eq!(u.output_mode.as_deref(), Some("wtype"));
    assert_eq!(u.key, None);
    assert_eq!(u.correction_model.as_deref(), Some("x/y"));
    assert_eq!(u.history_time_mode, None);
    assert_eq!(u.stt_endpoint, None);
    assert_eq!(u.correction_key, None);
}

#[test]
fn settings_body_save_plans() {
    let steps = save_config_from_json(r#"{"output_mode":"wtype"}"#).unwrap();
    assert!(rejection(&steps).is_none());
    assert!(steps.iter().any(|s| matches!(s, ConfigStep::Write(ConfigWrite::OutputMode(m)) if m == "wtype")));
    let steps = save_config_from_json(r#"{"output_mode":"auto"}"#).unwrap();
    assert!(rejection(&steps).expect("rejected").message().contains("wtype"));
    assert!(save_config_from_json("").is_err());
}

#[test]
fn correction_and_edit_bodies() {
    let c = correct_body_from_json(r#"{"text":"hello wrld","marked":["wrld",3],"kept":["hello"]}"#).unwrap();
    assert_eq!(c.text, "hello wrld");
    assert_eq!(c.marked, vec!["wrld".to_string()]);
    assert_eq!(c.kept, vec!["hello".to_string()]);
    let bare = correct_body_from_json("{}").unwrap();
    assert_eq!(bare.text, "");
    assert!(bare.marked.is_empty() && bare.kept.is_empty());
    assert!(correct_body_from_json("not json").is_err());
    let e = edit_body_from_json(r#"{"text":"new"}"#).unwrap();
    assert_eq!((e.text.as_str(), e.edit_type.as_str()), ("new", "user_edit"));
    let e = edit_body_from_json(r#"{"text":"x","type":"llm_correction"}"#).unwrap();
    assert_eq!(e.edit_type, "llm_correction");
    assert!(edit_body_from_json("[").is_err());
}
