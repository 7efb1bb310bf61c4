use cosmic_scribe::xai_oauth::{
    device_code_from_reply, device_tokens_from_reply, discovery_endpoints, poll_error_fields, refreshed_tokens,
    access_token_needs_refresh, access_token_plan, auth_status_label, base64_url_decode,
    device_poll_step, jwt_exp, looks_like_oauth_bearer, next_refresh_token, refresh_failure,
    store_path, validate_xai_url, PollStep, TokenCache, TokenPlan,
};

fn base64_url_encode(data: &[u8]) -> String {
    const T: &[u8] = b"ABCDEFGHIJKLMNOPQRSTUVWXYZabcdefghijklmnopqrstuvwxyz0123456789-_";
    let mut out = String::new();
    let mut i = 0;
    while i < data.len() {
        let b0 = data[i];
        let b1 = if i + 1 < data.len() { data[i + 1] } else { 0 };
        let b2 = if i + 2 < data.len() { data[i + 2] } else { 0 };
        out.push(T[(b0 >> 2) as usize] as char);
        out.push(T[(((b0 & 3) << 4) | (b1 >> 4)) as usize] as char);
        if i + 1 < data.len() {
            out.push(T[(((b1 & 0x0f) << 2) | (b2 >> 6)) as usize] as char);
        }
        if i + 2 < data.len() {
            out.push(T[(b2 & 0x3f) as usize] as char);
        }
        i += 3;
    }
    out
}

#[test]
fn jwt_exp_parses_dummy() {
    let payload = base64_url_encode(br#"{"exp":9999999999}"#);
    let token = format!("e30.{payload}.sig");
    assert_eq!(jwt_exp(&token), Some(9_999_999_999));
    assert_eq!(jwt_exp("a.b"), None);
    assert_eq!(jwt_exp("a.b.c.d"), None);
}

#[test]
fn base64_roundtrip_small() {
    let raw = br#"{"exp":123}"#;
    let enc = base64_url_encode(raw);
    let dec = base64_url_decode(&enc).unwrap();
    assert_eq!(dec, raw);
}

#[test]
fn oauth_bearer_heuristic() {
    assert!(looks_like_oauth_bearer("aaa.bbb.ccc"));
    assert!(!looks_like_oauth_bearer("xai-abc123"));
    assert!(!looks_like_oauth_bearer(""));
    assert!(!looks_like_oauth_bearer("not-a-jwt"));
}

#[test]
fn base64_edge_cases() {
    assert_eq!(base64_url_decode(""), Some(vec![]));
    assert_eq!(base64_url_decode("TWE"), Some(b"Ma".to_vec()));
    assert_eq!(base64_url_decode("TQ"), Some(b"M".to_vec()));
    assert_eq!(base64_url_decode("-_8"), Some(vec![0xfb, 0xff]));
    assert_eq!(base64_url_decode("A!AA"), None);
    for n in 0..40u8 {
        let data: Vec<u8> = (0..n).map(|i| i.wrapping_mul(37).wrapping_add(n)).collect();
        assert_eq!(base64_url_decode(&base64_url_encode(&data)), Some(data));
    }
}

#[test]
fn token_freshness_and_cache() {
    let payload = base64_url_encode(br#"{"exp":10000}"#);
    let token = format!("h.{payload}.s");
    assert!(!access_token_needs_refresh(&token, 6000));
    assert!(access_token_needs_refresh(&token, 6400));
    assert!(!access_token_needs_refresh("opaque", 0));
    let mut cache = TokenCache::new();
    assert_eq!(cache.cache_get_if_fresh(0), None);
    cache.cache_put(&token, 6000);
    assert_eq!(cache.cache_get_if_fresh(6000).as_deref(), Some(token.as_str()));
    assert_eq!(cache.cache_get_if_fresh(6400), None);
    cache.cache_put("opaque", 100);
    assert_eq!(cache.cache_get_if_fresh(100), None);
    cache.clear();
    assert_eq!(cache.cache_get_if_fresh(0), None);
    assert_eq!(access_token_plan(Some("c".into()), Some(&token), 0), TokenPlan::Cached("c".into()));
    assert_eq!(access_token_plan(None, None, 0), TokenPlan::NoSession);
    assert_eq!(access_token_plan(None, Some(&token), 6000), TokenPlan::Stored(token.clone()));
    assert_eq!(access_token_plan(None, Some(&token), 9000), TokenPlan::Refresh);
}

#[test]
fn issuer_url_validation() {
    assert!(validate_xai_url("https://auth.x.ai/oauth2/token", "token_endpoint").is_ok());
    assert!(validate_xai_url(" https://accounts.x.ai/x ", "token_endpoint").is_ok());
    assert_eq!(validate_xai_url("  ", "token_endpoint").unwrap_err(), "token_endpoint is empty");
    assert_eq!(validate_xai_url("http://auth.x.ai/t", "f").unwrap_err(), "f must be https");
    assert_eq!(
        validate_xai_url("https://api.x.ai/v1", "f").unwrap_err(),
        "f host must be auth.x.ai or accounts.x.ai (got api.x.ai)"
    );
    assert_eq!(validate_xai_url("not a url", "f").unwrap_err(), "invalid f");
}

#[test]
fn refresh_and_poll_decisions() {
    assert!(refresh_failure(200, "200 OK", "{}").is_none());
    assert!(refresh_failure(403, "403 Forbidden", "no").unwrap().starts_with("xAI OAuth refresh HTTP 403"));
    assert!(refresh_failure(400, "400 Bad Request", "invalid_grant").unwrap().contains("--login"));
    assert_eq!(refresh_failure(500, "500 Internal Server Error", "x").unwrap(), "xAI OAuth refresh HTTP 500 Internal Server Error: x");
    assert_eq!(next_refresh_token(Some(""), "old"), "old");
    assert_eq!(next_refresh_token(Some("new"), "old"), "new");
    assert_eq!(device_poll_step("authorization_pending", None, "", 5), PollStep::Wait(5));
    assert_eq!(device_poll_step("slow_down", None, "", 5), PollStep::Wait(6));
    assert_eq!(device_poll_step("slow_down", None, "", 30), PollStep::Wait(30));
    assert_eq!(device_poll_step("expired_token", Some("gone"), "b", 5), PollStep::Fail("xAI device authorization failed: gone".into()));
    assert_eq!(auth_status_label(Some(""), None, true, true), "oauth");
    assert_eq!(auth_status_label(None, Some("k"), true, true), "api_key_env");
    assert_eq!(auth_status_label(None, None, false, true), "api_key");
    assert_eq!(auth_status_label(None, None, false, false), "none");
    assert_eq!(store_path("/d"), "/d/xai-oauth.json");
}

#[test]
fn refresh_replies_give_tokens() {
    let t = refreshed_tokens(r#"{"access_token":"a1","refresh_token":"r2","expires_in":3600}"#, "r1").unwrap();
    assert_eq!(t.access_token, "a1");
    assert_eq!(t.refresh_token, "r2");
    assert_eq!(t.id_token, "");
    assert_eq!(t.expires_in, Some(3600));
    assert_eq!(t.token_type, "Bearer");
    let kept = refreshed_tokens(r#"{"access_token":"a1","refresh_token":"","token_type":"DPoP"}"#, "r1").unwrap();
    assert_eq!(kept.refresh_token, "r1");
    assert_eq!(kept.token_type, "DPoP");
    assert_eq!(kept.expires_in, None);
    assert_eq!(
        refreshed_tokens(r#"{"refresh_token":"r2"}"#, "r1").unwrap_err(),
        "xAI refresh response missing access_token"
    );
    assert!(refreshed_tokens("<html>", "r1").unwrap_err().starts_with("refresh JSON: "));
}

#[test]
fn discovery_and_device_replies() {
    let (a, t) = discovery_endpoints(
        r#"{"authorization_endpoint":"https://auth.x.ai/oauth2/auth","token_endpoint":"https://auth.x.ai/oauth2/token"}"#,
    )
    .unwrap();
    assert_eq!(a, "https://auth.x.ai/oauth2/auth");
    assert_eq!(t, "https://auth.x.ai/oauth2/token");
    assert_eq!(
        discovery_endpoints(r#"{"token_endpoint":"https://auth.x.ai/t"}"#).unwrap_err(),
        "xAI OIDC discovery missing endpoints"
    );
    assert_eq!(
        discovery_endpoints(r#"{"authorization_endpoint":"https://auth.x.ai/a","token_endpoint":"https://api.x.ai/t"}"#)
            .unwrap_err(),
        "token_endpoint host must be auth.x.ai or accounts.x.ai (got api.x.ai)"
    );
    assert!(discovery_endpoints("").unwrap_err().starts_with("xAI OIDC discovery JSON: "));

    let d = device_code_from_reply(r#"{"device_code":"dc","verification_uri":"https://accounts.x.ai/d","interval":0}"#).unwrap();
    assert_eq!(d.device_code, "dc");
    assert_eq!(d.user_code, "?");
    assert_eq!(d.verification, "https://accounts.x.ai/d");
    assert_eq!(d.expires_in, 1800);
    assert_eq!(d.interval, 1);
    assert_eq!(device_code_from_reply("{}").unwrap_err(), "missing device_code");

    let tk = device_tokens_from_reply(r#"{"access_token":"a","refresh_token":"r","id_token":"i","expires_in":60}"#).unwrap();
    assert_eq!((tk.access_token.as_str(), tk.refresh_token.as_str(), tk.id_token.as_str()), ("a", "r", "i"));
    assert_eq!(tk.expires_in, Some(60));
    assert_eq!(
        device_tokens_from_reply(r#"{"access_token":"a"}"#).unwrap_err(),
        "token response missing access_token or refresh_token"
    );

    assert_eq!(poll_error_fields(r#"{"error":"slow_down"}"#), ("slow_down".to_string(), None));
    assert_eq!(
        poll_error_fields(r#"{"error":"access_denied","error_description":"no"}"#),
        ("access_denied".to_string(), Some("no".to_string()))
    );
    assert_eq!(poll_error_fields("oops"), (String::new(), None));
}
