use cosmic_scribe::analytics::{
    count_words, default_store, duration_bucket, maybe_submit, median, opt_in_from_file,
    payload_is_anonymous, sanitize_action, sent_outcome, snapshot_summary, submit_gate, word_bucket,
    AnalyticsStore, Counts, HttpTelemetrySink, Snapshot, SubmitOutcome, TelemetryPayload, TelemetrySink,
};
use std::sync::Mutex;

fn counts_json(c: &Counts) -> serde_json::Value {
    let mut m = serde_json::Map::new();
    for (k, v) in c.entries() {
        m.insert(k.clone(), serde_json::Value::from(*v));
    }
    serde_json::Value::Object(m)
}

fn payload_json(p: &TelemetryPayload) -> serde_json::Value {
    let mut m = serde_json::Map::new();
    m.insert("schema".into(), serde_json::Value::from(p.schema));
    m.insert("app".into(), serde_json::Value::from(p.app));
    m.insert("app_version".into(), serde_json::Value::from(p.app_version));
    m.insert("enabled".into(), serde_json::Value::from(p.enabled));
    m.insert("takes".into(), serde_json::Value::from(p.takes));
    m.insert("takes_ok".into(), serde_json::Value::from(p.takes_ok));
    m.insert("median_stop_to_text_ms".into(), serde_json::Value::from(p.median_stop_to_text_ms));
    m.insert("duration_buckets".into(), counts_json(&p.duration_buckets));
    m.insert("word_buckets".into(), counts_json(&p.word_buckets));
    m.insert("auth".into(), counts_json(&p.auth));
    m.insert("actions".into(), counts_json(&p.actions));
    serde_json::Value::Object(m)
}

fn empty_snapshot(enabled: bool, takes: u64) -> Snapshot {
    Snapshot {
        enabled,
        takes,
        takes_ok: 0,
        median_stop_to_text_ms: None,
        duration_buckets: Counts::new(),
        word_buckets: Counts::new(),
        auth: Counts::new(),
        actions: Counts::new(),
    }
}

#[test]
fn buckets_and_summary() {
    assert_eq!(duration_bucket(4999), "<5s");
    assert_eq!(duration_bucket(5000), "5-20s");
    assert_eq!(word_bucket(19), "<20");
    assert_eq!(word_bucket(20), "20-80");
    let off = empty_snapshot(false, 0);
    assert!(snapshot_summary(&off, "").to_ascii_lowercase().contains("off"));
}

#[test]
fn default_is_off_and_record_is_noop() {
    let mut store = AnalyticsStore::at("/tmp/cs-analytics");
    assert!(!store.is_enabled());
    store.record_take(8000, 400, "oauth", true, Some("hello world"));
    store.record_action("cancel");
    let snap = store.snapshot();
    assert_eq!(snap.takes, 0);
    assert_eq!(snap.actions.len(), 0);
    assert!(!snap.enabled);
}

#[test]
fn opt_in_persists_and_records_aggregates_only() {
    let mut store = AnalyticsStore::at("/tmp/cs-analytics");
    assert_eq!(store.set_enabled(true), "1\n");
    assert!(store.is_enabled());
    store.record_take(12_000, 640, "oauth", true, Some("xyzzy-unique-secret-phrase that must never be stored"));
    store.record_take(3_000, 300, "api_key", false, None);
    store.record_action("cancel");
    let snap = store.snapshot();
    assert_eq!(snap.takes, 2);
    assert_eq!(snap.takes_ok, 1);
    assert_eq!(snap.median_stop_to_text_ms, Some(640));
    assert_eq!(snap.duration_buckets.get("5-20s"), Some(1));
    assert_eq!(snap.duration_buckets.get("<5s"), Some(1));
    assert_eq!(snap.auth.get("oauth"), Some(1));
    assert_eq!(snap.actions.get("cancel"), Some(1));
    assert_eq!(snap.word_buckets.get("<20"), Some(1));
    assert_eq!(store.summary_line("0.6"), "2 takes · 0.6s median · sign-in 1 / key 1");

    let payload = payload_json(&store.export_payload());
    let dumped = payload.to_string();
    assert!(!dumped.contains("xyzzy-unique-secret-phrase"), "transcript leaked: {dumped}");
    assert!(
        payload_is_anonymous(
            &dumped,
            payload.get("schema").is_some(),
            payload.get("takes").is_some(),
            payload.get("text").is_some()
        ),
        "payload not anonymous: {dumped}"
    );
    assert_eq!(payload["takes"], 2);
    assert_eq!(payload["app"], cosmic_scribe::APP_SLUG);

    assert_eq!(store.set_enabled(false), "0\n");
    assert!(!store.is_enabled());
    store.record_take(9_000, 100, "oauth", true, Some("another secret"));
    assert_eq!(store.snapshot().takes, 2, "disabled must not add takes");
    assert_eq!(store.summary_line("0.6"), "Off — nothing is recorded.");
}

struct Probe(Mutex<u32>);

impl TelemetrySink for Probe {
    fn send(&self, _: &TelemetryPayload) -> Result<(), String> {
        *self.0.lock().unwrap() += 1;
        Ok(())
    }
}

#[test]
fn submit_skipped_when_disabled() {
    let mut store = AnalyticsStore::at("/tmp/cs-analytics");
    let sink = Probe(Mutex::new(0));
    assert_eq!(maybe_submit(&store, &sink), SubmitOutcome::SkippedDisabled);
    assert_eq!(*sink.0.lock().unwrap(), 0);
    store.set_enabled(true);
    assert_eq!(maybe_submit(&store, &sink), SubmitOutcome::Sent);
    assert_eq!(*sink.0.lock().unwrap(), 1);
}

#[test]
fn submit_gate_and_outcomes() {
    let mut store = AnalyticsStore::at("/tmp/cs-analytics");
    assert_eq!(submit_gate(&store), Some(SubmitOutcome::SkippedDisabled));
    store.set_enabled(true);
    assert_eq!(submit_gate(&store), None);
    assert_eq!(sent_outcome(Ok(())), SubmitOutcome::Sent);
    assert_eq!(sent_outcome(Err("HTTP 500".into())), SubmitOutcome::Failed("HTTP 500".into()));
}

#[test]
fn http_sink_requires_https_env() {
    assert!(HttpTelemetrySink::from_setting(None).is_none());
    assert!(HttpTelemetrySink::from_setting(Some("http://insecure.example/t")).is_none());
    assert!(HttpTelemetrySink::from_setting(Some("   ")).is_none());
    let sink = HttpTelemetrySink::from_setting(Some(" https://telemetry.example/v1 ")).expect("https url");
    assert_eq!(sink.url(), "https://telemetry.example/v1");
}

#[test]
fn payload_checks_and_helpers() {
    assert!(payload_is_anonymous("{\"schema\":1,\"takes\":2,\"auth\":{\"oauth\":1}}", true, true, false));
    assert!(!payload_is_anonymous("{\"schema\":1,\"takes\":2,\"Transcript\":\"x\"}", true, true, false));
    assert!(!payload_is_anonymous("{\"audio\":[]}", true, true, false));
    assert!(!payload_is_anonymous("{}", true, true, true));
    assert!(!payload_is_anonymous("Bearer abc", true, true, false));
    assert_eq!(count_words("  a  b\tc\n"), 3);
    assert_eq!(sanitize_action("open settings!"), "open_settings_");
    assert_eq!(sanitize_action(&"x".repeat(40)).chars().count(), 32);
    assert_eq!(median(&[5, 1, 3]), Some(3));
    assert_eq!(median(&[4, 1, 3, 2]), Some(3));
    assert_eq!(median(&[]), None);
    assert!(opt_in_from_file(Some(" yes\n")));
    assert!(!opt_in_from_file(Some("0")));
    assert!(!opt_in_from_file(None));
    let on = empty_snapshot(true, 0);
    assert_eq!(snapshot_summary(&on, ""), "On — no takes counted yet.");
    let store = default_store("/data");
    assert_eq!(store.dir(), "/data");
}

#[test]
fn word_counts_add_when_joined() {
    for (a, b) in [("hello", "world"), ("", "x y"), ("  a b ", "\tc"), ("", "")] {
        assert_eq!(count_words(&format!("{a} {b}")), count_words(a) + count_words(b));
    }
    assert_eq!(count_words(""), 0);
    assert_eq!(count_words("hello world"), 2);
}

fn word_total(store: &AnalyticsStore) -> u64 {
    store.snapshot().word_buckets.entries().iter().map(|(_, n)| *n).sum()
}

#[test]
fn word_bucket_total_counts_transcripts() {
    let mut store = AnalyticsStore::at("/tmp/cs-analytics");
    store.record_take(1000, 10, "oauth", true, Some("one two"));
    assert_eq!(word_total(&store), 0);
    store.set_enabled(true);
    store.record_take(1000, 10, "oauth", true, Some("one two"));
    assert_eq!(word_total(&store), 1);
    store.record_take(1000, 10, "oauth", false, None);
    assert_eq!(word_total(&store), 1);
    store.record_take(1000, 10, "weird", true, Some(&"w ".repeat(30)));
    assert_eq!(word_total(&store), 2);
    store.record_action("say: hello there!");
    let p = store.export_payload();
    assert_eq!(p.auth.get("other"), Some(1));
    assert_eq!(p.actions.get("say__hello_there_"), Some(1));
    assert_eq!(p.word_buckets.get("20-80"), Some(1));
    assert_eq!(p.schema, 1);
    assert_eq!(p.app_version, "0.1.0");
}

#[test]
fn counts_keep_names_in_order() {
    let mut c = Counts::new();
    c.bump("cancel");
    c.bump("<5s");
    c.bump("toggle");
    c.bump("ab");
    c.bump("a");
    c.bump("cancel");
    let names: Vec<&str> = c.entries().iter().map(|(k, _)| k.as_str()).collect();
    assert_eq!(names, vec!["<5s", "a", "ab", "cancel", "toggle"]);
    assert_eq!(c.get("cancel"), Some(2));
    assert_eq!(c.len(), 5);
}
