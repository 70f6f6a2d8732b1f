use piotr::config::{AppConfig, ModelSettings, PerformanceConfig, DEFAULT_API_COOLDOWN_MS};
use piotr::db::database_file;
use serde_json::Value;

fn text(v: &Value) -> String {
    v.as_str().unwrap().to_string()
}

fn app_config(v: &Value) -> AppConfig {
    let mut c = AppConfig::default();
    c.database.url = text(&v["database"]["url"]);
    c.security.profile_encryption_key = text(&v["security"]["profile_encryption_key"]);
    c.security.anonymize_key = text(&v["security"]["anonymize_key"]);
    c.ai.gcp_project_id = text(&v["ai"]["gcp_project_id"]);
    c.ai.gcp_location = text(&v["ai"]["gcp_location"]);
    c.ai.models.chat = text(&v["ai"]["models"]["chat"]);
    c.ai.models.classification = text(&v["ai"]["models"]["classification"]);
    c.ai.models.imagen = text(&v["ai"]["models"]["imagen"]);
    let temperature = v["ai"]["generation"]["temperature"].as_f64().unwrap() as f32;
    c.ai.generation.temperature = (temperature as f64).to_bits();
    c.ai.generation.max_output_tokens =
        v["ai"]["generation"]["max_output_tokens"].as_i64().unwrap() as i32;
    c.signal.data_path = text(&v["signal"]["data_path"]);
    c.signal.phone_number = v["signal"]["phone_number"].as_str().map(|s| s.to_string());
    c.performance.api_cooldown_ms = v["performance"]["api_cooldown_ms"].as_u64().unwrap();
    c.bot.name = text(&v["bot"]["name"]);
    c
}

#[test]
fn test_app_config_deserialize_json5() {
    let json5_str = r#"
    {
        database: { url: "sqlite://test.db" },
        security: { profile_encryption_key: "abc", anonymize_key: "def" },
        ai: {
            gcp_project_id: "test-proj",
            gcp_location: "us-west1",
            models: { chat: "m1", classification: "m2", imagen: "m3" },
            generation: { temperature: 0.7, max_output_tokens: 100 }
        },
        signal: { data_path: "/tmp/signal", phone_number: "+1234567890" },
        performance: { max_concurrent_requests: 5, message_processing_timeout_secs: 10, api_cooldown_ms: 500 },
        bot: { name: "TestBot", location: "Earth", persona: "Tester", target_message_length_chars: 500 }
    }
    "#;

    let config = config::Config::builder()
        .add_source(config::File::from_str(json5_str, config::FileFormat::Json5))
        .build()
        .expect("Failed to build config from string");
    let value: Value = config.try_deserialize().expect("Failed to deserialize AppConfig");
    let app_config = app_config(&value);

    assert_eq!(app_config.database.url, "sqlite://test.db");
    assert_eq!(app_config.security.anonymize_key, "def");
    assert_eq!(app_config.ai.gcp_project_id, "test-proj");
    assert_eq!(app_config.ai.models.chat, "m1");
    assert_eq!(f64::from_bits(app_config.ai.generation.temperature) as f32, 0.7);
    assert_eq!(app_config.signal.data_path, "/tmp/signal");
    assert_eq!(app_config.signal.phone_number.as_deref(), Some("+1234567890"));
    assert_eq!(app_config.performance.api_cooldown_ms, 500);
    assert_eq!(app_config.bot.name, "TestBot");
}

#[test]
fn defaults_are_plain() {
    assert_eq!(PerformanceConfig::default().api_cooldown_ms, DEFAULT_API_COOLDOWN_MS);
    let m = ModelSettings::named("m");
    assert_eq!(m.name, "m");
    assert!(m.temperature.is_none() && m.max_output_tokens.is_none());
    assert!(m.max_input_tokens.is_none() && m.thinking_level.is_none());
}

#[test]
fn only_databases_in_files_have_a_file() {
    assert_eq!(database_file("sqlite://data/piotr.db").as_deref(), Some("data/piotr.db"));
    assert_eq!(database_file("sqlite:///abs/p.db").as_deref(), Some("/abs/p.db"));
    assert_eq!(database_file("sqlite::memory:"), None);
    assert_eq!(database_file("sqlite://"), None);
    assert_eq!(database_file("sqlite://:memory:"), None);
    assert_eq!(database_file("not_a_sqlite_url://localhost/mydb"), None);
}
