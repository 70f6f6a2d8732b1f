use piotr::ai::memory::{GroupProfile, UserProfile};
use piotr::ai::rate_limit::{EndpointRateLimiters, EndpointType};
use piotr::ai::vertex::{
    analysis_reply, analyze_group_profile_update_reply, analyze_profile_update_reply,
    analyze_reaction_reply, classify_intent_reply, count_tokens_reply, failure_message,
    generate_content_failure, generate_content_reply, generate_image_reply, image_text,
    next_attempt, reply_text, Attempt, Candidate, GenerateContentResponse, ImageError,
    PromptFeedback, SafetyRating, VertexClient, CLASSIFICATION_INSTRUCTION,
    GROUP_PROFILE_INSTRUCTION, PROFILE_INSTRUCTION, REACTION_INSTRUCTION,
};
use piotr::ai::{ClassificationDecision, Content, Part, ReactionAnalysis};
use piotr::config::{AppConfig, ModelSettings, PerformanceConfig, ThinkingLevel};
use piotr::json::JsonValue;
use serde_json::Value;

fn json_of(v: &Value) -> JsonValue {
    match v {
        Value::Null => JsonValue::Null,
        Value::Bool(b) => JsonValue::Bool(*b),
        Value::Number(n) => {
            if let Some(u) = n.as_u64() {
                JsonValue::Unsigned(u)
            } else if let Some(i) = n.as_i64() {
                JsonValue::Negative(i)
            } else {
                JsonValue::Real(n.as_f64().unwrap().to_bits())
            }
        }
        Value::String(s) => JsonValue::Text(s.clone()),
        Value::Array(items) => JsonValue::List(items.iter().map(json_of).collect()),
        Value::Object(members) => {
            JsonValue::Object(members.iter().map(|(k, v)| (k.clone(), json_of(v))).collect())
        }
    }
}

fn value_of(j: &JsonValue) -> Value {
    match j {
        JsonValue::Null => Value::Null,
        JsonValue::Bool(b) => Value::Bool(*b),
        JsonValue::Unsigned(n) => Value::from(*n),
        JsonValue::Negative(n) => Value::from(*n),
        JsonValue::Real(bits) => Value::from(f64::from_bits(*bits)),
        JsonValue::Text(s) => Value::String(s.clone()),
        JsonValue::List(items) => Value::Array(items.iter().map(value_of).collect()),
        JsonValue::Object(members) => {
            Value::Object(members.iter().map(|(k, v)| (k.clone(), value_of(v))).collect())
        }
    }
}

fn parsed(text: &str) -> JsonValue {
    json_of(&serde_json::from_str::<Value>(text).unwrap())
}

fn string_at(v: &Value, key: &str) -> Option<String> {
    v.get(key).and_then(|x| x.as_str()).map(|x| x.to_string())
}

fn content_in(v: &Value) -> Option<Content> {
    let role = string_at(v, "role")?;
    let parts = v.get("parts")?.as_array()?;
    Some(Content {
        role,
        parts: parts.iter().map(|p| Part { text: string_at(p, "text") }).collect(),
    })
}

fn ratings_in(v: &Value) -> Option<Vec<SafetyRating>> {
    let list = v.get("safetyRatings")?.as_array()?;
    Some(
        list.iter()
            .map(|r| SafetyRating {
                category: string_at(r, "category").unwrap(),
                probability: string_at(r, "probability").unwrap(),
                blocked: r.get("blocked").and_then(|b| b.as_bool()),
            })
            .collect(),
    )
}

// `None` where a field that has to be there is missing.
fn response_in(text: &str) -> Option<GenerateContentResponse> {
    let v: Value = serde_json::from_str(text).ok()?;
    let candidates = match v.get("candidates") {
        None => None,
        Some(list) => {
            let mut out = Vec::new();
            for c in list.as_array()? {
                let content = match c.get("content") {
                    None => None,
                    Some(content) => Some(content_in(content)?),
                };
                out.push(Candidate {
                    content,
                    finish_reason: string_at(c, "finishReason"),
                    safety_ratings: ratings_in(c),
                    citation_metadata: c.get("citationMetadata").map(|m| m.to_string()),
                });
            }
            Some(out)
        }
    };
    let prompt_feedback = v.get("promptFeedback").map(|f| PromptFeedback {
        block_reason: string_at(f, "blockReason"),
        safety_ratings: ratings_in(f),
    });
    Some(GenerateContentResponse { candidates, prompt_feedback })
}

fn client() -> VertexClient {
    let mut config = AppConfig::default();
    config.ai.gcp_project_id = "proj".to_string();
    config.ai.gcp_location = "us-central1".to_string();
    config.ai.models.chat = "chat-1".to_string();
    config.ai.models.classification = "class-1".to_string();
    config.ai.models.imagen = "imagen-1".to_string();
    config.ai.generation.temperature = 0.5f64.to_bits();
    config.ai.generation.max_output_tokens = 256;
    config.bot.system_prompt = "Be kind.".to_string();
    VertexClient::new(config)
}

fn user_says(text: &str) -> Vec<Content> {
    vec![Content::of_text("user", text.to_string())]
}

// --- requests ---

#[test]
fn a_request_for_an_answer_has_url_and_body() {
    let contents = user_says("hi");
    let model = ModelSettings::named("chat-1");
    let r = client().generate_content(&contents, None, &model, false);
    assert_eq!(
        r.url,
        "https://aiplatform.googleapis.com/v1/projects/proj/locations/us-central1/publishers/google/models/chat-1:generateContent"
    );
    let expected: Value = serde_json::from_str(
        r#"{
            "systemInstruction": {"parts": [{"text": "Be kind."}]},
            "contents": [{"role": "user", "parts": [{"text": "hi"}]}],
            "generationConfig": {"temperature": 0.5, "maxOutputTokens": 256}
        }"#,
    )
    .unwrap();
    assert_eq!(value_of(&r.body), expected);
}

#[test]
fn own_settings_of_a_model_and_search_enter_the_request() {
    let contents = user_says("news?");
    let mut model = ModelSettings::named("other");
    model.temperature = Some(0.25f64.to_bits());
    model.max_output_tokens = Some(-1);
    let r = client().generate_content(&contents, Some("Search."), &model, true);
    let body = value_of(&r.body);
    assert_eq!(body["systemInstruction"]["parts"][0]["text"], "Search.");
    assert_eq!(body["generationConfig"]["temperature"], 0.25);
    assert_eq!(body["generationConfig"]["maxOutputTokens"], -1);
    assert_eq!(body["tools"].to_string(), r#"[{"googleSearch":{}}]"#);
}

#[test]
fn a_request_for_a_picture_goes_to_the_location() {
    let r = client().generate_image("a cat", &ModelSettings::named("imagen-1"));
    assert_eq!(
        r.url,
        "https://us-central1-aiplatform.googleapis.com/v1/projects/proj/locations/us-central1/publishers/google/models/imagen-1:predict"
    );
    let expected: Value = serde_json::from_str(
        r#"{"instances": [{"prompt": "a cat"}], "parameters": {"sampleCount": 1, "aspectRatio": "1:1"}}"#,
    )
    .unwrap();
    assert_eq!(value_of(&r.body), expected);
}

#[test]
fn classification_and_analysis_use_their_model() {
    let c = client();
    let r = c.classify_intent("draw a cat");
    assert!(r.url.ends_with("/models/class-1:generateContent"));
    let body = value_of(&r.body);
    assert_eq!(body["systemInstruction"]["parts"][0]["text"], CLASSIFICATION_INSTRUCTION);
    assert_eq!(body["contents"][0]["parts"][0]["text"], "draw a cat");
    assert!(body["generationConfig"].get("responseMimeType").is_none());

    let r = c.analyze_reaction("p", "r", "👍");
    let body = value_of(&r.body);
    assert_eq!(body["systemInstruction"]["parts"][0]["text"], REACTION_INSTRUCTION);
    assert_eq!(
        body["contents"][0]["parts"][0]["text"],
        "User: p\nBot: r\nUser Reacted With: 👍"
    );
    assert_eq!(body["generationConfig"]["responseMimeType"], "application/json");

    let r = c.analyze_profile_update("{}", "h");
    let body = value_of(&r.body);
    assert_eq!(body["systemInstruction"]["parts"][0]["text"], PROFILE_INSTRUCTION);
    assert_eq!(
        body["contents"][0]["parts"][0]["text"],
        "Current Profile: {}\n\nRecent History:\nh"
    );

    let r = c.analyze_group_profile_update("{}", "h");
    let body = value_of(&r.body);
    assert_eq!(body["systemInstruction"]["parts"][0]["text"], GROUP_PROFILE_INSTRUCTION);
}

#[test]
fn a_request_for_tokens_holds_the_messages_alone() {
    let mut contents = user_says("a");
    contents.push(Content { role: "model".to_string(), parts: vec![Part { text: None }] });
    let r = client().count_tokens(&contents, &ModelSettings::named("chat-1"));
    assert!(r.url.ends_with("/models/chat-1:countTokens"));
    let expected: Value = serde_json::from_str(
        r#"{"contents":[{"parts":[{"text":"a"}],"role":"user"},{"parts":[{"text":null}],"role":"model"}]}"#,
    )
    .unwrap();
    assert_eq!(value_of(&r.body), expected);
}

#[test]
fn test_content_and_part_serialization() {
    let content = Content {
        role: "user".to_string(),
        parts: vec![Part {
            text: Some("Normal text\nwith \"quotes\" and \\slashes".to_string()),
        }],
    };
    let request = client().count_tokens(&vec![content], &ModelSettings::named("m"));

    let serialized = value_of(&request.body).to_string();
    let back: Value = serde_json::from_str(&serialized).unwrap();
    let deserialized = content_in(&back["contents"][0]).unwrap();

    assert_eq!(deserialized.role, "user");
    assert_eq!(
        deserialized.parts[0].text.as_deref(),
        Some("Normal text\nwith \"quotes\" and \\slashes")
    );
}

// --- attempts ---

#[test]
fn pauses_double_and_end_after_three() {
    let content = EndpointType::GenerateContent;
    assert_eq!(next_attempt(content, 200, 0), Attempt::Accept);
    assert_eq!(next_attempt(content, 299, 3), Attempt::Accept);
    assert_eq!(
        next_attempt(content, 429, 0),
        Attempt::RetryAfter { retries: 1, wait_ms: 2000 }
    );
    assert_eq!(
        next_attempt(EndpointType::GenerateImage, 503, 1),
        Attempt::RetryAfter { retries: 2, wait_ms: 4000 }
    );
    assert_eq!(
        next_attempt(content, 500, 2),
        Attempt::RetryAfter { retries: 3, wait_ms: 8000 }
    );
    assert_eq!(next_attempt(content, 599, 3), Attempt::GiveUp);
    assert_eq!(next_attempt(content, 400, 0), Attempt::Refuse);
    assert_eq!(next_attempt(content, 301, 0), Attempt::Refuse);
    assert_eq!(next_attempt(content, 600, 0), Attempt::Refuse);
    for endpoint in [
        EndpointType::ClassifyIntent,
        EndpointType::AnalyzeReaction,
        EndpointType::AnalyzeProfileUpdate,
        EndpointType::AnalyzeGroupProfileUpdate,
        EndpointType::CountTokens,
    ] {
        assert_eq!(
            next_attempt(endpoint, 429, 0),
            Attempt::RetryAfter { retries: 1, wait_ms: 1000 }
        );
        assert_eq!(
            next_attempt(endpoint, 429, 2),
            Attempt::RetryAfter { retries: 3, wait_ms: 4000 }
        );
    }
}

#[test]
fn a_request_is_sent_four_times_at_most() {
    let mut sent = 0;
    let mut retries = 0;
    loop {
        sent += 1;
        match next_attempt(EndpointType::CountTokens, 500, retries) {
            Attempt::RetryAfter { retries: n, .. } => retries = n,
            other => {
                assert_eq!(other, Attempt::GiveUp);
                break;
            }
        }
    }
    assert_eq!(sent, 4);
}

#[test]
fn failures_are_worded_by_endpoint() {
    let s = "500 Internal Server Error";
    let m = |e, after| failure_message(e, after, s, "body");
    assert_eq!(
        m(EndpointType::GenerateContent, true),
        "Vertex AI Error after retries: 500 Internal Server Error - body"
    );
    assert_eq!(
        m(EndpointType::GenerateContent, false),
        "Vertex AI Error: 500 Internal Server Error - body"
    );
    assert_eq!(
        m(EndpointType::GenerateImage, true),
        "Vertex AI Imagen Error after retries: 500 Internal Server Error - body"
    );
    assert_eq!(
        m(EndpointType::GenerateImage, false),
        "Vertex AI Imagen Error: 500 Internal Server Error - body"
    );
    assert_eq!(
        m(EndpointType::ClassifyIntent, true),
        "Intent classification failed after retries: 500 Internal Server Error"
    );
    assert_eq!(
        m(EndpointType::ClassifyIntent, false),
        "Intent classification failed non-retryable: 500 Internal Server Error"
    );
    assert_eq!(
        m(EndpointType::AnalyzeReaction, true),
        "Analysis failed after retries: 500 Internal Server Error"
    );
    assert_eq!(
        m(EndpointType::AnalyzeReaction, false),
        "Analysis Error: 500 Internal Server Error - body"
    );
    assert_eq!(
        m(EndpointType::AnalyzeProfileUpdate, true),
        "Profile analysis failed after retries: 500 Internal Server Error"
    );
    assert_eq!(
        m(EndpointType::AnalyzeProfileUpdate, false),
        "Profile Analysis Error: 500 Internal Server Error - body"
    );
    assert_eq!(
        m(EndpointType::AnalyzeGroupProfileUpdate, true),
        "Group Profile analysis failed after retries: 500 Internal Server Error"
    );
    assert_eq!(
        m(EndpointType::AnalyzeGroupProfileUpdate, false),
        "Group Profile Analysis Error: 500 Internal Server Error - body"
    );
    assert_eq!(
        m(EndpointType::CountTokens, true),
        "CountTokens failed after retries: 500 Internal Server Error - body"
    );
    assert_eq!(
        m(EndpointType::CountTokens, false),
        "CountTokens Error: 500 Internal Server Error - body"
    );
}

#[test]
fn a_block_for_safety_is_answered() {
    assert_eq!(
        generate_content_failure(false, 400, "400 Bad Request", "reason: SAFETY"),
        Ok("That's ... a bit too risky for me.".to_string())
    );
    assert_eq!(
        generate_content_failure(false, 403, "403 Forbidden", "SAFETY"),
        Err("Vertex AI Error: 403 Forbidden - SAFETY".to_string())
    );
    assert_eq!(
        generate_content_failure(false, 400, "400 Bad Request", "safety"),
        Err("Vertex AI Error: 400 Bad Request - safety".to_string())
    );
    assert_eq!(
        generate_content_failure(true, 429, "429 Too Many Requests", "SAFETY"),
        Err("Vertex AI Error after retries: 429 Too Many Requests - SAFETY".to_string())
    );
}

// --- replies ---

#[test]
fn test_generate_content_response_parsing() {
    let raw_json = r#"{
        "candidates": [
            {
                "content": {
                    "role": "model",
                    "parts": [{"text": "Hello there!"}]
                },
                "finishReason": "STOP",
                "safetyRatings": []
            }
        ],
        "promptFeedback": {
            "safetyRatings": []
        }
    }"#;

    let parsed = response_in(raw_json);
    assert!(parsed.is_some());
    assert_eq!(generate_content_reply(&parsed), "Hello there!");

    let response = parsed.unwrap();
    assert!(response.candidates.is_some());

    let candidates = response.candidates.unwrap();
    assert_eq!(candidates.len(), 1);

    let first_candidate = &candidates[0];
    assert_eq!(first_candidate.finish_reason.as_deref(), Some("STOP"));

    let content = first_candidate.content.as_ref().unwrap();
    assert_eq!(content.role, "model");
    assert_eq!(content.parts[0].text.as_deref(), Some("Hello there!"));
}

#[test]
fn test_malformed_json_deserialization() {
    let raw_json_missing_fields = r#"{
        "candidates": [
            {
                "content": {
                    "parts": [{"text": "Missing role"}]
                }
            }
        ]
    }"#;
    let parsed = response_in(raw_json_missing_fields);
    assert!(parsed.is_none(), "Deserialization should fail when required fields are missing");
    assert_eq!(
        generate_content_reply(&parsed),
        "I ... I don't know what happened. The wires... they crossed."
    );

    let raw_garbage = r#"This is not JSON at all"#;
    let parsed2 = response_in(raw_garbage);
    assert!(parsed2.is_none(), "Should fail on complete garbage");
}

#[test]
fn blocked_and_empty_answers_are_replaced() {
    let reply = |text: &str| generate_content_reply(&response_in(text));
    assert_eq!(
        reply(r#"{"candidates": [{"finishReason": "SAFETY"}]}"#),
        "I cannot answer that. Google says no (SAFETY)"
    );
    assert_eq!(
        reply(
            r#"{"candidates": [{"finishReason": "RECITATION", "content": {"role": "model", "parts": [{"text": "x"}]}}]}"#
        ),
        "I cannot answer that. Google says no (RECITATION)"
    );
    assert_eq!(
        reply(
            r#"{"candidates": [{"finishReason": "MAX_TOKENS", "content": {"role": "model", "parts": [{"text": "half"}, {"text": "rest"}]}}]}"#
        ),
        "half"
    );
    let nothing = "I have nothing to say about that.";
    assert_eq!(reply("{}"), nothing);
    assert_eq!(reply(r#"{"candidates": []}"#), nothing);
    assert_eq!(reply(r#"{"candidates": [{}]}"#), nothing);
    assert_eq!(reply(r#"{"candidates": [{"content": {"role": "model", "parts": []}}]}"#), nothing);
    assert_eq!(
        reply(r#"{"candidates": [{"content": {"role": "model", "parts": [{}]}}]}"#),
        nothing
    );
}

#[test]
fn test_generate_image_response_parsing() {
    let b64_pixel = "iVBORw0KGgoAAAANSUhEUgAAAAEAAAABCAQAAAC1HAwCAAAAC0lEQVR42mNkYAAAAAYAAjCB0C8AAAAASUVORK5CYII=";
    let raw_json = format!(
        r#"{{
        "predictions": [
            {{
                "bytesBase64Encoded": "{}"
            }}
        ]
    }}"#,
        b64_pixel
    );
    let json = parsed(&raw_json);
    assert_eq!(image_text(&json), Some(b64_pixel));

    let bytes = generate_image_reply(&json).unwrap();

    assert!(bytes.len() > 0);
    assert_eq!(&bytes[0..4], &[0x89, 0x50, 0x4e, 0x47]); // PNG header
}

#[test]
fn replies_without_a_picture_are_errors() {
    for text in [
        "{}",
        "[]",
        r#"{"predictions": []}"#,
        r#"{"predictions": {}}"#,
        r#"{"predictions": [{}]}"#,
        r#"{"predictions": [{"bytesBase64Encoded": 1}]}"#,
    ] {
        assert_eq!(generate_image_reply(&parsed(text)), Err(ImageError::Missing));
    }
    assert_eq!(
        generate_image_reply(&parsed(r#"{"predictions": [{"bytesBase64Encoded": "?"}]}"#)),
        Err(ImageError::Encoding)
    );
    assert_eq!(
        generate_image_reply(&parsed(r#"{"predictions": [{"bytesBase64Encoded": "aGk="}]}"#)),
        Ok(b"hi".to_vec())
    );
}

#[test]
fn test_classification_instruction_parsing_edge_cases() {
    let edge_case_json = r#"{
        "candidates": [
            {
                "content": {
                    "role": "model",
                    "parts": [{"text": "  FLASH \n\n"}]
                }
            }
        ]
    }"#;
    let final_intent = classify_intent_reply(Some(&parsed(edge_case_json)));
    assert_eq!(final_intent, "FLASH");
}

#[test]
fn intents_are_upper_case_and_default_to_chat() {
    let named = parsed(r#"{"candidates": [{"content": {"parts": [{"text": " straße "}]}}]}"#);
    assert_eq!(classify_intent_reply(Some(&named)), "STRASSE");
    assert_eq!(classify_intent_reply(Some(&parsed("{}"))), "FLASH");
    assert_eq!(classify_intent_reply(None), "FLASH");
    let d = ClassificationDecision::default();
    assert_eq!(d.intent, "FLASH");
    assert_eq!(d.thinking_level, ThinkingLevel::Medium);
    assert_eq!(ClassificationDecision::of_intent("PRO".to_string()).intent, "PRO");
}

#[test]
fn the_text_of_a_reply_is_found_or_missed() {
    let found = parsed(r#"{"candidates": [{"content": {"parts": [{"text": "t"}]}}]}"#);
    assert_eq!(reply_text(&found), Some("t"));
    assert_eq!(
        analysis_reply(EndpointType::AnalyzeReaction, &found),
        Ok("t".to_string())
    );
    for text in [
        "{}",
        r#"{"candidates": {}}"#,
        r#"{"candidates": [{"content": {}}]}"#,
        r#"{"candidates": [{"content": {"parts": []}}]}"#,
        r#"{"candidates": [{"content": {"parts": [{}]}}]}"#,
        r#"{"candidates": [{"content": {"parts": [{"text": null}]}}]}"#,
        r#"{"candidates": [{}, {"content": {"parts": [{"text": "second"}]}}]}"#,
    ] {
        assert_eq!(reply_text(&parsed(text)), None);
    }
    let none = parsed("{}");
    assert_eq!(
        analysis_reply(EndpointType::AnalyzeReaction, &none),
        Err("No content in analysis response".to_string())
    );
    assert_eq!(
        analysis_reply(EndpointType::AnalyzeProfileUpdate, &none),
        Err("No content in profile analysis response".to_string())
    );
    assert_eq!(
        analysis_reply(EndpointType::AnalyzeGroupProfileUpdate, &none),
        Err("No content in group profile analysis response".to_string())
    );
}

fn analysis_in(text: &str) -> Option<ReactionAnalysis> {
    let v: Value = serde_json::from_str(text).ok()?;
    Some(ReactionAnalysis {
        sentiment_score: (v.get("sentiment_score")?.as_f64()? as f32).to_bits(),
        reasoning: string_at(&v, "reasoning")?,
        tags: v
            .get("tags")?
            .as_array()?
            .iter()
            .map(|t| t.as_str().unwrap().to_string())
            .collect(),
    })
}

#[test]
fn test_reaction_analysis_parsing() {
    let raw_json = r#"{
        "sentiment_score": -0.8,
        "reasoning": "User is distressed.",
        "tags": ["distress", "sarcasm_failure"]
    }"#;

    let parsed = analysis_in(raw_json);
    assert!(parsed.is_some());
    let analysis = analyze_reaction_reply(raw_json, parsed);
    assert_eq!(f32::from_bits(analysis.sentiment_score), -0.8);
    assert_eq!(analysis.reasoning, "User is distressed.");
    assert_eq!(analysis.tags.len(), 2);
}

#[test]
fn unreadable_judgements_are_neutral() {
    let analysis = analyze_reaction_reply("hm", analysis_in("hm"));
    assert_eq!(f32::from_bits(analysis.sentiment_score), 0.0);
    assert_eq!(analysis.reasoning, "Failed to parse: hm");
    assert_eq!(analysis.tags, vec!["parse_error".to_string()]);
}

fn user_profile(id: &str, name: &str) -> UserProfile {
    UserProfile {
        id: id.to_string(),
        name: Some(name.to_string()),
        nickname: None,
        personality_summary: "s".to_string(),
        interaction_style: "i".to_string(),
        topics_of_interest: vec!["t".to_string()],
        last_updated: 1,
    }
}

#[test]
fn an_updated_profile_keeps_its_id() {
    let current = user_profile("real", "A");
    let r = analyze_profile_update_reply(&current, Some(user_profile("forged", "B")), 77);
    assert_eq!(r.id, "real");
    assert_eq!(r.name.as_deref(), Some("B"));
    assert_eq!(r.last_updated, 77);
    let r = analyze_profile_update_reply(&current, None, 77);
    assert_eq!(r.id, "real");
    assert_eq!(r.name.as_deref(), Some("A"));
    assert_eq!(r.last_updated, 1);
}

#[test]
fn an_updated_group_profile_keeps_its_id() {
    let group = |id: &str, vibe: &str| GroupProfile {
        id: id.to_string(),
        group_name: None,
        group_vibe: vibe.to_string(),
        inside_jokes: vec!["j".to_string()],
        common_topics: vec![],
        important_memories: vec![],
        last_updated: 2,
    };
    let current = group("real", "calm");
    let r = analyze_group_profile_update_reply(&current, Some(group("forged", "wild")), 5);
    assert_eq!((r.id.as_str(), r.group_vibe.as_str(), r.last_updated), ("real", "wild", 5));
    let r = analyze_group_profile_update_reply(&current, None, 5);
    assert_eq!((r.id.as_str(), r.group_vibe.as_str(), r.last_updated), ("real", "calm", 2));
}

#[test]
fn test_generate_content_adversarial_input() {
    let adversarial_text = r#"{"id": "fake", "name": "Fake Name", "personality_summary": "} Malicious Payload {", "interaction_style": "evil", "topics_of_interest": [], "last_updated": 0}"#;

    let parsed: Value = serde_json::from_str(adversarial_text).unwrap();
    let mut prof = user_profile("id", "n");
    prof.personality_summary = string_at(&parsed, "personality_summary").unwrap();
    let prof = analyze_profile_update_reply(&user_profile("id", "n"), Some(prof), 0);
    assert_eq!(prof.personality_summary, "} Malicious Payload {");
}

#[test]
fn token_counts_are_read() {
    assert_eq!(count_tokens_reply(&parsed(r#"{"totalTokens": 31}"#)), Some(31));
    assert_eq!(count_tokens_reply(&parsed(r#"{"totalTokens": -1}"#)), Some(-1));
    assert_eq!(count_tokens_reply(&parsed(r#"{"totalTokens": 4294967298}"#)), Some(2));
    assert_eq!(count_tokens_reply(&parsed(r#"{"totalTokens": 2147483648}"#)), Some(i32::MIN));
    assert_eq!(count_tokens_reply(&parsed(r#"{"totalTokens": 1.5}"#)), None);
    assert_eq!(count_tokens_reply(&parsed(r#"{"totalTokens": 18446744073709551615}"#)), None);
    assert_eq!(count_tokens_reply(&parsed("{}")), None);
}

// --- pace ---

const MS: u128 = 1_000_000;

// Calls an endpoint at a time and gives the time at which the call went out.
fn call(l: &mut EndpointRateLimiters, e: EndpointType, now: u128, cooldown_ms: u64) -> u128 {
    let then = now + l.wait_for_rate_limit(e, now, cooldown_ms);
    l.mark(e, then);
    then
}

#[test]
fn test_rate_limiters_independence() {
    let cooldown = PerformanceConfig::default().api_cooldown_ms;
    let start = 10_000 * MS;
    let mut limiters = EndpointRateLimiters::new(start);

    // The first call is instant, since new limiters lie two seconds in the past.
    let first = call(&mut limiters, EndpointType::GenerateContent, start, cooldown);
    assert_eq!(first, start);

    // The second call of the same endpoint waits.
    let second = call(&mut limiters, EndpointType::GenerateContent, first, cooldown);
    let elapsed = (second - start) / MS;
    assert!(elapsed >= 1400, "Should wait for rate limit");
    assert!(elapsed < 3000, "Should not wait excessively");

    // A call of another endpoint is instant.
    let other = call(&mut limiters, EndpointType::ClassifyIntent, second, cooldown);
    assert!((other - second) / MS < 100, "Independent endpoint should not be blocked");
}

#[test]
fn test_rate_limiter_cooldown_config() {
    let start = 10_000 * MS;
    let mut limiters = EndpointRateLimiters::new(start);
    let first = call(&mut limiters, EndpointType::GenerateContent, start, 300);
    let second = call(&mut limiters, EndpointType::GenerateContent, first, 300);
    let elapsed = (second - start) / MS;
    assert!(elapsed >= 250, "Should wait according to config cooldown");
    assert!(elapsed < 1000, "Should not wait excessively");
    assert_eq!(second - first, 300 * MS);
    assert_eq!(limiters.wait_for_rate_limit(EndpointType::GenerateContent, second + 299 * MS, 300), MS);
    assert_eq!(limiters.wait_for_rate_limit(EndpointType::GenerateContent, second + 300 * MS, 300), 0);
}

#[test]
fn every_endpoint_has_a_limiter_of_its_own() {
    let all = [
        EndpointType::GenerateContent,
        EndpointType::GenerateImage,
        EndpointType::ClassifyIntent,
        EndpointType::AnalyzeReaction,
        EndpointType::AnalyzeProfileUpdate,
        EndpointType::AnalyzeGroupProfileUpdate,
        EndpointType::CountTokens,
    ];
    for called in all {
        let now = 5_000 * MS;
        let mut l = EndpointRateLimiters::new(now);
        l.mark(called, now);
        for e in all {
            let wait = l.wait_for_rate_limit(e, now, 1500);
            assert_eq!(wait, if e == called { 1500 * MS } else { 0 });
        }
    }
}
