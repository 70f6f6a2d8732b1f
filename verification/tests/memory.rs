use chacha20poly1305::aead::{Aead, KeyInit};
use chacha20poly1305::{XChaCha20Poly1305, XNonce};
use piotr::ai::memory::{
    compute_interaction_hash, decrypt_blob, encrypt_blob, encrypt_blob_with_nonce,
    parse_encryption_key, BlobError, DbProfileManager, GroupProfile, Interaction, KeyError, Memory,
    UserProfile, INSERT_BEHAVIOR_SQL, INSERT_GROUP_PROFILE_SQL, INSERT_PROFILE_SQL,
    SELECT_BEHAVIORS_SQL, SELECT_GROUP_PROFILE_SQL, SELECT_PROFILE_SQL,
};
use piotr::ai::ReactionAnalysis;
use piotr::utils::{anonymize, anonymize_with_key, init_anonymize_key};
use serde_json::Value;
use sqlx::SqlitePool;

fn get_test_manager() -> DbProfileManager {
    DbProfileManager::from_key([1u8; 32])
}

#[test]
fn test_profile_id_generation() {
    let raw_id = "+1234567890";
    let hashed_id = DbProfileManager::get_profile_id(raw_id);

    // Output should be a 64 character hex string (sha256)
    assert_eq!(hashed_id.len(), 64);

    // Same input should produce same output
    let hashed_id_2 = DbProfileManager::get_profile_id(raw_id);
    assert_eq!(hashed_id, hashed_id_2);

    // Different input should produce different output
    let different = DbProfileManager::get_profile_id("+0987654321");
    assert_ne!(hashed_id, different);
}

#[test]
fn test_profile_id_empty_and_special() {
    let empty_hash = DbProfileManager::get_profile_id("");
    assert_eq!(empty_hash.len(), 64);
    assert_eq!(
        empty_hash,
        "e3b0c44298fc1c149afbf4c8996fb92427ae41e4649b934ca495991b7852b855"
    );

    let special_chars = "👉👈🥺 \n\r\t \x00 null byte included";
    let special_hash = DbProfileManager::get_profile_id(special_chars);
    assert_eq!(special_hash.len(), 64);
}

#[test]
fn test_encryption_entropy() {
    let manager = get_test_manager();
    let data = b"Sensitive User Data";

    let run1 = manager.encrypt(data).unwrap();
    let run2 = manager.encrypt(data).unwrap();

    // Nonce should ensure identical plaintext produces different ciphertext
    assert_ne!(
        run1, run2,
        "Encryption lacks entropy; same plaintext produced same ciphertext"
    );

    // Decryption should still succeed for both
    assert_eq!(manager.decrypt(&run1).unwrap(), data);
    assert_eq!(manager.decrypt(&run2).unwrap(), data);
}

#[test]
fn test_decryption_too_short() {
    let manager = get_test_manager();
    let short_blob = vec![1u8; 23];
    let result = manager.decrypt(&short_blob);
    assert!(
        result.is_err(),
        "Decryption should fail on blobs smaller than nonce size"
    );
    assert_eq!(result, Err(BlobError::TooShort));
    assert_eq!(manager.decrypt(&[1u8; 24]), Err(BlobError::DecryptionFailure));
}

#[test]
fn test_decryption_tampering() {
    let manager = get_test_manager();
    let data = b"Valid Payload";
    let mut encrypted = manager.encrypt(data).unwrap();

    // Tamper with the ciphertext
    encrypted[25] ^= 0x01;

    let result = manager.decrypt(&encrypted);
    assert!(
        result.is_err(),
        "Decryption should mathematically fail on tampered ciphertext"
    );
    assert_eq!(result, Err(BlobError::DecryptionFailure));
}

#[test]
fn blobs_open_under_their_key_alone() {
    let blob = encrypt_blob(&[1u8; 32], b"x").unwrap();
    assert_eq!(blob.len(), 24 + 1 + 16);
    assert_eq!(decrypt_blob(&[1u8; 32], &blob), Ok(b"x".to_vec()));
    assert_eq!(decrypt_blob(&[2u8; 32], &blob), Err(BlobError::DecryptionFailure));
    let fixed = encrypt_blob_with_nonce(&[1u8; 32], &[9u8; 24], b"abc").unwrap();
    assert_eq!(&fixed[..24], &[9u8; 24]);
    assert_eq!(fixed, encrypt_blob_with_nonce(&[1u8; 32], &[9u8; 24], b"abc").unwrap());
    assert_ne!(&fixed[24..27], b"abc");
}

#[test]
fn blobs_too_short_for_a_tag_fail() {
    let manager = get_test_manager();
    let memory = Memory::from_key([1u8; 32]);
    for n in 0..40 {
        let blob = vec![1u8; n];
        let error =
            if n < 24 { BlobError::TooShort } else { BlobError::DecryptionFailure };
        assert_eq!(decrypt_blob(&[1u8; 32], &blob), Err(error));
        assert_eq!(memory.decrypt(&blob), Err(error));
        assert_eq!(manager.decrypt(&blob), Err(error));
    }
    let empty = encrypt_blob(&[1u8; 32], b"").unwrap();
    assert_eq!(empty.len(), 40);
    assert_eq!(decrypt_blob(&[1u8; 32], &empty), Ok(Vec::new()));
}

#[test]
fn a_changed_blob_does_not_decrypt_to_its_plaintext() {
    let key = [1u8; 32];
    let blob = encrypt_blob_with_nonce(&key, &[9u8; 24], b"abc").unwrap();
    for i in 24..blob.len() {
        let mut changed = blob.clone();
        changed[i] ^= 0x80;
        assert_eq!(decrypt_blob(&key, &changed), Err(BlobError::DecryptionFailure));
    }
    let sealed_too = encrypt_blob_with_nonce(&key, &[9u8; 24], b"abd").unwrap();
    assert_ne!(sealed_too, blob);
    assert_eq!(decrypt_blob(&key, &sealed_too), Ok(b"abd".to_vec()));
}

#[test]
fn blobs_are_those_of_the_cipher() {
    let cipher = XChaCha20Poly1305::new(&[1u8; 32].into());
    let nonce = [9u8; 24];
    let ciphertext = cipher.encrypt(XNonce::from_slice(&nonce), b"abc".as_slice()).unwrap();
    let mut blob = nonce.to_vec();
    blob.extend(ciphertext);
    assert_eq!(encrypt_blob_with_nonce(&[1u8; 32], &nonce, b"abc"), Ok(blob.clone()));
    assert_eq!(decrypt_blob(&[1u8; 32], &blob), Ok(b"abc".to_vec()));
}

#[test]
fn keys_are_read_from_hexadecimal() {
    let hex = "000102030405060708090a0b0c0d0e0f101112131415161718191A1B1C1D1E1F";
    let expected: Vec<u8> = (0u8..32).collect();
    assert_eq!(parse_encryption_key(hex).unwrap().to_vec(), expected);
    assert_eq!(parse_encryption_key("abc"), Err(KeyError::InvalidHex));
    assert_eq!(parse_encryption_key("zz"), Err(KeyError::InvalidHex));
    assert_eq!(parse_encryption_key(""), Err(KeyError::WrongLength));
    assert_eq!(parse_encryption_key("00"), Err(KeyError::WrongLength));
    assert!(matches!(Memory::new("0g"), Err(KeyError::InvalidHex)));
    assert!(matches!(DbProfileManager::new("00"), Err(KeyError::WrongLength)));
    let memory = Memory::new(hex).unwrap();
    let manager = DbProfileManager::new(hex).unwrap();
    let blob = memory.encrypt(b"shared").unwrap();
    assert_eq!(manager.decrypt(&blob), Ok(b"shared".to_vec()));
    assert_eq!(memory.decrypt(&blob), Ok(b"shared".to_vec()));
}

#[test]
fn digests_cover_prompt_and_response() {
    let d = compute_interaction_hash("a", "b");
    assert_eq!(d.len(), 64);
    assert_eq!(d, DbProfileManager::get_profile_id("a:::b"));
    assert_ne!(d, compute_interaction_hash("b", "a"));
}

fn analysis(score: f32, reasoning: &str, tag: &str) -> ReactionAnalysis {
    ReactionAnalysis {
        sentiment_score: score.to_bits(),
        reasoning: reasoning.to_string(),
        tags: if tag.is_empty() { vec![] } else { vec![tag.to_string()] },
    }
}

fn interaction(prompt: &str, score: f32, timestamp: u64) -> Interaction {
    Interaction {
        context_key: "chat1".to_string(),
        prompt: prompt.to_string(),
        response: prompt.to_string(),
        analysis: analysis(score, "", ""),
        timestamp,
    }
}

#[test]
fn test_memory_interaction_sorting() {
    let interactions =
        vec![interaction("1", 0.1, 1), interaction("2", 0.9, 2), interaction("3", -0.5, 3)];
    let mut sorted = interactions.clone();

    sorted.sort_by(|a, b| {
        f32::from_bits(b.analysis.sentiment_score)
            .partial_cmp(&f32::from_bits(a.analysis.sentiment_score))
            .unwrap_or(std::cmp::Ordering::Equal)
    });

    assert_eq!(sorted[0].prompt, "2"); // 0.9
    assert_eq!(sorted[1].prompt, "1"); // 0.1
    assert_eq!(sorted[2].prompt, "3"); // -0.5
}

#[test]
fn examples_take_context_and_time_of_their_rows() {
    let mut foreign = interaction("p", 0.5, 1);
    foreign.context_key = "elsewhere".to_string();
    let rows = vec![(Some(foreign), 42), (None, 43), (Some(interaction("q", 0.4, 1)), -1)];
    let examples = Memory::get_relevant_examples("here", rows);
    assert_eq!(examples.len(), 2);
    assert_eq!(examples[0].context_key, "here");
    assert_eq!(examples[0].timestamp, 42);
    assert_eq!(examples[1].prompt, "q");
    assert_eq!(examples[1].timestamp, u64::MAX);
}

#[test]
fn every_readable_record_gives_an_example_at_its_place() {
    let rows: Vec<(Option<Interaction>, i64)> =
        (0..5).map(|i| (Some(interaction(&i.to_string(), 0.5, 1)), 10 + i)).collect();
    let examples = Memory::get_relevant_examples("here", rows);
    let found: Vec<(&str, u64)> =
        examples.iter().map(|e| (e.prompt.as_str(), e.timestamp)).collect();
    assert_eq!(found, vec![("0", 10), ("1", 11), ("2", 12), ("3", 13), ("4", 14)]);
    assert!(examples.iter().all(|e| e.context_key == "here"));
}

#[test]
fn rows_of_another_key_are_left_out() {
    let memory = Memory::from_key([1u8; 32]);
    let other = Memory::from_key([2u8; 32]);
    let rows = vec![
        (memory.encrypt(b"one").unwrap(), 1),
        (other.encrypt(b"two").unwrap(), 2),
        (vec![0u8; 3], 3),
        (memory.encrypt(b"four").unwrap(), 4),
    ];
    assert_eq!(
        memory.decrypt_rows(&rows),
        vec![(b"one".to_vec(), 1), (b"four".to_vec(), 4)]
    );
}

#[test]
fn records_carry_what_they_are_given() {
    let r = Memory::record("c", "p".to_string(), "r".to_string(), analysis(1.0, "why", "t"), 5);
    assert_eq!((r.context_key.as_str(), r.prompt.as_str(), r.response.as_str()), ("c", "p", "r"));
    assert_eq!(r.timestamp, 5);
    assert_eq!(r.analysis.reasoning, "why");
    let memory = Memory::from_key([3u8; 32]);
    let row = memory.add_interaction("c", "p", "r", 1.0f32.to_bits(), 5, b"{}").unwrap();
    assert_eq!(row.context_key, "c");
    assert_eq!(row.interaction_hash, compute_interaction_hash("p", "r"));
    assert_eq!(f32::from_bits(row.sentiment_score), 1.0);
    assert_eq!(row.timestamp, 5);
    assert_eq!(memory.decrypt(&row.encrypted_blob), Ok(b"{}".to_vec()));
}

#[test]
fn profiles_follow_the_current_name() {
    let (p, save) = DbProfileManager::get_profile("+1", None, None);
    assert!(!save);
    assert_eq!(p.id, DbProfileManager::get_profile_id("+1"));
    assert_eq!(p.name, None);
    assert_eq!(p.personality_summary, "New user");
    assert_eq!(p.interaction_style, "neutral");
    let (p, save) = DbProfileManager::get_profile("+1", None, Some("Ann".to_string()));
    assert!(!save);
    assert_eq!(p.name.as_deref(), Some("Ann"));
    let (p, save) = DbProfileManager::get_profile("+1", Some(p), Some("Bea".to_string()));
    assert!(save);
    assert_eq!(p.name.as_deref(), Some("Bea"));
    let (p, save) = DbProfileManager::get_profile("+1", Some(p), Some("Bea".to_string()));
    assert!(!save);
    let (p, save) = DbProfileManager::get_profile("+1", Some(p), None);
    assert!(!save);
    assert_eq!(p.name.as_deref(), Some("Bea"));

    let (g, save) = DbProfileManager::get_group_profile("g", None, None);
    assert!(!save);
    assert_eq!(g.group_vibe, "Neutral");
    assert_eq!(g.group_name, None);
    let (g, save) = DbProfileManager::get_group_profile("g", Some(g), Some("Crew".to_string()));
    assert!(save);
    assert_eq!(g.group_name.as_deref(), Some("Crew"));
    let (_, save) = DbProfileManager::get_group_profile("g", Some(g), Some("Crew".to_string()));
    assert!(!save);
}

// --- names in logs ---

#[test]
fn names_are_keyed_digests() {
    // The second test vector of RFC 4231.
    assert_eq!(
        anonymize_with_key("Jefe", "what do ya want for nothing?"),
        "5bdcc146bf60754e6a042426089575c7"
    );
    assert_ne!(anonymize_with_key("k", "a"), anonymize_with_key("k", "b"));
    assert_ne!(anonymize_with_key("k", "a"), anonymize_with_key("l", "a"));
}

#[test]
fn the_first_key_stays() {
    let mut slot = None;
    init_anonymize_key(&mut slot, "");
    assert_eq!(slot, None);
    init_anonymize_key(&mut slot, "first");
    init_anonymize_key(&mut slot, "second");
    assert_eq!(slot.as_deref(), Some("first"));
    let name = anonymize(&mut slot, Some("env".to_string()), None, "x");
    assert_eq!(name, anonymize_with_key("first", "x"));

    let mut slot = None;
    let name = anonymize(&mut slot, None, Some("piotr".to_string()), "x");
    assert_eq!(name, anonymize_with_key("piotr", "x"));
    assert_eq!(slot.as_deref(), Some("piotr"));
    let mut slot = None;
    let name = anonymize(&mut slot, Some("env".to_string()), Some("piotr".to_string()), "x");
    assert_eq!(name, anonymize_with_key("env", "x"));
    init_anonymize_key(&mut slot, "late");
    assert_eq!(slot.as_deref(), Some("env"));
}

// --- with a database ---

const SCHEMA: [&str; 3] = [
    "CREATE TABLE user_profiles (user_id TEXT PRIMARY KEY, encrypted_blob BLOB NOT NULL, last_updated INTEGER NOT NULL)",
    "CREATE TABLE group_profiles (group_id TEXT PRIMARY KEY, encrypted_blob BLOB NOT NULL, last_updated INTEGER NOT NULL)",
    "CREATE TABLE learned_behaviors (context_key TEXT NOT NULL, interaction_hash TEXT NOT NULL, sentiment_score REAL NOT NULL, encrypted_blob BLOB NOT NULL, timestamp INTEGER NOT NULL, PRIMARY KEY (context_key, interaction_hash))",
];

async fn database() -> SqlitePool {
    let pool = sqlx::sqlite::SqlitePoolOptions::new()
        .max_connections(1)
        .connect("sqlite::memory:")
        .await
        .unwrap();
    for statement in SCHEMA {
        sqlx::query(statement).execute(&pool).await.unwrap();
    }
    pool
}

fn run<F: std::future::Future>(f: F) -> F::Output {
    tokio::runtime::Builder::new_current_thread().enable_all().build().unwrap().block_on(f)
}

fn strings(v: &Value, key: &str) -> Vec<String> {
    v[key].as_array().unwrap().iter().map(|x| x.as_str().unwrap().to_string()).collect()
}

fn text(v: &Value, key: &str) -> Option<String> {
    v[key].as_str().map(|x| x.to_string())
}

fn list(items: &[String]) -> Value {
    Value::Array(items.iter().map(|x| Value::from(x.clone())).collect())
}

fn object(members: Vec<(&str, Value)>) -> Vec<u8> {
    let map = members.into_iter().map(|(k, v)| (k.to_string(), v)).collect();
    serde_json::to_vec(&Value::Object(map)).unwrap()
}

fn interaction_json(i: &Interaction) -> Vec<u8> {
    object(vec![
        ("prompt", Value::from(i.prompt.clone())),
        ("response", Value::from(i.response.clone())),
        ("score", Value::from(i.analysis.sentiment_score)),
        ("reasoning", Value::from(i.analysis.reasoning.clone())),
        ("tags", list(&i.analysis.tags)),
    ])
}

fn interaction_in(bytes: &[u8]) -> Option<Interaction> {
    let v: Value = serde_json::from_slice(bytes).ok()?;
    Some(Interaction {
        context_key: String::new(),
        prompt: text(&v, "prompt")?,
        response: text(&v, "response")?,
        analysis: ReactionAnalysis {
            sentiment_score: v["score"].as_u64()? as u32,
            reasoning: text(&v, "reasoning")?,
            tags: strings(&v, "tags"),
        },
        timestamp: 0,
    })
}

async fn add(
    memory: &Memory,
    pool: &SqlitePool,
    context: &str,
    prompt: &str,
    response: &str,
    analysis: ReactionAnalysis,
    time: i64,
) {
    let record =
        Memory::record(context, prompt.to_string(), response.to_string(), analysis, time);
    let json = interaction_json(&record);
    let score = record.analysis.sentiment_score;
    let row = memory.add_interaction(context, prompt, response, score, time, &json).unwrap();
    sqlx::query(INSERT_BEHAVIOR_SQL)
        .bind(row.context_key)
        .bind(row.interaction_hash)
        .bind(f32::from_bits(row.sentiment_score))
        .bind(row.encrypted_blob)
        .bind(row.timestamp)
        .execute(pool)
        .await
        .unwrap();
}

async fn examples(memory: &Memory, pool: &SqlitePool, context: &str, limit: i64) -> Vec<Interaction> {
    let rows: Vec<(Vec<u8>, i64)> = sqlx::query_as(SELECT_BEHAVIORS_SQL)
        .bind(context)
        .bind(limit)
        .fetch_all(pool)
        .await
        .unwrap();
    let records =
        memory.decrypt_rows(&rows).into_iter().map(|(p, t)| (interaction_in(&p), t)).collect();
    Memory::get_relevant_examples(context, records)
}

#[test]
fn test_memory_empty_db_graceful_handling() {
    run(async {
        let pool = database().await;
        let mem = Memory::from_key([1u8; 32]);
        assert_eq!(examples(&mem, &pool, "chat1", 10).await.len(), 0);
    });
}

#[test]
fn test_memory_context_isolation() {
    run(async {
        let pool = database().await;
        let mem = Memory::from_key([1u8; 32]);
        let analysis_chat1 = analysis(0.9, "Great answer in chat 1", "helpful");
        let analysis_chat2 = analysis(0.8, "Good answer in chat 2", "funny");
        add(&mem, &pool, "group_a", "Secret from Group A", "Answer A", analysis_chat1, 1).await;
        add(&mem, &pool, "group_b", "Secret from Group B", "Answer B", analysis_chat2, 2).await;

        let examples_a = examples(&mem, &pool, "group_a", 10).await;
        assert_eq!(examples_a.len(), 1);
        assert_eq!(examples_a[0].prompt, "Secret from Group A");
        assert_eq!(examples_a[0].context_key, "group_a");

        let examples_b = examples(&mem, &pool, "group_b", 10).await;
        assert_eq!(examples_b.len(), 1);
        assert_eq!(examples_b[0].prompt, "Secret from Group B");
        assert_eq!(examples_b[0].context_key, "group_b");

        let examples_c = examples(&mem, &pool, "group_c", 10).await;
        assert_eq!(examples_c.len(), 0);

        let reloaded_mem = Memory::from_key([1u8; 32]);
        let reloaded_a = examples(&reloaded_mem, &pool, "group_a", 10).await;
        assert_eq!(reloaded_a.len(), 1);
        assert_eq!(reloaded_a[0].prompt, "Secret from Group A");
        let reloaded_b = examples(&reloaded_mem, &pool, "group_b", 10).await;
        assert_eq!(reloaded_b.len(), 1);
        assert_eq!(reloaded_b[0].prompt, "Secret from Group B");
    });
}

#[test]
fn test_memory_upsert_deduplication() {
    run(async {
        let pool = database().await;
        let mem = Memory::from_key([1u8; 32]);
        let analysis_v1 = analysis(0.5, "Okay response", "meh");
        add(&mem, &pool, "chat1", "What is 2+2?", "4", analysis_v1, 1).await;
        let analysis_v2 = analysis(1.0, "Loved it", "perfect");
        add(&mem, &pool, "chat1", "What is 2+2?", "4", analysis_v2, 2).await;

        let examples = examples(&mem, &pool, "chat1", 10).await;
        assert_eq!(examples.len(), 1);
        assert_eq!(f32::from_bits(examples[0].analysis.sentiment_score), 1.0);
        assert_eq!(examples[0].analysis.reasoning, "Loved it");
        assert_eq!(examples[0].timestamp, 2);
    });
}

#[test]
fn the_best_examples_come_first() {
    run(async {
        let pool = database().await;
        let mem = Memory::from_key([1u8; 32]);
        for (prompt, score) in [("1", 0.1), ("2", 0.9), ("3", -0.5)] {
            add(&mem, &pool, "chat1", prompt, prompt, analysis(score, "", ""), 1).await;
        }
        let found = examples(&mem, &pool, "chat1", 2).await;
        let prompts: Vec<&str> = found.iter().map(|e| e.prompt.as_str()).collect();
        assert_eq!(prompts, vec!["2", "1"]);
    });
}

#[test]
fn examples_are_the_best_of_what_was_learned_last() {
    run(async {
        let pool = database().await;
        let mem = Memory::from_key([1u8; 32]);
        for (prompt, score) in [("1", 0.1), ("2", 0.9), ("3", -0.5), ("4", -0.25), ("1", 0.95)] {
            add(&mem, &pool, "chat1", prompt, "answer", analysis(score, "", ""), 1).await;
        }
        add(&mem, &pool, "chat2", "1", "answer", analysis(0.3, "", ""), 2).await;
        for (limit, expected) in [
            (0, vec![]),
            (2, vec![("1", 0.95), ("2", 0.9)]),
            (4, vec![("1", 0.95), ("2", 0.9), ("4", -0.25), ("3", -0.5)]),
            (9, vec![("1", 0.95), ("2", 0.9), ("4", -0.25), ("3", -0.5)]),
        ] {
            let found = examples(&mem, &pool, "chat1", limit).await;
            let scores: Vec<(&str, f32)> = found
                .iter()
                .map(|e| (e.prompt.as_str(), f32::from_bits(e.analysis.sentiment_score)))
                .collect();
            assert_eq!(scores, expected);
            assert!(found.iter().all(|e| e.context_key == "chat1"));
        }
        assert_eq!(examples(&mem, &pool, "chat2", 9).await.len(), 1);
    });
}

fn profile_json(p: &UserProfile) -> Vec<u8> {
    object(vec![
        ("id", Value::from(p.id.clone())),
        ("name", p.name.clone().map(Value::from).unwrap_or(Value::Null)),
        ("nickname", p.nickname.clone().map(Value::from).unwrap_or(Value::Null)),
        ("personality_summary", Value::from(p.personality_summary.clone())),
        ("interaction_style", Value::from(p.interaction_style.clone())),
        ("topics_of_interest", list(&p.topics_of_interest)),
        ("last_updated", Value::from(p.last_updated)),
    ])
}

fn profile_in(bytes: &[u8]) -> UserProfile {
    let v: Value = serde_json::from_slice(bytes).unwrap();
    UserProfile {
        id: text(&v, "id").unwrap(),
        name: text(&v, "name"),
        nickname: text(&v, "nickname"),
        personality_summary: text(&v, "personality_summary").unwrap(),
        interaction_style: text(&v, "interaction_style").unwrap(),
        topics_of_interest: strings(&v, "topics_of_interest"),
        last_updated: v["last_updated"].as_u64().unwrap(),
    }
}

#[test]
fn test_db_profile_round_trip() {
    run(async {
        let pool = database().await;
        let manager = DbProfileManager::from_key([1u8; 32]);
        let raw_id = "+15555550000";
        let profile_id = DbProfileManager::get_profile_id(raw_id);
        let profile = UserProfile {
            id: profile_id.clone(),
            name: Some("Alice".to_string()),
            nickname: None,
            personality_summary: "Test profile".to_string(),
            interaction_style: "testing".to_string(),
            topics_of_interest: vec!["rust".to_string()],
            last_updated: 1234567890,
        };

        let row = manager.save_profile(&profile.id, &profile_json(&profile), 99).unwrap();
        sqlx::query(INSERT_PROFILE_SQL)
            .bind(row.id)
            .bind(row.encrypted_blob)
            .bind(row.last_updated)
            .execute(&pool)
            .await
            .unwrap();
        let found: Option<(Vec<u8>,)> = sqlx::query_as(SELECT_PROFILE_SQL)
            .bind(&profile_id)
            .fetch_optional(&pool)
            .await
            .unwrap();
        let stored = profile_in(&manager.decrypt(&found.unwrap().0).unwrap());
        let (loaded, save) = DbProfileManager::get_profile(raw_id, Some(stored), None);

        assert!(!save);
        assert_eq!(loaded.id, profile.id, "loaded profile ID does not match");
        assert_eq!(loaded.name, profile.name, "loaded profile name does not match");
        assert_eq!(
            loaded.personality_summary, profile.personality_summary,
            "loaded profile personality does not match"
        );
        assert_eq!(
            loaded.interaction_style, profile.interaction_style,
            "loaded profile style does not match"
        );
        assert_eq!(
            loaded.topics_of_interest, profile.topics_of_interest,
            "loaded profile topics do not match"
        );
    });
}

#[test]
fn a_group_profile_is_replaced_by_the_next() {
    run(async {
        let pool = database().await;
        let manager = DbProfileManager::from_key([1u8; 32]);
        let (group, _): (GroupProfile, bool) = DbProfileManager::get_group_profile("g", None, None);
        for json in [b"first", b"later"] {
            let row = manager.save_group_profile(&group.id, json, 1).unwrap();
            sqlx::query(INSERT_GROUP_PROFILE_SQL)
                .bind(row.id)
                .bind(row.encrypted_blob)
                .bind(row.last_updated)
                .execute(&pool)
                .await
                .unwrap();
        }
        let rows: Vec<(Vec<u8>,)> = sqlx::query_as(SELECT_GROUP_PROFILE_SQL)
            .bind(&group.id)
            .fetch_all(&pool)
            .await
            .unwrap();
        assert_eq!(rows.len(), 1);
        assert_eq!(manager.decrypt(&rows[0].0), Ok(b"later".to_vec()));
    });
}
