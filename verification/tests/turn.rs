use piotr::ai::memory::{DbProfileManager, Interaction};
use piotr::ai::{ClassificationDecision, Content, ReactionAnalysis};
use piotr::bot::turn::{Effect, Phase, Turn, TurnEvent, MAX_EXAMPLES};
use piotr::bot::{NextStep, SessionManager};
use piotr::config::{AppConfig, ThinkingLevel};
use piotr::signal::{DataMessage, Envelope, Reaction};
use piotr::state_manager::ContextRequest;

fn session() -> SessionManager {
    let mut config = AppConfig::default();
    config.bot.name = "Piotr".to_string();
    config.bot.system_prompt = "Be kind.".to_string();
    config.bot.target_message_length_chars = 200;
    config.bot.enable_message_splitting = true;
    config.bot.enable_paragraph_splitting = true;
    config.bot.message_delay_ms = 700;
    config.ai.models.chat = "chat".to_string();
    config.ai.models.imagen = "imagen".to_string();
    config.ai.models.classification = "class".to_string();
    SessionManager::new("+100".to_string(), config)
}

fn turn(group: Option<&str>) -> Turn {
    Turn::new(
        "c".to_string(),
        group.map(|g| g.to_string()),
        ("+1".to_string(), group.map(|g| g.to_string())),
        ContextRequest {
            prompt: "hi".to_string(),
            timestamp: 1,
            profile_key: "k".to_string(),
            source_name: Some("Ann".to_string()),
            is_explicit_interaction: true,
        },
    )
}

fn intent(name: &str) -> TurnEvent {
    TurnEvent::Classified(Some(ClassificationDecision::of_intent(name.to_string())))
}

fn said(s: &mut SessionManager, text: &str) {
    s.state.add_user_message("c", Content::of_text("user", text.to_string()));
}

fn loaded() -> TurnEvent {
    TurnEvent::Loaded { profile: None, group: None, examples: vec![] }
}

// Brings a turn to the point where an answer is awaited.
fn to_generating(t: &mut Turn, s: &mut SessionManager) {
    t.begin(s);
    t.advance(s, intent("FLASH"));
    t.advance(s, loaded());
    assert!(matches!(t.phase, Phase::Generating));
}

fn example() -> Interaction {
    Interaction {
        context_key: "c".to_string(),
        prompt: "p".to_string(),
        response: "r".to_string(),
        analysis: ReactionAnalysis { sentiment_score: 0, reasoning: String::new(), tags: vec![] },
        timestamp: 0,
    }
}

#[test]
fn a_prompt_is_classified_first() {
    let mut s = session();
    let mut t = turn(None);
    let effects = t.begin(&mut s);
    assert_eq!(effects.len(), 1);
    match &effects[0] {
        Effect::Classify { prompt } => assert!(prompt.ends_with("User prompt: hi")),
        _ => panic!("not classified"),
    }
}

#[test]
fn ignored_prompts_are_not_answered() {
    let mut s = session();
    let mut t = turn(None);
    t.begin(&mut s);
    assert!(t.advance(&mut s, intent("IGNORE")).is_empty());
    assert!(matches!(t.phase, Phase::Done));
    assert!(t.advance(&mut s, intent("FLASH")).is_empty());
}

#[test]
fn a_short_history_is_not_measured() {
    let mut s = session();
    said(&mut s, "hi");
    let mut t = turn(Some("g"));
    t.begin(&mut s);
    let effects = t.advance(&mut s, TurnEvent::Classified(None));
    assert!(matches!(effects[0], Effect::StartTyping));
    match &effects[1] {
        Effect::Load { profile_key, source_name, group_id, examples_of } => {
            assert_eq!(MAX_EXAMPLES, 3);
            assert_eq!(profile_key, "k");
            assert_eq!(source_name.as_deref(), Some("Ann"));
            assert_eq!(group_id.as_deref(), Some("g"));
            assert_eq!(examples_of.as_deref(), Some("c"));
        }
        _ => panic!("not looked up"),
    }
    assert_eq!(effects.len(), 2);
}

#[test]
fn a_long_history_is_measured_and_cut() {
    for (count, left) in [(None, 40), (Some(950_000), 40), (Some(1_000_000), 38)] {
        let mut s = session();
        for i in 0..40 {
            said(&mut s, &format!("m{}", i));
        }
        let mut t = turn(None);
        t.begin(&mut s);
        let effects = t.advance(&mut s, intent("PRO"));
        match &effects[1] {
            Effect::CountTokens { contents, model } => {
                assert_eq!(contents.len(), 40);
                assert_eq!(model.name, "chat");
            }
            _ => panic!("not measured"),
        }
        let effects = t.advance(&mut s, TurnEvent::Counted(count));
        assert_eq!(effects.len(), 1);
        assert!(matches!(effects[0], Effect::Load { .. }));
        assert_eq!(s.state.get_history_len("c"), left);
    }
}

#[test]
fn the_answer_is_asked_for_with_all_that_is_known() {
    let mut s = session();
    said(&mut s, "hi");
    let mut t = turn(Some("g"));
    t.begin(&mut s);
    t.advance(&mut s, intent("SEARCH"));
    let (profile, _) = DbProfileManager::get_profile("k", None, None);
    let (group, _) = DbProfileManager::get_group_profile("g", None, None);
    let event = TurnEvent::Loaded {
        profile: Some(profile),
        group: Some(group),
        examples: vec![example()],
    };
    let effects = t.advance(&mut s, event);
    match &effects[0] {
        Effect::Generate { contents, instruction, model, use_search, thinking_level } => {
            assert_eq!(contents.len(), 1);
            assert!(instruction.starts_with("Be kind.\n\n---\n\nFORMATTING"));
            assert!(instruction.contains("User Profile for Ann:\n"));
            assert!(instruction.contains("Group Chat Profile for this group:\n"));
            assert!(instruction.ends_with("User: p\nYou: r\n---\n"));
            assert_eq!(model.name, "chat");
            assert!(use_search);
            assert_eq!(*thinking_level, ThinkingLevel::Medium);
        }
        _ => panic!("not asked"),
    }
}

#[test]
fn a_chosen_model_answers_without_examples() {
    let mut s = session();
    s.state.set_model_preference("c", "other");
    let mut t = turn(None);
    let effects = t.begin(&mut s);
    assert!(matches!(effects[0], Effect::StartTyping));
    match &effects[1] {
        Effect::Load { examples_of, .. } => assert!(examples_of.is_none()),
        _ => panic!("not looked up"),
    }
    let event = TurnEvent::Loaded { profile: None, group: None, examples: vec![example()] };
    match &t.advance(&mut s, event)[0] {
        Effect::Generate { instruction, model, use_search, .. } => {
            assert!(!instruction.contains("examples"));
            assert_eq!(model.name, "other");
            assert_eq!(model.thinking_level, Some(ThinkingLevel::Medium));
            assert!(!use_search);
        }
        _ => panic!("not asked"),
    }
}

#[test]
fn the_chosen_model_decides_by_which_limit_is_measured() {
    for (chosen, measured) in [("chat", "chat"), ("imagen", "imagen"), ("other", "class")] {
        let mut s = session();
        for _ in 0..30 {
            said(&mut s, "x");
        }
        s.state.set_model_preference("c", chosen);
        match &turn(None).begin(&mut s)[1] {
            Effect::CountTokens { model, .. } => assert_eq!(model.name, measured),
            _ => panic!("not measured"),
        }
    }
}

#[test]
fn an_answer_is_sent_piece_by_piece() {
    let mut s = session();
    let mut t = turn(Some("g"));
    to_generating(&mut t, &mut s);
    let effects = t.advance(&mut s, TurnEvent::Generated(Some("one\n\ntwo\n\n".to_string())));
    match &effects[0] {
        Effect::UpdateProfiles { user_history, group } => {
            assert_eq!(user_history, "User: hi\nBot: one\n\ntwo\n\n");
            let (gid, history) = group.as_ref().unwrap();
            assert_eq!(gid, "g");
            assert_eq!(history, "Ann (User): hi\nPiotr (Bot): one\n\ntwo\n\n");
        }
        _ => panic!("profiles not updated"),
    }
    assert!(matches!(&effects[1], Effect::Send { text } if text == "one"));
    assert_eq!(effects.len(), 2);
    assert_eq!(s.state.get_history_snapshot("c")[0].role, "model");

    let effects = t.advance(&mut s, TurnEvent::Sent { ok: true, timestamp: 50 });
    assert!(matches!(effects[0], Effect::Pause { ms: 700 }));
    assert!(matches!(&effects[1], Effect::Send { text } if text == "two"));
    assert_eq!(
        s.state.get_sent_message(50),
        Some(("c".to_string(), "hi".to_string(), "one".to_string()))
    );

    let effects = t.advance(&mut s, TurnEvent::Sent { ok: false, timestamp: 60 });
    assert_eq!(effects.len(), 1);
    assert!(matches!(effects[0], Effect::StopTyping));
    assert_eq!(s.state.get_sent_message(60), None);
    assert!(matches!(t.phase, Phase::Done));
}

#[test]
fn an_empty_answer_ends_the_turn() {
    let mut s = session();
    let mut t = turn(None);
    to_generating(&mut t, &mut s);
    let effects = t.advance(&mut s, TurnEvent::Generated(Some(" \n".to_string())));
    assert!(matches!(effects[1], Effect::StopTyping));
    assert!(matches!(t.phase, Phase::Done));
}

fn posted(effects: &Vec<Effect>) -> String {
    match &effects[0] {
        Effect::Post { text, attachment: None } => {
            assert!(matches!(effects[1], Effect::StopTyping));
            text.clone()
        }
        _ => panic!("not posted"),
    }
}

#[test]
fn a_missing_answer_is_said() {
    let mut s = session();
    let mut t = turn(None);
    to_generating(&mut t, &mut s);
    let effects = t.advance(&mut s, TurnEvent::Generated(None));
    assert_eq!(
        posted(&effects),
        "I tried to think but my brain returned 404. (AI Error - check logs)"
    );
    assert_eq!(s.state.get_history_len("c"), 0);
}

#[test]
fn pictures_are_drawn_sent_and_deleted() {
    let mut s = session();
    let mut t = turn(None);
    t.begin(&mut s);
    let effects = t.advance(&mut s, intent("IMAGE please"));
    assert!(matches!(effects[0], Effect::StartTyping));
    match &effects[1] {
        Effect::Draw { prompt, model } => {
            assert_eq!(prompt, "hi");
            assert_eq!(model.name, "imagen");
        }
        _ => panic!("not drawn"),
    }
    let effects = t.go_on(&mut s, TurnEvent::Drawn(true), 12);
    assert!(matches!(&effects[0], Effect::WriteFile { filename } if filename == "/tmp/piotr_img_12.png"));
    let effects = t.advance(&mut s, TurnEvent::Written(true));
    match &effects[0] {
        Effect::Post { text, attachment } => {
            assert_eq!(text, "Here is your image.");
            assert_eq!(attachment.as_deref(), Some("/tmp/piotr_img_12.png"));
        }
        _ => panic!("not posted"),
    }
    assert!(matches!(effects[1], Effect::Pause { ms: 5000 }));
    assert!(matches!(&effects[2], Effect::RemoveFile { filename } if filename == "/tmp/piotr_img_12.png"));
    assert!(matches!(effects[3], Effect::StopTyping));
}

#[test]
fn pictures_can_fail() {
    let mut s = session();
    let mut t = turn(None);
    t.begin(&mut s);
    t.advance(&mut s, intent("IMAGE"));
    let effects = t.advance(&mut s, TurnEvent::Drawn(false));
    assert_eq!(posted(&effects), "I could not generate that image with imagen. I am sorry.");

    let mut t = turn(None);
    t.begin(&mut s);
    t.advance(&mut s, intent("IMAGE"));
    let a = t.advance(&mut s, TurnEvent::Drawn(true));
    let effects = t.advance(&mut s, TurnEvent::Written(false));
    assert_eq!(
        posted(&effects),
        "I tried to draw something but my pencil broke (write error)."
    );

    // Two pictures have two files.
    let mut t = turn(None);
    t.begin(&mut s);
    t.advance(&mut s, intent("IMAGE"));
    let b = t.advance(&mut s, TurnEvent::Drawn(true));
    match (&a[0], &b[0]) {
        (Effect::WriteFile { filename: x }, Effect::WriteFile { filename: y }) => {
            assert!(x.starts_with("/tmp/piotr_img_") && x.ends_with(".png"));
            assert_ne!(x, y);
        }
        _ => panic!("not written"),
    }
}

#[test]
fn the_bot_types_exactly_while_it_works() {
    let mut s = session();
    let mut t = turn(None);
    let mut typing = false;
    let events = vec![
        intent("FLASH"),
        loaded(),
        TurnEvent::Generated(Some("a\n\nb".to_string())),
        TurnEvent::Sent { ok: true, timestamp: 1 },
        TurnEvent::Sent { ok: true, timestamp: 2 },
    ];
    t.begin(&mut s);
    for event in events {
        for effect in t.advance(&mut s, event) {
            match effect {
                Effect::StartTyping => typing = true,
                Effect::StopTyping => typing = false,
                _ => {}
            }
        }
        assert_eq!(typing, !matches!(t.phase, Phase::Done));
    }
    assert!(!typing);
}

#[test]
fn a_reaction_finds_the_answer_it_is_put_on() {
    let mut s = session();
    let mut t = turn(None);
    to_generating(&mut t, &mut s);
    t.advance(&mut s, TurnEvent::Generated(Some("one\n\ntwo".to_string())));
    t.advance(&mut s, TurnEvent::Sent { ok: true, timestamp: 50 });
    let envelope = Envelope {
        source: Some("+1".to_string()),
        source_number: None,
        source_uuid: None,
        timestamp: Some(99),
        source_name: None,
        source_device: None,
        data_message: Some(DataMessage {
            message: None,
            timestamp: None,
            destination: None,
            destination_number: None,
            destination_uuid: None,
            expires_in_seconds: None,
            view_once: None,
            group_info: None,
            quote: None,
            reaction: Some(Reaction {
                emoji: None,
                target_author: Some("+100".to_string()),
                target_author_number: None,
                target_author_uuid: None,
                target_sent_timestamp: Some(50),
                is_remove: false,
            }),
            mentions: None,
            attachments: None,
        }),
        edit_message: None,
        sync_message: None,
        receipt_message: None,
        typing_message: None,
    };
    match s.handle_message(&envelope).next {
        NextStep::Learn { sent, emoji } => {
            assert_eq!(sent.context_key, "c");
            assert_eq!(sent.prompt, "hi");
            assert_eq!(sent.response, "one");
            assert_eq!(emoji, "");
        }
        _ => panic!("not learned"),
    }
}
