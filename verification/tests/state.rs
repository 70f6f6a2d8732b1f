use piotr::ai::{Content, Part};
use piotr::lru::LruTable;
use piotr::state_manager::{
    StateCommand, StateManager, StateReply, MAX_HISTORY_CONTEXTS, MAX_SENT_MESSAGES,
    MAX_SEQUENCERS,
};

fn user(text: &str) -> Content {
    Content::of_text("user", text.to_string())
}

fn model(text: &str) -> Content {
    Content::of_text("model", text.to_string())
}

fn texts(s: &mut StateManager, key: &str) -> Vec<String> {
    s.get_history_snapshot(key).iter().map(|c| c.parts[0].text.clone().unwrap()).collect()
}

#[test]
fn messages_are_kept_in_order_and_apart() {
    let mut s = StateManager::new();
    s.add_user_message("a", user("1"));
    s.add_model_message("a", model("2"));
    s.add_user_message("b", user("3"));
    assert_eq!(texts(&mut s, "a"), vec!["1", "2"]);
    assert_eq!(texts(&mut s, "b"), vec!["3"]);
    assert_eq!(texts(&mut s, "c"), Vec::<String>::new());
    assert_eq!(s.get_history_len("a"), 2);
    assert_eq!(s.get_last_user_prompt("a").as_deref(), Some("1"));
    assert_eq!(s.get_last_user_prompt("c"), None);
    s.add_user_message("a", Content { role: "user".to_string(), parts: vec![] });
    assert_eq!(s.get_last_user_prompt("a"), None);
    s.add_user_message(
        "a",
        Content { role: "user".to_string(), parts: vec![Part { text: None }] },
    );
    assert_eq!(s.get_last_user_prompt("a"), None);
    s.clear_history("a");
    assert_eq!(s.get_history_len("a"), 0);
    assert_eq!(s.get_history_len("b"), 1);
}

#[test]
fn pruning_takes_the_oldest_messages() {
    let mut s = StateManager::new();
    for i in 0..5 {
        s.add_user_message("a", user(&i.to_string()));
    }
    s.prune_history("a", 2);
    assert_eq!(texts(&mut s, "a"), vec!["2", "3", "4"]);
    s.prune_history("a", 9);
    assert_eq!(s.get_history_len("a"), 0);
    s.prune_history("b", 1);
    assert_eq!(s.get_history_len("b"), 0);
}

#[test]
fn the_conversation_unused_for_longest_goes() {
    let mut s = StateManager::new();
    for i in 0..MAX_HISTORY_CONTEXTS {
        s.add_user_message(&i.to_string(), user("x"));
    }
    assert_eq!(s.get_history_len("0"), 1);
    s.add_user_message("new", user("x"));
    assert_eq!(s.get_history_len("1"), 0);
    assert_eq!(s.get_history_len("0"), 1);
    assert_eq!(s.get_history_len("2"), 1);
    assert_eq!(s.get_history_len("new"), 1);
}

#[test]
fn sequencers_are_found_replaced_and_evicted() {
    let mut s = StateManager::new();
    let none = vec![];
    assert_eq!(s.get_sequencer_tx("a", &none), None);
    s.insert_sequencer_tx("a", 1, &none);
    assert_eq!(s.get_sequencer_tx("a", &none), Some(1));
    s.insert_sequencer_tx("a", 2, &none);
    assert_eq!(s.get_sequencer_tx("a", &none), Some(2));
    assert_eq!(s.get_sequencer_tx("a", &vec![2]), None);
    assert_eq!(s.get_sequencer_tx("a", &none), None);

    for i in 0..MAX_SEQUENCERS {
        s.insert_sequencer_tx(&i.to_string(), i as u64, &none);
    }
    assert_eq!(s.get_sequencer_tx("0", &none), Some(0));
    s.insert_sequencer_tx("new", 5000, &none);
    assert_eq!(s.get_sequencer_tx("1", &none), None);
    assert_eq!(s.get_sequencer_tx("0", &none), Some(0));
    s.insert_sequencer_tx("newer", 5001, &vec![7]);
    assert_eq!(s.get_sequencer_tx("7", &none), None);
    assert_eq!(s.get_sequencer_tx("2", &none), Some(2));
    let ids = s.sequencer_ids();
    assert_eq!(ids.len(), MAX_SEQUENCERS);
    assert_eq!(ids[ids.len() - 1], 2);
    assert!(!ids.contains(&7));
}

#[test]
fn models_are_preferred_until_taken_back() {
    let mut s = StateManager::new();
    assert_eq!(s.get_model_preference("a"), None);
    s.set_model_preference("a", "m");
    s.set_model_preference("b", "n");
    assert_eq!(s.get_model_preference("a").as_deref(), Some("m"));
    s.remove_model_preference("a");
    assert_eq!(s.get_model_preference("a"), None);
    assert_eq!(s.get_model_preference("b").as_deref(), Some("n"));
}

fn send(s: &mut StateManager, t: u64) {
    s.insert_sent_message(t, "c".to_string(), "p".to_string(), t.to_string());
}

#[test]
fn the_oldest_sent_message_is_forgotten() {
    let mut s = StateManager::new();
    for t in 0..MAX_SENT_MESSAGES as u64 {
        send(&mut s, t);
    }
    assert_eq!(
        s.get_sent_message(0),
        Some(("c".to_string(), "p".to_string(), "0".to_string()))
    );
    send(&mut s, 1_000_000);
    assert_eq!(s.get_sent_message(0), None);
    assert!(s.get_sent_message(1).is_some());
    assert!(s.get_sent_message(1_000_000).is_some());
}

#[test]
fn commands_do_what_the_methods_do() {
    let mut s = StateManager::new();
    let key = || "a".to_string();
    assert!(matches!(
        s.handle(StateCommand::AddUserMessage { context_key: key(), content: user("q") }),
        StateReply::Done
    ));
    s.handle(StateCommand::AddModelMessage { context_key: key(), content: model("r") });
    assert!(matches!(
        s.handle(StateCommand::GetHistoryLen { context_key: key() }),
        StateReply::Length(2)
    ));
    assert!(matches!(
        s.handle(StateCommand::GetHistorySnapshot { context_key: key() }),
        StateReply::History(h) if h.len() == 2
    ));
    assert!(matches!(
        s.handle(StateCommand::GetLastUserPrompt { context_key: key() }),
        StateReply::Prompt(Some(p)) if p == "q"
    ));
    s.handle(StateCommand::PruneHistory { context_key: key(), num_messages: 1 });
    assert_eq!(s.get_history_len("a"), 1);
    s.handle(StateCommand::ClearHistory { context_key: key() });
    assert_eq!(s.get_history_len("a"), 0);
    s.handle(StateCommand::InsertSequencerTx { context_key: key(), tx: 9, closed: vec![] });
    assert!(matches!(
        s.handle(StateCommand::GetSequencerTx { context_key: key(), closed: vec![] }),
        StateReply::Sequencer(Some(9))
    ));
    s.handle(StateCommand::SetModelPreference { context_key: key(), model: "m".to_string() });
    assert!(matches!(
        s.handle(StateCommand::GetModelPreference { context_key: key() }),
        StateReply::Preference(Some(m)) if m == "m"
    ));
    s.handle(StateCommand::RemoveModelPreference { context_key: key() });
    assert!(matches!(
        s.handle(StateCommand::GetModelPreference { context_key: key() }),
        StateReply::Preference(None)
    ));
    s.handle(StateCommand::InsertSentMessage {
        timestamp: 3,
        context_key: key(),
        prompt: "p".to_string(),
        response: "r".to_string(),
    });
    assert!(matches!(
        s.handle(StateCommand::GetSentMessage { timestamp: 3 }),
        StateReply::Sent(Some((c, _, _))) if c == "a"
    ));
}

#[test]
fn tables_remember_the_order_of_use() {
    let mut t: LruTable<u8> = LruTable::new();
    t.push("a", 1);
    t.push("b", 2);
    t.touch("a");
    assert_eq!(t.at(0), (&"b".to_string(), &2));
    t.make_room(2);
    assert_eq!(t.len(), 1);
    assert!(!t.contains_key("b"));
    assert_eq!(t.get("a"), Some(&1));
    assert_eq!(t.take("a"), Some(1));
    assert_eq!(t.take("a"), None);
    t.push("c", 3);
    t.remove_at(0);
    assert_eq!(t.len(), 0);
}
