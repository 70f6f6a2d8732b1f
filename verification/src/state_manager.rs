//! The state of all conversations.
use std::collections::{HashMap, VecDeque};

use vstd::hash_map::StringHashMap;
use vstd::prelude::*;

use crate::ai::{Content, ContentView};
use crate::lru::{
    has_key, position, position_by_keys, position_is_first, touched, unique_keys,
    unique_keys_kept, value_of, with_room, without, LruTable,
};
use crate::text::{opt_view, same_text};

verus! {

/// Where an answer goes: an address, and the group where there is one.
pub type DestinationInfo = (String, Option<String>);

/// A prompt that waits for its turn in a conversation.
#[derive(Debug)]
pub struct ContextRequest {
    pub prompt: String,
    pub timestamp: u64,
    pub profile_key: String,
    pub source_name: Option<String>,
    pub is_explicit_interaction: bool,
}

/// What a waiting prompt says.
#[verifier::ext_equal]
pub struct ContextRequestView {
    pub prompt: Seq<char>,
    pub timestamp: u64,
    pub profile_key: Seq<char>,
    pub source_name: Option<Seq<char>>,
    pub is_explicit_interaction: bool,
}

impl View for ContextRequest {
    type V = ContextRequestView;

    open spec fn view(&self) -> ContextRequestView {
        ContextRequestView {
            prompt: self.prompt@,
            timestamp: self.timestamp,
            profile_key: self.profile_key@,
            source_name: opt_view(self.source_name),
            is_explicit_interaction: self.is_explicit_interaction,
        }
    }
}

/// An answer that was sent, with the conversation and the prompt it belongs to.
#[derive(Debug)]
pub struct SentMessage {
    pub context_key: String,
    pub prompt: String,
    pub response: String,
}

/// What a sent answer says.
#[verifier::ext_equal]
pub struct SentMessageView {
    pub context_key: Seq<char>,
    pub prompt: Seq<char>,
    pub response: Seq<char>,
}

impl View for SentMessage {
    type V = SentMessageView;

    open spec fn view(&self) -> SentMessageView {
        SentMessageView {
            context_key: self.context_key@,
            prompt: self.prompt@,
            response: self.response@,
        }
    }
}

/// Number of sent answers that are remembered.
pub const MAX_SENT_MESSAGES: usize = 10_000;

/// Number of conversations that have a sequencer.
pub const MAX_SEQUENCERS: usize = 1_000;

/// Number of conversations whose history is kept.
pub const MAX_HISTORY_CONTEXTS: usize = 10_000;

/// The messages of each conversation; the conversation used last stands last.
pub type Histories = Seq<(Seq<char>, Seq<ContentView>)>;

/// The state of all conversations.
#[verifier::ext_equal]
pub struct StateView {
    pub history: Seq<(Seq<char>, Seq<ContentView>)>,
    /// The sequencer of each conversation; the one used last stands last.
    pub sequencers: Seq<(Seq<char>, u64)>,
    pub model_preferences: Map<Seq<char>, Seq<char>>,
    pub sent_messages: Map<u64, SentMessageView>,
    /// The times of sent answers in the order in which they came.
    pub sent_messages_order: Seq<u64>,
}

// ---------------------------------------------------------------------------
// What the operations do
// ---------------------------------------------------------------------------

/// The histories with `message` at the end of that of `key`, which is then the
/// one used last.
pub open spec fn history_with(h: Histories, key: Seq<char>, message: ContentView) -> Histories {
    if has_key(h, key) {
        without(h, key).push((key, value_of(h, key).push(message)))
    } else {
        with_room(h, MAX_HISTORY_CONTEXTS as nat).push((key, seq![message]))
    }
}

/// The messages of a conversation; none where it has no history.
pub open spec fn messages_of(h: Histories, key: Seq<char>) -> Seq<ContentView> {
    if has_key(h, key) {
        value_of(h, key)
    } else {
        Seq::empty()
    }
}

/// The smaller of two numbers.
pub open spec fn least(a: int, b: int) -> int {
    if a < b {
        a
    } else {
        b
    }
}

/// The histories without the oldest `n` messages of that of `key`, which is
/// then the one used last.
pub open spec fn history_pruned(h: Histories, key: Seq<char>, n: nat) -> Histories {
    if has_key(h, key) {
        let m = value_of(h, key);
        without(h, key).push((key, m.skip(least(n as int, m.len() as int))))
    } else {
        h
    }
}

/// The text with which the latest message of a user begins.
pub open spec fn last_user_text(m: Seq<ContentView>) -> Option<Seq<char>>
    decreases m.len(),
{
    if m.len() == 0 {
        None
    } else if m.last().role == "user"@ {
        if m.last().parts.len() > 0 {
            m.last().parts[0]
        } else {
            None
        }
    } else {
        last_user_text(m.drop_last())
    }
}

/// The sequencers that are still open.
pub open spec fn open_sequencers(
    t: Seq<(Seq<char>, u64)>,
    closed: Seq<u64>,
) -> Seq<(Seq<char>, u64)>
    decreases t.len(),
{
    if t.len() == 0 {
        Seq::empty()
    } else {
        let before = open_sequencers(t.drop_last(), closed);
        if closed.contains(t.last().1) {
            before
        } else {
            before.push(t.last())
        }
    }
}

/// The sequencers with `tx` under `key` as the one used last. Closed ones go,
/// and where there are too many, the one that was not used for longest.
pub open spec fn sequencers_with(
    t: Seq<(Seq<char>, u64)>,
    closed: Seq<u64>,
    key: Seq<char>,
    tx: u64,
) -> Seq<(Seq<char>, u64)> {
    let kept = open_sequencers(t, closed);
    if has_key(kept, key) {
        without(kept, key).push((key, tx))
    } else {
        with_room(kept, MAX_SEQUENCERS as nat).push((key, tx))
    }
}

/// The sequencer of a conversation, where it has one that is open.
pub open spec fn sequencer_of(
    t: Seq<(Seq<char>, u64)>,
    closed: Seq<u64>,
    key: Seq<char>,
) -> Option<u64> {
    if has_key(t, key) && !closed.contains(value_of(t, key)) {
        Some(value_of(t, key))
    } else {
        None
    }
}

/// The sequencers after one was chosen for a conversation: its own as long as
/// that is open, else a fresh one.
pub open spec fn sequencers_after_choice(
    t: Seq<(Seq<char>, u64)>,
    closed: Seq<u64>,
    key: Seq<char>,
    fresh: u64,
) -> Seq<(Seq<char>, u64)> {
    if sequencer_of(t, closed, key) is Some {
        touched(t, key)
    } else {
        sequencers_with(without(t, key), closed, key, fresh)
    }
}

/// The sequencer that is chosen for a conversation.
pub open spec fn chosen_sequencer(
    t: Seq<(Seq<char>, u64)>,
    closed: Seq<u64>,
    key: Seq<char>,
    fresh: u64,
) -> u64 {
    match sequencer_of(t, closed, key) {
        Some(tx) => tx,
        None => fresh,
    }
}

/// A choice of a sequencer: for which conversation, which one is at hand where a
/// new one is needed, and which ones have ended.
pub struct SequencerChoice {
    pub key: Seq<char>,
    pub fresh: u64,
    pub closed: Seq<u64>,
}

/// The sequencers after one choice after the other.
pub open spec fn sequencers_after_choices(
    t: Seq<(Seq<char>, u64)>,
    choices: Seq<SequencerChoice>,
) -> Seq<(Seq<char>, u64)>
    decreases choices.len(),
{
    if choices.len() == 0 {
        t
    } else {
        sequencers_after_choice(
            sequencers_after_choices(t, choices.drop_last()),
            choices.last().closed,
            choices.last().key,
            choices.last().fresh,
        )
    }
}

/// The conversations other than `key` for which there were choices.
pub open spec fn other_conversations(choices: Seq<SequencerChoice>, key: Seq<char>) -> Set<
    Seq<char>,
> {
    choices.map_values(|c: SequencerChoice| c.key).to_set().remove(key)
}

/// The sent answers from which the oldest is dropped where there are too many.
pub open spec fn sent_with_room(
    sent: Map<u64, SentMessageView>,
    order: Seq<u64>,
) -> (Map<u64, SentMessageView>, Seq<u64>) {
    if sent.len() >= MAX_SENT_MESSAGES && order.len() > 0 {
        (sent.remove(order[0]), order.drop_first())
    } else {
        (sent, order)
    }
}

/// The sent answers with one more.
pub open spec fn sent_with(s: StateView, time: u64, message: SentMessageView) -> StateView {
    let (sent, order) = sent_with_room(s.sent_messages, s.sent_messages_order);
    StateView {
        sent_messages: sent.insert(time, message),
        sent_messages_order: order.push(time),
        ..s
    }
}

/// The state before anything happened.
pub open spec fn initial_state() -> StateView {
    StateView {
        history: Seq::empty(),
        sequencers: Seq::empty(),
        model_preferences: Map::empty(),
        sent_messages: Map::empty(),
        sent_messages_order: Seq::empty(),
    }
}

/// What every state keeps: no conversation occurs twice, the limits on
/// histories and sequencers hold, and every sent answer has its place in the
/// order.
pub open spec fn state_ok(s: StateView) -> bool {
    &&& unique_keys(s.history)
    &&& s.history.len() <= MAX_HISTORY_CONTEXTS
    &&& unique_keys(s.sequencers)
    &&& s.sequencers.len() <= MAX_SEQUENCERS
    &&& forall|t: u64|
        s.sent_messages.contains_key(t) ==> #[trigger] s.sent_messages_order.contains(t)
}

// ---------------------------------------------------------------------------
// The stored form
// ---------------------------------------------------------------------------

spec fn contents(d: VecDeque<Content>) -> Seq<ContentView> {
    d@.map_values(|c: Content| c@)
}

spec fn histories(t: Seq<(Seq<char>, VecDeque<Content>)>) -> Histories {
    t.map_values(|e: (Seq<char>, VecDeque<Content>)| (e.0, contents(e.1)))
}

proof fn lemma_histories(t: Seq<(Seq<char>, VecDeque<Content>)>, key: Seq<char>)
    ensures
        position(histories(t), key) == position(t, key),
        has_key(histories(t), key) == has_key(t, key),
        has_key(t, key) ==> value_of(histories(t), key) == contents(value_of(t, key)),
        histories(without(t, key)) == without(histories(t), key),
        histories(touched(t, key)) == touched(histories(t), key),
        histories(with_room(t, MAX_HISTORY_CONTEXTS as nat)) == with_room(
            histories(t),
            MAX_HISTORY_CONTEXTS as nat,
        ),
{
    let h = histories(t);
    position_by_keys(t, h, key);
    position_is_first(t, key);
    assert(histories(without(t, key)) =~= without(h, key));
    assert(histories(touched(t, key)) =~= touched(h, key));
    assert(histories(with_room(t, MAX_HISTORY_CONTEXTS as nat)) =~= with_room(
        h,
        MAX_HISTORY_CONTEXTS as nat,
    ));
}

/// The state of all conversations.
pub struct StateManager {
    history: LruTable<VecDeque<Content>>,
    sequencers: LruTable<u64>,
    model_preferences: StringHashMap<String>,
    sent_messages: HashMap<u64, SentMessage>,
    sent_messages_order: VecDeque<u64>,
}

impl View for StateManager {
    type V = StateView;

    closed spec fn view(&self) -> StateView {
        StateView {
            history: histories(self.history@),
            sequencers: self.sequencers@,
            model_preferences: self.model_preferences@.map_values(|s: String| s@),
            sent_messages: self.sent_messages@.map_values(|m: SentMessage| m@),
            sent_messages_order: self.sent_messages_order@,
        }
    }
}

impl StateManager {
    /// A state without conversations.
    pub fn new() -> (r: Self)
        ensures
            r@ == initial_state(),
            state_ok(r@),
    {
        let r = StateManager {
            history: LruTable::new(),
            sequencers: LruTable::new(),
            model_preferences: StringHashMap::new(),
            sent_messages: HashMap::new(),
            sent_messages_order: VecDeque::new(),
        };
        assert(r@ =~= initial_state());
        r
    }

    fn add_message(&mut self, context_key: &str, content: Content)
        requires
            state_ok(old(self)@),
        ensures
            final(self)@ == (StateView {
                history: history_with(old(self)@.history, context_key@, content@),
                ..old(self)@
            }),
            state_ok(final(self)@),
    {
        proof {
            lemma_histories(self.history@, context_key@);
            unique_keys_kept(
                self@.history,
                context_key@,
                value_of(self@.history, context_key@).push(content@),
            );
        }
        let ghost before = self@;
        match self.history.take(context_key) {
            Some(messages) => {
                let mut messages = messages;
                let ghost m = contents(messages);
                messages.push_back(content);
                assert(contents(messages) =~= m.push(content@));
                self.history.push(context_key, messages);
            },
            None => {
                self.history.make_room(MAX_HISTORY_CONTEXTS);
                let mut messages: VecDeque<Content> = VecDeque::new();
                messages.push_back(content);
                assert(contents(messages) =~= seq![content@]);
                self.history.push(context_key, messages);
                proof {
                    let room = with_room(before.history, MAX_HISTORY_CONTEXTS as nat);
                    position_is_first(before.history, context_key@);
                    position_is_first(room, context_key@);
                    assert(!has_key(room, context_key@)) by {
                        if has_key(room, context_key@) {
                            let p = position(room, context_key@);
                            if room.len() < before.history.len() {
                                assert(room[p] == before.history[p + 1]);
                            }
                        }
                    }
                    unique_keys_kept(room, context_key@, seq![content@]);
                }
            },
        }
        assert(self@.history =~= history_with(before.history, context_key@, content@));
    }

    /// Adds a message of a user to a conversation.
    pub fn add_user_message(&mut self, context_key: &str, content: Content)
        requires
            state_ok(old(self)@),
        ensures
            final(self)@ == (StateView {
                history: history_with(old(self)@.history, context_key@, content@),
                ..old(self)@
            }),
            state_ok(final(self)@),
    {
        self.add_message(context_key, content);
    }

    /// Adds a message of the model to a conversation.
    pub fn add_model_message(&mut self, context_key: &str, content: Content)
        requires
            state_ok(old(self)@),
        ensures
            final(self)@ == (StateView {
                history: history_with(old(self)@.history, context_key@, content@),
                ..old(self)@
            }),
            state_ok(final(self)@),
    {
        self.add_message(context_key, content);
    }

    fn touch_history(&mut self, context_key: &str)
        requires
            state_ok(old(self)@),
        ensures
            final(self)@ == (StateView {
                history: touched(old(self)@.history, context_key@),
                ..old(self)@
            }),
            messages_of(final(self)@.history, context_key@) == messages_of(
                old(self)@.history,
                context_key@,
            ),
            has_key(final(self)@.history, context_key@) == has_key(
                old(self)@.history,
                context_key@,
            ),
            state_ok(final(self)@),
    {
        let ghost before = self@.history;
        proof {
            lemma_histories(self.history@, context_key@);
            unique_keys_kept(before, context_key@, value_of(before, context_key@));
            touching_keeps_messages(before, context_key@, context_key@);
        }
        self.history.touch(context_key);
    }

    /// A copy of the messages of a conversation, which is then the one used last.
    pub fn get_history_snapshot(&mut self, context_key: &str) -> (r: Vec<Content>)
        requires
            state_ok(old(self)@),
        ensures
            final(self)@ == (StateView {
                history: touched(old(self)@.history, context_key@),
                ..old(self)@
            }),
            r@.map_values(|c: Content| c@) == messages_of(old(self)@.history, context_key@),
            state_ok(final(self)@),
    {
        self.touch_history(context_key);
        let mut out: Vec<Content> = Vec::new();
        proof {
            lemma_histories(self.history@, context_key@);
        }
        match self.history.get(context_key) {
            Some(messages) => {
                let mut i: usize = 0;
                while i < messages.len()
                    invariant
                        i <= messages@.len(),
                        out@.map_values(|c: Content| c@) =~= contents(*messages).take(i as int),
                    decreases messages@.len() - i,
                {
                    let copy = messages[i].clone();
                    assert(contents(*messages).take(i + 1) =~= contents(*messages).take(
                        i as int,
                    ).push(copy@));
                    out.push(copy);
                    i += 1;
                }
                assert(contents(*messages).take(i as int) =~= contents(*messages));
            },
            None => {},
        }
        assert(out@.map_values(|c: Content| c@) =~= messages_of(self@.history, context_key@));
        out
    }

    /// The number of messages of a conversation, which is then the one used last.
    pub fn get_history_len(&mut self, context_key: &str) -> (r: usize)
        requires
            state_ok(old(self)@),
        ensures
            final(self)@ == (StateView {
                history: touched(old(self)@.history, context_key@),
                ..old(self)@
            }),
            r == messages_of(old(self)@.history, context_key@).len(),
            state_ok(final(self)@),
    {
        self.touch_history(context_key);
        proof {
            lemma_histories(self.history@, context_key@);
        }
        match self.history.get(context_key) {
            Some(messages) => messages.len(),
            None => 0,
        }
    }

    /// Forgets a conversation.
    pub fn clear_history(&mut self, context_key: &str)
        requires
            state_ok(old(self)@),
        ensures
            final(self)@ == (StateView {
                history: without(old(self)@.history, context_key@),
                ..old(self)@
            }),
            state_ok(final(self)@),
    {
        proof {
            lemma_histories(self.history@, context_key@);
            unique_keys_kept(self@.history, context_key@, Seq::empty());
        }
        let _ = self.history.take(context_key);
    }

    /// Forgets the oldest messages of a conversation, which is then the one
    /// used last.
    pub fn prune_history(&mut self, context_key: &str, num_messages: usize)
        requires
            state_ok(old(self)@),
        ensures
            final(self)@ == (StateView {
                history: history_pruned(old(self)@.history, context_key@, num_messages as nat),
                ..old(self)@
            }),
            state_ok(final(self)@),
    {
        let ghost before = self@.history;
        proof {
            lemma_histories(self.history@, context_key@);
        }
        match self.history.take(context_key) {
            Some(messages) => {
                let mut messages = messages;
                let ghost m = contents(messages);
                let mut k: usize = 0;
                assert(m.skip(0) =~= m);
                while k < num_messages && messages.len() > 0
                    invariant
                        k <= num_messages,
                        k <= m.len(),
                        contents(messages) =~= m.skip(k as int),
                    decreases num_messages - k,
                {
                    let _ = messages.pop_front();
                    assert(contents(messages) =~= m.skip(k as int).drop_first());
                    k += 1;
                }
                self.history.push(context_key, messages);
                proof {
                    unique_keys_kept(before, context_key@, contents(messages));
                }
            },
            None => {},
        }
        assert(self@.history =~= history_pruned(before, context_key@, num_messages as nat));
    }

    /// The text with which the latest message of a user in a conversation
    /// begins. The conversation is then the one used last.
    pub fn get_last_user_prompt(&mut self, context_key: &str) -> (r: Option<String>)
        requires
            state_ok(old(self)@),
        ensures
            final(self)@ == (StateView {
                history: touched(old(self)@.history, context_key@),
                ..old(self)@
            }),
            opt_view(r) == last_user_text(messages_of(old(self)@.history, context_key@)),
            state_ok(final(self)@),
    {
        self.touch_history(context_key);
        proof {
            lemma_histories(self.history@, context_key@);
        }
        match self.history.get(context_key) {
            Some(messages) => last_prompt(messages),
            None => None,
        }
    }

    /// The sequencer of a conversation, which is then the one used last. One
    /// that is among the `closed` ones is forgotten.
    pub fn get_sequencer_tx(&mut self, context_key: &str, closed: &Vec<u64>) -> (r: Option<u64>)
        requires
            state_ok(old(self)@),
        ensures
            ({
                let t = old(self)@.sequencers;
                let tx = value_of(t, context_key@);
                if !has_key(t, context_key@) {
                    r is None && final(self)@ == old(self)@
                } else if closed@.contains(tx) {
                    r is None && final(self)@ == (StateView {
                        sequencers: without(t, context_key@),
                        ..old(self)@
                    })
                } else {
                    r == Some(tx) && final(self)@ == (StateView {
                        sequencers: touched(t, context_key@),
                        ..old(self)@
                    })
                }
            }),
            state_ok(final(self)@),
    {
        proof {
            unique_keys_kept(
                self@.sequencers,
                context_key@,
                value_of(self@.sequencers, context_key@),
            );
        }
        let found: Option<u64> = match self.sequencers.get(context_key) {
            Some(tx) => Some(*tx),
            None => None,
        };
        match found {
            Some(tx) => {
                if contains_id(closed, tx) {
                    let _ = self.sequencers.take(context_key);
                    None
                } else {
                    self.sequencers.touch(context_key);
                    Some(tx)
                }
            },
            None => None,
        }
    }

    /// Sets the sequencer of a conversation, which is then the one used last.
    /// The `closed` ones are forgotten first.
    pub fn insert_sequencer_tx(&mut self, context_key: &str, tx: u64, closed: &Vec<u64>)
        requires
            state_ok(old(self)@),
        ensures
            final(self)@ == (StateView {
                sequencers: sequencers_with(old(self)@.sequencers, closed@, context_key@, tx),
                ..old(self)@
            }),
            state_ok(final(self)@),
    {
        let ghost all = self.sequencers@;
        let ghost start = *self;
        let mut i: usize = 0;
        let mut seen: usize = 0;
        let total = self.sequencers.len();
        assert(all.take(0) =~= Seq::empty());
        assert(all.skip(0) =~= all);
        while i < self.sequencers.len()
            invariant
                seen <= all.len(),
                total == all.len(),
                i == open_sequencers(all.take(seen as int), closed@).len(),
                self.sequencers@ =~= open_sequencers(all.take(seen as int), closed@) + all.skip(
                    seen as int,
                ),
                self.history == start.history,
                self.model_preferences == start.model_preferences,
                self.sent_messages == start.sent_messages,
                self.sent_messages_order == start.sent_messages_order,
            decreases all.len() - seen,
        {
            let ghost kept = open_sequencers(all.take(seen as int), closed@);
            assert(seen < all.len());
            assert(all.take(seen + 1).drop_last() =~= all.take(seen as int));
            assert(all.take(seen + 1).last() == all[seen as int]);
            assert(self.sequencers@[i as int] == all[seen as int]);
            let is_closed = contains_id(closed, *self.sequencers.at(i).1);
            if is_closed {
                self.sequencers.remove_at(i);
                assert(self.sequencers@ =~= kept + all.skip(seen + 1));
            } else {
                assert(self.sequencers@ =~= kept.push(all[seen as int]) + all.skip(seen + 1));
                i += 1;
            }
            seen += 1;
        }
        let ghost kept = open_sequencers(all, closed@);
        assert(all.take(seen as int) =~= all);
        assert(self.sequencers@ =~= kept);
        proof {
            open_sequencers_keep_keys_unique(all, closed@);
            unique_keys_kept(kept, context_key@, tx);
        }
        if self.sequencers.contains_key(context_key) {
            let _ = self.sequencers.take(context_key);
        } else {
            self.sequencers.make_room(MAX_SEQUENCERS);
            proof {
                let room = with_room(kept, MAX_SEQUENCERS as nat);
                position_is_first(kept, context_key@);
                position_is_first(room, context_key@);
                assert(!has_key(room, context_key@)) by {
                    if has_key(room, context_key@) {
                        let p = position(room, context_key@);
                        if room.len() < kept.len() {
                            assert(room[p] == kept[p + 1]);
                        }
                    }
                }
                unique_keys_kept(room, context_key@, tx);
            }
        }
        self.sequencers.push(context_key, tx);
        assert(self@.history == start@.history);
        assert(self@ =~= (StateView {
            sequencers: sequencers_with(all, closed@, context_key@, tx),
            ..start@
        }));
    }

    /// The sequencers that conversations still have.
    pub fn sequencer_ids(&self) -> (r: Vec<u64>)
        ensures
            r@ == self@.sequencers.map_values(|e: (Seq<char>, u64)| e.1),
    {
        let mut out: Vec<u64> = Vec::new();
        let mut i: usize = 0;
        while i < self.sequencers.len()
            invariant
                i <= self.sequencers@.len(),
                out@.len() == i,
                forall|j: int| 0 <= j < i ==> #[trigger] out@[j] == self.sequencers@[j].1,
            decreases self.sequencers@.len() - i,
        {
            out.push(*self.sequencers.at(i).1);
            i += 1;
        }
        assert(out@ =~= self@.sequencers.map_values(|e: (Seq<char>, u64)| e.1));
        out
    }

    /// The model that was chosen for a conversation.
    pub fn get_model_preference(&self, context_key: &str) -> (r: Option<String>)
        ensures
            r is Some <==> self@.model_preferences.contains_key(context_key@),
            r matches Some(m) ==> m@ == self@.model_preferences[context_key@],
    {
        match self.model_preferences.get(context_key) {
            Some(model) => Some(model.clone()),
            None => None,
        }
    }

    /// Chooses a model for a conversation.
    pub fn set_model_preference(&mut self, context_key: &str, model: &str)
        requires
            state_ok(old(self)@),
        ensures
            final(self)@ == (StateView {
                model_preferences: old(self)@.model_preferences.insert(context_key@, model@),
                ..old(self)@
            }),
            state_ok(final(self)@),
    {
        let ghost before = self@.model_preferences;
        self.model_preferences.insert(context_key.to_string(), model.to_string());
        assert(self@.model_preferences =~= before.insert(context_key@, model@));
    }

    /// Takes the choice of a model for a conversation back.
    pub fn remove_model_preference(&mut self, context_key: &str)
        requires
            state_ok(old(self)@),
        ensures
            final(self)@ == (StateView {
                model_preferences: old(self)@.model_preferences.remove(context_key@),
                ..old(self)@
            }),
            state_ok(final(self)@),
    {
        let ghost before = self@.model_preferences;
        self.model_preferences.remove(context_key);
        assert(self@.model_preferences =~= before.remove(context_key@));
    }

    /// Remembers an answer that was sent at a time. Where too many are
    /// remembered, the oldest is forgotten.
    pub fn insert_sent_message(
        &mut self,
        timestamp: u64,
        context_key: String,
        prompt: String,
        response: String,
    )
        requires
            state_ok(old(self)@),
        ensures
            final(self)@ == sent_with(
                old(self)@,
                timestamp,
                SentMessageView {
                    context_key: context_key@,
                    prompt: prompt@,
                    response: response@,
                },
            ),
            state_ok(final(self)@),
    {
        let ghost start = self@;
        let ghost raw = self.sent_messages@;
        assert(raw.len() == start.sent_messages.len()) by {
            assert(raw.dom() =~= start.sent_messages.dom());
        }
        if self.sent_messages.len() >= MAX_SENT_MESSAGES {
            if let Some(oldest) = self.sent_messages_order.pop_front() {
                let _ = self.sent_messages.remove(&oldest);
            }
        }
        let ghost (sent, order) = sent_with_room(start.sent_messages, start.sent_messages_order);
        assert(self@.sent_messages =~= sent);
        assert(self@.sent_messages_order =~= order);
        let _ = self.sent_messages.insert(timestamp, SentMessage { context_key, prompt, response });
        self.sent_messages_order.push_back(timestamp);
        let ghost message = SentMessageView {
            context_key: context_key@,
            prompt: prompt@,
            response: response@,
        };
        assert(self@.sent_messages =~= sent.insert(timestamp, message));
        assert(self@ =~= sent_with(start, timestamp, message));
        proof {
            sent_messages_have_their_place(start, timestamp, message);
        }
    }

    /// The answer that was sent at a time.
    pub fn get_sent_message(&self, timestamp: u64) -> (r: Option<(String, String, String)>)
        ensures
            r is Some <==> self@.sent_messages.contains_key(timestamp),
            r matches Some(m) ==> (SentMessageView {
                context_key: m.0@,
                prompt: m.1@,
                response: m.2@,
            }) == self@.sent_messages[timestamp],
    {
        match self.sent_messages.get(&timestamp) {
            Some(m) => Some((m.context_key.clone(), m.prompt.clone(), m.response.clone())),
            None => None,
        }
    }
}

fn last_prompt(messages: &VecDeque<Content>) -> (r: Option<String>)
    ensures
        opt_view(r) == last_user_text(contents(*messages)),
{
    let ghost m = contents(*messages);
    let mut i: usize = messages.len();
    assert(m.take(i as int) =~= m);
    while i > 0
        invariant
            i <= messages@.len(),
            m == contents(*messages),
            last_user_text(m.take(i as int)) == last_user_text(m),
        decreases i,
    {
        let message = &messages[i - 1];
        assert(m.take(i as int).last() == message@);
        if same_text(message.role.as_str(), "user") {
            if message.parts.len() > 0 {
                assert(message@.parts[0] == message.parts@[0]@);
                return message.parts[0].text.clone();
            }
            return None;
        }
        assert(m.take(i as int).drop_last() =~= m.take(i - 1));
        i -= 1;
    }
    None
}

fn contains_id(list: &Vec<u64>, id: u64) -> (r: bool)
    ensures
        r == list@.contains(id),
{
    let mut i: usize = 0;
    while i < list.len()
        invariant
            i <= list@.len(),
            forall|j: int| 0 <= j < i ==> list@[j] != id,
        decreases list@.len() - i,
    {
        if list[i] == id {
            return true;
        }
        i += 1;
    }
    false
}

// ---------------------------------------------------------------------------
// Commands
// ---------------------------------------------------------------------------

/// An operation on the state. The operations on sequencers name the ones that
/// are closed at that time.
#[derive(Debug)]
pub enum StateCommand {
    AddUserMessage { context_key: String, content: Content },
    AddModelMessage { context_key: String, content: Content },
    GetHistorySnapshot { context_key: String },
    GetHistoryLen { context_key: String },
    ClearHistory { context_key: String },
    PruneHistory { context_key: String, num_messages: usize },
    GetLastUserPrompt { context_key: String },
    GetSequencerTx { context_key: String, closed: Vec<u64> },
    InsertSequencerTx { context_key: String, tx: u64, closed: Vec<u64> },
    GetModelPreference { context_key: String },
    SetModelPreference { context_key: String, model: String },
    RemoveModelPreference { context_key: String },
    InsertSentMessage {
        timestamp: u64,
        context_key: String,
        prompt: String,
        response: String,
    },
    GetSentMessage { timestamp: u64 },
}

/// The answer to a command.
#[derive(Debug)]
pub enum StateReply {
    /// The command asks for nothing.
    Done,
    History(Vec<Content>),
    Length(usize),
    Prompt(Option<String>),
    Sequencer(Option<u64>),
    Preference(Option<String>),
    Sent(Option<(String, String, String)>),
}

/// The state after a command.
pub open spec fn state_after(s: StateView, cmd: StateCommand) -> StateView {
    match cmd {
        StateCommand::AddUserMessage { context_key, content } => StateView {
            history: history_with(s.history, context_key@, content@),
            ..s
        },
        StateCommand::AddModelMessage { context_key, content } => StateView {
            history: history_with(s.history, context_key@, content@),
            ..s
        },
        StateCommand::GetHistorySnapshot { context_key } => StateView {
            history: touched(s.history, context_key@),
            ..s
        },
        StateCommand::GetHistoryLen { context_key } => StateView {
            history: touched(s.history, context_key@),
            ..s
        },
        StateCommand::ClearHistory { context_key } => StateView {
            history: without(s.history, context_key@),
            ..s
        },
        StateCommand::PruneHistory { context_key, num_messages } => StateView {
            history: history_pruned(s.history, context_key@, num_messages as nat),
            ..s
        },
        StateCommand::GetLastUserPrompt { context_key } => StateView {
            history: touched(s.history, context_key@),
            ..s
        },
        StateCommand::GetSequencerTx { context_key, closed } => StateView {
            sequencers: if has_key(s.sequencers, context_key@) && closed@.contains(
                value_of(s.sequencers, context_key@),
            ) {
                without(s.sequencers, context_key@)
            } else {
                touched(s.sequencers, context_key@)
            },
            ..s
        },
        StateCommand::InsertSequencerTx { context_key, tx, closed } => StateView {
            sequencers: sequencers_with(s.sequencers, closed@, context_key@, tx),
            ..s
        },
        StateCommand::GetModelPreference { context_key } => s,
        StateCommand::SetModelPreference { context_key, model } => StateView {
            model_preferences: s.model_preferences.insert(context_key@, model@),
            ..s
        },
        StateCommand::RemoveModelPreference { context_key } => StateView {
            model_preferences: s.model_preferences.remove(context_key@),
            ..s
        },
        StateCommand::InsertSentMessage { timestamp, context_key, prompt, response } => sent_with(
            s,
            timestamp,
            SentMessageView {
                context_key: context_key@,
                prompt: prompt@,
                response: response@,
            },
        ),
        StateCommand::GetSentMessage { timestamp } => s,
    }
}

/// The value under a key of a map, where there is one.
pub open spec fn find<K, V>(m: Map<K, V>, key: K) -> Option<V> {
    if m.contains_key(key) {
        Some(m[key])
    } else {
        None
    }
}

/// What an optional sent answer says.
pub open spec fn opt_sent_view(o: Option<(String, String, String)>) -> Option<SentMessageView> {
    match o {
        Some(m) => Some(
            SentMessageView { context_key: m.0@, prompt: m.1@, response: m.2@ },
        ),
        None => None,
    }
}

/// Whether `reply` answers a command that was given in the state `s`.
pub open spec fn answers(s: StateView, cmd: StateCommand, reply: StateReply) -> bool {
    match cmd {
        StateCommand::GetHistorySnapshot { context_key } => reply matches StateReply::History(v)
            && v@.map_values(|c: Content| c@) == messages_of(s.history, context_key@),
        StateCommand::GetHistoryLen { context_key } => reply matches StateReply::Length(n) && n
            == messages_of(s.history, context_key@).len(),
        StateCommand::GetLastUserPrompt { context_key } => reply matches StateReply::Prompt(p)
            && opt_view(p) == last_user_text(messages_of(s.history, context_key@)),
        StateCommand::GetSequencerTx { context_key, closed } => reply matches StateReply::Sequencer(
            tx,
        ) && tx == (if has_key(s.sequencers, context_key@) && !closed@.contains(
            value_of(s.sequencers, context_key@),
        ) {
            Some(value_of(s.sequencers, context_key@))
        } else {
            None
        }),
        StateCommand::GetModelPreference { context_key } => reply matches StateReply::Preference(
            p,
        ) && opt_view(p) == find(s.model_preferences, context_key@),
        StateCommand::GetSentMessage { timestamp } => reply matches StateReply::Sent(m)
            && opt_sent_view(m) == find(s.sent_messages, timestamp),
        _ => reply is Done,
    }
}

impl StateManager {
    /// Carries a command out.
    pub fn handle(&mut self, cmd: StateCommand) -> (r: StateReply)
        requires
            state_ok(old(self)@),
        ensures
            final(self)@ == state_after(old(self)@, cmd),
            answers(old(self)@, cmd, r),
            state_ok(final(self)@),
    {
        match cmd {
            StateCommand::AddUserMessage { context_key, content } => {
                self.add_user_message(context_key.as_str(), content);
                StateReply::Done
            },
            StateCommand::AddModelMessage { context_key, content } => {
                self.add_model_message(context_key.as_str(), content);
                StateReply::Done
            },
            StateCommand::GetHistorySnapshot { context_key } => StateReply::History(
                self.get_history_snapshot(context_key.as_str()),
            ),
            StateCommand::GetHistoryLen { context_key } => StateReply::Length(
                self.get_history_len(context_key.as_str()),
            ),
            StateCommand::ClearHistory { context_key } => {
                self.clear_history(context_key.as_str());
                StateReply::Done
            },
            StateCommand::PruneHistory { context_key, num_messages } => {
                self.prune_history(context_key.as_str(), num_messages);
                StateReply::Done
            },
            StateCommand::GetLastUserPrompt { context_key } => StateReply::Prompt(
                self.get_last_user_prompt(context_key.as_str()),
            ),
            StateCommand::GetSequencerTx { context_key, closed } => StateReply::Sequencer(
                self.get_sequencer_tx(context_key.as_str(), &closed),
            ),
            StateCommand::InsertSequencerTx { context_key, tx, closed } => {
                self.insert_sequencer_tx(context_key.as_str(), tx, &closed);
                StateReply::Done
            },
            StateCommand::GetModelPreference { context_key } => StateReply::Preference(
                self.get_model_preference(context_key.as_str()),
            ),
            StateCommand::SetModelPreference { context_key, model } => {
                self.set_model_preference(context_key.as_str(), model.as_str());
                StateReply::Done
            },
            StateCommand::RemoveModelPreference { context_key } => {
                self.remove_model_preference(context_key.as_str());
                StateReply::Done
            },
            StateCommand::InsertSentMessage { timestamp, context_key, prompt, response } => {
                self.insert_sent_message(timestamp, context_key, prompt, response);
                StateReply::Done
            },
            StateCommand::GetSentMessage { timestamp } => StateReply::Sent(
                self.get_sent_message(timestamp),
            ),
        }
    }
}

// ---------------------------------------------------------------------------
// Laws
// ---------------------------------------------------------------------------

/// Using a conversation changes no messages, neither its own nor those of
/// another one.
pub proof fn touching_keeps_messages(h: Histories, key: Seq<char>, other: Seq<char>)
    requires
        unique_keys(h),
    ensures
        messages_of(touched(h, key), other) == messages_of(h, other),
        has_key(touched(h, key), other) == has_key(h, other),
{
    moving_keeps_others(h, key, value_of(h, key), other);
}

/// Moving an entry to the end with a new value sets that value and changes no
/// other entry.
proof fn moving_keeps_others<T>(
    h: Seq<(Seq<char>, T)>,
    key: Seq<char>,
    value: T,
    other: Seq<char>,
)
    requires
        unique_keys(h),
    ensures
        ({
            let g = without(h, key).push((key, value));
            &&& has_key(g, key) && value_of(g, key) == value
            &&& other != key ==> has_key(g, other) == has_key(h, other)
            &&& other != key && has_key(h, other) ==> value_of(g, other) == value_of(h, other)
        }),
{
    let w = without(h, key);
    let g = w.push((key, value));
    unique_keys_kept(h, key, value);
    position_is_first(h, key);
    crate::lru::position_of_entry(g, key, w.len() as int);
    position_is_first(h, other);
    position_is_first(g, other);
    if other != key {
        let p = position(h, key);
        if has_key(h, other) {
            let q = position(h, other);
            let i = if has_key(h, key) && q > p {
                q - 1
            } else {
                q
            };
            assert(g[i] == h[q]);
            crate::lru::position_of_entry(g, other, i);
        }
        if has_key(g, other) {
            let i = position(g, other);
            assert(i < w.len());
            let q = if has_key(h, key) && i >= p {
                i + 1
            } else {
                i
            };
            assert(g[i] == h[q]);
            crate::lru::position_of_entry(h, other, q);
        }
    }
}

/// Closed sequencers leave without a trace on the keys of the others.
proof fn open_sequencers_keep_keys_unique(t: Seq<(Seq<char>, u64)>, closed: Seq<u64>)
    requires
        unique_keys(t),
    ensures
        unique_keys(open_sequencers(t, closed)),
        open_sequencers(t, closed).len() <= t.len(),
        forall|i: int|
            0 <= i < open_sequencers(t, closed).len() ==> t.contains(
                #[trigger] open_sequencers(t, closed)[i],
            ) && !closed.contains(open_sequencers(t, closed)[i].1),
    decreases t.len(),
{
    if t.len() > 0 {
        let front = t.drop_last();
        open_sequencers_keep_keys_unique(front, closed);
        let before = open_sequencers(front, closed);
        let after = open_sequencers(t, closed);
        assert forall|i: int| 0 <= i < before.len() implies t.contains(#[trigger] before[i]) && before[i].0
            != t.last().0 by {
            assert(front.contains(before[i]));
            let j = choose|j: int| 0 <= j < front.len() && front[j] == before[i];
            assert(t[j] == before[i]);
        }
        assert forall|i: int| 0 <= i < after.len() implies t.contains(#[trigger] after[i])
            && !closed.contains(after[i].1) by {
            if i < before.len() {
                assert(after[i] == before[i]);
            } else {
                assert(after[i] == t[t.len() - 1]);
            }
        }
    }
}

/// After an answer was remembered, every remembered answer still has its place
/// in the order.
proof fn sent_messages_have_their_place(s: StateView, time: u64, message: SentMessageView)
    requires
        state_ok(s),
    ensures
        state_ok(sent_with(s, time, message)),
{
    let r = sent_with(s, time, message);
    let (sent, order) = sent_with_room(s.sent_messages, s.sent_messages_order);
    assert forall|t: u64|
        r.sent_messages.contains_key(t) implies #[trigger] r.sent_messages_order.contains(t) by {
        if t == time {
            assert(r.sent_messages_order[order.len() as int] == time);
        } else {
            assert(s.sent_messages.contains_key(t));
            assert(s.sent_messages_order.contains(t));
            let i = choose|i: int|
                0 <= i < s.sent_messages_order.len() && s.sent_messages_order[i] == t;
            if order == s.sent_messages_order {
                assert(r.sent_messages_order[i] == t);
            } else {
                assert(order[i - 1] == t);
                assert(r.sent_messages_order[i - 1] == t);
            }
        }
    }
}

/// An entry added after making room is there; another one is there as before
/// unless the limit was reached and it was the one not used for longest.
proof fn adding_keeps_others<T>(
    h: Seq<(Seq<char>, T)>,
    max: nat,
    key: Seq<char>,
    value: T,
    other: Seq<char>,
)
    requires
        unique_keys(h),
        !has_key(h, key),
    ensures
        ({
            let g = with_room(h, max).push((key, value));
            let dropped = h.len() >= max && h.len() > 0 && h[0].0 == other;
            &&& has_key(g, key) && value_of(g, key) == value
            &&& other != key ==> (has_key(g, other) <==> has_key(h, other) && !dropped)
            &&& other != key && has_key(g, other) ==> value_of(g, other) == value_of(h, other)
        }),
{
    let room = with_room(h, max);
    let g = room.push((key, value));
    let shift: int = if h.len() >= max && h.len() > 0 {
        1
    } else {
        0
    };
    position_is_first(h, key);
    position_is_first(h, other);
    assert forall|i: int| 0 <= i < room.len() implies #[trigger] room[i] == h[i + shift] by {}
    position_is_first(room, key);
    if has_key(room, key) {
        let i = position(room, key);
        assert(room[i] == h[i + shift]);
        crate::lru::position_of_entry(h, key, i + shift);
    }
    unique_keys_kept(h, key, value);
    unique_keys_kept(room, key, value);
    crate::lru::position_of_entry(g, key, room.len() as int);
    position_is_first(g, other);
    if other != key {
        if has_key(h, other) {
            let q = position(h, other);
            if q >= shift {
                assert(g[q - shift] == h[q]);
                crate::lru::position_of_entry(g, other, q - shift);
            }
        }
        if has_key(g, other) {
            let i = position(g, other);
            assert(i < room.len());
            assert(g[i] == h[i + shift]);
            crate::lru::position_of_entry(h, other, i + shift);
        }
    }
}

/// A message added to a conversation comes after those that were there.
pub proof fn adding_appends(h: Histories, key: Seq<char>, message: ContentView)
    requires
        unique_keys(h),
    ensures
        messages_of(history_with(h, key, message), key) == messages_of(h, key).push(message),
{
    if has_key(h, key) {
        moving_keeps_others(h, key, value_of(h, key).push(message), key);
    } else {
        adding_keeps_others(h, MAX_HISTORY_CONTEXTS as nat, key, seq![message], key);
        assert(Seq::<ContentView>::empty().push(message) =~= seq![message]);
    }
}

/// A message added to a conversation changes no other conversation, except
/// that the one not used for longest is forgotten where a new one comes in and
/// the limit was reached.
pub proof fn adding_keeps_other_conversations(
    h: Histories,
    key: Seq<char>,
    message: ContentView,
    other: Seq<char>,
)
    requires
        unique_keys(h),
        other != key,
        has_key(h, key) || h.len() < MAX_HISTORY_CONTEXTS || h[0].0 != other,
    ensures
        has_key(history_with(h, key, message), other) == has_key(h, other),
        messages_of(history_with(h, key, message), other) == messages_of(h, other),
{
    if has_key(h, key) {
        moving_keeps_others(h, key, value_of(h, key).push(message), other);
    } else {
        adding_keeps_others(h, MAX_HISTORY_CONTEXTS as nat, key, seq![message], other);
    }
}

/// Where the limit is reached, a new conversation takes the place of the one
/// that was not used for longest.
pub proof fn the_least_recently_used_goes(h: Histories, key: Seq<char>, message: ContentView)
    requires
        unique_keys(h),
        h.len() == MAX_HISTORY_CONTEXTS,
        !has_key(h, key),
    ensures
        !has_key(history_with(h, key, message), h[0].0),
        history_with(h, key, message).len() == MAX_HISTORY_CONTEXTS,
{
    position_is_first(h, key);
    if h[0].0 == key {
        crate::lru::position_of_entry(h, key, 0);
    }
    adding_keeps_others(h, MAX_HISTORY_CONTEXTS as nat, key, seq![message], h[0].0);
}

/// A conversation that was just used is the last of all to be forgotten.
pub proof fn a_used_conversation_comes_last(h: Histories, key: Seq<char>)
    requires
        unique_keys(h),
        has_key(h, key),
    ensures
        touched(h, key).last() == (key, messages_of(h, key)),
        touched(h, key).len() == h.len(),
{
    unique_keys_kept(h, key, value_of(h, key));
}

/// A forgotten conversation has no messages; the others keep theirs.
pub proof fn clearing_forgets_one_conversation(h: Histories, key: Seq<char>, other: Seq<char>)
    requires
        unique_keys(h),
    ensures
        !has_key(without(h, key), key),
        messages_of(without(h, key), key) == Seq::<ContentView>::empty(),
        other != key ==> messages_of(without(h, key), other) == messages_of(h, other),
{
    let w = without(h, key);
    unique_keys_kept(h, key, Seq::empty());
    if other != key {
        position_is_first(h, key);
        position_is_first(h, other);
        position_is_first(w, other);
        let p = position(h, key);
        if has_key(h, other) {
            let q = position(h, other);
            let i = if has_key(h, key) && q > p {
                q - 1
            } else {
                q
            };
            assert(w[i] == h[q]);
            crate::lru::position_of_entry(w, other, i);
        }
        if has_key(w, other) {
            let i = position(w, other);
            let q = if has_key(h, key) && i >= p {
                i + 1
            } else {
                i
            };
            assert(w[i] == h[q]);
            crate::lru::position_of_entry(h, other, q);
        }
    }
}

/// Pruning takes the oldest messages of one conversation and no others.
pub proof fn pruning_takes_the_oldest(h: Histories, key: Seq<char>, n: nat, other: Seq<char>)
    requires
        unique_keys(h),
    ensures
        messages_of(history_pruned(h, key, n), key) == messages_of(h, key).skip(
            least(n as int, messages_of(h, key).len() as int),
        ),
        other != key ==> messages_of(history_pruned(h, key, n), other) == messages_of(h, other),
{
    let m = messages_of(h, key);
    if has_key(h, key) {
        moving_keeps_others(h, key, m.skip(least(n as int, m.len() as int)), key);
        moving_keeps_others(h, key, m.skip(least(n as int, m.len() as int)), other);
    } else {
        assert(m.skip(0) =~= m);
    }
}

/// A sequencer that was just set is found as long as it is open.
pub proof fn a_set_sequencer_is_found(
    t: Seq<(Seq<char>, u64)>,
    closed: Seq<u64>,
    key: Seq<char>,
    tx: u64,
)
    requires
        unique_keys(t),
    ensures
        has_key(sequencers_with(t, closed, key, tx), key),
        value_of(sequencers_with(t, closed, key, tx), key) == tx,
{
    open_sequencers_keep_keys_unique(t, closed);
    let kept = open_sequencers(t, closed);
    if has_key(kept, key) {
        moving_keeps_others(kept, key, tx, key);
    } else {
        adding_keeps_others(kept, MAX_SEQUENCERS as nat, key, tx, key);
    }
}

/// A remembered answer is found under its time. Another one is found as
/// before, unless it was the oldest and had to make room.
pub proof fn a_sent_message_is_found(
    s: StateView,
    time: u64,
    message: SentMessageView,
    other: u64,
)
    ensures
        find(sent_with(s, time, message).sent_messages, time) == Some(message),
        other != time && !(s.sent_messages.len() >= MAX_SENT_MESSAGES
            && s.sent_messages_order.len() > 0 && s.sent_messages_order[0] == other) ==> find(
            sent_with(s, time, message).sent_messages,
            other,
        ) == find(s.sent_messages, other),
{
}

/// Whether each remembered answer has exactly one place in the order.
pub open spec fn sent_in_step(s: StateView) -> bool {
    &&& s.sent_messages.dom().finite()
    &&& s.sent_messages_order.no_duplicates()
    &&& s.sent_messages.len() == s.sent_messages_order.len()
    &&& s.sent_messages.len() <= MAX_SENT_MESSAGES
    &&& forall|t: u64|
        s.sent_messages.contains_key(t) <==> #[trigger] s.sent_messages_order.contains(t)
}

/// As long as no two answers are sent at the same time, the number of
/// remembered answers stays within its limit.
pub proof fn sent_messages_stay_bounded(s: StateView, time: u64, message: SentMessageView)
    requires
        sent_in_step(s),
        !s.sent_messages.contains_key(time),
    ensures
        sent_in_step(sent_with(s, time, message)),
{
    let r = sent_with(s, time, message);
    let (sent, order) = sent_with_room(s.sent_messages, s.sent_messages_order);
    assert(!s.sent_messages_order.contains(time));
    assert forall|t: u64| sent.contains_key(t) <==> #[trigger] order.contains(t) by {
        let all = s.sent_messages_order;
        if order != all {
            if all.contains(t) && t != all[0] {
                let i = choose|i: int| 0 <= i < all.len() && all[i] == t;
                assert(order[i - 1] == t);
            }
            if order.contains(t) {
                let i = choose|i: int| 0 <= i < order.len() && order[i] == t;
                assert(all[i + 1] == t);
            }
            assert(all.contains(t) == s.sent_messages.contains_key(t));
        }
    }
    assert(s.sent_messages_order.len() > 0 ==> s.sent_messages_order.contains(
        s.sent_messages_order[0],
    ));
    assert(!order.contains(time));
    assert forall|t: u64|
        r.sent_messages.contains_key(t) <==> #[trigger] r.sent_messages_order.contains(t) by {
        if order.contains(t) {
            let i = choose|i: int| 0 <= i < order.len() && order[i] == t;
            assert(r.sent_messages_order[i] == t);
        }
        if t == time {
            assert(r.sent_messages_order[order.len() as int] == t);
        }
    }
    assert(r.sent_messages_order.no_duplicates()) by {
        assert forall|i: int, j: int|
            0 <= i < r.sent_messages_order.len() && 0 <= j < r.sent_messages_order.len() && i
                != j implies r.sent_messages_order[i] != r.sent_messages_order[j] by {
            if i == order.len() {
                assert(order.contains(order[j]));
            } else if j == order.len() {
                assert(order.contains(order[i]));
            } else if order != s.sent_messages_order {
                assert(order[i] == s.sent_messages_order[i + 1]);
                assert(order[j] == s.sent_messages_order[j + 1]);
            }
        }
    }
}

/// As long as its sequencer is open, all prompts of a conversation go to the
/// same one.
pub proof fn a_conversation_keeps_its_sequencer(
    t: Seq<(Seq<char>, u64)>,
    closed: Seq<u64>,
    key: Seq<char>,
    fresh: u64,
    closed_later: Seq<u64>,
)
    requires
        unique_keys(t),
        sequencer_of(t, closed, key) matches Some(tx) ==> !closed_later.contains(tx),
        sequencer_of(t, closed, key) is None ==> !closed_later.contains(fresh),
    ensures
        sequencer_of(sequencers_after_choice(t, closed, key, fresh), closed_later, key) == Some(
            match sequencer_of(t, closed, key) {
                Some(tx) => tx,
                None => fresh,
            },
        ),
{
    unique_keys_kept(t, key, fresh);
    if sequencer_of(t, closed, key) is Some {
        moving_keeps_others(t, key, value_of(t, key), key);
    } else {
        a_set_sequencer_is_found(without(t, key), closed, key, fresh);
    }
}

/// A conversation that was taken out is not among the open ones either, so that
/// it can be added once room is made.
proof fn a_conversation_fits_in(
    t: Seq<(Seq<char>, u64)>,
    closed: Seq<u64>,
    key: Seq<char>,
    tx: u64,
)
    requires
        unique_keys(t),
    ensures
        ({
            let kept = open_sequencers(without(t, key), closed);
            let room = with_room(kept, MAX_SEQUENCERS as nat);
            &&& unique_keys(kept)
            &&& !has_key(kept, key)
            &&& unique_keys(room.push((key, tx)))
        }),
{
    let w = without(t, key);
    let kept = open_sequencers(w, closed);
    let room = with_room(kept, MAX_SEQUENCERS as nat);
    unique_keys_kept(t, key, tx);
    open_sequencers_keep_keys_unique(w, closed);
    position_is_first(kept, key);
    if has_key(kept, key) {
        let i = position(kept, key);
        assert(w.contains(kept[i]));
        let j = choose|j: int| 0 <= j < w.len() && w[j] == kept[i];
        crate::lru::position_of_entry(w, key, j);
    }
    unique_keys_kept(kept, key, tx);
    position_is_first(room, key);
    if has_key(room, key) {
        let i = position(room, key);
        let shift: int = if room.len() < kept.len() {
            1
        } else {
            0
        };
        assert(room[i] == kept[i + shift]);
        crate::lru::position_of_entry(kept, key, i + shift);
    }
    unique_keys_kept(room, key, tx);
}

/// An open sequencer that is left once another conversation was taken out is the
/// one that was there.
proof fn open_sequencers_come_from(
    t: Seq<(Seq<char>, u64)>,
    closed: Seq<u64>,
    key: Seq<char>,
    other: Seq<char>,
)
    requires
        unique_keys(t),
    ensures
        ({
            let kept = open_sequencers(without(t, key), closed);
            has_key(kept, other) ==> {
                &&& has_key(t, other)
                &&& value_of(t, other) == value_of(kept, other)
                &&& !closed.contains(value_of(kept, other))
            }
        }),
{
    let w = without(t, key);
    let kept = open_sequencers(w, closed);
    unique_keys_kept(t, key, 0);
    open_sequencers_keep_keys_unique(w, closed);
    position_is_first(kept, other);
    position_is_first(t, key);
    if has_key(kept, other) {
        let i = position(kept, other);
        assert(w.contains(kept[i]));
        let j = choose|j: int| 0 <= j < w.len() && w[j] == kept[i];
        let l = if has_key(t, key) && j >= position(t, key) {
            j + 1
        } else {
            j
        };
        assert(w[j] == t[l]);
        crate::lru::position_of_entry(t, other, l);
    }
}

/// Whether `key` has `tx` at the place `p`, and every entry behind that place is
/// under one of `keys`.
spec fn stands_before(
    t: Seq<(Seq<char>, u64)>,
    p: int,
    key: Seq<char>,
    tx: u64,
    keys: Set<Seq<char>>,
) -> bool {
    &&& 0 <= p < t.len()
    &&& t[p] == (key, tx)
    &&& forall|i: int| p < i < t.len() ==> keys.contains((#[trigger] t[i]).0)
}

/// An open sequencer stays when closed ones leave, and nothing new comes to
/// stand behind it.
proof fn open_sequencers_keep_their_order(
    t: Seq<(Seq<char>, u64)>,
    closed: Seq<u64>,
    p: int,
    key: Seq<char>,
    tx: u64,
    keys: Set<Seq<char>>,
) -> (q: int)
    requires
        stands_before(t, p, key, tx, keys),
        !closed.contains(tx),
    ensures
        stands_before(open_sequencers(t, closed), q, key, tx, keys),
    decreases t.len(),
{
    let front = t.drop_last();
    let before = open_sequencers(front, closed);
    if p == t.len() - 1 {
        before.len() as int
    } else {
        assert(stands_before(front, p, key, tx, keys)) by {
            assert forall|i: int| p < i < front.len() implies keys.contains(
                (#[trigger] front[i]).0,
            ) by {
                assert(front[i] == t[i]);
            }
        }
        assert(keys.contains(t[t.len() - 1].0));
        open_sequencers_keep_their_order(front, closed, p, key, tx, keys)
    }
}

/// Taking another entry out leaves a place as it is or moves it forward.
proof fn places_without_another(
    t: Seq<(Seq<char>, u64)>,
    other: Seq<char>,
    p: int,
    key: Seq<char>,
    tx: u64,
    keys: Set<Seq<char>>,
) -> (q: int)
    requires
        stands_before(t, p, key, tx, keys),
        other != key,
    ensures
        stands_before(without(t, other), q, key, tx, keys),
{
    position_is_first(t, other);
    let w = without(t, other);
    let o = position(t, other);
    let q: int = if has_key(t, other) && o < p {
        p - 1
    } else {
        p
    };
    assert(has_key(t, other) ==> o != p);
    assert forall|i: int| q < i < w.len() implies keys.contains((#[trigger] w[i]).0) by {
        if has_key(t, other) && i >= o {
            assert(w[i] == t[i + 1]);
        } else {
            assert(w[i] == t[i]);
        }
    }
    q
}

/// A table whose entries behind the first are all under one of `keys`, and which
/// lacks one of them, has no more entries than there are `keys`.
proof fn entries_behind_the_first(
    t: Seq<(Seq<char>, u64)>,
    key: Seq<char>,
    tx: u64,
    keys: Set<Seq<char>>,
    missing: Seq<char>,
)
    requires
        unique_keys(t),
        stands_before(t, 0, key, tx, keys),
        keys.finite(),
        keys.contains(missing),
        !has_key(t, missing),
    ensures
        t.len() <= keys.len(),
{
    position_is_first(t, missing);
    let behind = Seq::new((t.len() - 1) as nat, |i: int| t[i + 1].0);
    let all = behind.push(missing);
    assert forall|i: int, j: int| 0 <= i < j < all.len() implies all[i] != all[j] by {
        assert(all[i] == t[i + 1].0);
        if j < behind.len() {
            assert(all[j] == t[j + 1].0);
        }
    }
    all.unique_seq_to_set();
    assert forall|k: Seq<char>| all.to_set().contains(k) implies keys.contains(k) by {
        let i = choose|i: int| 0 <= i < all.len() && all[i] == k;
        if i < behind.len() {
            assert(keys.contains(t[i + 1].0));
        }
    }
    vstd::set_lib::lemma_len_subset(all.to_set(), keys);
}

/// One choice keeps a sequencer before at most the conversations in `keys`, as
/// long as these are too few to fill the table.
proof fn one_choice_keeps_a_sequencer(
    t: Seq<(Seq<char>, u64)>,
    choice: SequencerChoice,
    p: int,
    key: Seq<char>,
    tx: u64,
    keys: Set<Seq<char>>,
) -> (q: int)
    requires
        unique_keys(t),
        stands_before(t, p, key, tx, keys),
        choice.key != key ==> keys.contains(choice.key),
        !choice.closed.contains(tx),
        keys.finite(),
        keys.len() < MAX_SEQUENCERS,
    ensures
        unique_keys(sequencers_after_choice(t, choice.closed, choice.key, choice.fresh)),
        stands_before(
            sequencers_after_choice(t, choice.closed, choice.key, choice.fresh),
            q,
            key,
            tx,
            keys,
        ),
{
    let other = choice.key;
    let w = without(t, other);
    let after = sequencers_after_choice(t, choice.closed, other, choice.fresh);
    unique_keys_kept(t, other, choice.fresh);
    if other == key {
        crate::lru::position_of_entry(t, key, p);
        unique_keys_kept(t, other, tx);
        w.len() as int
    } else {
        let q = places_without_another(t, other, p, key, tx, keys);
        if sequencer_of(t, choice.closed, other) is Some {
            unique_keys_kept(t, other, value_of(t, other));
            q
        } else {
            let kept = open_sequencers(w, choice.closed);
            let r = open_sequencers_keep_their_order(w, choice.closed, q, key, tx, keys);
            a_conversation_fits_in(t, choice.closed, other, choice.fresh);
            let room = with_room(kept, MAX_SEQUENCERS as nat);
            if kept.len() >= MAX_SEQUENCERS {
                if r == 0 {
                    entries_behind_the_first(kept, key, tx, keys, other);
                }
                assert forall|i: int| r - 1 < i < after.len() implies keys.contains(
                    (#[trigger] after[i]).0,
                ) by {
                    if i < room.len() {
                        assert(after[i] == kept[i + 1]);
                    }
                }
                r - 1
            } else {
                r
            }
        }
    }
}

/// Every choice keeps a sequencer that stays open, as long as there are too few
/// other conversations to fill the table.
proof fn choices_keep_a_sequencer(
    t: Seq<(Seq<char>, u64)>,
    choices: Seq<SequencerChoice>,
    p: int,
    key: Seq<char>,
    tx: u64,
    keys: Set<Seq<char>>,
) -> (q: int)
    requires
        unique_keys(t),
        stands_before(t, p, key, tx, keys),
        forall|i: int|
            0 <= i < choices.len() ==> !(#[trigger] choices[i]).closed.contains(tx) && (
            choices[i].key != key ==> keys.contains(choices[i].key)),
        keys.finite(),
        keys.len() < MAX_SEQUENCERS,
    ensures
        unique_keys(sequencers_after_choices(t, choices)),
        stands_before(sequencers_after_choices(t, choices), q, key, tx, keys),
    decreases choices.len(),
{
    if choices.len() == 0 {
        p
    } else {
        let front = choices.drop_last();
        assert forall|i: int| 0 <= i < front.len() implies !(
        #[trigger] front[i]).closed.contains(tx) && (front[i].key != key ==> keys.contains(
            front[i].key,
        )) by {
            assert(front[i] == choices[i]);
        }
        let r = choices_keep_a_sequencer(t, front, p, key, tx, keys);
        assert(choices[choices.len() - 1] == choices.last());
        one_choice_keeps_a_sequencer(
            sequencers_after_choices(t, front),
            choices.last(),
            r,
            key,
            tx,
            keys,
        )
    }
}

/// A choice for one conversation leaves the sequencer of another one as it was,
/// unless room had to be made and it was the one not used for longest. What has
/// ended stays ended.
pub proof fn a_choice_leaves_other_sequencers(
    t: Seq<(Seq<char>, u64)>,
    closed: Seq<u64>,
    key: Seq<char>,
    fresh: u64,
    other: Seq<char>,
    closed_later: Seq<u64>,
)
    requires
        unique_keys(t),
        other != key,
        forall|tx: u64| #[trigger] closed.contains(tx) ==> closed_later.contains(tx),
    ensures
        ({
            let kept = open_sequencers(without(t, key), closed);
            let evicted = sequencer_of(t, closed, key) is None && kept.len() >= MAX_SEQUENCERS
                && kept[0].0 == other;
            sequencer_of(sequencers_after_choice(t, closed, key, fresh), closed_later, other)
                == if evicted {
                None
            } else {
                sequencer_of(t, closed_later, other)
            }
        }),
{
    let w = without(t, key);
    unique_keys_kept(t, key, fresh);
    if sequencer_of(t, closed, key) is Some {
        moving_keeps_others(t, key, value_of(t, key), other);
    } else {
        let kept = open_sequencers(w, closed);
        open_sequencers_keep_keys_unique(w, closed);
        a_conversation_fits_in(t, closed, key, fresh);
        adding_keeps_others(kept, MAX_SEQUENCERS as nat, key, fresh, other);
        position_is_first(t, other);
        position_is_first(kept, other);
        let everything = Set::new(|k: Seq<char>| true);
        if has_key(t, other) && !closed.contains(value_of(t, other)) {
            let tx = value_of(t, other);
            let p = position(t, other);
            assert(stands_before(t, p, other, tx, everything));
            let q = places_without_another(t, key, p, other, tx, everything);
            let r = open_sequencers_keep_their_order(w, closed, q, other, tx, everything);
            crate::lru::position_of_entry(kept, other, r);
        }
        open_sequencers_come_from(t, closed, key, other);
    }
}

/// A conversation whose sequencer stays open is given the same one again,
/// whatever is chosen in between for other conversations, as long as these are
/// fewer than the table holds.
pub proof fn a_conversation_keeps_its_sequencer_among_others(
    t: Seq<(Seq<char>, u64)>,
    closed: Seq<u64>,
    key: Seq<char>,
    fresh: u64,
    between: Seq<SequencerChoice>,
    closed_later: Seq<u64>,
    fresh_later: u64,
)
    requires
        unique_keys(t),
        other_conversations(between, key).len() < MAX_SEQUENCERS,
        forall|i: int|
            0 <= i < between.len() ==> !(#[trigger] between[i]).closed.contains(
                chosen_sequencer(t, closed, key, fresh),
            ),
        !closed_later.contains(chosen_sequencer(t, closed, key, fresh)),
    ensures
        ({
            let tx = chosen_sequencer(t, closed, key, fresh);
            let after = sequencers_after_choices(
                sequencers_after_choice(t, closed, key, fresh),
                between,
            );
            &&& sequencer_of(after, closed_later, key) == Some(tx)
            &&& chosen_sequencer(after, closed_later, key, fresh_later) == tx
        }),
{
    let tx = chosen_sequencer(t, closed, key, fresh);
    let first = sequencers_after_choice(t, closed, key, fresh);
    let keys = other_conversations(between, key);
    let named = between.map_values(|c: SequencerChoice| c.key);
    vstd::seq_lib::seq_to_set_is_finite(named);
    assert forall|i: int| 0 <= i < between.len() && between[i].key != key implies keys.contains(
        #[trigger] between[i].key,
    ) by {
        assert(named[i] == between[i].key);
    }
    unique_keys_kept(t, key, tx);
    a_conversation_fits_in(t, closed, key, tx);
    let q = choices_keep_a_sequencer(first, between, first.len() - 1, key, tx, keys);
    crate::lru::position_of_entry(sequencers_after_choices(first, between), key, q);
}

/// Choices for other conversations give a conversation no other sequencer.
proof fn choices_give_no_other_sequencer(
    t: Seq<(Seq<char>, u64)>,
    choices: Seq<SequencerChoice>,
    key: Seq<char>,
)
    requires
        unique_keys(t),
        forall|i: int| 0 <= i < choices.len() ==> (#[trigger] choices[i]).key != key,
    ensures
        unique_keys(sequencers_after_choices(t, choices)),
        has_key(sequencers_after_choices(t, choices), key) ==> has_key(t, key) && value_of(
            sequencers_after_choices(t, choices),
            key,
        ) == value_of(t, key),
    decreases choices.len(),
{
    if choices.len() > 0 {
        let front = choices.drop_last();
        assert forall|i: int| 0 <= i < front.len() implies (#[trigger] front[i]).key != key by {
            assert(front[i] == choices[i]);
        }
        choices_give_no_other_sequencer(t, front, key);
        let u = sequencers_after_choices(t, front);
        let c = choices.last();
        assert(choices[choices.len() - 1] == c);
        unique_keys_kept(u, c.key, c.fresh);
        if sequencer_of(u, c.closed, c.key) is Some {
            unique_keys_kept(u, c.key, value_of(u, c.key));
            moving_keeps_others(u, c.key, value_of(u, c.key), key);
        } else {
            let w = without(u, c.key);
            let kept = open_sequencers(w, c.closed);
            a_conversation_fits_in(u, c.closed, c.key, c.fresh);
            adding_keeps_others(kept, MAX_SEQUENCERS as nat, c.key, c.fresh, key);
            open_sequencers_come_from(u, c.closed, c.key, key);
        }
    }
}

/// A conversation whose sequencer has ended is given a fresh one, whatever was
/// chosen in between for other conversations, and keeps that one as long as it
/// is open.
pub proof fn an_ended_sequencer_is_replaced(
    t: Seq<(Seq<char>, u64)>,
    closed: Seq<u64>,
    key: Seq<char>,
    fresh: u64,
    between: Seq<SequencerChoice>,
    closed_later: Seq<u64>,
    fresh_later: u64,
    closed_last: Seq<u64>,
)
    requires
        unique_keys(t),
        forall|i: int| 0 <= i < between.len() ==> (#[trigger] between[i]).key != key,
        closed_later.contains(chosen_sequencer(t, closed, key, fresh)),
        !closed_last.contains(fresh_later),
    ensures
        ({
            let after = sequencers_after_choices(
                sequencers_after_choice(t, closed, key, fresh),
                between,
            );
            &&& sequencer_of(after, closed_later, key) is None
            &&& chosen_sequencer(after, closed_later, key, fresh_later) == fresh_later
            &&& sequencer_of(
                sequencers_after_choice(after, closed_later, key, fresh_later),
                closed_last,
                key,
            ) == Some(fresh_later)
        }),
{
    let tx = chosen_sequencer(t, closed, key, fresh);
    let first = sequencers_after_choice(t, closed, key, fresh);
    unique_keys_kept(t, key, tx);
    a_conversation_fits_in(t, closed, key, tx);
    crate::lru::position_of_entry(first, key, first.len() - 1);
    choices_give_no_other_sequencer(first, between, key);
    let after = sequencers_after_choices(first, between);
    a_conversation_keeps_its_sequencer(after, closed_later, key, fresh_later, closed_last);
}

/// The messages of a conversation are those of its entry in the table; without
/// an entry there are none.
pub proof fn messages_are_those_of_the_entry(h: Histories, key: Seq<char>, i: int)
    requires
        unique_keys(h),
    ensures
        0 <= i < h.len() && h[i].0 == key ==> messages_of(h, key) == h[i].1,
        (forall|j: int| 0 <= j < h.len() ==> (#[trigger] h[j]).0 != key) ==> messages_of(
            h,
            key,
        ).len() == 0,
{
    position_is_first(h, key);
    if 0 <= i < h.len() && h[i].0 == key {
        crate::lru::position_of_entry(h, key, i);
    }
}

/// Pruning by no more messages than there are leaves all but that many of the
/// oldest; pruning by more leaves none.
pub proof fn pruning_leaves_the_latest(h: Histories, key: Seq<char>, n: nat)
    requires
        unique_keys(h),
    ensures
        n <= messages_of(h, key).len() ==> messages_of(history_pruned(h, key, n), key)
            == messages_of(h, key).subrange(n as int, messages_of(h, key).len() as int),
        n > messages_of(h, key).len() ==> messages_of(history_pruned(h, key, n), key).len() == 0,
{
    pruning_takes_the_oldest(h, key, n, key);
}

/// The last prompt of a user is the first piece of the latest message that a
/// user wrote, whatever the bot said since.
pub proof fn the_last_prompt_is_the_latest_of_a_user(m: Seq<ContentView>, i: int)
    requires
        0 <= i < m.len(),
        m[i].role == "user"@,
        forall|j: int| i < j < m.len() ==> (#[trigger] m[j]).role != "user"@,
    ensures
        m[i].parts.len() > 0 ==> last_user_text(m) == m[i].parts[0],
        m[i].parts.len() == 0 ==> last_user_text(m) is None,
    decreases m.len(),
{
    if i < m.len() - 1 {
        let front = m.drop_last();
        assert(m[m.len() - 1].role != "user"@);
        assert forall|j: int| i < j < front.len() implies (#[trigger] front[j]).role != "user"@ by {
            assert(front[j] == m[j]);
        }
        the_last_prompt_is_the_latest_of_a_user(front, i);
    }
}

/// Where no user wrote, there is no prompt.
pub proof fn without_a_user_there_is_no_prompt(m: Seq<ContentView>)
    requires
        forall|j: int| 0 <= j < m.len() ==> (#[trigger] m[j]).role != "user"@,
    ensures
        last_user_text(m) is None,
    decreases m.len(),
{
    if m.len() > 0 {
        let front = m.drop_last();
        assert(m[m.len() - 1].role != "user"@);
        assert forall|j: int| 0 <= j < front.len() implies (#[trigger] front[j]).role != "user"@ by {
            assert(front[j] == m[j]);
        }
        without_a_user_there_is_no_prompt(front);
    }
}

/// Where as many answers are remembered as can be, the one that was sent first
/// is forgotten for a new one, and no other.
pub proof fn the_first_answer_is_forgotten_first(
    s: StateView,
    time: u64,
    message: SentMessageView,
    oldest: u64,
)
    requires
        s.sent_messages.len() >= MAX_SENT_MESSAGES,
        s.sent_messages_order.len() > 0,
        s.sent_messages_order[0] == oldest,
        oldest != time,
    ensures
        !sent_with(s, time, message).sent_messages.contains_key(oldest),
        sent_with(s, time, message).sent_messages_order == s.sent_messages_order.skip(1).push(time),
{
    assert(s.sent_messages_order.drop_first() =~= s.sent_messages_order.skip(1));
}

/// As long as fewer answers are remembered than can be, none is forgotten for a
/// new one, and what else there is stays.
pub proof fn no_answer_is_forgotten_without_need(
    s: StateView,
    time: u64,
    message: SentMessageView,
)
    ensures
        s.sent_messages.len() < MAX_SENT_MESSAGES ==> sent_with(s, time, message).sent_messages
            == s.sent_messages.insert(time, message) && sent_with(
            s,
            time,
            message,
        ).sent_messages_order == s.sent_messages_order.push(time),
        sent_with(s, time, message).history == s.history,
        sent_with(s, time, message).sequencers == s.sequencers,
        sent_with(s, time, message).model_preferences == s.model_preferences,
{
}

/// Setting a sequencer forgets those that have ended, and every other entry is
/// one that was there.
pub proof fn ended_sequencers_are_forgotten(
    t: Seq<(Seq<char>, u64)>,
    closed: Seq<u64>,
    key: Seq<char>,
    tx: u64,
    i: int,
)
    requires
        unique_keys(t),
        0 <= i < sequencers_with(t, closed, key, tx).len(),
    ensures
        ({
            let entry = sequencers_with(t, closed, key, tx)[i];
            entry == (key, tx) || (entry.0 != key && t.contains(entry) && !closed.contains(entry.1))
        }),
        sequencers_with(t, closed, key, tx).last() == (key, tx),
{
    let all = sequencers_with(t, closed, key, tx);
    let kept = open_sequencers(t, closed);
    open_sequencers_keep_keys_unique(t, closed);
    unique_keys_kept(kept, key, tx);
    position_is_first(kept, key);
    if has_key(kept, key) {
        let w = without(kept, key);
        if i < w.len() {
            let j = if i < position(kept, key) {
                i
            } else {
                i + 1
            };
            assert(all[i] == kept[j]);
            if kept[j].0 == key {
                crate::lru::position_of_entry(kept, key, j);
            }
        }
    } else {
        let room = with_room(kept, MAX_SEQUENCERS as nat);
        if i < room.len() {
            let j = if room.len() < kept.len() {
                i + 1
            } else {
                i
            };
            assert(all[i] == kept[j]);
            if kept[j].0 == key {
                crate::lru::position_of_entry(kept, key, j);
            }
        }
    }
}

/// The conversation that a command is about.
pub open spec fn conversation_of(cmd: StateCommand) -> Option<Seq<char>> {
    match cmd {
        StateCommand::AddUserMessage { context_key, .. } => Some(context_key@),
        StateCommand::AddModelMessage { context_key, .. } => Some(context_key@),
        StateCommand::GetHistorySnapshot { context_key } => Some(context_key@),
        StateCommand::GetHistoryLen { context_key } => Some(context_key@),
        StateCommand::ClearHistory { context_key } => Some(context_key@),
        StateCommand::PruneHistory { context_key, .. } => Some(context_key@),
        StateCommand::GetLastUserPrompt { context_key } => Some(context_key@),
        _ => None,
    }
}

/// What a command makes of the messages of the conversation that it is about:
/// one more at the end, the oldest gone, all gone, or the same ones.
pub proof fn commands_change_messages_as_they_say(s: StateView, cmd: StateCommand, key: Seq<char>)
    requires
        state_ok(s),
        conversation_of(cmd) == Some(key),
    ensures
        ({
            let before = messages_of(s.history, key);
            let after = messages_of(state_after(s, cmd).history, key);
            match cmd {
                StateCommand::AddUserMessage { content, .. } => after == before.push(content@),
                StateCommand::AddModelMessage { content, .. } => after == before.push(content@),
                StateCommand::ClearHistory { .. } => after.len() == 0,
                StateCommand::PruneHistory { num_messages, .. } => if num_messages <= before.len() {
                    after == before.subrange(num_messages as int, before.len() as int)
                } else {
                    after.len() == 0
                },
                _ => after == before,
            }
        }),
        state_after(s, cmd).sent_messages == s.sent_messages,
        state_after(s, cmd).sequencers == s.sequencers,
        state_after(s, cmd).model_preferences == s.model_preferences,
{
    touching_keeps_messages(s.history, key, key);
    clearing_forgets_one_conversation(s.history, key, key);
    match cmd {
        StateCommand::AddUserMessage { content, .. } => {
            adding_appends(s.history, key, content@);
        },
        StateCommand::AddModelMessage { content, .. } => {
            adding_appends(s.history, key, content@);
        },
        StateCommand::PruneHistory { num_messages, .. } => {
            pruning_leaves_the_latest(s.history, key, num_messages as nat);
        },
        _ => {},
    }
}

/// As long as there is room for one more conversation, a command changes the
/// messages of no other conversation than its own.
pub proof fn commands_leave_other_conversations(s: StateView, cmd: StateCommand, other: Seq<char>)
    requires
        state_ok(s),
        conversation_of(cmd) != Some(other),
        s.history.len() < MAX_HISTORY_CONTEXTS,
    ensures
        messages_of(state_after(s, cmd).history, other) == messages_of(s.history, other),
{
    match cmd {
        StateCommand::AddUserMessage { context_key, content } => {
            adding_keeps_other_conversations(s.history, context_key@, content@, other);
        },
        StateCommand::AddModelMessage { context_key, content } => {
            adding_keeps_other_conversations(s.history, context_key@, content@, other);
        },
        StateCommand::ClearHistory { context_key } => {
            clearing_forgets_one_conversation(s.history, context_key@, other);
        },
        StateCommand::PruneHistory { context_key, num_messages } => {
            pruning_takes_the_oldest(s.history, context_key@, num_messages as nat, other);
        },
        StateCommand::GetHistorySnapshot { context_key } => {
            touching_keeps_messages(s.history, context_key@, other);
        },
        StateCommand::GetHistoryLen { context_key } => {
            touching_keeps_messages(s.history, context_key@, other);
        },
        StateCommand::GetLastUserPrompt { context_key } => {
            touching_keeps_messages(s.history, context_key@, other);
        },
        _ => {},
    }
}

/// A message that was added is the last of those that are read back, behind all
/// that were there, and one more is counted.
pub proof fn what_was_added_is_read_back(
    s: StateView,
    key: String,
    content: Content,
    history: StateReply,
    length: StateReply,
)
    requires
        state_ok(s),
        answers(
            state_after(s, StateCommand::AddUserMessage { context_key: key, content }),
            StateCommand::GetHistorySnapshot { context_key: key },
            history,
        ),
        answers(
            state_after(s, StateCommand::AddUserMessage { context_key: key, content }),
            StateCommand::GetHistoryLen { context_key: key },
            length,
        ),
    ensures
        history matches StateReply::History(list) && list@.map_values(|c: Content| c@)
            == messages_of(s.history, key@).push(content@),
        length matches StateReply::Length(n) && n == messages_of(s.history, key@).len() + 1,
{
    adding_appends(s.history, key@, content@);
}

/// A model that was chosen for a conversation is read back until the choice is
/// taken back; other conversations keep theirs.
pub proof fn a_chosen_model_is_read_back(
    s: StateView,
    key: String,
    model: String,
    other: Seq<char>,
)
    ensures
        ({
            let chosen = state_after(
                s,
                StateCommand::SetModelPreference { context_key: key, model },
            );
            let taken = state_after(s, StateCommand::RemoveModelPreference { context_key: key });
            &&& chosen.model_preferences.contains_key(key@)
            &&& chosen.model_preferences[key@] == model@
            &&& !taken.model_preferences.contains_key(key@)
            &&& other != key@ ==> find(chosen.model_preferences, other) == find(
                s.model_preferences,
                other,
            ) && find(taken.model_preferences, other) == find(s.model_preferences, other)
            &&& chosen.history == s.history && taken.history == s.history
        }),
{
}

/// What was stored last is what is answered: the sequencer of a conversation as
/// long as it is open, the model that was chosen for it, the answer that was
/// sent at a time, and the text that a user wrote.
pub proof fn what_was_stored_is_answered(
    s: StateView,
    key: String,
    tx: u64,
    closed: Vec<u64>,
    later: Vec<u64>,
    model: String,
    timestamp: u64,
    prompt: String,
    response: String,
    content: Content,
    text: Seq<char>,
    reply: StateReply,
)
    requires
        state_ok(s),
        content@.role == "user"@,
        content@.parts == seq![Some(text)],
    ensures
        answers(
            state_after(s, StateCommand::InsertSequencerTx { context_key: key, tx, closed }),
            StateCommand::GetSequencerTx { context_key: key, closed: later },
            reply,
        ) ==> reply == StateReply::Sequencer(
            if later@.contains(tx) {
                None
            } else {
                Some(tx)
            },
        ),
        answers(
            state_after(s, StateCommand::SetModelPreference { context_key: key, model }),
            StateCommand::GetModelPreference { context_key: key },
            reply,
        ) ==> (reply matches StateReply::Preference(p) && opt_view(p) == Some(model@)),
        answers(
            state_after(s, StateCommand::RemoveModelPreference { context_key: key }),
            StateCommand::GetModelPreference { context_key: key },
            reply,
        ) ==> (reply matches StateReply::Preference(p) && p is None),
        answers(
            state_after(
                s,
                StateCommand::InsertSentMessage { timestamp, context_key: key, prompt, response },
            ),
            StateCommand::GetSentMessage { timestamp },
            reply,
        ) ==> (reply matches StateReply::Sent(Some(sent)) && sent.0@ == key@ && sent.1@ == prompt@
            && sent.2@ == response@),
        answers(
            state_after(s, StateCommand::AddUserMessage { context_key: key, content }),
            StateCommand::GetLastUserPrompt { context_key: key },
            reply,
        ) ==> (reply matches StateReply::Prompt(p) && opt_view(p) == Some(text)),
{
    a_set_sequencer_is_found(s.sequencers, closed@, key@, tx);
    adding_appends(s.history, key@, content@);
    let m = messages_of(s.history, key@).push(content@);
    the_last_prompt_is_the_latest_of_a_user(m, m.len() - 1);
    let sent = SentMessageView { context_key: key@, prompt: prompt@, response: response@ };
    a_sent_message_is_found(s, timestamp, sent, timestamp);
}

} // verus!
