//! What the bot does with the messages it receives.
use vstd::prelude::*;

use crate::ai::{one_text, Content, ContentView};
use crate::bot::routing::{
    incoming_of, reacted_to, reaction_target, receipt_of, text_or, Incoming, IncomingView,
};
use crate::config::AppConfig;
use crate::lru::has_key;
use crate::signal::{data_of, DataMessageView, Envelope, Reaction};
use crate::state_manager::{
    adding_appends, adding_keeps_other_conversations, history_with, initial_state, last_user_text,
    messages_of, sequencer_of, sequencers_after_choice, state_ok, SentMessage, SentMessageView,
    StateManager, StateView, MAX_HISTORY_CONTEXTS,
};
use crate::text::{chars_of, opt_view};

pub mod prompt;
pub mod reply;
pub mod routing;
pub mod turn;
pub mod window;

verus! {

/// An answer of the bot.
#[derive(Debug)]
pub enum BotResponse {
    Text(String),
    /// File name and caption.
    Image(String, String),
    Error(String),
}

/// What an answer of the bot says.
#[verifier::ext_equal]
pub enum BotResponseView {
    Text(Seq<char>),
    Image(Seq<char>, Seq<char>),
    Error(Seq<char>),
}

impl View for BotResponse {
    type V = BotResponseView;

    open spec fn view(&self) -> BotResponseView {
        match *self {
            BotResponse::Text(text) => BotResponseView::Text(text@),
            BotResponse::Image(filename, caption) => BotResponseView::Image(filename@, caption@),
            BotResponse::Error(message) => BotResponseView::Error(message@),
        }
    }
}

/// What stands for the character `c` in a display name within quotes.
pub open spec fn sanitized_char(c: char) -> Seq<char> {
    if c == '\n' {
        seq![' ']
    } else if c == '\r' {
        Seq::empty()
    } else if c == '"' {
        seq!['\\', '"']
    } else {
        seq![c]
    }
}

/// A display name on one line and with its quotes escaped.
pub open spec fn sanitized(s: Seq<char>) -> Seq<char>
    decreases s.len(),
{
    if s.len() == 0 {
        Seq::empty()
    } else {
        sanitized(s.drop_last()) + sanitized_char(s.last())
    }
}

/// Makes a display name fit to stand within quotes in a prompt: line breaks
/// become spaces or vanish, and quotes are escaped.
pub fn sanitize_display_name(raw: &str) -> (r: String)
    ensures
        r@ == sanitized(raw@),
{
    let chars = chars_of(raw);
    let mut out = String::new();
    let mut i: usize = 0;
    while i < chars.len()
        invariant
            i <= chars.len(),
            out@ =~= sanitized(chars@.take(i as int)),
        decreases chars.len() - i,
    {
        let c = chars[i];
        assert(chars@.take(i + 1).drop_last() =~= chars@.take(i as int));
        assert(chars@.take(i + 1).last() == c);
        if c == '\n' {
            out.push(' ');
        } else if c == '\r' {
        } else if c == '"' {
            out.push('\\');
            out.push('"');
        } else {
            out.push(c);
        }
        i += 1;
    }
    assert(chars@.take(chars@.len() as int) =~= chars@);
    out
}

/// Whether the character at position `i` is no quote, or follows a backslash.
pub open spec fn quote_is_escaped(s: Seq<char>, i: int) -> bool {
    s[i] == '"' ==> i > 0 && s[i - 1] == '\\'
}

/// A sanitized name has no line break in it, and every quote in it follows a
/// backslash.
pub proof fn sanitized_names_stay_within_quotes(s: Seq<char>)
    ensures
        !sanitized(s).contains('\n'),
        !sanitized(s).contains('\r'),
        forall|i: int|
            0 <= i < sanitized(s).len() ==> #[trigger] quote_is_escaped(sanitized(s), i),
    decreases s.len(),
{
    if s.len() > 0 {
        let before = sanitized(s.drop_last());
        let piece = sanitized_char(s.last());
        let whole = sanitized(s);
        sanitized_names_stay_within_quotes(s.drop_last());
        assert forall|i: int| 0 <= i < whole.len() implies #[trigger] quote_is_escaped(whole, i)
            && whole[i] != '\n' && whole[i] != '\r' by {
            if i < before.len() {
                assert(before.contains(before[i]));
                assert(quote_is_escaped(before, i));
            } else {
                assert(whole[i] == piece[i - before.len()]);
            }
        }
        assert forall|i: int| 0 <= i < whole.len() implies whole[i] != '\n' && #[trigger] whole[i]
            != '\r' by {
            assert(quote_is_escaped(whole, i));
        }
    }
}

// ---------------------------------------------------------------------------
// Sessions
// ---------------------------------------------------------------------------

/// What has to be done about a message.
#[derive(Debug)]
pub enum NextStep {
    Nothing,
    /// A prompt has to be answered.
    Ask(Incoming),
    /// A reaction to an answer has to be judged.
    Learn { sent: SentMessage, emoji: String },
}

/// What a next step says.
#[verifier::ext_equal]
pub enum NextStepView {
    Nothing,
    Ask(IncomingView),
    Learn { sent: SentMessageView, emoji: Seq<char> },
}

impl View for NextStep {
    type V = NextStepView;

    open spec fn view(&self) -> NextStepView {
        match *self {
            NextStep::Nothing => NextStepView::Nothing,
            NextStep::Ask(incoming) => NextStepView::Ask(incoming@),
            NextStep::Learn { sent, emoji } => NextStepView::Learn { sent: sent@, emoji: emoji@ },
        }
    }
}

/// What has to be done about a message, and to whom its receipt goes.
#[derive(Debug)]
pub struct Handling {
    pub receipt: Option<(String, u64)>,
    pub next: NextStep,
}

/// The receipt of a handled message.
pub open spec fn receipt_view(r: Option<(String, u64)>) -> Option<(Seq<char>, u64)> {
    match r {
        Some(p) => Some((p.0@, p.1)),
        None => None,
    }
}

/// What has to be done about a message.
pub open spec fn next_step_of(
    e: Envelope,
    bot_number: Seq<char>,
    bot_name: Seq<char>,
    sent: Map<u64, SentMessageView>,
) -> NextStepView {
    match data_of(e) {
        None => NextStepView::Nothing,
        Some(d) => match (d.message, d.reaction) {
            (Some(text), _) => NextStepView::Ask(incoming_of(e, d, text, bot_number, bot_name)),
            (None, Some(reaction)) => match reacted_to(reaction, bot_number) {
                Some(time) => if sent.contains_key(time) {
                    NextStepView::Learn {
                        sent: sent[time],
                        emoji: text_or(opt_view(reaction.emoji), ""@),
                    }
                } else {
                    NextStepView::Nothing
                },
                None => NextStepView::Nothing,
            },
            (None, None) => NextStepView::Nothing,
        },
    }
}

/// The state after a message: a text has entered the history of its
/// conversation.
pub open spec fn after_message(s: StateView, next: NextStepView) -> StateView {
    match next {
        NextStepView::Ask(incoming) => StateView {
            history: history_with(
                s.history,
                incoming.context_key,
                one_text("user"@, incoming.history_text),
            ),
            ..s
        },
        _ => s,
    }
}

/// The conversations of the bot.
pub struct SessionManager {
    pub state: StateManager,
    pub bot_number: String,
    pub config: AppConfig,
}

impl SessionManager {
    /// Sessions without any conversation yet.
    pub fn new(bot_number: String, config: AppConfig) -> (r: Self)
        ensures
            r.bot_number == bot_number,
            r.config == config,
            r.state@ == initial_state(),
            state_ok(r.state@),
    {
        SessionManager { state: StateManager::new(), bot_number, config }
    }

    /// Takes a message in and says what has to be done about it.
    pub fn handle_message(&mut self, envelope: &Envelope) -> (r: Handling)
        requires
            state_ok(old(self).state@),
        ensures
            receipt_view(r.receipt) == if data_of(*envelope) is Some {
                receipt_of(*envelope)
            } else {
                None
            },
            r.next@ == next_step_of(
                *envelope,
                old(self).bot_number@,
                old(self).config.bot.name@,
                old(self).state@.sent_messages,
            ),
            final(self).state@ == after_message(old(self).state@, r.next@),
            state_ok(final(self).state@),
            final(self).bot_number == old(self).bot_number,
            final(self).config == old(self).config,
    {
        let data = match envelope.effective_data_message() {
            Some(data) => data,
            None => {
                return Handling { receipt: None, next: NextStep::Nothing };
            },
        };
        let receipt = routing::receipt(envelope);
        if let Some(text) = &data.message {
            let incoming = routing::incoming(
                envelope,
                &data,
                text.as_str(),
                self.bot_number.as_str(),
                self.config.bot.name.as_str(),
            );
            let content = Content::of_text("user", incoming.history_text.clone());
            self.state.add_user_message(incoming.context_key.as_str(), content);
            return Handling { receipt, next: NextStep::Ask(incoming) };
        }
        if let Some(reaction) = &data.reaction {
            if let Some(time) = reaction_target(reaction, self.bot_number.as_str()) {
                if let Some((context_key, prompt, response)) = self.state.get_sent_message(time) {
                    let emoji = match &reaction.emoji {
                        Some(emoji) => emoji.clone(),
                        None => "".to_string(),
                    };
                    return Handling {
                        receipt,
                        next: NextStep::Learn {
                            sent: SentMessage { context_key, prompt, response },
                            emoji,
                        },
                    };
                }
            }
        }
        Handling { receipt, next: NextStep::Nothing }
    }

    /// The sequencer to which the prompts of a conversation go, and whether it
    /// is the `fresh` one, which then has to be set up. The `closed` ones take
    /// no prompts any more.
    pub fn get_sequencer_tx(&mut self, context_key: &str, fresh: u64, closed: &Vec<u64>) -> (r: (
        u64,
        bool,
    ))
        requires
            state_ok(old(self).state@),
        ensures
            ({
                let found = sequencer_of(old(self).state@.sequencers, closed@, context_key@);
                r == match found {
                    Some(tx) => (tx, false),
                    None => (fresh, true),
                }
            }),
            final(self).state@ == (StateView {
                sequencers: sequencers_after_choice(
                    old(self).state@.sequencers,
                    closed@,
                    context_key@,
                    fresh,
                ),
                ..old(self).state@
            }),
            state_ok(final(self).state@),
            final(self).bot_number == old(self).bot_number,
            final(self).config == old(self).config,
    {
        match self.state.get_sequencer_tx(context_key, closed) {
            Some(tx) => (tx, false),
            None => {
                self.state.insert_sequencer_tx(context_key, fresh, closed);
                (fresh, true)
            },
        }
    }
}

/// A text that was taken in is the latest of its conversation.
pub proof fn a_message_is_remembered(s: StateView, incoming: IncomingView)
    requires
        state_ok(s),
    ensures
        last_user_text(
            messages_of(
                after_message(s, NextStepView::Ask(incoming)).history,
                incoming.context_key,
            ),
        ) == Some(incoming.history_text),
{
    let message = one_text("user"@, incoming.history_text);
    adding_appends(s.history, incoming.context_key, message);
    assert(messages_of(s.history, incoming.context_key).push(message).last() == message);
}

/// A text that was taken in comes after the messages that its conversation had,
/// as one message of a user with that text as its only piece. Nothing else
/// changes, but that a conversation may be forgotten that was not used for
/// longest.
pub proof fn a_text_enters_its_conversation(
    s: StateView,
    incoming: IncomingView,
    other: Seq<char>,
)
    requires
        state_ok(s),
    ensures
        ({
            let after = after_message(s, NextStepView::Ask(incoming));
            let key = incoming.context_key;
            &&& messages_of(after.history, key) == messages_of(s.history, key).push(
                ContentView { role: "user"@, parts: seq![Some(incoming.history_text)] },
            )
            &&& other != key && (s.history.len() < MAX_HISTORY_CONTEXTS || has_key(s.history, key)
                || s.history[0].0 != other) ==> messages_of(after.history, other) == messages_of(
                s.history,
                other,
            )
            &&& after.sequencers == s.sequencers
            &&& after.model_preferences == s.model_preferences
            &&& after.sent_messages == s.sent_messages
            &&& after.sent_messages_order == s.sent_messages_order
        }),
{
    let message = one_text("user"@, incoming.history_text);
    let key = incoming.context_key;
    adding_appends(s.history, key, message);
    if other != key && (s.history.len() < MAX_HISTORY_CONTEXTS || has_key(s.history, key)
        || s.history[0].0 != other) {
        adding_keeps_other_conversations(s.history, key, message, other);
    }
}

/// Every text is answered, under the number and the name of the bot; what is no
/// text changes nothing.
pub proof fn every_text_is_asked(
    s: StateView,
    e: Envelope,
    bot_number: Seq<char>,
    bot_name: Seq<char>,
    sent: Map<u64, SentMessageView>,
)
    ensures
        data_of(e) matches Some(d) ==> (d.message matches Some(text) ==> next_step_of(
            e,
            bot_number,
            bot_name,
            sent,
        ) == NextStepView::Ask(incoming_of(e, d, text, bot_number, bot_name))),
        data_of(e) is None || data_of(e)->0.message is None ==> after_message(
            s,
            next_step_of(e, bot_number, bot_name, sent),
        ) == s,
        data_of(e) is None ==> next_step_of(e, bot_number, bot_name, sent) is Nothing,
{
}

/// A reaction is learned from exactly where it is put on an answer that is
/// remembered; then that answer is judged, with the emoji of the reaction.
pub proof fn reactions_to_answers_are_learned(
    e: Envelope,
    d: DataMessageView,
    reaction: Reaction,
    bot_number: Seq<char>,
    bot_name: Seq<char>,
    sent: Map<u64, SentMessageView>,
)
    requires
        data_of(e) == Some(d),
        d.message is None,
        d.reaction == Some(reaction),
        opt_view(reaction.target_author) == Some(bot_number),
    ensures
        reaction.target_sent_timestamp matches Some(t) ==> (sent.contains_key(t) ==> (next_step_of(
            e,
            bot_number,
            bot_name,
            sent,
        ) matches NextStepView::Learn { sent: answer, emoji } && answer == sent[t] && (opt_view(
            reaction.emoji,
        ) matches Some(shown) ==> emoji == shown))),
        reaction.target_sent_timestamp is None || !sent.contains_key(
            reaction.target_sent_timestamp->0,
        ) ==> next_step_of(e, bot_number, bot_name, sent) is Nothing,
{
}

/// A reaction to what somebody else wrote is not learned from.
pub proof fn reactions_to_others_are_not_learned(
    e: Envelope,
    d: DataMessageView,
    reaction: Reaction,
    bot_number: Seq<char>,
    bot_name: Seq<char>,
    sent: Map<u64, SentMessageView>,
)
    requires
        data_of(e) == Some(d),
        d.message is None,
        d.reaction == Some(reaction),
        opt_view(reaction.target_author) != Some(bot_number),
        opt_view(reaction.target_author_number) != Some(bot_number),
        opt_view(reaction.target_author_uuid) != Some(bot_number),
        bot_number.len() > 0,
    ensures
        next_step_of(e, bot_number, bot_name, sent) is Nothing,
{
    crate::bot::routing::reactions_name_their_message(reaction, bot_number);
}

/// A display name is sanitized character by character.
pub proof fn sanitizing_goes_by_characters(a: Seq<char>, b: Seq<char>)
    ensures
        sanitized(a + b) == sanitized(a) + sanitized(b),
    decreases b.len(),
{
    if b.len() == 0 {
        assert(a + b =~= a);
        assert(sanitized(a) + sanitized(b) =~= sanitized(a));
    } else {
        sanitizing_goes_by_characters(a, b.drop_last());
        assert((a + b).drop_last() =~= a + b.drop_last());
        assert((a + b).last() == b.last());
        assert(sanitized(a + b) =~= sanitized(a) + sanitized(b));
    }
}

/// A line break becomes a space, a carriage return vanishes, a quote gets a
/// backslash, and every other character stays.
pub proof fn sanitized_characters(c: char)
    ensures
        sanitized(seq![c]) == if c == '\n' {
            Seq::empty().push(' ')
        } else if c == '\r' {
            Seq::empty()
        } else if c == '"' {
            Seq::empty().push('\\').push('"')
        } else {
            Seq::empty().push(c)
        },
{
    reveal_with_fuel(sanitized, 2);
    assert(seq![c].drop_last() =~= Seq::<char>::empty());
    assert(sanitized(seq![c]) =~= sanitized_char(c));
    assert(seq!['\\', '"'] =~= Seq::empty().push('\\').push('"'));
}

/// A name without line breaks and quotes stays as it is.
pub proof fn plain_names_stay(s: Seq<char>)
    requires
        !s.contains('\n'),
        !s.contains('\r'),
        !s.contains('"'),
    ensures
        sanitized(s) == s,
    decreases s.len(),
{
    if s.len() > 0 {
        let front = s.drop_last();
        assert(s[s.len() - 1] == s.last());
        assert(!front.contains('\n') && !front.contains('\r') && !front.contains('"')) by {
            assert forall|c: char| front.contains(c) implies #[trigger] s.contains(c) by {
                let i = choose|i: int| 0 <= i < front.len() && front[i] == c;
                assert(s[i] == c);
            }
        }
        plain_names_stay(front);
        assert(sanitized(s) =~= s);
    } else {
        assert(sanitized(s) =~= s);
    }
}

} // verus!
