//! The course of one prompt from its turn in the conversation to the last
//! message of the answer.
use vstd::prelude::*;

use crate::ai::memory::{interaction_views, GroupProfile, Interaction, UserProfile};
use crate::ai::vertex::content_views;
use crate::ai::{one_text, ClassificationDecision, Content, ContentView};
use crate::bot::prompt::{
    classification_prompt, classification_question, format_text, group_text, instructions,
    models_are_told_what_is_known, opt_group_view, person_view, profile_text,
    questions_end_with_the_prompt, system_instruction, SEPARATOR,
};
use crate::bot::reply::{
    ink, ink_of_all, is_document, messages_for, messages_say_it_all, reply_messages,
    split_messages_have_no_blank_line, unsplit_answers_stay_whole,
};
use crate::bot::routing::{reacted_to, text_or};
use crate::bot::window::{
    limit_of, limits_are_not_negative, planned, prune_amount, window_plan, WindowPlan,
    DEFAULT_MAX_INPUT_TOKENS, MIN_PRUNED_LEN,
};
use crate::bot::{next_step_of, BotResponse, BotResponseView, NextStepView, SessionManager};
use crate::config::{AppConfig, ModelSettings, ThinkingLevel};
use crate::crypto::random_number;
use crate::lru::{has_key, touched, unique_keys, without};
use crate::signal::{data_of, Envelope, Reaction};
use crate::state_manager::{
    a_sent_message_is_found, adding_appends, adding_keeps_other_conversations,
    clearing_forgets_one_conversation, history_pruned, history_with, messages_of,
    pruning_leaves_the_latest, pruning_takes_the_oldest, sent_with, state_ok,
    touching_keeps_messages, ContextRequest, ContextRequestView, DestinationInfo, SentMessageView,
    StateView, MAX_HISTORY_CONTEXTS, MAX_SENT_MESSAGES,
};
use crate::text::{
    begins_with, decimal, decimal_of, has_blank_line, has_text, joined, opt_view, same_text,
    starts_with, text_is_found_where_it_stands, trimmed, views,
};

verus! {

// ---------------------------------------------------------------------------
// Effects
// ---------------------------------------------------------------------------

/// Examples of a conversation that are looked up for a prompt, at most.
pub const MAX_EXAMPLES: usize = 3;

/// Something to be done outside, in order.
#[derive(Debug)]
pub enum Effect {
    /// Have the kind of a prompt named; the answer is an event.
    Classify { prompt: String },
    /// Show that the bot types, again and again.
    StartTyping,
    /// Have the tokens of a history counted; the answer is an event.
    CountTokens { contents: Vec<Content>, model: ModelSettings },
    /// Look up what is known; the answer is an event.
    Load {
        profile_key: String,
        source_name: Option<String>,
        group_id: Option<String>,
        /// The conversation whose best answers are wanted, up to `MAX_EXAMPLES`.
        examples_of: Option<String>,
    },
    /// Have an answer written; the answer is an event.
    Generate {
        contents: Vec<Content>,
        instruction: String,
        model: ModelSettings,
        use_search: bool,
        thinking_level: ThinkingLevel,
    },
    /// Have a picture drawn; the answer is an event.
    Draw { prompt: String, model: ModelSettings },
    /// Write the picture to a file; the answer is an event.
    WriteFile { filename: String },
    /// Bring the profiles up to date, while the rest goes on.
    UpdateProfiles { user_history: String, group: Option<(String, String)> },
    /// Send a message of the answer; whether that worked is an event.
    Send { text: String },
    /// Send a message; whether that works does not matter.
    Post { text: String, attachment: Option<String> },
    /// Wait.
    Pause { ms: u64 },
    /// Delete a file.
    RemoveFile { filename: String },
    /// Do not show any more that the bot types.
    StopTyping,
}

/// What a model setting says.
#[verifier::ext_equal]
pub struct ModelView {
    pub name: Seq<char>,
    pub temperature: Option<u64>,
    pub max_output_tokens: Option<i32>,
    pub max_input_tokens: Option<i32>,
    pub thinking_level: Option<ThinkingLevel>,
}

/// What an effect says.
#[verifier::ext_equal]
pub enum EffectView {
    Classify { prompt: Seq<char> },
    StartTyping,
    CountTokens { contents: Seq<ContentView>, model: ModelView },
    Load {
        profile_key: Seq<char>,
        source_name: Option<Seq<char>>,
        group_id: Option<Seq<char>>,
        examples_of: Option<Seq<char>>,
    },
    Generate {
        contents: Seq<ContentView>,
        instruction: Seq<char>,
        model: ModelView,
        use_search: bool,
        thinking_level: ThinkingLevel,
    },
    Draw { prompt: Seq<char>, model: ModelView },
    WriteFile { filename: Seq<char> },
    UpdateProfiles { user_history: Seq<char>, group: Option<(Seq<char>, Seq<char>)> },
    Send { text: Seq<char> },
    Post { text: Seq<char>, attachment: Option<Seq<char>> },
    Pause { ms: u64 },
    RemoveFile { filename: Seq<char> },
    StopTyping,
}

/// What a model setting says.
pub open spec fn model_view(m: ModelSettings) -> ModelView {
    ModelView {
        name: m.name@,
        temperature: m.temperature,
        max_output_tokens: m.max_output_tokens,
        max_input_tokens: m.max_input_tokens,
        thinking_level: m.thinking_level,
    }
}

/// A model without settings of its own.
pub open spec fn named(name: Seq<char>) -> ModelView {
    ModelView {
        name,
        temperature: None,
        max_output_tokens: None,
        max_input_tokens: None,
        thinking_level: None,
    }
}

impl View for Effect {
    type V = EffectView;

    open spec fn view(&self) -> EffectView {
        match *self {
            Effect::Classify { prompt } => EffectView::Classify { prompt: prompt@ },
            Effect::StartTyping => EffectView::StartTyping,
            Effect::CountTokens { contents, model } => EffectView::CountTokens {
                contents: content_views(contents@),
                model: model_view(model),
            },
            Effect::Load { profile_key, source_name, group_id, examples_of } => EffectView::Load {
                profile_key: profile_key@,
                source_name: opt_view(source_name),
                group_id: opt_view(group_id),
                examples_of: opt_view(examples_of),
            },
            Effect::Generate { contents, instruction, model, use_search, thinking_level } =>
                EffectView::Generate {
                contents: content_views(contents@),
                instruction: instruction@,
                model: model_view(model),
                use_search,
                thinking_level,
            },
            Effect::Draw { prompt, model } => EffectView::Draw {
                prompt: prompt@,
                model: model_view(model),
            },
            Effect::WriteFile { filename } => EffectView::WriteFile { filename: filename@ },
            Effect::UpdateProfiles { user_history, group } => EffectView::UpdateProfiles {
                user_history: user_history@,
                group: match group {
                    Some(g) => Some((g.0@, g.1@)),
                    None => None,
                },
            },
            Effect::Send { text } => EffectView::Send { text: text@ },
            Effect::Post { text, attachment } => EffectView::Post {
                text: text@,
                attachment: opt_view(attachment),
            },
            Effect::Pause { ms } => EffectView::Pause { ms },
            Effect::RemoveFile { filename } => EffectView::RemoveFile { filename: filename@ },
            Effect::StopTyping => EffectView::StopTyping,
        }
    }
}

/// What effects say.
pub open spec fn effect_views(effects: Seq<Effect>) -> Seq<EffectView> {
    effects.map_values(|e: Effect| e@)
}

// ---------------------------------------------------------------------------
// Events and phases
// ---------------------------------------------------------------------------

/// What came of an effect.
#[derive(Debug)]
pub enum TurnEvent {
    /// The kind of the prompt; `None` where it could not be named.
    Classified(Option<ClassificationDecision>),
    /// The number of tokens; `None` where they could not be counted.
    Counted(Option<i32>),
    /// What is known. A profile that cannot be read is `None`.
    Loaded {
        profile: Option<UserProfile>,
        group: Option<GroupProfile>,
        examples: Vec<Interaction>,
    },
    /// The answer; `None` where there is none.
    Generated(Option<String>),
    /// Whether there is a picture.
    Drawn(bool),
    /// Whether the picture was written.
    Written(bool),
    /// Whether the message was sent, and when.
    Sent { ok: bool, timestamp: u64 },
}

/// How an answer in words is asked for.
#[derive(Debug)]
pub struct TextPlan {
    pub intent: String,
    pub thinking_level: ThinkingLevel,
    /// The model that was chosen for the conversation.
    pub override_model: Option<String>,
}

/// What a plan says.
#[verifier::ext_equal]
pub struct TextPlanView {
    pub intent: Seq<char>,
    pub thinking_level: ThinkingLevel,
    pub override_model: Option<Seq<char>>,
}

impl View for TextPlan {
    type V = TextPlanView;

    open spec fn view(&self) -> TextPlanView {
        TextPlanView {
            intent: self.intent@,
            thinking_level: self.thinking_level,
            override_model: opt_view(self.override_model),
        }
    }
}

/// What a prompt waits for.
#[derive(Debug)]
pub enum Phase {
    /// For its turn.
    Waiting,
    Classifying,
    Counting { plan: TextPlan, len: usize },
    Loading { plan: TextPlan },
    Generating,
    Drawing,
    Writing { filename: String },
    /// For the message `next` to be sent.
    Sending { messages: Vec<String>, next: usize },
    /// For nothing.
    Done,
}

/// What a phase says.
#[verifier::ext_equal]
pub enum PhaseView {
    Waiting,
    Classifying,
    Counting { plan: TextPlanView, len: int },
    Loading { plan: TextPlanView },
    Generating,
    Drawing,
    Writing { filename: Seq<char> },
    Sending { messages: Seq<Seq<char>>, next: int },
    Done,
}

impl View for Phase {
    type V = PhaseView;

    open spec fn view(&self) -> PhaseView {
        match *self {
            Phase::Waiting => PhaseView::Waiting,
            Phase::Classifying => PhaseView::Classifying,
            Phase::Counting { plan, len } => PhaseView::Counting {
                plan: plan@,
                len: len as int,
            },
            Phase::Loading { plan } => PhaseView::Loading { plan: plan@ },
            Phase::Generating => PhaseView::Generating,
            Phase::Drawing => PhaseView::Drawing,
            Phase::Writing { filename } => PhaseView::Writing { filename: filename@ },
            Phase::Sending { messages, next } => PhaseView::Sending {
                messages: views(messages@),
                next: next as int,
            },
            Phase::Done => PhaseView::Done,
        }
    }
}

/// A prompt that is being answered.
#[derive(Debug)]
pub struct Turn {
    pub context_key: String,
    /// The group of the conversation.
    pub group_id: Option<String>,
    /// Where the answer goes.
    pub destination: DestinationInfo,
    pub request: ContextRequest,
    pub phase: Phase,
}

/// What a prompt that is being answered says.
#[verifier::ext_equal]
pub struct TurnView {
    pub context_key: Seq<char>,
    pub group_id: Option<Seq<char>>,
    pub reply_source: Seq<char>,
    pub reply_group_id: Option<Seq<char>>,
    pub request: ContextRequestView,
    pub phase: PhaseView,
}

impl View for Turn {
    type V = TurnView;

    open spec fn view(&self) -> TurnView {
        TurnView {
            context_key: self.context_key@,
            group_id: opt_view(self.group_id),
            reply_source: self.destination.0@,
            reply_group_id: opt_view(self.destination.1),
            request: self.request@,
            phase: self.phase@,
        }
    }
}

// ---------------------------------------------------------------------------
// What happens
// ---------------------------------------------------------------------------

/// A turn, the state of the conversations and what has to be done.
#[verifier::ext_equal]
pub struct StepView {
    pub turn: TurnView,
    pub state: StateView,
    pub effects: Seq<EffectView>,
}

/// The turn in another phase.
pub open spec fn in_phase(t: TurnView, phase: PhaseView) -> TurnView {
    TurnView { phase, ..t }
}

/// The state after a look at the history of a conversation.
pub open spec fn looked_at(s: StateView, key: Seq<char>) -> StateView {
    StateView { history: touched(s.history, key), ..s }
}

/// The lookup before an answer in words.
pub open spec fn lookup_for(t: TurnView, plan: TextPlanView) -> EffectView {
    EffectView::Load {
        profile_key: t.request.profile_key,
        source_name: t.request.source_name,
        group_id: t.group_id,
        examples_of: if plan.override_model is None {
            Some(t.context_key)
        } else {
            None
        },
    }
}

/// The model by whose limit the history of a conversation is measured.
pub open spec fn measuring_model(config: AppConfig, plan: TextPlanView) -> Seq<char> {
    match plan.override_model {
        Some(model) => if model == config.ai.models.chat@ {
            config.ai.models.chat@
        } else if model == config.ai.models.imagen@ {
            config.ai.models.imagen@
        } else {
            config.ai.models.classification@
        },
        None => config.ai.models.chat@,
    }
}

/// The first step towards an answer in words: a long history is measured.
pub open spec fn text_begins(
    config: AppConfig,
    t: TurnView,
    s: StateView,
    plan: TextPlanView,
) -> StepView {
    let history = messages_of(s.history, t.context_key);
    let once = looked_at(s, t.context_key);
    if history.len() < MIN_PRUNED_LEN {
        StepView {
            turn: in_phase(t, PhaseView::Loading { plan }),
            state: once,
            effects: Seq::empty().push(EffectView::StartTyping).push(lookup_for(t, plan)),
        }
    } else {
        StepView {
            turn: in_phase(t, PhaseView::Counting { plan, len: history.len() as int }),
            state: looked_at(once, t.context_key),
            effects: Seq::empty().push(EffectView::StartTyping).push(
                EffectView::CountTokens {
                    contents: history,
                    model: named(measuring_model(config, plan)),
                },
            ),
        }
    }
}

/// A prompt has its turn: where a model was chosen for the conversation, that
/// one answers; else the kind of the prompt is named first.
pub open spec fn turn_begins(config: AppConfig, t: TurnView, s: StateView) -> StepView {
    if s.model_preferences.contains_key(t.context_key) {
        text_begins(
            config,
            t,
            s,
            TextPlanView {
                intent: "OVERRIDE"@,
                thinking_level: ThinkingLevel::Medium,
                override_model: Some(s.model_preferences[t.context_key]),
            },
        )
    } else {
        StepView {
            turn: in_phase(t, PhaseView::Classifying),
            state: s,
            effects: Seq::empty().push(
                EffectView::Classify {
                    prompt: classification_question(
                        t.request.prompt,
                        t.request.is_explicit_interaction,
                    ),
                },
            ),
        }
    }
}

/// The kind of a prompt is known: it is ignored, drawn or answered in words.
pub open spec fn after_classified(
    config: AppConfig,
    t: TurnView,
    s: StateView,
    intent: Seq<char>,
    thinking_level: ThinkingLevel,
) -> StepView {
    if intent == "IGNORE"@ {
        StepView { turn: in_phase(t, PhaseView::Done), state: s, effects: Seq::empty() }
    } else if begins_with(intent, "IMAGE"@) {
        StepView {
            turn: in_phase(t, PhaseView::Drawing),
            state: s,
            effects: Seq::empty().push(EffectView::StartTyping).push(
                EffectView::Draw {
                    prompt: t.request.prompt,
                    model: named(config.ai.models.imagen@),
                },
            ),
        }
    } else {
        text_begins(config, t, s, TextPlanView { intent, thinking_level, override_model: None })
    }
}

/// The intent in a decision, or that of casual chat.
pub open spec fn intent_in(decision: Option<ClassificationDecision>) -> Seq<char> {
    match decision {
        Some(d) => d.intent@,
        None => "FLASH"@,
    }
}

/// The thinking level in a decision, or the middle one.
pub open spec fn level_in(decision: Option<ClassificationDecision>) -> ThinkingLevel {
    match decision {
        Some(d) => d.thinking_level,
        None => ThinkingLevel::Medium,
    }
}

/// The tokens that a model takes in.
pub open spec fn input_limit(model: ModelView) -> i32 {
    match model.max_input_tokens {
        Some(n) => n,
        None => DEFAULT_MAX_INPUT_TOKENS,
    }
}

/// The history after it was measured against what a model takes in.
pub open spec fn fitted(
    s: StateView,
    key: Seq<char>,
    len: int,
    count: Option<i32>,
    max_tokens: i32,
) -> StateView {
    match count {
        Some(count) => match planned(len, count as int, max_tokens as int) {
            WindowPlan::Keep => s,
            WindowPlan::Prune(n) => StateView {
                history: history_pruned(s.history, key, n as nat),
                ..s
            },
            WindowPlan::Clear => StateView { history: without(s.history, key), ..s },
        },
        None => s,
    }
}

/// The history was measured and cut; what is known is looked up.
pub open spec fn after_counted(
    config: AppConfig,
    t: TurnView,
    s: StateView,
    plan: TextPlanView,
    len: int,
    count: Option<i32>,
) -> StepView {
    StepView {
        turn: in_phase(t, PhaseView::Loading { plan }),
        state: fitted(
            s,
            t.context_key,
            len,
            count,
            input_limit(named(measuring_model(config, plan))),
        ),
        effects: Seq::empty().push(lookup_for(t, plan)),
    }
}

/// The model that answers.
pub open spec fn answering_model(config: AppConfig, plan: TextPlanView) -> ModelView {
    match plan.override_model {
        Some(name) => ModelView { thinking_level: Some(plan.thinking_level), ..named(name) },
        None => named(config.ai.models.chat@),
    }
}

/// The name that is shown of the person who wrote.
pub open spec fn shown_name(t: TurnView) -> Seq<char> {
    text_or(t.request.source_name, t.request.profile_key)
}

/// Everything is known; the answer is asked for.
pub open spec fn after_loaded(
    config: AppConfig,
    t: TurnView,
    s: StateView,
    plan: TextPlanView,
    profile: Option<UserProfile>,
    group: Option<GroupProfile>,
    examples: Seq<Interaction>,
) -> StepView {
    StepView {
        turn: in_phase(t, PhaseView::Generating),
        state: looked_at(s, t.context_key),
        effects: Seq::empty().push(
            EffectView::Generate {
                contents: messages_of(s.history, t.context_key),
                instruction: joined(
                    instructions(
                        config.bot.system_prompt@,
                        plan.intent,
                        config.bot.target_message_length_chars,
                        person_view(profile, shown_name(t)),
                        if t.group_id is Some {
                            opt_group_view(group)
                        } else {
                            None
                        },
                        if plan.override_model is None {
                            interaction_views(examples)
                        } else {
                            Seq::empty()
                        },
                    ),
                    SEPARATOR@,
                ),
                model: answering_model(config, plan),
                use_search: plan.override_model is None && plan.intent == "SEARCH"@,
                thinking_level: plan.thinking_level,
            },
        ),
    }
}

/// The update of the profiles after an answer.
pub open spec fn profile_update(config: AppConfig, t: TurnView, text: Seq<char>) -> EffectView {
    EffectView::UpdateProfiles {
        user_history: "User: "@ + t.request.prompt + "\nBot: "@ + text,
        group: match t.group_id {
            Some(gid) => Some(
                (
                    gid,
                    shown_name(t) + " (User): "@ + t.request.prompt + "\n"@ + config.bot.name@
                        + " (Bot): "@ + text,
                ),
            ),
            None => None,
        },
    }
}

/// There is an answer: words enter the history and are sent in messages, a
/// picture is sent and then deleted, an error is sent.
pub open spec fn after_answer(
    config: AppConfig,
    t: TurnView,
    s: StateView,
    response: BotResponseView,
) -> StepView {
    match response {
        BotResponseView::Text(text) => {
            let messages = messages_for(
                text,
                config.bot.enable_paragraph_splitting,
                config.bot.enable_message_splitting,
            );
            let state = StateView {
                history: history_with(s.history, t.context_key, one_text("model"@, text)),
                ..s
            };
            let start = Seq::empty().push(profile_update(config, t, text));
            if messages.len() > 0 {
                StepView {
                    turn: in_phase(t, PhaseView::Sending { messages, next: 0 }),
                    state,
                    effects: start.push(EffectView::Send { text: messages[0] }),
                }
            } else {
                StepView {
                    turn: in_phase(t, PhaseView::Done),
                    state,
                    effects: start.push(EffectView::StopTyping),
                }
            }
        },
        BotResponseView::Image(filename, caption) => StepView {
            turn: in_phase(t, PhaseView::Done),
            state: s,
            effects: Seq::empty().push(
                EffectView::Post { text: caption, attachment: Some(filename) },
            ).push(EffectView::Pause { ms: IMAGE_GRACE_MS }).push(
                EffectView::RemoveFile { filename },
            ).push(EffectView::StopTyping),
        },
        BotResponseView::Error(message) => StepView {
            turn: in_phase(t, PhaseView::Done),
            state: s,
            effects: Seq::empty().push(EffectView::Post { text: message, attachment: None }).push(
                EffectView::StopTyping,
            ),
        },
    }
}

/// Milliseconds for which the file of a picture is kept after it was sent.
pub const IMAGE_GRACE_MS: u64 = 5000;

/// What the bot says where no answer could be written.
pub const NO_ANSWER: &'static str = "I tried to think but my brain returned 404. (AI Error - check logs)";

/// What the bot says where the picture could not be written to a file.
pub const NO_FILE: &'static str = "I tried to draw something but my pencil broke (write error).";

/// What the bot says of a picture.
pub const CAPTION: &'static str = "Here is your image.";

/// What the bot says where no picture could be drawn.
pub open spec fn no_picture(model: Seq<char>) -> Seq<char> {
    "I could not generate that image with "@ + model + ". I am sorry."@
}

/// The file of a picture.
pub open spec fn image_filename(suffix: u64) -> Seq<char> {
    "/tmp/piotr_img_"@ + decimal(suffix as nat) + ".png"@
}

/// Whether there is a picture is known.
pub open spec fn after_drawn(
    config: AppConfig,
    t: TurnView,
    s: StateView,
    ok: bool,
    suffix: u64,
) -> StepView {
    if ok {
        let filename = image_filename(suffix);
        StepView {
            turn: in_phase(t, PhaseView::Writing { filename }),
            state: s,
            effects: Seq::empty().push(EffectView::WriteFile { filename }),
        }
    } else {
        after_answer(config, t, s, BotResponseView::Error(no_picture(config.ai.models.imagen@)))
    }
}

/// A message was sent, or not: one that was is remembered, and the next one
/// follows after a pause.
pub open spec fn after_sent(
    config: AppConfig,
    t: TurnView,
    s: StateView,
    messages: Seq<Seq<char>>,
    next: int,
    ok: bool,
    timestamp: u64,
) -> StepView {
    let state = if ok {
        sent_with(
            s,
            timestamp,
            SentMessageView {
                context_key: t.context_key,
                prompt: t.request.prompt,
                response: messages[next],
            },
        )
    } else {
        s
    };
    if next + 1 < messages.len() {
        StepView {
            turn: in_phase(t, PhaseView::Sending { messages, next: next + 1 }),
            state,
            effects: Seq::empty().push(EffectView::Pause { ms: config.bot.message_delay_ms }).push(
                EffectView::Send { text: messages[next + 1] },
            ),
        }
    } else {
        StepView {
            turn: in_phase(t, PhaseView::Done),
            state,
            effects: Seq::empty().push(EffectView::StopTyping),
        }
    }
}

/// What an event makes of a turn. `suffix` is a number that makes the name of a
/// file its own. An event that the turn does not wait for changes nothing.
pub open spec fn turn_goes_on(
    config: AppConfig,
    t: TurnView,
    s: StateView,
    event: TurnEvent,
    suffix: u64,
) -> StepView {
    match (t.phase, event) {
        (PhaseView::Classifying, TurnEvent::Classified(decision)) => after_classified(
            config,
            t,
            s,
            intent_in(decision),
            level_in(decision),
        ),
        (PhaseView::Counting { plan, len }, TurnEvent::Counted(count)) => after_counted(
            config,
            t,
            s,
            plan,
            len,
            count,
        ),
        (PhaseView::Loading { plan }, TurnEvent::Loaded { profile, group, examples }) =>
            after_loaded(config, t, s, plan, profile, group, examples@),
        (PhaseView::Generating, TurnEvent::Generated(answer)) => after_answer(
            config,
            t,
            s,
            match opt_view(answer) {
                Some(text) => BotResponseView::Text(text),
                None => BotResponseView::Error(NO_ANSWER@),
            },
        ),
        (PhaseView::Drawing, TurnEvent::Drawn(ok)) => after_drawn(config, t, s, ok, suffix),
        (PhaseView::Writing { filename }, TurnEvent::Written(ok)) => after_answer(
            config,
            t,
            s,
            if ok {
                BotResponseView::Image(filename, CAPTION@)
            } else {
                BotResponseView::Error(NO_FILE@)
            },
        ),
        (PhaseView::Sending { messages, next }, TurnEvent::Sent { ok, timestamp }) => after_sent(
            config,
            t,
            s,
            messages,
            next,
            ok,
            timestamp,
        ),
        _ => StepView { turn: t, state: s, effects: Seq::empty() },
    }
}

/// Whether the message that a turn waits for is one of the answer.
pub open spec fn turn_ok(t: TurnView) -> bool {
    t.phase matches PhaseView::Sending { messages, next } ==> 0 <= next
        < messages.len()
}

/// What a step did to a turn and to the sessions.
pub open spec fn did(
    before: SessionManager,
    turn: TurnView,
    after: SessionManager,
    effects: Seq<Effect>,
    expected: StepView,
) -> bool {
    &&& turn == expected.turn
    &&& after.state@ == expected.state
    &&& effect_views(effects) == expected.effects
    &&& after.bot_number == before.bot_number
    &&& after.config == before.config
    &&& state_ok(after.state@)
    &&& turn_ok(turn)
}

// ---------------------------------------------------------------------------
// Doing it
// ---------------------------------------------------------------------------

fn one(e: Effect) -> (r: Vec<Effect>)
    ensures
        effect_views(r@) == Seq::empty().push(e@),
{
    let mut r: Vec<Effect> = Vec::new();
    r.push(e);
    assert(effect_views(r@) =~= Seq::empty().push(e@));
    r
}

fn and(effects: Vec<Effect>, e: Effect) -> (r: Vec<Effect>)
    ensures
        effect_views(r@) == effect_views(effects@).push(e@),
{
    let ghost before = effect_views(effects@);
    let mut r = effects;
    r.push(e);
    assert(effect_views(r@) =~= before.push(e@));
    r
}

fn nothing() -> (r: Vec<Effect>)
    ensures
        effect_views(r@) == Seq::<EffectView>::empty(),
{
    let r: Vec<Effect> = Vec::new();
    assert(effect_views(r@) =~= Seq::<EffectView>::empty());
    r
}

fn model_of(config: &AppConfig, plan: &TextPlan) -> (r: ModelSettings)
    ensures
        model_view(r) == named(measuring_model(*config, plan@)),
{
    match &plan.override_model {
        Some(model) => if same_text(model.as_str(), config.ai.models.chat.as_str()) {
            ModelSettings::named(config.ai.models.chat.as_str())
        } else if same_text(model.as_str(), config.ai.models.imagen.as_str()) {
            ModelSettings::named(config.ai.models.imagen.as_str())
        } else {
            ModelSettings::named(config.ai.models.classification.as_str())
        },
        None => ModelSettings::named(config.ai.models.chat.as_str()),
    }
}

impl Turn {
    /// A prompt that waits for its turn.
    pub fn new(
        context_key: String,
        group_id: Option<String>,
        destination: DestinationInfo,
        request: ContextRequest,
    ) -> (r: Turn)
        ensures
            r@ == (TurnView {
                context_key: context_key@,
                group_id: opt_view(group_id),
                reply_source: destination.0@,
                reply_group_id: opt_view(destination.1),
                request: request@,
                phase: PhaseView::Waiting,
            }),
            turn_ok(r@),
    {
        Turn { context_key, group_id, destination, request, phase: Phase::Waiting }
    }

    fn lookup(&self, plan: &TextPlan) -> (r: Effect)
        ensures
            r@ == lookup_for(self@, plan@),
    {
        Effect::Load {
            profile_key: self.request.profile_key.clone(),
            source_name: self.request.source_name.clone(),
            group_id: self.group_id.clone(),
            examples_of: if plan.override_model.is_none() {
                Some(self.context_key.clone())
            } else {
                None
            },
        }
    }

    fn begin_text(&mut self, session: &mut SessionManager, plan: TextPlan) -> (r: Vec<Effect>)
        requires
            state_ok(old(session).state@),
        ensures
            did(
                *old(session),
                final(self)@,
                *final(session),
                r@,
                text_begins(old(session).config, old(self)@, old(session).state@, plan@),
            ),
    {
        let ghost s = session.state@;
        let len = session.state.get_history_len(self.context_key.as_str());
        let effects = one(Effect::StartTyping);
        if len < MIN_PRUNED_LEN {
            let effects = and(effects, self.lookup(&plan));
            self.phase = Phase::Loading { plan };
            effects
        } else {
            let contents = session.state.get_history_snapshot(self.context_key.as_str());
            proof {
                crate::state_manager::touching_keeps_messages(
                    s.history,
                    self.context_key@,
                    self.context_key@,
                );
            }
            let model = model_of(&session.config, &plan);
            let effects = and(effects, Effect::CountTokens { contents, model });
            self.phase = Phase::Counting { plan, len };
            effects
        }
    }

    /// Gives a prompt its turn.
    pub fn begin(&mut self, session: &mut SessionManager) -> (r: Vec<Effect>)
        requires
            state_ok(old(session).state@),
        ensures
            did(
                *old(session),
                final(self)@,
                *final(session),
                r@,
                turn_begins(old(session).config, old(self)@, old(session).state@),
            ),
    {
        match session.state.get_model_preference(self.context_key.as_str()) {
            Some(model) => {
                let plan = TextPlan {
                    intent: "OVERRIDE".to_string(),
                    thinking_level: ThinkingLevel::Medium,
                    override_model: Some(model),
                };
                self.begin_text(session, plan)
            },
            None => {
                let prompt = classification_prompt(
                    self.request.prompt.as_str(),
                    self.request.is_explicit_interaction,
                );
                self.phase = Phase::Classifying;
                one(Effect::Classify { prompt })
            },
        }
    }

    /// Goes on once the kind of the prompt is known.
    pub fn classified(
        &mut self,
        session: &mut SessionManager,
        intent: String,
        thinking_level: ThinkingLevel,
    ) -> (r: Vec<Effect>)
        requires
            state_ok(old(session).state@),
        ensures
            did(
                *old(session),
                final(self)@,
                *final(session),
                r@,
                after_classified(
                    old(session).config,
                    old(self)@,
                    old(session).state@,
                    intent@,
                    thinking_level,
                ),
            ),
    {
        if same_text(intent.as_str(), "IGNORE") {
            self.phase = Phase::Done;
            nothing()
        } else if starts_with(intent.as_str(), "IMAGE") {
            self.phase = Phase::Drawing;
            let model = ModelSettings::named(session.config.ai.models.imagen.as_str());
            and(
                one(Effect::StartTyping),
                Effect::Draw { prompt: self.request.prompt.clone(), model },
            )
        } else {
            self.begin_text(session, TextPlan { intent, thinking_level, override_model: None })
        }
    }

    fn counted(
        &mut self,
        session: &mut SessionManager,
        plan: TextPlan,
        len: usize,
        count: Option<i32>,
    ) -> (r: Vec<Effect>)
        requires
            state_ok(old(session).state@),
        ensures
            did(
                *old(session),
                final(self)@,
                *final(session),
                r@,
                after_counted(
                    old(session).config,
                    old(self)@,
                    old(session).state@,
                    plan@,
                    len as int,
                    count,
                ),
            ),
    {
        if let Some(count) = count {
            let model = model_of(&session.config, &plan);
            let max_tokens: i32 = match model.max_input_tokens {
                Some(n) => n,
                None => DEFAULT_MAX_INPUT_TOKENS,
            };
            proof {
                limits_are_not_negative(max_tokens as int);
            }
            match window_plan(len, count, max_tokens) {
                WindowPlan::Keep => {},
                WindowPlan::Prune(n) => {
                    session.state.prune_history(self.context_key.as_str(), n);
                },
                WindowPlan::Clear => {
                    session.state.clear_history(self.context_key.as_str());
                },
            }
        }
        let effects = one(self.lookup(&plan));
        self.phase = Phase::Loading { plan };
        effects
    }

    fn name(&self) -> (r: String)
        ensures
            r@ == shown_name(self@),
    {
        match &self.request.source_name {
            Some(name) => name.clone(),
            None => self.request.profile_key.clone(),
        }
    }

    fn loaded(
        &mut self,
        session: &mut SessionManager,
        plan: TextPlan,
        profile: Option<UserProfile>,
        group: Option<GroupProfile>,
        examples: Vec<Interaction>,
    ) -> (r: Vec<Effect>)
        requires
            state_ok(old(session).state@),
        ensures
            did(
                *old(session),
                final(self)@,
                *final(session),
                r@,
                after_loaded(
                    old(session).config,
                    old(self)@,
                    old(session).state@,
                    plan@,
                    profile,
                    group,
                    examples@,
                ),
            ),
    {
        let use_search = plan.override_model.is_none() && same_text(plan.intent.as_str(), "SEARCH");
        let group = if self.group_id.is_some() {
            group
        } else {
            None
        };
        let ghost given = examples@;
        let examples = if plan.override_model.is_none() {
            examples
        } else {
            Vec::new()
        };
        assert(interaction_views(examples@) =~= if plan.override_model is None {
            interaction_views(given)
        } else {
            Seq::empty()
        });
        let name = self.name();
        let instruction = system_instruction(
            session.config.bot.system_prompt.as_str(),
            plan.intent.as_str(),
            session.config.bot.target_message_length_chars,
            &profile,
            name.as_str(),
            &group,
            &examples,
        );
        let contents = session.state.get_history_snapshot(self.context_key.as_str());
        let model = match &plan.override_model {
            Some(name) => {
                let mut model = ModelSettings::named(name.as_str());
                model.thinking_level = Some(plan.thinking_level);
                model
            },
            None => ModelSettings::named(session.config.ai.models.chat.as_str()),
        };
        self.phase = Phase::Generating;
        one(
            Effect::Generate {
                contents,
                instruction,
                model,
                use_search,
                thinking_level: plan.thinking_level,
            },
        )
    }

    fn update(&self, config: &AppConfig, text: &str) -> (r: Effect)
        ensures
            r@ == profile_update(*config, self@, text@),
    {
        let mut user_history = "User: ".to_string();
        user_history.append(self.request.prompt.as_str());
        user_history.append("\nBot: ");
        user_history.append(text);
        let group = match &self.group_id {
            Some(gid) => {
                let mut history = self.name();
                history.append(" (User): ");
                history.append(self.request.prompt.as_str());
                history.append("\n");
                history.append(config.bot.name.as_str());
                history.append(" (Bot): ");
                history.append(text);
                Some((gid.clone(), history))
            },
            None => None,
        };
        Effect::UpdateProfiles { user_history, group }
    }

    /// Goes on once there is an answer.
    pub fn answer(&mut self, session: &mut SessionManager, response: BotResponse) -> (r: Vec<
        Effect,
    >)
        requires
            state_ok(old(session).state@),
        ensures
            did(
                *old(session),
                final(self)@,
                *final(session),
                r@,
                after_answer(old(session).config, old(self)@, old(session).state@, response@),
            ),
    {
        match response {
            BotResponse::Text(text) => {
                let effects = one(self.update(&session.config, text.as_str()));
                let messages = reply_messages(
                    text.as_str(),
                    session.config.bot.enable_paragraph_splitting,
                    session.config.bot.enable_message_splitting,
                );
                session.state.add_model_message(
                    self.context_key.as_str(),
                    Content::of_text("model", text),
                );
                if messages.len() > 0 {
                    assert(views(messages@)[0] == messages@[0]@);
                    let effects = and(effects, Effect::Send { text: messages[0].clone() });
                    self.phase = Phase::Sending { messages, next: 0 };
                    effects
                } else {
                    self.phase = Phase::Done;
                    and(effects, Effect::StopTyping)
                }
            },
            BotResponse::Image(filename, caption) => {
                self.phase = Phase::Done;
                let effects = one(
                    Effect::Post { text: caption, attachment: Some(filename.clone()) },
                );
                let effects = and(effects, Effect::Pause { ms: IMAGE_GRACE_MS });
                let effects = and(effects, Effect::RemoveFile { filename });
                and(effects, Effect::StopTyping)
            },
            BotResponse::Error(message) => {
                self.phase = Phase::Done;
                and(one(Effect::Post { text: message, attachment: None }), Effect::StopTyping)
            },
        }
    }

    /// Goes on once it is known whether there is a picture.
    pub fn drawn(&mut self, session: &mut SessionManager, ok: bool, suffix: u64) -> (r: Vec<Effect>)
        requires
            state_ok(old(session).state@),
        ensures
            did(
                *old(session),
                final(self)@,
                *final(session),
                r@,
                after_drawn(old(session).config, old(self)@, old(session).state@, ok, suffix),
            ),
    {
        if ok {
            let mut filename = "/tmp/piotr_img_".to_string();
            filename.append(decimal_of(suffix).as_str());
            filename.append(".png");
            self.phase = Phase::Writing { filename: filename.clone() };
            one(Effect::WriteFile { filename })
        } else {
            let mut message = "I could not generate that image with ".to_string();
            message.append(session.config.ai.models.imagen.as_str());
            message.append(". I am sorry.");
            self.answer(session, BotResponse::Error(message))
        }
    }

    fn sent(
        &mut self,
        session: &mut SessionManager,
        messages: Vec<String>,
        next: usize,
        ok: bool,
        timestamp: u64,
    ) -> (r: Vec<Effect>)
        requires
            state_ok(old(session).state@),
            next < messages@.len(),
        ensures
            did(
                *old(session),
                final(self)@,
                *final(session),
                r@,
                after_sent(
                    old(session).config,
                    old(self)@,
                    old(session).state@,
                    views(messages@),
                    next as int,
                    ok,
                    timestamp,
                ),
            ),
    {
        if ok {
            session.state.insert_sent_message(
                timestamp,
                self.context_key.clone(),
                self.request.prompt.clone(),
                messages[next].clone(),
            );
        }
        if messages.len() - next > 1 {
            let effects = one(Effect::Pause { ms: session.config.bot.message_delay_ms });
            let effects = and(effects, Effect::Send { text: messages[next + 1].clone() });
            self.phase = Phase::Sending { messages, next: next + 1 };
            effects
        } else {
            self.phase = Phase::Done;
            one(Effect::StopTyping)
        }
    }

    /// Goes on after an event, where `suffix` makes the name of a file its own.
    pub fn go_on(&mut self, session: &mut SessionManager, event: TurnEvent, suffix: u64) -> (r: Vec<
        Effect,
    >)
        requires
            state_ok(old(session).state@),
            turn_ok(old(self)@),
        ensures
            did(
                *old(session),
                final(self)@,
                *final(session),
                r@,
                turn_goes_on(
                    old(session).config,
                    old(self)@,
                    old(session).state@,
                    event,
                    suffix,
                ),
            ),
    {
        let mut phase = Phase::Done;
        std::mem::swap(&mut phase, &mut self.phase);
        match (phase, event) {
            (Phase::Classifying, TurnEvent::Classified(decision)) => {
                let decision = match decision {
                    Some(decision) => decision,
                    None => ClassificationDecision::default(),
                };
                self.classified(session, decision.intent, decision.thinking_level)
            },
            (Phase::Counting { plan, len }, TurnEvent::Counted(count)) => self.counted(
                session,
                plan,
                len,
                count,
            ),
            (Phase::Loading { plan }, TurnEvent::Loaded { profile, group, examples }) =>
                self.loaded(session, plan, profile, group, examples),
            (Phase::Generating, TurnEvent::Generated(answer)) => {
                let response = match answer {
                    Some(text) => BotResponse::Text(text),
                    None => BotResponse::Error(NO_ANSWER.to_string()),
                };
                self.answer(session, response)
            },
            (Phase::Drawing, TurnEvent::Drawn(ok)) => self.drawn(session, ok, suffix),
            (Phase::Writing { filename }, TurnEvent::Written(ok)) => {
                let response = if ok {
                    BotResponse::Image(filename, CAPTION.to_string())
                } else {
                    BotResponse::Error(NO_FILE.to_string())
                };
                self.answer(session, response)
            },
            (Phase::Sending { messages, next }, TurnEvent::Sent { ok, timestamp }) => self.sent(
                session,
                messages,
                next,
                ok,
                timestamp,
            ),
            (phase, _) => {
                self.phase = phase;
                nothing()
            },
        }
    }

    /// Goes on after an event.
    pub fn advance(&mut self, session: &mut SessionManager, event: TurnEvent) -> (r: Vec<Effect>)
        requires
            state_ok(old(session).state@),
            turn_ok(old(self)@),
        ensures
            exists|suffix: u64| #[trigger]
                did(
                    *old(session),
                    final(self)@,
                    *final(session),
                    r@,
                    turn_goes_on(
                        old(session).config,
                        old(self)@,
                        old(session).state@,
                        event,
                        suffix,
                    ),
                ),
    {
        let suffix: u64 = random_number();
        self.go_on(session, event, suffix)
    }
}

// ---------------------------------------------------------------------------
// Laws
// ---------------------------------------------------------------------------

/// Whether the bot is shown to type while a turn is in a phase.
pub open spec fn types_in(phase: PhaseView) -> bool {
    !(phase is Waiting) && !(phase is Classifying) && !(phase is Done)
}

/// Whether the bot is shown to type after some effects.
pub open spec fn types_after(before: bool, effects: Seq<EffectView>) -> bool
    decreases effects.len(),
{
    if effects.len() == 0 {
        before
    } else {
        match effects.last() {
            EffectView::StartTyping => true,
            EffectView::StopTyping => false,
            _ => types_after(before, effects.drop_last()),
        }
    }
}

/// Whether an effect is one whose outcome a turn in the given phase waits for.
pub open spec fn is_awaited(phase: PhaseView, e: EffectView) -> bool {
    match phase {
        PhaseView::Classifying => e is Classify,
        PhaseView::Counting { .. } => e is CountTokens,
        PhaseView::Loading { .. } => e is Load,
        PhaseView::Generating => e is Generate,
        PhaseView::Drawing => e is Draw,
        PhaseView::Writing { filename } => e == (EffectView::WriteFile { filename }),
        PhaseView::Sending { messages, next } => e == (EffectView::Send {
            text: messages[next],
        }),
        _ => false,
    }
}

/// Whether an event is what a turn in the given phase waits for.
pub open spec fn is_expected(phase: PhaseView, event: TurnEvent) -> bool {
    match phase {
        PhaseView::Classifying => event is Classified,
        PhaseView::Counting { .. } => event is Counted,
        PhaseView::Loading { .. } => event is Loaded,
        PhaseView::Generating => event is Generated,
        PhaseView::Drawing => event is Drawn,
        PhaseView::Writing { .. } => event is Written,
        PhaseView::Sending { .. } => event is Sent,
        _ => false,
    }
}

/// A step that leaves the bot shown to type exactly while it works on an
/// answer, and whose last effect is the one that the turn then waits for.
pub open spec fn is_sound(before: PhaseView, step: StepView) -> bool {
    &&& types_after(types_in(before), step.effects) == types_in(step.turn.phase)
    &&& !(step.turn.phase is Done) ==> step.effects.len() > 0 && is_awaited(
        step.turn.phase,
        step.effects.last(),
    )
}

proof fn lemma_text_begins(config: AppConfig, t: TurnView, s: StateView, plan: TextPlanView)
    ensures
        types_after(types_in(t.phase), text_begins(config, t, s, plan).effects),
        is_awaited(
            text_begins(config, t, s, plan).turn.phase,
            text_begins(config, t, s, plan).effects.last(),
        ),
{
    let step = text_begins(config, t, s, plan);
    assert(step.effects.drop_last() =~= Seq::empty().push(EffectView::StartTyping));
    reveal_with_fuel(types_after, 3);
}

proof fn lemma_one_more(before: bool, effects: Seq<EffectView>, e: EffectView)
    ensures
        types_after(before, effects.push(e)) == match e {
            EffectView::StartTyping => true,
            EffectView::StopTyping => false,
            _ => types_after(before, effects),
        },
{
    assert(effects.push(e).drop_last() =~= effects);
}

/// When a prompt has its turn, the bot is shown to type if it works on an
/// answer at once, and something is asked for.
pub proof fn a_turn_begins_soundly(config: AppConfig, t: TurnView, s: StateView)
    requires
        t.phase is Waiting,
    ensures
        is_sound(t.phase, turn_begins(config, t, s)),
{
    if s.model_preferences.contains_key(t.context_key) {
        lemma_text_begins(
            config,
            t,
            s,
            TextPlanView {
                intent: "OVERRIDE"@,
                thinking_level: ThinkingLevel::Medium,
                override_model: Some(s.model_preferences[t.context_key]),
            },
        );
    } else {
        let e = turn_begins(config, t, s).effects[0];
        lemma_one_more(false, Seq::empty(), e);
    }
}

proof fn lemma_answer(config: AppConfig, t: TurnView, s: StateView, response: BotResponseView)
    requires
        types_in(t.phase),
    ensures
        is_sound(t.phase, after_answer(config, t, s, response)),
{
    let step = after_answer(config, t, s, response);
    match response {
        BotResponseView::Text(text) => {
            let start = Seq::empty().push(profile_update(config, t, text));
            lemma_one_more(true, Seq::empty(), profile_update(config, t, text));
            lemma_one_more(true, start, step.effects.last());
        },
        _ => {
            lemma_one_more(true, step.effects.drop_last(), EffectView::StopTyping);
            assert(step.effects =~= step.effects.drop_last().push(EffectView::StopTyping));
        },
    }
}

/// Whatever a turn waits for, once that has happened the bot is shown to type
/// exactly while it goes on with the answer, and either the turn is done or
/// the last thing asked for is what the turn then waits for.
#[verifier::spinoff_prover]
#[verifier::rlimit(40)]
pub proof fn a_turn_goes_on_soundly(
    config: AppConfig,
    t: TurnView,
    s: StateView,
    event: TurnEvent,
    suffix: u64,
)
    requires
        turn_ok(t),
        is_expected(t.phase, event),
    ensures
        is_sound(t.phase, turn_goes_on(config, t, s, event, suffix)),
        turn_ok(turn_goes_on(config, t, s, event, suffix).turn),
{
    let step = turn_goes_on(config, t, s, event, suffix);
    match (t.phase, event) {
        (PhaseView::Classifying, TurnEvent::Classified(decision)) => {
            let intent = intent_in(decision);
            if intent == "IGNORE"@ {
            } else if begins_with(intent, "IMAGE"@) {
                let start = Seq::empty().push(EffectView::StartTyping);
                lemma_one_more(false, Seq::empty(), EffectView::StartTyping);
                lemma_one_more(false, start, step.effects.last());
            } else {
                lemma_text_begins(
                    config,
                    t,
                    s,
                    TextPlanView {
                        intent,
                        thinking_level: level_in(decision),
                        override_model: None,
                    },
                );
            }
        },
        (PhaseView::Generating, TurnEvent::Generated(answer)) => {
            lemma_answer(
                config,
                t,
                s,
                match opt_view(answer) {
                    Some(text) => BotResponseView::Text(text),
                    None => BotResponseView::Error(NO_ANSWER@),
                },
            );
        },
        (PhaseView::Writing { filename }, TurnEvent::Written(ok)) => {
            lemma_answer(
                config,
                t,
                s,
                if ok {
                    BotResponseView::Image(filename, CAPTION@)
                } else {
                    BotResponseView::Error(NO_FILE@)
                },
            );
        },
        (PhaseView::Drawing, TurnEvent::Drawn(ok)) => {
            if ok {
                lemma_one_more(true, Seq::empty(), step.effects.last());
            } else {
                lemma_answer(
                    config,
                    t,
                    s,
                    BotResponseView::Error(no_picture(config.ai.models.imagen@)),
                );
            }
        },
        (PhaseView::Sending { messages, next }, TurnEvent::Sent { ok, timestamp }) => {
            let pause = EffectView::Pause { ms: config.bot.message_delay_ms };
            lemma_one_more(true, Seq::empty(), pause);
            lemma_one_more(true, Seq::empty().push(pause), step.effects.last());
            lemma_one_more(true, Seq::empty(), EffectView::StopTyping);
        },
        _ => {
            lemma_one_more(true, Seq::empty(), step.effects.last());
        },
    }
}

/// A message that is not meant for the bot changes nothing and is not answered.
pub proof fn ignored_prompts_leave_no_trace(
    config: AppConfig,
    t: TurnView,
    s: StateView,
    thinking_level: ThinkingLevel,
)
    ensures
        after_classified(config, t, s, "IGNORE"@, thinking_level) == (StepView {
            turn: in_phase(t, PhaseView::Done),
            state: s,
            effects: Seq::empty(),
        }),
{
}

/// The messages among some effects.
pub open spec fn texts_of(effects: Seq<EffectView>) -> Seq<Seq<char>>
    decreases effects.len(),
{
    if effects.len() == 0 {
        Seq::empty()
    } else {
        let before = texts_of(effects.drop_last());
        match effects.last() {
            EffectView::Send { text } => before.push(text),
            _ => before,
        }
    }
}

/// The messages that a turn sends while each has one of the given outcomes.
pub open spec fn delivered(
    config: AppConfig,
    t: TurnView,
    s: StateView,
    outcomes: Seq<(bool, u64)>,
) -> Seq<Seq<char>>
    decreases outcomes.len(),
{
    if outcomes.len() == 0 {
        Seq::empty()
    } else {
        let event = TurnEvent::Sent { ok: outcomes[0].0, timestamp: outcomes[0].1 };
        let step = turn_goes_on(config, t, s, event, 0);
        texts_of(step.effects) + delivered(config, step.turn, step.state, outcomes.drop_first())
    }
}

/// Whether or not its messages arrive, an answer is sent to the end and in
/// order: after the message that a turn waits for come all the others.
#[verifier::spinoff_prover]
#[verifier::rlimit(40)]
pub proof fn answers_are_sent_to_the_end(
    config: AppConfig,
    t: TurnView,
    s: StateView,
    messages: Seq<Seq<char>>,
    next: int,
    outcomes: Seq<(bool, u64)>,
)
    requires
        t.phase == (PhaseView::Sending { messages, next }),
        0 <= next < messages.len(),
        outcomes.len() == messages.len() - next,
    ensures
        delivered(config, t, s, outcomes) == messages.skip(next + 1),
    decreases outcomes.len(),
{
    let event = TurnEvent::Sent { ok: outcomes[0].0, timestamp: outcomes[0].1 };
    let step = turn_goes_on(config, t, s, event, 0);
    let pause = EffectView::Pause { ms: config.bot.message_delay_ms };
    let paused = Seq::empty().push(pause);
    let none = Seq::<EffectView>::empty();
    reveal_with_fuel(texts_of, 2);
    reveal_with_fuel(delivered, 2);
    assert(paused.drop_last() =~= none);
    assert(texts_of(paused) =~= Seq::empty());
    if next + 1 < messages.len() {
        answers_are_sent_to_the_end(
            config,
            step.turn,
            step.state,
            messages,
            next + 1,
            outcomes.drop_first(),
        );
        assert(step.effects.drop_last() =~= paused);
        assert(texts_of(step.effects) =~= Seq::empty().push(messages[next + 1]));
        assert(messages.skip(next + 1) =~= Seq::empty().push(messages[next + 1]) + messages.skip(
            next + 2,
        ));
    } else {
        assert(step.effects.drop_last() =~= none);
        assert(texts_of(step.effects) =~= Seq::empty());
        assert(outcomes.drop_first().len() == 0);
        assert(delivered(config, t, s, outcomes) =~= messages.skip(next + 1));
    }
}

/// A reaction to a message of an answer finds that message, the prompt and the
/// conversation.
pub proof fn reactions_find_their_answer(
    config: AppConfig,
    t: TurnView,
    s: StateView,
    messages: Seq<Seq<char>>,
    next: int,
    timestamp: u64,
    e: Envelope,
    reaction: Reaction,
    bot_number: Seq<char>,
    bot_name: Seq<char>,
)
    requires
        data_of(e) matches Some(d) && d.message is None && d.reaction == Some(reaction),
        reacted_to(reaction, bot_number) == Some(timestamp),
    ensures
        next_step_of(
            e,
            bot_number,
            bot_name,
            after_sent(config, t, s, messages, next, true, timestamp).state.sent_messages,
        ) == (NextStepView::Learn {
            sent: SentMessageView {
                context_key: t.context_key,
                prompt: t.request.prompt,
                response: messages[next],
            },
            emoji: text_or(opt_view(reaction.emoji), ""@),
        }),
{
}

/// Whatever happens, a turn stays the turn of the same prompt in the same
/// conversation, with the answer going to the same place.
pub proof fn a_turn_stays_what_it_is_about(
    config: AppConfig,
    t: TurnView,
    s: StateView,
    event: TurnEvent,
    suffix: u64,
)
    ensures
        in_phase(t, turn_begins(config, t, s).turn.phase) == turn_begins(config, t, s).turn,
        ({
            let after = turn_goes_on(config, t, s, event, suffix).turn;
            &&& after.context_key == t.context_key
            &&& after.group_id == t.group_id
            &&& after.reply_source == t.reply_source
            &&& after.reply_group_id == t.reply_group_id
            &&& after.request == t.request
        }),
{
}

/// An event that a turn does not wait for changes nothing and asks for nothing.
pub proof fn unexpected_events_change_nothing(
    config: AppConfig,
    t: TurnView,
    s: StateView,
    event: TurnEvent,
    suffix: u64,
)
    requires
        !is_expected(t.phase, event),
    ensures
        turn_goes_on(config, t, s, event, suffix).turn == t,
        turn_goes_on(config, t, s, event, suffix).state == s,
        turn_goes_on(config, t, s, event, suffix).effects.len() == 0,
{
}

/// Looking at a conversation changes no messages.
proof fn lemma_looked_at(s: StateView, key: Seq<char>, other: Seq<char>)
    requires
        unique_keys(s.history),
    ensures
        messages_of(looked_at(s, key).history, other) == messages_of(s.history, other),
        unique_keys(looked_at(s, key).history),
{
    touching_keeps_messages(s.history, key, other);
    crate::lru::unique_keys_kept(s.history, key, crate::lru::value_of(s.history, key));
}

/// The answer of a model comes after the messages that the conversation had, as
/// one message of the model with that answer as its only piece. Nothing else
/// changes, but that a conversation may be forgotten that was not used for
/// longest.
pub proof fn an_answer_is_remembered(
    config: AppConfig,
    t: TurnView,
    s: StateView,
    answer: String,
    suffix: u64,
    other: Seq<char>,
)
    requires
        state_ok(s),
        t.phase is Generating,
    ensures
        ({
            let after = turn_goes_on(
                config,
                t,
                s,
                TurnEvent::Generated(Some(answer)),
                suffix,
            ).state;
            &&& messages_of(after.history, t.context_key) == messages_of(
                s.history,
                t.context_key,
            ).push(ContentView { role: "model"@, parts: seq![Some(answer@)] })
            &&& other != t.context_key && (s.history.len() < MAX_HISTORY_CONTEXTS || has_key(
                s.history,
                t.context_key,
            ) || s.history[0].0 != other) ==> messages_of(after.history, other) == messages_of(
                s.history,
                other,
            )
            &&& after.sequencers == s.sequencers
            &&& after.model_preferences == s.model_preferences
            &&& after.sent_messages == s.sent_messages
            &&& after.sent_messages_order == s.sent_messages_order
        }),
{
    let message = one_text("model"@, answer@);
    adding_appends(s.history, t.context_key, message);
    if other != t.context_key && (s.history.len() < MAX_HISTORY_CONTEXTS || has_key(
        s.history,
        t.context_key,
    ) || s.history[0].0 != other) {
        adding_keeps_other_conversations(s.history, t.context_key, message, other);
    }
}

/// The messages that a turn is about to send.
pub open spec fn to_be_sent(phase: PhaseView) -> Seq<Seq<char>> {
    match phase {
        PhaseView::Sending { messages, next } => messages.skip(next),
        _ => Seq::empty(),
    }
}

/// The answer of a model is sent in full: all that is to be sent together has
/// the characters of the answer in order, but for white space, and the first
/// message is sent at once. Where it is not split, it is sent as it is without
/// the white space around it.
pub proof fn an_answer_is_sent(
    config: AppConfig,
    t: TurnView,
    s: StateView,
    answer: String,
    suffix: u64,
)
    requires
        t.phase is Generating,
    ensures
        ({
            let step = turn_goes_on(config, t, s, TurnEvent::Generated(Some(answer)), suffix);
            let messages = to_be_sent(step.turn.phase);
            &&& ink_of_all(messages) == ink(answer@)
            &&& messages.len() > 0 ==> step.effects.last() == (EffectView::Send {
                text: messages[0],
            })
            &&& messages.len() == 0 ==> step.effects.last() is StopTyping && step.turn.phase is Done
            &&& !(config.bot.enable_paragraph_splitting && config.bot.enable_message_splitting)
                && trimmed(answer@).len() > 0 ==> messages == seq![trimmed(answer@)]
            &&& config.bot.enable_paragraph_splitting && config.bot.enable_message_splitting
                && !is_document(answer@) ==> forall|i: int|
                0 <= i < messages.len() ==> !has_blank_line(#[trigger] messages[i])
        }),
{
    let by_paragraph = config.bot.enable_paragraph_splitting;
    let may_split = config.bot.enable_message_splitting;
    let all = messages_for(answer@, by_paragraph, may_split);
    messages_say_it_all(answer@, by_paragraph, may_split);
    assert(all.skip(0) =~= all);
    if !(by_paragraph && may_split) {
        unsplit_answers_stay_whole(answer@, by_paragraph, may_split);
    } else if !is_document(answer@) {
        assert forall|i: int| 0 <= i < all.len() implies !has_blank_line(#[trigger] all[i]) by {
            split_messages_have_no_blank_line(answer@, i);
        }
    }
    if all.len() == 0 {
        assert(all =~= Seq::empty());
    }
}

/// Whether an account of what was said in a conversation is complete: it begins
/// with what comes before the answer and ends with the answer.
pub open spec fn tells_of(account: Seq<char>, before: Seq<char>, answer: Seq<char>) -> bool {
    &&& account.len() == before.len() + answer.len()
    &&& account.take(before.len() as int) == before
    &&& account.skip(before.len() as int) == answer
}

proof fn lemma_tells_of(before: Seq<char>, answer: Seq<char>)
    ensures
        tells_of(before + answer, before, answer),
{
    assert((before + answer).take(before.len() as int) =~= before);
    assert((before + answer).skip(before.len() as int) =~= answer);
}

/// After an answer the profiles are brought up to date, with what the person
/// wrote and what the bot answered; that of the group exactly where the
/// conversation is one of a group, and there with the names of both.
#[verifier::spinoff_prover]
#[verifier::rlimit(40)]
pub proof fn profiles_learn_what_was_said(
    config: AppConfig,
    t: TurnView,
    s: StateView,
    answer: String,
    suffix: u64,
)
    requires
        t.phase is Generating,
    ensures
        ({
            let first = turn_goes_on(
                config,
                t,
                s,
                TurnEvent::Generated(Some(answer)),
                suffix,
            ).effects[0];
            let name = match t.request.source_name {
                Some(name) => name,
                None => t.request.profile_key,
            };
            &&& first is UpdateProfiles
            &&& tells_of(
                first->user_history,
                "User: "@ + t.request.prompt + "\nBot: "@,
                answer@,
            )
            &&& t.group_id is None ==> first->group is None
            &&& t.group_id matches Some(id) ==> (first->group matches Some((group, history))
                && group == id && tells_of(
                history,
                name + " (User): "@ + t.request.prompt + "\n"@ + config.bot.name@ + " (Bot): "@,
                answer@,
            ))
        }),
{
    lemma_tells_of("User: "@ + t.request.prompt + "\nBot: "@, answer@);
    lemma_tells_of(
        shown_name(t) + " (User): "@ + t.request.prompt + "\n"@ + config.bot.name@ + " (Bot): "@,
        answer@,
    );
}

/// Where no answer could be written, the bot says so, remembers nothing and is
/// done.
pub proof fn a_missing_answer_is_admitted(
    config: AppConfig,
    t: TurnView,
    s: StateView,
    suffix: u64,
)
    requires
        t.phase is Generating,
    ensures
        ({
            let step = turn_goes_on(config, t, s, TurnEvent::Generated(None), suffix);
            &&& step.state == s
            &&& step.turn.phase is Done
            &&& step.effects.len() == 2
            &&& step.effects[0] matches EffectView::Post { text, attachment } && attachment is None
                && text == "I tried to think but my brain returned 404. (AI Error - check logs)"@
            &&& step.effects[1] is StopTyping
        }),
{
}

/// A history that was counted as no more than the limit stays. One of more is
/// cut by its oldest messages, so many as the excess over the average yields;
/// where these are all, it goes. The limit is the part of a million tokens that
/// a history may fill. Other conversations stay.
pub proof fn a_long_history_is_cut(
    config: AppConfig,
    t: TurnView,
    s: StateView,
    plan: TextPlanView,
    len: int,
    count: i32,
    suffix: u64,
    other: Seq<char>,
)
    requires
        state_ok(s),
        t.phase == (PhaseView::Counting { plan, len }),
        messages_of(s.history, t.context_key).len() == len,
        len <= usize::MAX,
    ensures
        ({
            let after = turn_goes_on(config, t, s, TurnEvent::Counted(Some(count)), suffix).state;
            let before = messages_of(s.history, t.context_key);
            let left = messages_of(after.history, t.context_key);
            let limit = limit_of(1_000_000);
            let gone = prune_amount(len, count as int, limit);
            &&& count <= limit ==> left == before
            &&& count > limit && gone < len ==> left == before.subrange(gone, len)
            &&& count > limit && gone >= len ==> left.len() == 0
            &&& other != t.context_key ==> messages_of(after.history, other) == messages_of(
                s.history,
                other,
            )
            &&& after.sent_messages == s.sent_messages
            &&& after.sequencers == s.sequencers
            &&& after.model_preferences == s.model_preferences
        }),
{
    let key = t.context_key;
    let limit = limit_of(1_000_000);
    let gone = prune_amount(len, count as int, limit);
    limits_are_not_negative(1_000_000);
    clearing_forgets_one_conversation(s.history, key, other);
    clearing_forgets_one_conversation(s.history, key, key);
    if count > limit && gone < len {
        if len > 0 {
            crate::bot::window::pruning_is_bounded(len, count as int, limit);
        }
        pruning_takes_the_oldest(s.history, key, gone as nat, other);
        pruning_leaves_the_latest(s.history, key, gone as nat);
    }
}

/// A history that could not be counted stays.
pub proof fn an_uncounted_history_stays(
    config: AppConfig,
    t: TurnView,
    s: StateView,
    suffix: u64,
)
    requires
        t.phase is Counting,
    ensures
        turn_goes_on(config, t, s, TurnEvent::Counted(None), suffix).state == s,
{
}

/// Counted or not, what is known is looked up next: of the person and of the
/// group of the prompt, and, unless a model was chosen for the conversation, the
/// best answers in it.
pub proof fn what_is_known_is_looked_up(
    config: AppConfig,
    t: TurnView,
    s: StateView,
    plan: TextPlanView,
    len: int,
    count: Option<i32>,
    suffix: u64,
)
    requires
        t.phase == (PhaseView::Counting { plan, len }),
    ensures
        ({
            let step = turn_goes_on(config, t, s, TurnEvent::Counted(count), suffix);
            &&& step.turn.phase == (PhaseView::Loading { plan })
            &&& step.effects.len() == 1
            &&& looks_up(step.effects[0], t, plan)
        }),
{
}

/// Whether an effect looks up what is known for a turn.
pub open spec fn looks_up(e: EffectView, t: TurnView, plan: TextPlanView) -> bool {
    e matches EffectView::Load { profile_key, source_name, group_id, examples_of } && profile_key
        == t.request.profile_key && source_name == t.request.source_name && group_id == t.group_id
        && (plan.override_model is None ==> examples_of == Some(t.context_key)) && (
    plan.override_model is Some ==> examples_of is None)
}

/// The history of a conversation is counted before an answer in words where it
/// has thirty messages or more, all of them; a shorter one is not. No message
/// changes before the count is known.
pub proof fn long_histories_are_counted(
    config: AppConfig,
    t: TurnView,
    s: StateView,
    plan: TextPlanView,
    other: Seq<char>,
)
    requires
        state_ok(s),
    ensures
        ({
            let step = text_begins(config, t, s, plan);
            let history = messages_of(s.history, t.context_key);
            &&& history.len() >= 30 ==> step.effects.len() == 2 && (
            step.effects[1] matches EffectView::CountTokens { contents, model } && contents == history
                && (plan.override_model is None ==> model.name == config.ai.models.chat@) && (
            plan.override_model matches Some(name) ==> model.name == if name
                == config.ai.models.chat@ || name == config.ai.models.imagen@ {
                name
            } else {
                config.ai.models.classification@
            }))
                && step.turn.phase == (PhaseView::Counting { plan, len: history.len() as int })
            &&& history.len() < 30 ==> step.effects.len() == 2 && looks_up(step.effects[1], t, plan)
                && step.turn.phase == (PhaseView::Loading { plan })
            &&& step.effects[0] is StartTyping
            &&& messages_of(step.state.history, other) == messages_of(s.history, other)
            &&& step.state.sent_messages == s.sent_messages
            &&& step.state.sequencers == s.sequencers
            &&& step.state.model_preferences == s.model_preferences
        }),
{
    lemma_looked_at(s, t.context_key, other);
    lemma_looked_at(looked_at(s, t.context_key), t.context_key, other);
}

/// Where no model was chosen for a conversation, a prompt that has its turn is
/// classified first, under a question that ends with it; nothing changes yet.
pub proof fn prompts_are_classified_first(config: AppConfig, t: TurnView, s: StateView)
    requires
        !s.model_preferences.contains_key(t.context_key),
    ensures
        ({
            let step = turn_begins(config, t, s);
            &&& step.state == s
            &&& step.turn.phase is Classifying
            &&& step.effects.len() == 1
            &&& step.effects[0] matches EffectView::Classify { prompt } && prompt.len()
                > t.request.prompt.len() && prompt.skip(prompt.len() - t.request.prompt.len())
                == t.request.prompt && (t.request.is_explicit_interaction ==> begins_with(
                prompt,
                "SYSTEM: The user explicitly addressed you, so you MUST respond."@,
            )) && (!t.request.is_explicit_interaction ==> begins_with(
                prompt,
                "SYSTEM: Analyze this group chat message context."@,
            ))
        }),
{
    questions_end_with_the_prompt(t.request.prompt, t.request.is_explicit_interaction);
}

/// A model that was chosen for a conversation answers without the prompt being
/// classified.
pub proof fn chosen_models_answer_at_once(config: AppConfig, t: TurnView, s: StateView)
    requires
        s.model_preferences.contains_key(t.context_key),
    ensures
        ({
            let phase = turn_begins(config, t, s).turn.phase;
            let plan = match phase {
                PhaseView::Counting { plan, .. } => plan,
                _ => phase->Loading_plan,
            };
            &&& phase is Counting || phase is Loading
            &&& plan.override_model == Some(s.model_preferences[t.context_key])
            &&& plan.intent == "OVERRIDE"@
            &&& plan.thinking_level == ThinkingLevel::Medium
        }),
{
}

/// Whether an answer is asked for as in casual chat.
pub open spec fn is_casual(plan: TextPlanView) -> bool {
    plan.intent == "FLASH"@ && plan.thinking_level == ThinkingLevel::Medium
        && plan.override_model is None
}

/// A prompt is ignored, drawn or answered in words as the decision says; without
/// a decision it is answered in words.
pub proof fn decisions_are_followed(
    config: AppConfig,
    t: TurnView,
    s: StateView,
    decision: ClassificationDecision,
    suffix: u64,
)
    requires
        t.phase is Classifying,
    ensures
        ({
            let step = turn_goes_on(config, t, s, TurnEvent::Classified(Some(decision)), suffix);
            let intent = decision.intent@;
            let image = begins_with(intent, "IMAGE"@);
            &&& intent == "IGNORE"@ ==> step.state == s && step.effects.len() == 0
                && step.turn.phase is Done
            &&& intent != "IGNORE"@ && image ==> step.state == s && step.turn.phase is Drawing
                && step.effects.len() == 2 && (step.effects[1] matches EffectView::Draw {
                prompt,
                model,
            } && prompt == t.request.prompt && model.name == config.ai.models.imagen@)
            &&& intent != "IGNORE"@ && !image ==> (match step.turn.phase {
                PhaseView::Counting { plan, .. } => plan.intent == intent && plan.thinking_level
                    == decision.thinking_level && plan.override_model is None,
                PhaseView::Loading { plan } => plan.intent == intent && plan.thinking_level
                    == decision.thinking_level && plan.override_model is None,
                _ => false,
            })
        }),
        ({
            let phase = turn_goes_on(
                config,
                t,
                s,
                TurnEvent::Classified(None),
                suffix,
            ).turn.phase;
            match phase {
                PhaseView::Counting { plan, .. } => is_casual(plan),
                PhaseView::Loading { plan } => is_casual(plan),
                _ => false,
            }
        }),
{
    reveal_strlit("FLASH");
    reveal_strlit("IGNORE");
    reveal_strlit("IMAGE");
    assert("FLASH"@.len() == 5 && "IGNORE"@.len() == 6 && "IMAGE"@.len() == 5);
    if begins_with("FLASH"@, "IMAGE"@) {
        assert("FLASH"@.subrange(0, 5) =~= "FLASH"@);
        assert("FLASH"@[0] == 'F' && "IMAGE"@[0] == 'I');
    }
}

/// The model that answers is given the whole conversation as it stands. It is
/// the one chosen for the conversation, else the one for chats, and searches the
/// web exactly where the prompt asks for that and no model was chosen.
#[verifier::spinoff_prover]
#[verifier::rlimit(40)]
pub proof fn models_are_given_the_conversation(
    config: AppConfig,
    t: TurnView,
    s: StateView,
    plan: TextPlanView,
    event: TurnEvent,
    suffix: u64,
    other: Seq<char>,
)
    requires
        state_ok(s),
        t.phase == (PhaseView::Loading { plan }),
        event is Loaded,
    ensures
        ({
            let step = turn_goes_on(config, t, s, event, suffix);
            &&& step.effects.len() == 1
            &&& step.effects[0] matches EffectView::Generate {
                contents,
                instruction,
                model,
                use_search,
                thinking_level,
            } && contents == messages_of(s.history, t.context_key) && begins_with(
                instruction,
                config.bot.system_prompt@,
            ) && (plan.override_model matches Some(name) ==> model.name == name && !use_search
                && model.thinking_level == Some(plan.thinking_level)) && (
            plan.override_model is None ==> model.name == config.ai.models.chat@ && (use_search
                <==> plan.intent == "SEARCH"@) && model.thinking_level is None)
                && model.temperature is None && model.max_output_tokens is None
                && model.max_input_tokens is None && thinking_level == plan.thinking_level
            &&& step.turn.phase is Generating
            &&& messages_of(step.state.history, other) == messages_of(s.history, other)
        }),
{
    lemma_looked_at(s, t.context_key, other);
    match event {
        TurnEvent::Loaded { profile, group, examples } => {
            models_are_told_what_is_known(
                config.bot.system_prompt@,
                plan.intent,
                config.bot.target_message_length_chars,
                person_view(profile, shown_name(t)),
                if t.group_id is Some {
                    opt_group_view(group)
                } else {
                    None
                },
                if plan.override_model is None {
                    interaction_views(examples@)
                } else {
                    Seq::empty()
                },
                0,
            );
        },
        _ => {},
    }
}

/// The model that answers is told what is known of the person, of the group
/// where the conversation is one of a group, and of the answers that people
/// liked where no model was chosen.
#[verifier::spinoff_prover]
#[verifier::rlimit(40)]
pub proof fn models_are_told_what_was_looked_up(
    config: AppConfig,
    t: TurnView,
    s: StateView,
    plan: TextPlanView,
    profile: Option<UserProfile>,
    group: Option<GroupProfile>,
    examples: Vec<Interaction>,
    suffix: u64,
    i: int,
)
    requires
        t.phase == (PhaseView::Loading { plan }),
    ensures
        turn_goes_on(
            config,
            t,
            s,
            TurnEvent::Loaded { profile, group, examples },
            suffix,
        ).effects[0] matches EffectView::Generate { instruction, .. } && (profile matches Some(p)
            ==> has_text(
            instruction,
            profile_text(p@, match t.request.source_name {
                Some(name) => name,
                None => t.request.profile_key,
            }),
        )) && (group matches Some(g) ==> (t.group_id is Some ==> has_text(
            instruction,
            group_text(g@),
        ))) && (plan.override_model is None && 0 <= i < examples@.len() ==> has_text(
            instruction,
            "User: "@ + examples@[i].prompt@ + "\nYou: "@ + examples@[i].response@ + "\n"@,
        )) && has_text(
            instruction,
            format_text(plan.intent, config.bot.target_message_length_chars),
        ) && (profile is None && (group is None || t.group_id is None) && (examples@.len() == 0
            || plan.override_model is Some) ==> instruction == config.bot.system_prompt@
            + SEPARATOR@ + format_text(plan.intent, config.bot.target_message_length_chars)),
{
    let told = if plan.override_model is None {
        interaction_views(examples@)
    } else {
        Seq::empty()
    };
    models_are_told_what_is_known(
        config.bot.system_prompt@,
        plan.intent,
        config.bot.target_message_length_chars,
        person_view(profile, shown_name(t)),
        if t.group_id is Some {
            opt_group_view(group)
        } else {
            None
        },
        told,
        i,
    );
    if plan.override_model is None && 0 <= i < examples@.len() {
        assert(told[i] == examples@[i]@);
    }
}

/// A picture that could be drawn is written to a file, sent from that file, and
/// the file is deleted after a pause. The history does not change.
pub proof fn pictures_are_sent_and_deleted(
    config: AppConfig,
    t: TurnView,
    s: StateView,
    suffix: u64,
    other_suffix: u64,
)
    requires
        t.phase is Drawing,
    ensures
        ({
            let drawn = turn_goes_on(config, t, s, TurnEvent::Drawn(true), suffix);
            let written = turn_goes_on(
                config,
                drawn.turn,
                drawn.state,
                TurnEvent::Written(true),
                other_suffix,
            );
            &&& drawn.effects.len() == 1
            &&& drawn.effects[0] matches EffectView::WriteFile { filename } && has_text(
                filename,
                decimal(suffix as nat),
            ) && written.effects.len() == 4 && (written.effects[0] matches EffectView::Post {
                text,
                attachment,
            } && text == "Here is your image."@ && attachment == Some(filename))
                && written.effects[1] == (EffectView::Pause { ms: 5000 }) && written.effects[2]
                == (EffectView::RemoveFile { filename }) && written.effects[3] is StopTyping
            &&& written.state == s
            &&& written.turn.phase is Done
        }),
{
    text_is_found_where_it_stands("/tmp/piotr_img_"@, decimal(suffix as nat), ".png"@);
}

/// Pictures with different numbers go to different files.
pub proof fn pictures_have_files_of_their_own(a: u64, b: u64)
    requires
        image_filename(a) == image_filename(b),
    ensures
        a == b,
{
    let start = "/tmp/piotr_img_"@;
    let end = ".png"@;
    let x = image_filename(a);
    let y = image_filename(b);
    let da = decimal(a as nat);
    let db = decimal(b as nat);
    assert(x.subrange(start.len() as int, x.len() - end.len()) =~= da);
    assert(y.subrange(start.len() as int, y.len() - end.len()) =~= db);
    crate::text::decimal_is_injective(a as nat, b as nat);
}

/// Where no picture could be drawn or written, the bot says so and is done;
/// nothing is remembered, and what could not be drawn is said to be the fault of
/// the model by its name.
pub proof fn missing_pictures_are_admitted(
    config: AppConfig,
    t: TurnView,
    s: StateView,
    suffix: u64,
)
    ensures
        t.phase is Drawing ==> ({
            let step = turn_goes_on(config, t, s, TurnEvent::Drawn(false), suffix);
            &&& step.state == s
            &&& step.turn.phase is Done
            &&& step.effects.len() == 2
            &&& step.effects[0] matches EffectView::Post { text, attachment } && attachment is None
                && has_text(text, config.ai.models.imagen@)
        }),
        t.phase is Writing ==> ({
            let step = turn_goes_on(config, t, s, TurnEvent::Written(false), suffix);
            &&& step.state == s
            &&& step.turn.phase is Done
            &&& step.effects.len() == 2
            &&& step.effects[0] matches EffectView::Post { text, attachment } && attachment is None
                && text == "I tried to draw something but my pencil broke (write error)."@
        }),
{
    text_is_found_where_it_stands(
        "I could not generate that image with "@,
        config.ai.models.imagen@,
        ". I am sorry."@,
    );
}

/// A message that was sent is remembered under the time of its sending, with the
/// conversation and the prompt that it answers; one that was not changes
/// nothing. Other remembered answers stay, but for the one sent first where
/// there are too many.
pub proof fn sent_messages_are_remembered(
    config: AppConfig,
    t: TurnView,
    s: StateView,
    messages: Seq<Seq<char>>,
    next: int,
    ok: bool,
    timestamp: u64,
    suffix: u64,
    other: u64,
)
    requires
        t.phase == (PhaseView::Sending { messages, next }),
        0 <= next < messages.len(),
    ensures
        ({
            let after = turn_goes_on(
                config,
                t,
                s,
                TurnEvent::Sent { ok, timestamp },
                suffix,
            ).state;
            &&& !ok ==> after == s
            &&& ok ==> after.sent_messages.contains_key(timestamp)
                && after.sent_messages[timestamp].context_key == t.context_key
                && after.sent_messages[timestamp].prompt == t.request.prompt
                && after.sent_messages[timestamp].response == messages[next]
            &&& ok && other != timestamp && s.sent_messages.contains_key(other)
                && s.sent_messages.len() < MAX_SENT_MESSAGES ==> after.sent_messages.contains_key(
                other,
            ) && after.sent_messages[other] == s.sent_messages[other]
            &&& after.history == s.history
            &&& after.sequencers == s.sequencers
            &&& after.model_preferences == s.model_preferences
        }),
{
    a_sent_message_is_found(
        s,
        timestamp,
        SentMessageView {
            context_key: t.context_key,
            prompt: t.request.prompt,
            response: messages[next],
        },
        other,
    );
}

/// Between two messages of an answer lies the pause of the settings, and after
/// the last one the turn is done.
pub proof fn messages_follow_each_other(
    config: AppConfig,
    t: TurnView,
    s: StateView,
    messages: Seq<Seq<char>>,
    next: int,
    ok: bool,
    timestamp: u64,
    suffix: u64,
)
    requires
        t.phase == (PhaseView::Sending { messages, next }),
        0 <= next < messages.len(),
    ensures
        ({
            let step = turn_goes_on(config, t, s, TurnEvent::Sent { ok, timestamp }, suffix);
            &&& next + 1 < messages.len() ==> step.effects.len() == 2 && step.effects[0] == (
            EffectView::Pause { ms: config.bot.message_delay_ms }) && step.effects[1] == (
            EffectView::Send { text: messages[next + 1] }) && to_be_sent(step.turn.phase)
                == messages.skip(next + 1)
            &&& next + 1 == messages.len() ==> step.turn.phase is Done && step.effects.len() == 1
                && step.effects[0] is StopTyping
        }),
{
}

} // verus!
