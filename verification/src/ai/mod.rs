//! What the bot exchanges with the language models and what it keeps of it.
use vstd::prelude::*;

use crate::config::ThinkingLevel;
use crate::text::{opt_view, views};

pub mod memory;
pub mod rate_limit;
pub mod vertex;

verus! {

/// A piece of a message.
#[derive(Debug)]
pub struct Part {
    pub text: Option<String>,
}

/// A message of a conversation.
#[derive(Debug)]
pub struct Content {
    pub role: String,
    pub parts: Vec<Part>,
}

/// What a message says and who says it.
#[verifier::ext_equal]
pub struct ContentView {
    pub role: Seq<char>,
    pub parts: Seq<Option<Seq<char>>>,
}

impl View for Part {
    type V = Option<Seq<char>>;

    open spec fn view(&self) -> Option<Seq<char>> {
        opt_view(self.text)
    }
}

impl View for Content {
    type V = ContentView;

    open spec fn view(&self) -> ContentView {
        ContentView { role: self.role@, parts: self.parts@.map_values(|p: Part| p@) }
    }
}

impl Clone for Part {
    fn clone(&self) -> (r: Self)
        ensures
            r == *self,
    {
        Part { text: self.text.clone() }
    }
}

impl Clone for Content {
    fn clone(&self) -> (r: Self)
        ensures
            r@ == self@,
    {
        let parts = self.parts.clone();
        assert(parts@ =~= self.parts@);
        Content { role: self.role.clone(), parts }
    }
}

impl Part {
    /// A piece of text.
    pub fn text(text: String) -> (r: Part)
        ensures
            r@ == Some(text@),
    {
        Part { text: Some(text) }
    }
}

/// A message of one piece of text.
pub open spec fn one_text(role: Seq<char>, text: Seq<char>) -> ContentView {
    ContentView { role, parts: seq![Some(text)] }
}

impl Content {
    /// A message of one piece of text.
    pub fn of_text(role: &str, text: String) -> (r: Content)
        ensures
            r@ == one_text(role@, text@),
    {
        let mut parts: Vec<Part> = Vec::new();
        parts.push(Part::text(text));
        let r = Content { role: role.to_string(), parts };
        assert(r@.parts =~= seq![Some(text@)]);
        r
    }
}

/// How a reaction to an answer was meant.
#[derive(Debug)]
pub struct ReactionAnalysis {
    /// The bits of the score as a single: from -1 (negative) to 1 (positive).
    pub sentiment_score: u32,
    pub reasoning: String,
    /// Keywords such as "sarcastic" or "supportive".
    pub tags: Vec<String>,
}

/// What a reaction analysis says.
#[verifier::ext_equal]
pub struct ReactionAnalysisView {
    pub sentiment_score: u32,
    pub reasoning: Seq<char>,
    pub tags: Seq<Seq<char>>,
}

impl View for ReactionAnalysis {
    type V = ReactionAnalysisView;

    open spec fn view(&self) -> ReactionAnalysisView {
        ReactionAnalysisView {
            sentiment_score: self.sentiment_score,
            reasoning: self.reasoning@,
            tags: views(self.tags@),
        }
    }
}

impl Clone for ReactionAnalysis {
    fn clone(&self) -> (r: Self)
        ensures
            r@ == self@,
    {
        let tags = self.tags.clone();
        assert(tags@ =~= self.tags@);
        ReactionAnalysis {
            sentiment_score: self.sentiment_score,
            reasoning: self.reasoning.clone(),
            tags,
        }
    }
}

/// What a prompt asks for and how long the model may think about it.
#[derive(Debug)]
pub struct ClassificationDecision {
    pub intent: String,
    pub thinking_level: ThinkingLevel,
}

impl ClassificationDecision {
    /// The decision that a model named.
    pub fn of_intent(intent: String) -> (r: ClassificationDecision)
        ensures
            r.intent == intent,
            r.thinking_level == ThinkingLevel::Medium,
    {
        ClassificationDecision { intent, thinking_level: ThinkingLevel::Medium }
    }
}

impl Default for ClassificationDecision {
    fn default() -> (r: Self)
        ensures
            r.intent@ == "FLASH"@,
            r.thinking_level == ThinkingLevel::Medium,
    {
        ClassificationDecision::of_intent("FLASH".to_string())
    }
}

} // verus!
