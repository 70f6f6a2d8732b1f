//! Requests to the models and what their replies amount to.
use vstd::arithmetic::power2::{lemma2_to64, pow2};
use vstd::prelude::*;

use crate::ai::memory::{GroupProfile, GroupProfileView, UserProfile, UserProfileView};
use crate::ai::rate_limit::EndpointType;
use crate::ai::{one_text, Content, ContentView, Part, ReactionAnalysis, ReactionAnalysisView};
use crate::config::{AppConfig, ModelSettings};
use crate::crypto::{base64_bytes, base64_decode};
use crate::json::{a_member_is_found, opt_str_view, JsonValue, JsonView};
use crate::text::{
    contains_text, has_text, opt_view, same_text, text_is_found_where_it_stands, to_uppercase,
    trim, trimmed, uppercase,
};

verus! {

/// Where the models are served.
pub const API_ENDPOINT: &'static str = "https://aiplatform.googleapis.com/v1";

/// Tells a model to name the kind of a request.
pub const CLASSIFICATION_INSTRUCTION: &'static str = r#"You are a classification router. Analyze the user's request and categorize it into one of these exact keywords:
- IGNORE: If the user is mentioning you but clearly talking to someone else in the group chat and not expecting you to reply, or if the SYSTEM prompt instructs you to output IGNORE.
- IMAGE: If request asks to 'draw', 'generate', 'create', 'sketch', or 'paint' an image/picture/photo/art/robot, OR specifically says 'generate an image', 'high quality', 'ultra realistic', '4k', or 'detailed'.
- PRO: If request involves complex reasoning, coding, math, or analysis.
- SEARCH: If request asks to 'search', 'google', 'find info', 'who is', 'what is', 'latest news', 'lookup', or contains 'search the web'.
- FLASH: For casual chat, greetings, or simple questions.

Input: 'draw a cat' -> Output: IMAGE
Input: 'generate an image of a dog' -> Output: IMAGE
Input: 'sketch a robot' -> Output: IMAGE
Input: 'search for rust release' -> Output: SEARCH
Input: 'google who won the super bowl' -> Output: SEARCH
Input: 'find info on mars' -> Output: SEARCH
Input: 'search the web for olympics' -> Output: SEARCH
Input: 'hello' -> Output: FLASH
Input: 'code a snake game' -> Output: PRO
Input: 'I think @Piotr is broken' -> Output: IGNORE

Output ONLY the single keyword."#;

/// Tells a model to judge a reaction.
pub const REACTION_INSTRUCTION: &'static str = r#"You are an emotional intelligence analyst for a chat bot.
Your task is to analyze a user's emoji reaction to a bot's response in the context of their conversation.
Determine if the reaction is POSITIVE (reinforces behavior) or NEGATIVE (discourages behavior).
Account for sarcasm (e.g., crying emoji can be positive laughter, or negative sadness).
Output JSON ONLY with the following structure:
{
  "sentiment_score": float, // -1.0 to 1.0.
  "reasoning": string, // Explanation of your analysis.
  "tags": [string] // List of keywords describing the interaction.
}
Example:
Input: User="I broke prod", Bot="Good job", Emoji="😭"
Output: { "sentiment_score": -0.8, "reasoning": "User is distressed about breaking prod, bot was sarcastic but user is genuinely upset.", "tags": ["distress", "sarcasm_failure"] }
Example:
Input: User="Tell joke", Bot="Why did chicken cross road?", Emoji="😂"
Output: { "sentiment_score": 1.0, "reasoning": "User found the joke funny.", "tags": ["humor", "success"] }
"#;

/// Tells a model to bring the profile of a person up to date.
pub const PROFILE_INSTRUCTION: &'static str = r#"You are a user profile manager for a chatbot.
Your task is to analyze the recent conversation history and Update the user's profile.
- name: Extract the user's name if they mentioned it. Keep existing if known and not changed.
- nickname: Extract if the user explicitly asks to be called something (e.g. "call me Bob").
- personality_summary: concise summary of their personality traits observed so far.
- interaction_style: one or two words description (e.g. "casual", "sarcastic", "formal", "friendly").
- topics_of_interest: list of specific topics they have discussed or shown interest in.

Input will be the "Current Profile" and "Recent History".
Output the FULL updated profile as JSON.
Scale of personality analysis should be incremental - don't completely rewrite unless new info changes the perspective.

Structure:
{
  "id": "keep_original",
  "name": "string or null",
  "nickname": "string or null",
  "personality_summary": "string",
  "interaction_style": "string",
  "topics_of_interest": ["string"],
  "last_updated": 0
}
"#;

/// Tells a model to bring the profile of a group up to date.
pub const GROUP_PROFILE_INSTRUCTION: &'static str = r#"You are a group profile manager for a chatbot in a group chat.
Your task is to analyze the recent conversation history and Update the group's profile.
- group_name: Extract the group's name if it was explicitly mentioned. Keep existing if known and not changed.
- group_vibe: one or two words description of the group's atmosphere (e.g. "chaotic", "serious", "meme-heavy", "supportive").
- inside_jokes: list of recurring jokes, memes, or specific funny references made by the group. Add new ones, but don't delete old ones unless they are definitely obsolete.
- common_topics: list of specific topics this group frequently discusses.
- important_memories: list of significant events or decisions that happened in this group chat.

Input will be the "Current Profile" and "Recent History".
Output the FULL updated profile as JSON.
Scale of analysis should be incremental - don't completely rewrite unless new info changes the perspective.

Structure:
{
  "id": "keep_original",
  "group_name": "string or null",
  "group_vibe": "string",
  "inside_jokes": ["string"],
  "common_topics": ["string"],
  "important_memories": ["string"],
  "last_updated": 0
}
"#;

// ---------------------------------------------------------------------------
// Requests
// ---------------------------------------------------------------------------

/// A request to a model.
pub struct ApiRequest {
    pub url: String,
    pub body: JsonValue,
}

/// The address of an action of a model.
pub open spec fn model_url(
    project: Seq<char>,
    location: Seq<char>,
    model: Seq<char>,
    action: Seq<char>,
) -> Seq<char> {
    API_ENDPOINT@ + "/projects/"@ + project + "/locations/"@ + location
        + "/publishers/google/models/"@ + model + ":"@ + action
}

/// The address at which a model draws.
pub open spec fn image_url(project: Seq<char>, location: Seq<char>, model: Seq<char>) -> Seq<char> {
    "https://"@ + location + "-aiplatform.googleapis.com/v1/projects/"@ + project + "/locations/"@
        + location + "/publishers/google/models/"@ + model + ":predict"@
}

/// A piece of a message in JSON.
pub open spec fn part_json(part: Option<Seq<char>>) -> JsonView {
    JsonView::object().with(
        "text"@,
        match part {
            Some(text) => JsonView::Text(text),
            None => JsonView::Null,
        },
    )
}

/// A message in JSON.
pub open spec fn content_json(c: ContentView) -> JsonView {
    JsonView::object().with("role"@, JsonView::Text(c.role)).with(
        "parts"@,
        JsonView::List(c.parts.map_values(|p: Option<Seq<char>>| part_json(p))),
    )
}

/// Messages in JSON.
pub open spec fn contents_json(contents: Seq<ContentView>) -> JsonView {
    JsonView::List(contents.map_values(|c: ContentView| content_json(c)))
}

/// What messages say.
pub open spec fn content_views(contents: Seq<Content>) -> Seq<ContentView> {
    contents.map_values(|c: Content| c@)
}

/// An instruction in JSON.
pub open spec fn instruction_json(text: Seq<char>) -> JsonView {
    JsonView::object().with("parts"@, JsonView::List(seq![part_json(Some(text))]))
}

/// Settings of a generation in JSON.
pub open spec fn generation_json(temperature: u64, max_output_tokens: i32) -> JsonView {
    JsonView::object().with("temperature"@, JsonView::Real(temperature)).with(
        "maxOutputTokens"@,
        JsonView::Number(max_output_tokens as int),
    )
}

/// Settings of a generation in JSON of which JSON shall come.
pub open spec fn structured_generation_json(temperature: u64, max_output_tokens: i32) -> JsonView {
    generation_json(temperature, max_output_tokens).with(
        "responseMimeType"@,
        JsonView::Text("application/json"@),
    )
}

/// The body of a request for a generation.
pub open spec fn generation_body(
    instruction: Seq<char>,
    contents: Seq<ContentView>,
    generation: JsonView,
) -> JsonView {
    JsonView::object().with("systemInstruction"@, instruction_json(instruction)).with(
        "contents"@,
        contents_json(contents),
    ).with("generationConfig"@, generation)
}

/// The tool that searches the web, in JSON.
pub open spec fn search_tool_json() -> JsonView {
    JsonView::List(seq![JsonView::object().with("googleSearch"@, JsonView::object())])
}

/// The body of a request for a picture.
pub open spec fn image_body(prompt: Seq<char>) -> JsonView {
    JsonView::object().with(
        "instances"@,
        JsonView::List(seq![JsonView::object().with("prompt"@, JsonView::Text(prompt))]),
    ).with(
        "parameters"@,
        JsonView::object().with("sampleCount"@, JsonView::Number(1)).with(
            "aspectRatio"@,
            JsonView::Text("1:1"@),
        ),
    )
}

/// The message that asks for a judgement of a reaction.
pub open spec fn reaction_question(
    user_prompt: Seq<char>,
    bot_response: Seq<char>,
    emoji: Seq<char>,
) -> Seq<char> {
    "User: "@ + user_prompt + "\nBot: "@ + bot_response + "\nUser Reacted With: "@ + emoji
}

/// The message that asks for a profile to be brought up to date.
pub open spec fn profile_question(profile_json: Seq<char>, history: Seq<char>) -> Seq<char> {
    "Current Profile: "@ + profile_json + "\n\nRecent History:\n"@ + history
}

/// The temperature of a model: its own, else the general one.
pub open spec fn temperature_of(config: AppConfig, model: ModelSettings) -> u64 {
    match model.temperature {
        Some(t) => t,
        None => config.ai.generation.temperature,
    }
}

/// The output limit of a model: its own, else the general one.
pub open spec fn output_limit_of(config: AppConfig, model: ModelSettings) -> i32 {
    match model.max_output_tokens {
        Some(n) => n,
        None => config.ai.generation.max_output_tokens,
    }
}

fn part_value(part: &Part) -> (r: JsonValue)
    ensures
        r@ == part_json(part@),
{
    let text = match &part.text {
        Some(text) => JsonValue::text(text.as_str()),
        None => JsonValue::Null,
    };
    JsonValue::object().with("text", text)
}

fn parts_value(parts: &Vec<Part>) -> (r: JsonValue)
    ensures
        r@ == JsonView::List(
            parts@.map_values(|p: Part| p@).map_values(|p: Option<Seq<char>>| part_json(p)),
        ),
{
    let mut items: Vec<JsonValue> = Vec::new();
    let mut i: usize = 0;
    while i < parts.len()
        invariant
            i <= parts@.len(),
            items@.len() == i,
            forall|j: int| 0 <= j < i ==> (#[trigger] items@[j])@ == part_json(parts@[j]@),
        decreases parts@.len() - i,
    {
        items.push(part_value(&parts[i]));
        i += 1;
    }
    let r = JsonValue::List(items);
    assert(r@->List_0 =~= parts@.map_values(|p: Part| p@).map_values(
        |p: Option<Seq<char>>| part_json(p),
    ));
    r
}

fn contents_value(contents: &Vec<Content>) -> (r: JsonValue)
    ensures
        r@ == contents_json(content_views(contents@)),
{
    let mut items: Vec<JsonValue> = Vec::new();
    let mut i: usize = 0;
    while i < contents.len()
        invariant
            i <= contents@.len(),
            items@.len() == i,
            forall|j: int| 0 <= j < i ==> (#[trigger] items@[j])@ == content_json(contents@[j]@),
        decreases contents@.len() - i,
    {
        let c = &contents[i];
        let item = JsonValue::object().with("role", JsonValue::text(c.role.as_str())).with(
            "parts",
            parts_value(&c.parts),
        );
        items.push(item);
        i += 1;
    }
    let r = JsonValue::List(items);
    assert(r@->List_0 =~= contents_json(content_views(contents@))->List_0);
    r
}

fn instruction_value(text: &str) -> (r: JsonValue)
    ensures
        r@ == instruction_json(text@),
{
    let part = JsonValue::object().with("text", JsonValue::text(text));
    JsonValue::object().with("parts", JsonValue::singleton(part))
}

fn generation_value(temperature: u64, max_output_tokens: i32) -> (r: JsonValue)
    ensures
        r@ == generation_json(temperature, max_output_tokens),
{
    JsonValue::object().with("temperature", JsonValue::Real(temperature)).with(
        "maxOutputTokens",
        JsonValue::integer(max_output_tokens as i64),
    )
}

fn body_value(instruction: &str, contents: &Vec<Content>, generation: JsonValue) -> (r: JsonValue)
    ensures
        r@ == generation_body(instruction@, content_views(contents@), generation@),
{
    JsonValue::object().with("systemInstruction", instruction_value(instruction)).with(
        "contents",
        contents_value(contents),
    ).with("generationConfig", generation)
}

fn url_value(project: &str, location: &str, model: &str, action: &str) -> (r: String)
    ensures
        r@ == model_url(project@, location@, model@, action@),
{
    let mut url = API_ENDPOINT.to_string();
    url.append("/projects/");
    url.append(project);
    url.append("/locations/");
    url.append(location);
    url.append("/publishers/google/models/");
    url.append(model);
    url.append(":");
    url.append(action);
    url
}

/// One message of a user.
fn question(text: String) -> (r: Vec<Content>)
    ensures
        content_views(r@) == seq![one_text("user"@, text@)],
{
    let mut contents: Vec<Content> = Vec::new();
    contents.push(Content::of_text("user", text));
    assert(content_views(contents@) =~= seq![one_text("user"@, text@)]);
    contents
}

/// Whether a request asks a model one question of a user under an instruction.
pub open spec fn asks(body: JsonView, instruction: Seq<char>, text: Seq<char>) -> bool {
    &&& tells(body.member("systemInstruction"@), instruction)
    &&& body.member("contents"@) matches Some(JsonView::List(entries)) && entries.len() == 1
        && entries[0].member("role"@) == Some(JsonView::Text("user"@)) && tells(
        Some(entries[0]),
        text,
    )
}

/// The client of the models.
pub struct VertexClient {
    pub config: AppConfig,
}

impl VertexClient {
    /// A client with the given settings.
    pub fn new(config: AppConfig) -> (r: Self)
        ensures
            r.config == config,
    {
        VertexClient { config }
    }

    fn temperature(&self, model: &ModelSettings) -> (r: u64)
        ensures
            r == temperature_of(self.config, *model),
    {
        match model.temperature {
            Some(t) => t,
            None => self.config.ai.generation.temperature,
        }
    }

    fn output_limit(&self, model: &ModelSettings) -> (r: i32)
        ensures
            r == output_limit_of(self.config, *model),
    {
        match model.max_output_tokens {
            Some(n) => n,
            None => self.config.ai.generation.max_output_tokens,
        }
    }

    /// The request for an answer to a conversation.
    pub fn generate_content(
        &self,
        contents: &Vec<Content>,
        system_instruction: Option<&str>,
        model: &ModelSettings,
        use_search: bool,
    ) -> (r: ApiRequest)
        ensures
            r.url@ == model_url(
                self.config.ai.gcp_project_id@,
                self.config.ai.gcp_location@,
                model.name@,
                "generateContent"@,
            ),
            r.body@ == ({
                let instruction = match system_instruction {
                    Some(s) => s@,
                    None => self.config.bot.system_prompt@,
                };
                let plain = generation_body(
                    instruction,
                    content_views(contents@),
                    generation_json(
                        temperature_of(self.config, *model),
                        output_limit_of(self.config, *model),
                    ),
                );
                if use_search {
                    plain.with("tools"@, search_tool_json())
                } else {
                    plain
                }
            }),
            carries_all(r.body@.member("contents"@), content_views(contents@)),
            tells(
                r.body@.member("systemInstruction"@),
                match system_instruction {
                    Some(s) => s@,
                    None => self.config.bot.system_prompt@,
                },
            ),
            r.body@.member("tools"@) is Some <==> use_search,
    {
        let url = url_value(
            self.config.ai.gcp_project_id.as_str(),
            self.config.ai.gcp_location.as_str(),
            model.name.as_str(),
            "generateContent",
        );
        let instruction = match system_instruction {
            Some(s) => s,
            None => self.config.bot.system_prompt.as_str(),
        };
        let generation = generation_value(self.temperature(model), self.output_limit(model));
        proof {
            reveal_strlit("tools");
            reveal_strlit("contents");
            reveal_strlit("systemInstruction");
            assert("tools"@.len() == 5);
            let said = content_views(contents@);
            a_request_carries_the_conversation(instruction@, said, generation@, "tools"@);
            search_is_offered_on_top(instruction@, said, generation@, "contents"@);
            search_is_offered_on_top(instruction@, said, generation@, "systemInstruction"@);
        }
        let body = body_value(instruction, contents, generation);
        if use_search {
            let tool = JsonValue::object().with("googleSearch", JsonValue::object());
            ApiRequest { url, body: body.with("tools", JsonValue::singleton(tool)) }
        } else {
            ApiRequest { url, body }
        }
    }

    /// The request for a picture.
    pub fn generate_image(&self, prompt: &str, model: &ModelSettings) -> (r: ApiRequest)
        ensures
            r.url@ == image_url(
                self.config.ai.gcp_project_id@,
                self.config.ai.gcp_location@,
                model.name@,
            ),
            r.body@ == image_body(prompt@),
    {
        let location = self.config.ai.gcp_location.as_str();
        let mut url = "https://".to_string();
        url.append(location);
        url.append("-aiplatform.googleapis.com/v1/projects/");
        url.append(self.config.ai.gcp_project_id.as_str());
        url.append("/locations/");
        url.append(location);
        url.append("/publishers/google/models/");
        url.append(model.name.as_str());
        url.append(":predict");
        let instance = JsonValue::object().with("prompt", JsonValue::text(prompt));
        let parameters = JsonValue::object().with("sampleCount", JsonValue::integer(1)).with(
            "aspectRatio",
            JsonValue::text("1:1"),
        );
        let body = JsonValue::object().with("instances", JsonValue::singleton(instance)).with(
            "parameters",
            parameters,
        );
        ApiRequest { url, body }
    }

    /// The request that names the kind of a prompt.
    pub fn classify_intent(&self, prompt: &str) -> (r: ApiRequest)
        ensures
            r.url@ == model_url(
                self.config.ai.gcp_project_id@,
                self.config.ai.gcp_location@,
                self.config.ai.models.classification@,
                "generateContent"@,
            ),
            r.body@ == generation_body(
                CLASSIFICATION_INSTRUCTION@,
                seq![one_text("user"@, prompt@)],
                generation_json(
                    self.config.ai.generation.temperature,
                    self.config.ai.generation.max_output_tokens,
                ),
            ),
            asks(r.body@, CLASSIFICATION_INSTRUCTION@, prompt@),
    {
        let contents = question(prompt.to_string());
        let model = ModelSettings::named(self.config.ai.models.classification.as_str());
        self.generate_content(&contents, Some(CLASSIFICATION_INSTRUCTION), &model, false)
    }

    /// A request of which JSON shall come.
    fn analysis_request(&self, instruction: &str, text: String) -> (r:
        ApiRequest)
        ensures
            r.url@ == model_url(
                self.config.ai.gcp_project_id@,
                self.config.ai.gcp_location@,
                self.config.ai.models.classification@,
                "generateContent"@,
            ),
            r.body@ == generation_body(
                instruction@,
                seq![one_text("user"@, text@)],
                structured_generation_json(
                    self.config.ai.generation.temperature,
                    self.config.ai.generation.max_output_tokens,
                ),
            ),
            asks(r.body@, instruction@, text@),
    {
        let url = url_value(
            self.config.ai.gcp_project_id.as_str(),
            self.config.ai.gcp_location.as_str(),
            self.config.ai.models.classification.as_str(),
            "generateContent",
        );
        let generation = generation_value(
            self.config.ai.generation.temperature,
            self.config.ai.generation.max_output_tokens,
        ).with(
            "responseMimeType",
            JsonValue::text("application/json"),
        );
        proof {
            a_request_carries_the_conversation(
                instruction@,
                seq![one_text("user"@, text@)],
                generation@,
                Seq::empty(),
            );
        }
        let contents = question(text);
        ApiRequest { url, body: body_value(instruction, &contents, generation) }
    }

    /// The request that judges a reaction.
    pub fn analyze_reaction(
        &self,
        user_prompt: &str,
        bot_response: &str,
        emoji: &str,
    ) -> (r: ApiRequest)
        ensures
            r.url@ == model_url(
                self.config.ai.gcp_project_id@,
                self.config.ai.gcp_location@,
                self.config.ai.models.classification@,
                "generateContent"@,
            ),
            r.body@ == generation_body(
                REACTION_INSTRUCTION@,
                seq![
                    one_text("user"@, reaction_question(user_prompt@, bot_response@, emoji@)),
                ],
                structured_generation_json(
                    self.config.ai.generation.temperature,
                    self.config.ai.generation.max_output_tokens,
                ),
            ),
            asks(
                r.body@,
                REACTION_INSTRUCTION@,
                reaction_question(user_prompt@, bot_response@, emoji@),
            ),
    {
        let mut text = "User: ".to_string();
        text.append(user_prompt);
        text.append("\nBot: ");
        text.append(bot_response);
        text.append("\nUser Reacted With: ");
        text.append(emoji);
        self.analysis_request(REACTION_INSTRUCTION, text)
    }

    /// The request that brings the profile of a person, given as JSON text, up
    /// to date.
    pub fn analyze_profile_update(
        &self,
        profile_json: &str,
        history: &str,
    ) -> (r: ApiRequest)
        ensures
            r.url@ == model_url(
                self.config.ai.gcp_project_id@,
                self.config.ai.gcp_location@,
                self.config.ai.models.classification@,
                "generateContent"@,
            ),
            r.body@ == generation_body(
                PROFILE_INSTRUCTION@,
                seq![one_text("user"@, profile_question(profile_json@, history@))],
                structured_generation_json(
                    self.config.ai.generation.temperature,
                    self.config.ai.generation.max_output_tokens,
                ),
            ),
            asks(r.body@, PROFILE_INSTRUCTION@, profile_question(profile_json@, history@)),
    {
        let text = profile_question_text(profile_json, history);
        self.analysis_request(PROFILE_INSTRUCTION, text)
    }

    /// The request that brings the profile of a group, given as JSON text, up
    /// to date.
    pub fn analyze_group_profile_update(
        &self,
        profile_json: &str,
        history: &str,
    ) -> (r: ApiRequest)
        ensures
            r.url@ == model_url(
                self.config.ai.gcp_project_id@,
                self.config.ai.gcp_location@,
                self.config.ai.models.classification@,
                "generateContent"@,
            ),
            r.body@ == generation_body(
                GROUP_PROFILE_INSTRUCTION@,
                seq![one_text("user"@, profile_question(profile_json@, history@))],
                structured_generation_json(
                    self.config.ai.generation.temperature,
                    self.config.ai.generation.max_output_tokens,
                ),
            ),
            asks(r.body@, GROUP_PROFILE_INSTRUCTION@, profile_question(profile_json@, history@)),
    {
        let text = profile_question_text(profile_json, history);
        self.analysis_request(GROUP_PROFILE_INSTRUCTION, text)
    }

    /// The request that counts the tokens of a conversation.
    pub fn count_tokens(&self, contents: &Vec<Content>, model: &ModelSettings) -> (r:
        ApiRequest)
        ensures
            r.url@ == model_url(
                self.config.ai.gcp_project_id@,
                self.config.ai.gcp_location@,
                model.name@,
                "countTokens"@,
            ),
            r.body@ == JsonView::object().with(
                "contents"@,
                contents_json(content_views(contents@)),
            ),
            carries_all(r.body@.member("contents"@), content_views(contents@)),
    {
        proof {
            let said = content_views(contents@);
            entries_carry_the_messages(said);
            a_member_is_found(
                JsonView::object(),
                "contents"@,
                contents_json(said),
                "contents"@,
            );
        }
        let url = url_value(
            self.config.ai.gcp_project_id.as_str(),
            self.config.ai.gcp_location.as_str(),
            model.name.as_str(),
            "countTokens",
        );
        ApiRequest { url, body: JsonValue::object().with("contents", contents_value(contents)) }
    }
}

fn profile_question_text(profile_json: &str, history: &str) -> (r: String)
    ensures
        r@ == profile_question(profile_json@, history@),
{
    let mut text = "Current Profile: ".to_string();
    text.append(profile_json);
    text.append("\n\nRecent History:\n");
    text.append(history);
    text
}

// ---------------------------------------------------------------------------
// Attempts
// ---------------------------------------------------------------------------

/// What to do after a reply.
#[derive(Debug, Clone, Copy, PartialEq, Eq, Structural)]
pub enum Attempt {
    /// The reply holds the result.
    Accept,
    /// Ask once more after a pause; `retries` counts the repetitions.
    RetryAfter { retries: u32, wait_ms: u64 },
    /// The last repetition failed too.
    GiveUp,
    /// To repeat the request is of no use.
    Refuse,
}

/// How often a request is repeated.
pub const MAX_RETRIES: u32 = 3;

/// Whether a status says that the request succeeded.
pub open spec fn is_success(status: u16) -> bool {
    200 <= status < 300
}

/// Whether a status says that the same request may succeed later.
pub open spec fn is_transient(status: u16) -> bool {
    status == 429 || 500 <= status < 600
}

/// The pause before the repetition `n` of a request, in milliseconds: it
/// doubles each time.
pub open spec fn backoff_ms(endpoint: EndpointType, n: int) -> int {
    let unit: int = match endpoint {
        EndpointType::GenerateContent | EndpointType::GenerateImage => 1000,
        _ => 500,
    };
    unit * pow2(n as nat)
}

/// What to do after a reply with the given status, where the request has been
/// repeated `retries` times.
pub open spec fn attempt_after(endpoint: EndpointType, status: u16, retries: u32) -> Attempt {
    if is_success(status) {
        Attempt::Accept
    } else if !is_transient(status) {
        Attempt::Refuse
    } else if retries >= MAX_RETRIES {
        Attempt::GiveUp
    } else {
        Attempt::RetryAfter {
            retries: (retries + 1) as u32,
            wait_ms: backoff_ms(endpoint, retries + 1) as u64,
        }
    }
}

/// Decides what to do after a reply.
pub fn next_attempt(endpoint: EndpointType, status: u16, retries: u32) -> (r: Attempt)
    ensures
        r == attempt_after(endpoint, status, retries),
        r matches Attempt::RetryAfter { wait_ms, .. } ==> wait_ms == backoff_ms(
            endpoint,
            retries + 1,
        ),
{
    if 200 <= status && status < 300 {
        return Attempt::Accept;
    }
    if !(status == 429 || (500 <= status && status < 600)) {
        return Attempt::Refuse;
    }
    if retries >= MAX_RETRIES {
        return Attempt::GiveUp;
    }
    proof {
        lemma2_to64();
    }
    let unit: u64 = match endpoint {
        EndpointType::GenerateContent => 1000,
        EndpointType::GenerateImage => 1000,
        _ => 500,
    };
    let factor: u64 = if retries == 0 {
        2
    } else if retries == 1 {
        4
    } else {
        8
    };
    Attempt::RetryAfter { retries: retries + 1, wait_ms: unit * factor }
}

/// How often a request is sent where the replies come with the given statuses
/// and it has been repeated `retries` times before.
pub open spec fn times_sent(endpoint: EndpointType, statuses: Seq<u16>, retries: u32) -> nat
    decreases statuses.len(),
{
    if statuses.len() == 0 {
        0
    } else {
        match attempt_after(endpoint, statuses[0], retries) {
            Attempt::RetryAfter { retries: n, .. } => 1 + times_sent(
                endpoint,
                statuses.drop_first(),
                n,
            ),
            _ => 1,
        }
    }
}

/// Whatever comes back, a request is sent once and repeated at most
/// `MAX_RETRIES` times.
pub proof fn retries_are_bounded(endpoint: EndpointType, statuses: Seq<u16>, retries: u32)
    requires
        retries <= MAX_RETRIES,
    ensures
        times_sent(endpoint, statuses, retries) <= 1 + MAX_RETRIES - retries,
    decreases statuses.len(),
{
    if statuses.len() > 0 {
        match attempt_after(endpoint, statuses[0], retries) {
            Attempt::RetryAfter { retries: n, .. } => {
                retries_are_bounded(endpoint, statuses.drop_first(), n);
            },
            _ => {},
        }
    }
}

// ---------------------------------------------------------------------------
// Failures
// ---------------------------------------------------------------------------

/// The message of a request that failed for good, after repetitions or at once.
pub open spec fn failure_text(
    endpoint: EndpointType,
    after_retries: bool,
    status: Seq<char>,
    body: Seq<char>,
) -> Seq<char> {
    match (endpoint, after_retries) {
        (EndpointType::GenerateContent, true) => "Vertex AI Error after retries: "@ + status + " - "@
            + body,
        (EndpointType::GenerateContent, false) => "Vertex AI Error: "@ + status + " - "@ + body,
        (EndpointType::GenerateImage, true) => "Vertex AI Imagen Error after retries: "@ + status
            + " - "@ + body,
        (EndpointType::GenerateImage, false) => "Vertex AI Imagen Error: "@ + status + " - "@ + body,
        (EndpointType::ClassifyIntent, true) => "Intent classification failed after retries: "@
            + status,
        (EndpointType::ClassifyIntent, false) => "Intent classification failed non-retryable: "@
            + status,
        (EndpointType::AnalyzeReaction, true) => "Analysis failed after retries: "@ + status,
        (EndpointType::AnalyzeReaction, false) => "Analysis Error: "@ + status + " - "@ + body,
        (EndpointType::AnalyzeProfileUpdate, true) => "Profile analysis failed after retries: "@
            + status,
        (EndpointType::AnalyzeProfileUpdate, false) => "Profile Analysis Error: "@ + status + " - "@
            + body,
        (EndpointType::AnalyzeGroupProfileUpdate, true) =>
            "Group Profile analysis failed after retries: "@ + status,
        (EndpointType::AnalyzeGroupProfileUpdate, false) => "Group Profile Analysis Error: "@ + status
            + " - "@ + body,
        (EndpointType::CountTokens, true) => "CountTokens failed after retries: "@ + status + " - "@
            + body,
        (EndpointType::CountTokens, false) => "CountTokens Error: "@ + status + " - "@ + body,
    }
}

fn message_with_status(start: &str, status: &str) -> (r: String)
    ensures
        r@ == start@ + status@,
{
    let mut out = start.to_string();
    out.append(status);
    out
}

fn message_with_body(start: &str, status: &str, body: &str) -> (r: String)
    ensures
        r@ == start@ + status@ + " - "@ + body@,
{
    let mut out = start.to_string();
    out.append(status);
    out.append(" - ");
    out.append(body);
    out
}

/// Words the failure of a request.
pub fn failure_message(
    endpoint: EndpointType,
    after_retries: bool,
    status: &str,
    body: &str,
) -> (r: String)
    ensures
        r@ == failure_text(endpoint, after_retries, status@, body@),
{
    match (endpoint, after_retries) {
        (EndpointType::GenerateContent, true) => message_with_body(
            "Vertex AI Error after retries: ",
            status,
            body,
        ),
        (EndpointType::GenerateContent, false) => message_with_body(
            "Vertex AI Error: ",
            status,
            body,
        ),
        (EndpointType::GenerateImage, true) => message_with_body(
            "Vertex AI Imagen Error after retries: ",
            status,
            body,
        ),
        (EndpointType::GenerateImage, false) => message_with_body(
            "Vertex AI Imagen Error: ",
            status,
            body,
        ),
        (EndpointType::ClassifyIntent, true) => message_with_status(
            "Intent classification failed after retries: ",
            status,
        ),
        (EndpointType::ClassifyIntent, false) => message_with_status(
            "Intent classification failed non-retryable: ",
            status,
        ),
        (EndpointType::AnalyzeReaction, true) => message_with_status(
            "Analysis failed after retries: ",
            status,
        ),
        (EndpointType::AnalyzeReaction, false) => message_with_body(
            "Analysis Error: ",
            status,
            body,
        ),
        (EndpointType::AnalyzeProfileUpdate, true) => message_with_status(
            "Profile analysis failed after retries: ",
            status,
        ),
        (EndpointType::AnalyzeProfileUpdate, false) => message_with_body(
            "Profile Analysis Error: ",
            status,
            body,
        ),
        (EndpointType::AnalyzeGroupProfileUpdate, true) => message_with_status(
            "Group Profile analysis failed after retries: ",
            status,
        ),
        (EndpointType::AnalyzeGroupProfileUpdate, false) => message_with_body(
            "Group Profile Analysis Error: ",
            status,
            body,
        ),
        (EndpointType::CountTokens, true) => message_with_body(
            "CountTokens failed after retries: ",
            status,
            body,
        ),
        (EndpointType::CountTokens, false) => message_with_body(
            "CountTokens Error: ",
            status,
            body,
        ),
    }
}

/// What a failed request for an answer amounts to: a request that was turned
/// down for safety is answered, any other is an error.
pub open spec fn content_failure(
    after_retries: bool,
    code: u16,
    status: Seq<char>,
    body: Seq<char>,
) -> Result<Seq<char>, Seq<char>> {
    if !after_retries && code == 400 && has_text(body, "SAFETY"@) {
        Ok("That's ... a bit too risky for me."@)
    } else {
        Err(failure_text(EndpointType::GenerateContent, after_retries, status, body))
    }
}

/// The view of a result that is a text either way.
pub open spec fn result_view(r: Result<String, String>) -> Result<Seq<char>, Seq<char>> {
    match r {
        Ok(s) => Ok(s@),
        Err(s) => Err(s@),
    }
}

/// Settles a failed request for an answer. `code` is the number of the status
/// and `status` its text.
pub fn generate_content_failure(
    after_retries: bool,
    code: u16,
    status: &str,
    body: &str,
) -> (r: Result<String, String>)
    ensures
        result_view(r) == content_failure(after_retries, code, status@, body@),
{
    if !after_retries && code == 400 && contains_text(body, "SAFETY") {
        Ok("That's ... a bit too risky for me.".to_string())
    } else {
        Err(failure_message(EndpointType::GenerateContent, after_retries, status, body))
    }
}

// ---------------------------------------------------------------------------
// Replies
// ---------------------------------------------------------------------------

/// The reply to a request for an answer.
#[derive(Debug)]
pub struct GenerateContentResponse {
    pub candidates: Option<Vec<Candidate>>,
    pub prompt_feedback: Option<PromptFeedback>,
}

/// One answer of a model.
#[derive(Debug)]
pub struct Candidate {
    pub content: Option<Content>,
    pub finish_reason: Option<String>,
    pub safety_ratings: Option<Vec<SafetyRating>>,
    /// JSON text.
    pub citation_metadata: Option<String>,
}

/// What a model says of the request.
#[derive(Debug)]
pub struct PromptFeedback {
    pub block_reason: Option<String>,
    pub safety_ratings: Option<Vec<SafetyRating>>,
}

/// How a model rates an answer.
#[derive(Debug)]
pub struct SafetyRating {
    pub category: String,
    pub probability: String,
    pub blocked: Option<bool>,
}

/// The text of the first piece of a message.
pub open spec fn first_text(content: Option<Content>) -> Option<Seq<char>> {
    match content {
        Some(c) => if c.parts@.len() > 0 {
            c.parts@[0]@
        } else {
            None
        },
        None => None,
    }
}

/// What the bot says to the first answer of a model.
pub open spec fn candidate_answer(c: Candidate) -> Option<Seq<char>> {
    match opt_view(c.finish_reason) {
        Some(reason) => if reason == "SAFETY"@ || reason == "RECITATION"@ {
            Some("I cannot answer that. Google says no ("@ + reason + ")"@)
        } else {
            first_text(c.content)
        },
        None => first_text(c.content),
    }
}

/// What the bot says to a reply, which is `None` where it cannot be read.
pub open spec fn content_answer(response: Option<GenerateContentResponse>) -> Seq<char> {
    match response {
        None => "I ... I don't know what happened. The wires... they crossed."@,
        Some(r) => {
            let answer = match r.candidates {
                Some(list) => if list@.len() > 0 {
                    candidate_answer(list@[0])
                } else {
                    None
                },
                None => None,
            };
            match answer {
                Some(text) => text,
                None => "I have nothing to say about that."@,
            }
        },
    }
}

/// Reads the answer out of a reply, which is `None` where it cannot be read.
pub fn generate_content_reply(response: &Option<GenerateContentResponse>) -> (r: String)
    ensures
        r@ == content_answer(*response),
{
    let response = match response {
        Some(response) => response,
        None => {
            return "I ... I don't know what happened. The wires... they crossed.".to_string();
        },
    };
    if let Some(candidates) = &response.candidates {
        if candidates.len() > 0 {
            let first = &candidates[0];
            if let Some(reason) = &first.finish_reason {
                if same_text(reason.as_str(), "SAFETY") || same_text(
                    reason.as_str(),
                    "RECITATION",
                ) {
                    let mut out = "I cannot answer that. Google says no (".to_string();
                    out.append(reason.as_str());
                    out.append(")");
                    return out;
                }
            }
            if let Some(content) = &first.content {
                if content.parts.len() > 0 {
                    if let Some(text) = &content.parts[0].text {
                        return text.clone();
                    }
                }
            }
        }
    }
    "I have nothing to say about that.".to_string()
}

/// Why no picture could be read out of a reply.
#[derive(Debug, Clone, Copy, PartialEq, Eq, Structural)]
pub enum ImageError {
    /// There is none in it.
    Missing,
    /// It is not base64.
    Encoding,
}

/// The encoded picture in a reply.
pub open spec fn encoded_image(json: JsonView) -> Option<Seq<char>> {
    match json.member("predictions"@) {
        Some(predictions) => match predictions.head() {
            Some(first) => match first.member("bytesBase64Encoded"@) {
                Some(bytes) => bytes.characters(),
                None => None,
            },
            None => None,
        },
        None => None,
    }
}

/// The picture that an encoded text stands for.
pub open spec fn decoded_image(encoded: Option<Seq<char>>, decoded: Option<Seq<u8>>) -> Result<
    Seq<u8>,
    ImageError,
> {
    match (encoded, decoded) {
        (None, _) => Err(ImageError::Missing),
        (Some(_), None) => Err(ImageError::Encoding),
        (Some(_), Some(bytes)) => Ok(bytes),
    }
}

/// The view of the result of reading a picture.
pub open spec fn image_view(r: Result<Vec<u8>, ImageError>) -> Result<Seq<u8>, ImageError> {
    match r {
        Ok(v) => Ok(v@),
        Err(e) => Err(e),
    }
}

/// Finds the encoded picture in a reply.
pub fn image_text(json: &JsonValue) -> (r: Option<&str>)
    ensures
        opt_str_view(r) == encoded_image(json@),
{
    match json.get("predictions") {
        Some(predictions) => match predictions.first() {
            Some(first) => match first.get("bytesBase64Encoded") {
                Some(bytes) => bytes.as_str(),
                None => None,
            },
            None => None,
        },
        None => None,
    }
}

/// Reads the picture out of a reply.
pub fn generate_image_reply(json: &JsonValue) -> (r: Result<Vec<u8>, ImageError>)
    ensures
        image_view(r) == ({
            let encoded = encoded_image(json@);
            let decoded = match encoded {
                Some(text) => base64_bytes(text),
                None => None,
            };
            decoded_image(encoded, decoded)
        }),
{
    match image_text(json) {
        Some(text) => match base64_decode(text) {
            Ok(bytes) => Ok(bytes),
            Err(_) => Err(ImageError::Encoding),
        },
        None => Err(ImageError::Missing),
    }
}

/// The text of the first piece of the first answer in a reply.
pub open spec fn reply_text_of(json: JsonView) -> Option<Seq<char>> {
    match json.member("candidates"@) {
        Some(candidates) => match candidates.head() {
            Some(first) => match first.member("content"@) {
                Some(content) => match content.member("parts"@) {
                    Some(parts) => match parts.head() {
                        Some(part) => match part.member("text"@) {
                            Some(text) => text.characters(),
                            None => None,
                        },
                        None => None,
                    },
                    None => None,
                },
                None => None,
            },
            None => None,
        },
        None => None,
    }
}

/// Finds the text of the first answer in a reply.
pub fn reply_text(json: &JsonValue) -> (r: Option<&str>)
    ensures
        opt_str_view(r) == reply_text_of(json@),
{
    match json.get("candidates") {
        Some(candidates) => match candidates.first() {
            Some(first) => match first.get("content") {
                Some(content) => match content.get("parts") {
                    Some(parts) => match parts.first() {
                        Some(part) => match part.get("text") {
                            Some(text) => text.as_str(),
                            None => None,
                        },
                        None => None,
                    },
                    None => None,
                },
                None => None,
            },
            None => None,
        },
        None => None,
    }
}

/// The kind of a prompt as a model named it; `None` where it named none.
pub open spec fn intent_of(text: Option<Seq<char>>) -> Seq<char> {
    match text {
        Some(text) => uppercase(trimmed(text)),
        None => "FLASH"@,
    }
}

/// Reads the kind of a prompt out of a reply, which is `None` where the request
/// failed.
pub fn classify_intent_reply(json: Option<&JsonValue>) -> (r: String)
    ensures
        r@ == intent_of(
            match json {
                Some(json) => reply_text_of(json@),
                None => None,
            },
        ),
{
    if let Some(json) = json {
        if let Some(text) = reply_text(json) {
            return to_uppercase(trim(text).as_str());
        }
    }
    "FLASH".to_string()
}

/// The error of an analysis whose reply holds no text.
pub open spec fn no_content_text(endpoint: EndpointType) -> Seq<char> {
    match endpoint {
        EndpointType::AnalyzeProfileUpdate => "No content in profile analysis response"@,
        EndpointType::AnalyzeGroupProfileUpdate => "No content in group profile analysis response"@,
        _ => "No content in analysis response"@,
    }
}

/// Reads the text of an analysis out of a reply.
pub fn analysis_reply(endpoint: EndpointType, json: &JsonValue) -> (r: Result<String, String>)
    ensures
        result_view(r) == (match reply_text_of(json@) {
            Some(text) => Ok(text),
            None => Err(no_content_text(endpoint)),
        }),
{
    match reply_text(json) {
        Some(text) => Ok(text.to_string()),
        None => Err(
            match endpoint {
                EndpointType::AnalyzeProfileUpdate =>
                    "No content in profile analysis response".to_string(),
                EndpointType::AnalyzeGroupProfileUpdate =>
                    "No content in group profile analysis response".to_string(),
                _ => "No content in analysis response".to_string(),
            },
        ),
    }
}

/// The judgement of a reaction; where the text of the model cannot be read,
/// one that is neutral and says so.
pub open spec fn reaction_result(
    text: Seq<char>,
    parsed: Option<ReactionAnalysisView>,
) -> ReactionAnalysisView {
    match parsed {
        Some(analysis) => analysis,
        None => ReactionAnalysisView {
            sentiment_score: 0,
            reasoning: "Failed to parse: "@ + text,
            tags: seq!["parse_error"@],
        },
    }
}

/// Settles the judgement of a reaction from the text of a model and what could
/// be read out of it.
pub fn analyze_reaction_reply(text: &str, parsed: Option<ReactionAnalysis>) -> (r: ReactionAnalysis)
    ensures
        r@ == reaction_result(
            text@,
            match parsed {
                Some(analysis) => Some(analysis@),
                None => None,
            },
        ),
{
    match parsed {
        Some(analysis) => analysis,
        None => {
            let mut reasoning = "Failed to parse: ".to_string();
            reasoning.append(text);
            let mut tags: Vec<String> = Vec::new();
            tags.push("parse_error".to_string());
            let r = ReactionAnalysis { sentiment_score: 0, reasoning, tags };
            assert(r@.tags =~= seq!["parse_error"@]);
            r
        },
    }
}

/// Settles the update of the profile of a person: what the model wrote, but
/// under the same id and with the time of the update; the current profile
/// where it could not be read.
pub fn analyze_profile_update_reply(
    current_profile: &UserProfile,
    parsed: Option<UserProfile>,
    now: u64,
) -> (r: UserProfile)
    ensures
        r@ == (match parsed {
            Some(profile) => UserProfileView {
                id: current_profile@.id,
                last_updated: now,
                ..profile@
            },
            None => current_profile@,
        }),
{
    match parsed {
        Some(profile) => {
            let mut profile = profile;
            profile.id = current_profile.id.clone();
            profile.last_updated = now;
            profile
        },
        None => current_profile.clone(),
    }
}

/// Settles the update of the profile of a group in the same way.
pub fn analyze_group_profile_update_reply(
    current_profile: &GroupProfile,
    parsed: Option<GroupProfile>,
    now: u64,
) -> (r: GroupProfile)
    ensures
        r@ == (match parsed {
            Some(profile) => GroupProfileView {
                id: current_profile@.id,
                last_updated: now,
                ..profile@
            },
            None => current_profile@,
        }),
{
    match parsed {
        Some(profile) => {
            let mut profile = profile;
            profile.id = current_profile.id.clone();
            profile.last_updated = now;
            profile
        },
        None => current_profile.clone(),
    }
}

/// The number of tokens in a reply.
pub open spec fn total_tokens(json: JsonView) -> Option<int> {
    match json.member("totalTokens"@) {
        Some(total) => total.integer(),
        None => None,
    }
}

/// Reads the number of tokens out of a reply. Of a number that does not fit,
/// the low 32 bits are kept.
pub fn count_tokens_reply(json: &JsonValue) -> (r: Option<i32>)
    ensures
        r == (match total_tokens(json@) {
            Some(n) => Some(n as i32),
            None => None,
        }),
{
    match json.get("totalTokens") {
        Some(total) => match total.as_i64() {
            Some(n) => Some(
                #[verifier::truncate]
                (n as i32),
            ),
            None => None,
        },
        None => None,
    }
}

// ---------------------------------------------------------------------------
// Laws of requests
// ---------------------------------------------------------------------------

/// Whether an entry of a request carries a message: its role, and each of its
/// pieces in order.
pub open spec fn carries(entry: JsonView, message: ContentView) -> bool {
    &&& entry.member("role"@) == Some(JsonView::Text(message.role))
    &&& entry.member("parts"@) matches Some(JsonView::List(pieces)) && pieces.len()
        == message.parts.len() && forall|j: int|
        0 <= j < pieces.len() ==> (#[trigger] pieces[j]).member("text"@) == Some(
            match message.parts[j] {
                Some(text) => JsonView::Text(text),
                None => JsonView::Null,
            },
        )
}

/// Whether a list of entries carries a conversation, message by message.
pub open spec fn carries_all(list: Option<JsonView>, contents: Seq<ContentView>) -> bool {
    list matches Some(JsonView::List(entries)) && entries.len() == contents.len() && forall|i: int|
        0 <= i < entries.len() ==> carries(#[trigger] entries[i], contents[i])
}

proof fn lemma_part(part: Option<Seq<char>>)
    ensures
        part_json(part).member("text"@) == Some(
            match part {
                Some(text) => JsonView::Text(text),
                None => JsonView::Null,
            },
        ),
{
    a_member_is_found(
        JsonView::object(),
        "text"@,
        match part {
            Some(text) => JsonView::Text(text),
            None => JsonView::Null,
        },
        "text"@,
    );
}

/// The entries of a request carry the messages of the conversation: as many,
/// in order, each with its role and its texts.
pub proof fn entries_carry_the_messages(contents: Seq<ContentView>)
    ensures
        carries_all(Some(contents_json(contents)), contents),
{
    reveal_strlit("role");
    reveal_strlit("parts");
    let entries = contents_json(contents)->List_0;
    assert forall|i: int| 0 <= i < entries.len() implies carries(
        #[trigger] entries[i],
        contents[i],
    ) by {
        let c = contents[i];
        let parts = JsonView::List(c.parts.map_values(|p: Option<Seq<char>>| part_json(p)));
        let start = JsonView::object().with("role"@, JsonView::Text(c.role));
        assert("role"@.len() != "parts"@.len());
        a_member_is_found(JsonView::object(), "role"@, JsonView::Text(c.role), "parts"@);
        a_member_is_found(start, "parts"@, parts, "role"@);
        let pieces = parts->List_0;
        assert forall|j: int| 0 <= j < pieces.len() implies (#[trigger] pieces[j]).member("text"@)
            == Some(
            match c.parts[j] {
                Some(text) => JsonView::Text(text),
                None => JsonView::Null,
            },
        ) by {
            lemma_part(c.parts[j]);
        }
    }
}

/// Whether a member of a request holds one text as its only piece.
pub open spec fn tells(member: Option<JsonView>, text: Seq<char>) -> bool {
    member matches Some(told) && told.member("parts"@) matches Some(JsonView::List(pieces))
        && pieces.len() == 1 && pieces[0].member("text"@) == Some(JsonView::Text(text))
}

/// A request for a generation carries the whole conversation, tells the model
/// its instruction, and has the settings of the generation; it has nothing
/// else in it.
pub proof fn a_request_carries_the_conversation(
    instruction: Seq<char>,
    contents: Seq<ContentView>,
    generation: JsonView,
    other: Seq<char>,
)
    ensures
        ({
            let body = generation_body(instruction, contents, generation);
            &&& carries_all(body.member("contents"@), contents)
            &&& tells(body.member("systemInstruction"@), instruction)
            &&& body.member("generationConfig"@) == Some(generation)
            &&& body.member(other) is Some ==> other == "contents"@ || other
                == "systemInstruction"@ || other == "generationConfig"@
            &&& body is Object
        }),
{
    reveal_strlit("systemInstruction");
    reveal_strlit("contents");
    reveal_strlit("generationConfig");
    let a = "systemInstruction"@;
    let b = "contents"@;
    let c = "generationConfig"@;
    assert(a.len() == 17 && b.len() == 8 && c.len() == 16);
    let none = JsonView::object();
    let told = instruction_json(instruction);
    let one = none.with(a, told);
    let two = one.with(b, contents_json(contents));
    a_member_is_found(none, a, told, b);
    a_member_is_found(none, a, told, c);
    a_member_is_found(none, a, told, other);
    a_member_is_found(one, b, contents_json(contents), a);
    a_member_is_found(one, b, contents_json(contents), c);
    a_member_is_found(one, b, contents_json(contents), other);
    a_member_is_found(two, c, generation, a);
    a_member_is_found(two, c, generation, b);
    a_member_is_found(two, c, generation, other);
    entries_carry_the_messages(contents);
    let pieces = JsonView::List(seq![part_json(Some(instruction))]);
    a_member_is_found(none, "parts"@, pieces, "parts"@);
    lemma_part(Some(instruction));
}

/// Searching the web is offered to a model by adding that one tool to a
/// request; everything else in it stays.
pub proof fn search_is_offered_on_top(
    instruction: Seq<char>,
    contents: Seq<ContentView>,
    generation: JsonView,
    other: Seq<char>,
)
    requires
        other != "tools"@,
    ensures
        ({
            let plain = generation_body(instruction, contents, generation);
            let searching = plain.with("tools"@, search_tool_json());
            &&& plain.member("tools"@) is None
            &&& searching.member(other) == plain.member(other)
            &&& searching.member("tools"@) matches Some(JsonView::List(tools)) && tools.len() == 1
                && tools[0].member("googleSearch"@) is Some
        }),
{
    reveal_strlit("systemInstruction");
    reveal_strlit("contents");
    reveal_strlit("generationConfig");
    reveal_strlit("tools");
    assert("tools"@.len() == 5);
    let plain = generation_body(instruction, contents, generation);
    a_request_carries_the_conversation(instruction, contents, generation, "tools"@);
    a_member_is_found(plain, "tools"@, search_tool_json(), other);
    a_member_is_found(JsonView::object(), "googleSearch"@, JsonView::object(), other);
}

/// The settings of a generation hold the temperature and the output limit.
pub proof fn settings_hold_temperature_and_limit(temperature: u64, max_output_tokens: i32)
    ensures
        ({
            let plain = generation_json(temperature, max_output_tokens);
            let structured = structured_generation_json(temperature, max_output_tokens);
            &&& plain.member("temperature"@) == Some(JsonView::Real(temperature))
            &&& plain.member("maxOutputTokens"@) == Some(
                JsonView::Number(max_output_tokens as int),
            )
            &&& plain.member("responseMimeType"@) is None
            &&& structured.member("temperature"@) == Some(JsonView::Real(temperature))
            &&& structured.member("maxOutputTokens"@) == Some(
                JsonView::Number(max_output_tokens as int),
            )
            &&& structured.member("responseMimeType"@) == Some(
                JsonView::Text("application/json"@),
            )
        }),
{
    reveal_strlit("temperature");
    reveal_strlit("maxOutputTokens");
    reveal_strlit("responseMimeType");
    let a = "temperature"@;
    let b = "maxOutputTokens"@;
    let c = "responseMimeType"@;
    assert(a.len() == 11 && b.len() == 15 && c.len() == 16);
    let none = JsonView::object();
    let one = none.with(a, JsonView::Real(temperature));
    let two = generation_json(temperature, max_output_tokens);
    let number = JsonView::Number(max_output_tokens as int);
    let json = JsonView::Text("application/json"@);
    a_member_is_found(none, a, JsonView::Real(temperature), b);
    a_member_is_found(none, a, JsonView::Real(temperature), c);
    a_member_is_found(one, b, number, a);
    a_member_is_found(one, b, number, c);
    a_member_is_found(two, c, json, a);
    a_member_is_found(two, c, json, b);
}

/// A model's own settings come before the general ones.
pub proof fn own_settings_come_first(config: AppConfig, model: ModelSettings)
    ensures
        model.temperature is Some ==> temperature_of(config, model) == model.temperature->0,
        model.temperature is None ==> temperature_of(config, model)
            == config.ai.generation.temperature,
        model.max_output_tokens is Some ==> output_limit_of(config, model)
            == model.max_output_tokens->0,
        model.max_output_tokens is None ==> output_limit_of(config, model)
            == config.ai.generation.max_output_tokens,
{
}

/// A request for a picture asks for one square picture of what the prompt says.
pub proof fn a_picture_is_asked_for_by_its_prompt(prompt: Seq<char>)
    ensures
        image_body(prompt).member("instances"@) matches Some(JsonView::List(instances))
            && instances.len() == 1 && instances[0].member("prompt"@) == Some(
            JsonView::Text(prompt),
        ),
        image_body(prompt).member("parameters"@) matches Some(parameters) && parameters.member(
            "sampleCount"@,
        ) == Some(JsonView::Number(1)) && parameters.member("aspectRatio"@) == Some(
            JsonView::Text("1:1"@),
        ),
{
    reveal_strlit("instances");
    reveal_strlit("parameters");
    reveal_strlit("sampleCount");
    reveal_strlit("aspectRatio");
    let none = JsonView::object();
    let count = JsonView::Number(1);
    let ratio = JsonView::Text("1:1"@);
    assert("sampleCount"@[0] == 's' && "aspectRatio"@[0] == 'a');
    a_member_is_found(none, "sampleCount"@, count, "aspectRatio"@);
    a_member_is_found(none.with("sampleCount"@, count), "aspectRatio"@, ratio, "sampleCount"@);
    let parameters = none.with("sampleCount"@, count).with("aspectRatio"@, ratio);
    let instances = JsonView::List(seq![none.with("prompt"@, JsonView::Text(prompt))]);
    a_member_is_found(none, "prompt"@, JsonView::Text(prompt), "prompt"@);
    assert("instances"@.len() == 9 && "parameters"@.len() == 10);
    a_member_is_found(none, "instances"@, instances, "parameters"@);
    a_member_is_found(
        none.with("instances"@, instances),
        "parameters"@,
        parameters,
        "instances"@,
    );
}

/// Whether a text ends with another one.
pub open spec fn ends_with(s: Seq<char>, end: Seq<char>) -> bool {
    s.len() >= end.len() && s.skip(s.len() - end.len()) == end
}

proof fn lemma_ends(a: Seq<char>, b: Seq<char>)
    ensures
        ends_with(a + b, b),
{
    assert((a + b).skip((a + b).len() - b.len()) =~= b);
}

/// A request goes to the model and the action that it is for, in the project
/// and the location of the settings.
pub proof fn requests_go_to_their_model(
    project: Seq<char>,
    location: Seq<char>,
    model: Seq<char>,
    action: Seq<char>,
)
    ensures
        ({
            let url = model_url(project, location, model, action);
            &&& has_text(url, "/projects/"@ + project)
            &&& has_text(url, "/locations/"@ + location)
            &&& ends_with(url, model + ":"@ + action)
        }),
{
    let url = model_url(project, location, model, action);
    let tail = "/publishers/google/models/"@ + model + ":"@ + action;
    let start = API_ENDPOINT@;
    let a = "/projects/"@ + project;
    let b = "/locations/"@ + location;
    assert(url =~= start + a + (b + tail));
    text_is_found_where_it_stands(start, a, b + tail);
    assert(url =~= (start + a) + b + tail);
    text_is_found_where_it_stands(start + a, b, tail);
    let before = start + a + b + "/publishers/google/models/"@;
    assert(url =~= before + (model + ":"@ + action));
    lemma_ends(before, model + ":"@ + action);
}

/// A request for a picture goes to the model that draws, in the project and the
/// location of the settings, and at the address of that location.
pub proof fn picture_requests_go_to_their_model(
    project: Seq<char>,
    location: Seq<char>,
    model: Seq<char>,
)
    ensures
        ({
            let url = image_url(project, location, model);
            &&& crate::text::begins_with(url, "https://"@ + location)
            &&& has_text(url, "/projects/"@ + project)
            &&& has_text(url, "/locations/"@ + location)
            &&& ends_with(url, model + ":predict"@)
        }),
{
    let url = image_url(project, location, model);
    let tail = "/publishers/google/models/"@ + model + ":predict"@;
    let first = "https://"@ + location;
    let host = "-aiplatform.googleapis.com/v1"@;
    let start = first + host;
    let a = "/projects/"@ + project;
    let b = "/locations/"@ + location;
    assert("-aiplatform.googleapis.com/v1/projects/"@ =~= host + "/projects/"@) by {
        reveal_strlit("-aiplatform.googleapis.com/v1/projects/");
        reveal_strlit("-aiplatform.googleapis.com/v1");
        reveal_strlit("/projects/");
    }
    assert(url =~= start + a + (b + tail));
    text_is_found_where_it_stands(start, a, b + tail);
    assert(url =~= (start + a) + b + tail);
    text_is_found_where_it_stands(start + a, b, tail);
    assert(url =~= first + (host + a + b + tail));
    text_is_found_where_it_stands(Seq::empty(), first, host + a + b + tail);
    let before = start + a + b + "/publishers/google/models/"@;
    assert(url =~= before + (model + ":predict"@));
    lemma_ends(before, model + ":predict"@);
}

/// The question about a reaction names the prompt, the answer and the emoji,
/// each in its place.
pub proof fn a_reaction_is_asked_about_in_full(
    user_prompt: Seq<char>,
    bot_response: Seq<char>,
    emoji: Seq<char>,
)
    ensures
        ({
            let question = reaction_question(user_prompt, bot_response, emoji);
            &&& crate::text::begins_with(question, "User: "@ + user_prompt + "\nBot: "@)
            &&& has_text(question, "\nBot: "@ + bot_response + "\nUser Reacted With: "@)
            &&& question.len() >= emoji.len()
            &&& question.skip(question.len() - emoji.len()) == emoji
        }),
{
    let question = reaction_question(user_prompt, bot_response, emoji);
    let start = "User: "@ + user_prompt + "\nBot: "@;
    let middle = "\nBot: "@ + bot_response + "\nUser Reacted With: "@;
    assert(question =~= start + (bot_response + "\nUser Reacted With: "@ + emoji));
    text_is_found_where_it_stands(
        Seq::empty(),
        start,
        bot_response + "\nUser Reacted With: "@ + emoji,
    );
    assert(question =~= ("User: "@ + user_prompt) + middle + emoji);
    text_is_found_where_it_stands("User: "@ + user_prompt, middle, emoji);
    assert(question.skip(question.len() - emoji.len()) =~= emoji);
}

/// The question about a profile holds the current profile and, behind it, the
/// recent history.
pub proof fn a_profile_is_asked_about_with_its_history(
    profile_json: Seq<char>,
    history: Seq<char>,
)
    ensures
        ({
            let question = profile_question(profile_json, history);
            &&& crate::text::begins_with(question, "Current Profile: "@ + profile_json + "\n"@)
            &&& question.len() >= history.len()
            &&& question.skip(question.len() - history.len()) == history
        }),
{
    reveal_strlit("\n\nRecent History:\n");
    reveal_strlit("\n");
    let question = profile_question(profile_json, history);
    let middle = "\n\nRecent History:\n"@;
    let start = "Current Profile: "@ + profile_json + "\n"@;
    assert(middle =~= "\n"@ + middle.skip(1));
    assert(question =~= start + (middle.skip(1) + history));
    text_is_found_where_it_stands(Seq::empty(), start, middle.skip(1) + history);
    assert(question.skip(question.len() - history.len()) =~= history);
}

// ---------------------------------------------------------------------------
// Laws of replies
// ---------------------------------------------------------------------------

/// A reply is accepted exactly where its status lies between 200 and 299. Too
/// many requests and failures of the server are worth another try, three times
/// at most; anything else is refused at once.
pub proof fn statuses_decide_over_attempts(endpoint: EndpointType, status: u16, retries: u32)
    ensures
        attempt_after(endpoint, status, retries) == Attempt::Accept <==> 200 <= status <= 299,
        status == 429 || 500 <= status <= 599 ==> (attempt_after(endpoint, status, retries)
            == Attempt::GiveUp <==> retries >= 3),
        status == 429 || 500 <= status <= 599 ==> (attempt_after(
            endpoint,
            status,
            retries,
        ) is RetryAfter <==> retries < 3),
        !(200 <= status <= 299) && status != 429 && !(500 <= status <= 599) ==> attempt_after(
            endpoint,
            status,
            retries,
        ) == Attempt::Refuse,
{
}

/// Each pause before another try is twice the one before; the first one is two
/// seconds for answers and pictures, and one second for all else.
pub proof fn pauses_between_attempts_double(endpoint: EndpointType, status: u16, retries: u32)
    requires
        status == 429 || 500 <= status <= 599,
        retries < 3,
    ensures
        attempt_after(endpoint, status, retries) matches Attempt::RetryAfter {
            retries: n,
            wait_ms,
        } && n == retries + 1 && (retries == 0 ==> wait_ms == (if endpoint
            == EndpointType::GenerateContent || endpoint == EndpointType::GenerateImage {
            2000int
        } else {
            1000int
        })) && (retries > 0 ==> (attempt_after(
            endpoint,
            status,
            (retries - 1) as u32,
        ) matches Attempt::RetryAfter { wait_ms: before, .. } && wait_ms == 2 * before)),
{
    lemma2_to64();
}

/// Whether a reply holds a text: as the first of the pieces in the content of
/// its first answer.
pub open spec fn holds_text(
    json: JsonView,
    candidates: Seq<JsonView>,
    content: JsonView,
    pieces: Seq<JsonView>,
    text: Seq<char>,
) -> bool {
    &&& json.member("candidates"@) == Some(JsonView::List(candidates))
    &&& candidates.len() > 0
    &&& candidates[0].member("content"@) == Some(content)
    &&& content.member("parts"@) == Some(JsonView::List(pieces))
    &&& pieces.len() > 0
    &&& pieces[0].member("text"@) == Some(JsonView::Text(text))
}

/// What is read from a reply is the text that it holds.
pub proof fn the_first_answer_is_read(
    json: JsonView,
    candidates: Seq<JsonView>,
    content: JsonView,
    pieces: Seq<JsonView>,
    text: Seq<char>,
)
    requires
        holds_text(json, candidates, content, pieces, text),
    ensures
        reply_text_of(json) == Some(text),
{
}

/// Nothing is read from a reply that it does not hold.
pub proof fn what_is_read_stands_in_the_reply(json: JsonView)
    ensures
        reply_text_of(json) matches Some(text) ==> exists|
            candidates: Seq<JsonView>,
            content: JsonView,
            pieces: Seq<JsonView>,
        | #[trigger]
            holds_text(json, candidates, content, pieces, text),
{
    if reply_text_of(json) is Some {
        let candidates = json.member("candidates"@)->0->List_0;
        let content = candidates[0].member("content"@)->0;
        let pieces = content.member("parts"@)->0->List_0;
        assert(holds_text(json, candidates, content, pieces, reply_text_of(json)->0));
    }
}

/// Where the first answer of a model has a text and was not held back, that
/// text is the answer. Where it was held back, the answer names the reason and
/// not the text.
pub proof fn the_model_is_quoted(
    response: GenerateContentResponse,
    candidates: Vec<Candidate>,
    content: Content,
    text: Seq<char>,
)
    requires
        response.candidates == Some(candidates),
        candidates@.len() > 0,
        candidates@[0].content == Some(content),
        content@.parts.len() > 0,
        content@.parts[0] == Some(text),
    ensures
        ({
            let reason = opt_view(candidates@[0].finish_reason);
            let held_back = reason == Some("SAFETY"@) || reason == Some("RECITATION"@);
            &&& !held_back ==> content_answer(Some(response)) == text
            &&& held_back ==> content_answer(Some(response)) == "I cannot answer that. Google says no ("@
                + reason->0 + ")"@
        }),
{
    assert(content@.parts[0] == content.parts@[0]@);
}

/// Where a reply has no answer in it, the bot says that it has nothing to say.
pub proof fn nothing_is_made_up(response: GenerateContentResponse)
    requires
        response.candidates is None || response.candidates->0@.len() == 0 || (
        response.candidates->0@[0].content is None && response.candidates->0@[0].finish_reason is None),
    ensures
        content_answer(Some(response)) == "I have nothing to say about that."@,
{
}

/// A refusal for safety is answered kindly; any other failure is an error that
/// names the status.
pub proof fn failures_are_told_apart(
    after_retries: bool,
    code: u16,
    status: Seq<char>,
    before: Seq<char>,
    behind: Seq<char>,
    body: Seq<char>,
)
    ensures
        content_failure(false, 400, status, before + "SAFETY"@ + behind) is Ok,
        after_retries || code != 400 ==> content_failure(after_retries, code, status, body) is Err,
        !has_text(body, "SAFETY"@) ==> content_failure(after_retries, code, status, body) is Err,
        content_failure(after_retries, code, status, body) matches Err(e) ==> has_text(e, status)
            && has_text(e, body),
{
    text_is_found_where_it_stands(before, "SAFETY"@, behind);
    let start = if after_retries {
        "Vertex AI Error after retries: "@
    } else {
        "Vertex AI Error: "@
    };
    text_is_found_where_it_stands(start, status, " - "@ + body);
    assert(start + status + (" - "@ + body) =~= start + status + " - "@ + body);
    text_is_found_where_it_stands(start + status + " - "@, body, Seq::empty());
    assert(start + status + " - "@ + body + Seq::<char>::empty() =~= start + status + " - "@ + body);
}

/// The message of any failure names the status.
pub proof fn failures_name_their_status(
    endpoint: EndpointType,
    after_retries: bool,
    status: Seq<char>,
    body: Seq<char>,
)
    ensures
        has_text(failure_text(endpoint, after_retries, status, body), status),
{
    let whole = failure_text(endpoint, after_retries, status, body);
    let start = failure_start(endpoint, after_retries);
    text_is_found_where_it_stands(start, status, whole.skip(
        (start.len() + status.len()) as int,
    ));
    assert(start + status + whole.skip((start.len() + status.len()) as int) =~= whole);
}

/// The picture in a reply is the encoded one of its first prediction, decoded.
pub proof fn the_first_picture_is_read(
    json: JsonView,
    predictions: Seq<JsonView>,
    encoded: Seq<char>,
    decoded: Option<Seq<u8>>,
)
    requires
        json.member("predictions"@) == Some(JsonView::List(predictions)),
        predictions.len() > 0,
        predictions[0].member("bytesBase64Encoded"@) == Some(JsonView::Text(encoded)),
    ensures
        encoded_image(json) == Some(encoded),
        decoded matches Some(bytes) ==> decoded_image(encoded_image(json), decoded) == Ok::<
            Seq<u8>,
            ImageError,
        >(bytes),
        decoded is None ==> decoded_image(encoded_image(json), decoded) == Err::<
            Seq<u8>,
            ImageError,
        >(ImageError::Encoding),
{
}

/// Without a prediction in it, a reply holds no picture.
pub proof fn a_missing_picture_is_missed(json: JsonView, decoded: Option<Seq<u8>>)
    requires
        json.member("predictions"@) is None || json.member("predictions"@) == Some(
            JsonView::List(Seq::empty()),
        ),
    ensures
        decoded_image(encoded_image(json), decoded) == Err::<Seq<u8>, ImageError>(
            ImageError::Missing,
        ),
{
}

/// The tokens of a conversation are the total that the reply names.
pub proof fn tokens_are_counted_in_total(json: JsonView, n: i64)
    ensures
        json.member("totalTokens"@) == Some(JsonView::Number(n as int)) ==> total_tokens(json)
            == Some(n as int),
        json.member("totalTokens"@) is None ==> total_tokens(json) is None,
{
}

/// The kind of a prompt is what the model wrote, without white space around it
/// and in upper case; casual chat where it wrote nothing.
pub proof fn the_kind_is_what_the_model_wrote(before: Seq<char>, word: Seq<char>, behind: Seq<char>)
    requires
        word.len() > 0,
        !crate::text::is_white_space(word[0]) && !crate::text::is_white_space(word.last()),
        forall|i: int| 0 <= i < before.len() ==> crate::text::is_white_space(#[trigger] before[i]),
        forall|i: int| 0 <= i < behind.len() ==> crate::text::is_white_space(#[trigger] behind[i]),
    ensures
        intent_of(Some(before + word + behind)) == uppercase(word),
        intent_of(None) == "FLASH"@,
{
    let s = before + word + behind;
    let (a, b) = crate::text::trimming_takes_the_white_space_around(s);
    let n = before.len() as int;
    let m = n + word.len();
    assert(s[n] == word[0] && s[m - 1] == word.last());
    assert(a <= n && m <= b);
    if a < n {
        assert(trimmed(s)[0] == s[a]);
        assert(s[a] == before[a]);
    }
    if b > m {
        assert(trimmed(s).last() == s[b - 1]);
        assert(s[b - 1] == behind[b - 1 - m]);
    }
    assert(trimmed(s) =~= word);
}

/// A judgement that could be read stands; one that could not is neutral and
/// quotes what the model wrote.
pub proof fn judgements_stand_or_are_neutral(
    text: Seq<char>,
    analysis: ReactionAnalysisView,
)
    ensures
        reaction_result(text, Some(analysis)) == analysis,
        reaction_result(text, None).sentiment_score == 0,
        has_text(reaction_result(text, None).reasoning, text),
{
    text_is_found_where_it_stands("Failed to parse: "@, text, Seq::empty());
    assert("Failed to parse: "@ + text + Seq::<char>::empty() =~= "Failed to parse: "@ + text);
}

/// A failure after repetitions says so right before the status. What the server
/// said ends the message of every failure that came at once, but for that of a
/// classification.
pub proof fn failures_say_how_they_came(
    endpoint: EndpointType,
    after_retries: bool,
    status: Seq<char>,
    body: Seq<char>,
)
    ensures
        after_retries ==> has_text(
            failure_text(endpoint, after_retries, status, body),
            "after retries: "@ + status,
        ),
        !after_retries && endpoint != EndpointType::ClassifyIntent ==> ends_with(
            failure_text(endpoint, after_retries, status, body),
            status + " - "@ + body,
        ),
        endpoint == EndpointType::ClassifyIntent ==> ends_with(
            failure_text(endpoint, after_retries, status, body),
            status,
        ),
        endpoint == EndpointType::GenerateContent || endpoint == EndpointType::GenerateImage
            || endpoint == EndpointType::CountTokens ==> ends_with(
            failure_text(endpoint, after_retries, status, body),
            status + " - "@ + body,
        ),
{
    let whole = failure_text(endpoint, after_retries, status, body);
    let start = failure_start(endpoint, after_retries);
    let named = start + status;
    let full = start + status + " - "@ + body;
    lemma_ends(start, status);
    assert(full =~= start + (status + " - "@ + body));
    lemma_ends(start, status + " - "@ + body);
    if after_retries {
        lemma_after_retries(endpoint);
        let head = start.take(start.len() - 15);
        let rest = whole.skip(named.len() as int);
        assert(whole =~= head + ("after retries: "@ + status) + rest) by {
            assert(start =~= head + "after retries: "@);
            assert(whole =~= start + status + rest);
        }
        text_is_found_where_it_stands(head, "after retries: "@ + status, rest);
    }
}

/// The words with which the message of a failure begins.
pub open spec fn failure_start(endpoint: EndpointType, after_retries: bool) -> Seq<char> {
    match (endpoint, after_retries) {
        (EndpointType::GenerateContent, true) => "Vertex AI Error after retries: "@,
        (EndpointType::GenerateContent, false) => "Vertex AI Error: "@,
        (EndpointType::GenerateImage, true) => "Vertex AI Imagen Error after retries: "@,
        (EndpointType::GenerateImage, false) => "Vertex AI Imagen Error: "@,
        (EndpointType::ClassifyIntent, true) => "Intent classification failed after retries: "@,
        (EndpointType::ClassifyIntent, false) => "Intent classification failed non-retryable: "@,
        (EndpointType::AnalyzeReaction, true) => "Analysis failed after retries: "@,
        (EndpointType::AnalyzeReaction, false) => "Analysis Error: "@,
        (EndpointType::AnalyzeProfileUpdate, true) => "Profile analysis failed after retries: "@,
        (EndpointType::AnalyzeProfileUpdate, false) => "Profile Analysis Error: "@,
        (EndpointType::AnalyzeGroupProfileUpdate, true) =>
            "Group Profile analysis failed after retries: "@,
        (EndpointType::AnalyzeGroupProfileUpdate, false) => "Group Profile Analysis Error: "@,
        (EndpointType::CountTokens, true) => "CountTokens failed after retries: "@,
        (EndpointType::CountTokens, false) => "CountTokens Error: "@,
    }
}

proof fn lemma_after_retries(endpoint: EndpointType)
    ensures
        failure_start(endpoint, true).len() >= 15,
        ({
            let start = failure_start(endpoint, true);
            start == start.take(start.len() - 15) + "after retries: "@
        }),
{
    reveal_strlit("after retries: ");
    reveal_strlit("Vertex AI Error after retries: ");
    reveal_strlit("Vertex AI Imagen Error after retries: ");
    reveal_strlit("Intent classification failed after retries: ");
    reveal_strlit("Analysis failed after retries: ");
    reveal_strlit("Profile analysis failed after retries: ");
    reveal_strlit("Group Profile analysis failed after retries: ");
    reveal_strlit("CountTokens failed after retries: ");
    let start = failure_start(endpoint, true);
    assert(start =~= start.take(start.len() - 15) + "after retries: "@);
}

/// The message of a failure begins with what failed, in words that depend on the
/// endpoint alone and on whether the request was repeated.
pub proof fn failures_begin_with_what_failed(
    endpoint: EndpointType,
    after_retries: bool,
    status: Seq<char>,
    body: Seq<char>,
)
    ensures
        crate::text::begins_with(
            failure_text(endpoint, after_retries, status, body),
            failure_start(endpoint, after_retries) + status,
        ),
{
    let whole = failure_text(endpoint, after_retries, status, body);
    let named = failure_start(endpoint, after_retries) + status;
    assert(whole =~= named + whole.skip(named.len() as int));
    text_is_found_where_it_stands(Seq::empty(), named, whole.skip(named.len() as int));
}

} // verus!
