//! The words with which the bot turns to the models.
use vstd::prelude::*;

use crate::ai::memory::{
    interaction_views, GroupProfile, GroupProfileView, Interaction, InteractionView, UserProfile,
    UserProfileView,
};
use crate::bot::routing::text_or;
use crate::text::{
    begins_with, decimal, decimal_of, found_text_can_be_cut_out, has_text, join, joined,
    joined_text_holds_its_parts, opt_view, same_text, text_is_found_where_it_stands,
    text_stays_found, views,
};

verus! {

/// Begins the question whether the bot should chime in.
pub const UNPROMPTED_QUESTION: &'static str = "SYSTEM: Analyze this group chat message context. If it is appropriate for you to chime in unprompted to be helpful or funny, categorize the intent normally as FLASH, SEARCH, PRO, or IMAGE. Otherwise, reply IGNORE. User prompt: ";

/// Begins the question what the bot is asked for.
pub const ADDRESSED_QUESTION: &'static str = "SYSTEM: The user explicitly addressed you, so you MUST respond. Do NOT output IGNORE. Categorize intent normally as FLASH, SEARCH, PRO, or IMAGE. User prompt: ";

/// The question that names the kind of a prompt.
pub open spec fn classification_question(prompt: Seq<char>, is_explicit: bool) -> Seq<char> {
    (if is_explicit {
        ADDRESSED_QUESTION@
    } else {
        UNPROMPTED_QUESTION@
    }) + prompt
}

/// Words the question that names the kind of a prompt.
pub fn classification_prompt(prompt: &str, is_explicit: bool) -> (r: String)
    ensures
        r@ == classification_question(prompt@, is_explicit),
{
    let mut out = if is_explicit {
        ADDRESSED_QUESTION.to_string()
    } else {
        UNPROMPTED_QUESTION.to_string()
    };
    out.append(prompt);
    out
}

/// Asks for an answer of any length.
pub const DETAILED_FORMAT: &'static str = "FORMATTING INSTRUCTION: You are providing a detailed or complex response. You may write as much as necessary, using multiple paragraphs. Please format your response clearly.";

/// Begins to ask for a short answer.
pub const CASUAL_FORMAT_START: &'static str = "FORMATTING INSTRUCTION: For casual conversation, aim to respond with exactly one paragraph of around ";

/// Ends asking for a short answer.
pub const CASUAL_FORMAT_END: &'static str = " characters. You may use subsequent paragraphs if necessary, but do so with reluctance, as each paragraph is a separate push notification. IMPORTANT: If the user explicitly asks for a long-form response (like an essay or detailed explanation), you may completely ignore this length limit and write as much as needed.";

/// How long an answer should be.
pub open spec fn format_text(intent: Seq<char>, target_len: usize) -> Seq<char> {
    if intent == "PRO"@ {
        DETAILED_FORMAT@
    } else {
        CASUAL_FORMAT_START@ + decimal(target_len as nat) + CASUAL_FORMAT_END@
    }
}

/// Words how long an answer should be.
pub fn format_instruction(intent: &str, target_len: usize) -> (r: String)
    ensures
        r@ == format_text(intent@, target_len),
{
    if same_text(intent, "PRO") {
        DETAILED_FORMAT.to_string()
    } else {
        let mut out = CASUAL_FORMAT_START.to_string();
        out.append(decimal_of(target_len as u64).as_str());
        out.append(CASUAL_FORMAT_END);
        out
    }
}

/// Ends what is said of a person.
pub const PROFILE_END: &'static str = "\nUse this info to personalize your response. If you know their name, use it naturally. Note: In group chats, this profile only applies to the user who just messaged you.";

/// Ends what is said of a group.
pub const GROUP_PROFILE_END: &'static str = "\nUse this info to understand the context of the group chat. Reference inside jokes sparingly but accurately if the context fits.";

/// Begins the list of answers that people liked.
pub const EXAMPLES_START: &'static str = "Here are some examples of your best past responses in this chat that people liked:\n";

/// Stands between two instructions.
pub const SEPARATOR: &'static str = "\n\n---\n\n";

/// A line that says something under a label.
pub open spec fn line(label: Seq<char>, text: Seq<char>) -> Seq<char> {
    label + text + "\n"@
}

/// A line where there is something to say.
pub open spec fn opt_line(label: Seq<char>, text: Option<Seq<char>>) -> Seq<char> {
    match text {
        Some(text) => line(label, text),
        None => Seq::empty(),
    }
}

/// A line with a list where there is something in it.
pub open spec fn list_line(label: Seq<char>, items: Seq<Seq<char>>) -> Seq<char> {
    if items.len() > 0 {
        line(label, joined(items, ", "@))
    } else {
        Seq::empty()
    }
}

/// What is said of a person.
pub open spec fn profile_text(profile: UserProfileView, display_name: Seq<char>) -> Seq<char> {
    "User Profile for "@ + display_name + ":\n"@ + opt_line("Name: "@, profile.name) + opt_line(
        "Nickname: "@,
        profile.nickname,
    ) + line("Personality: "@, profile.personality_summary) + line(
        "Style: "@,
        profile.interaction_style,
    ) + list_line("Interests: "@, profile.topics_of_interest) + PROFILE_END@
}

/// What is said of a group.
pub open spec fn group_text(group: GroupProfileView) -> Seq<char> {
    "Group Chat Profile for "@ + text_or(group.group_name, "this group"@) + ":\n"@ + line(
        "Vibe: "@,
        group.group_vibe,
    ) + list_line("Inside Jokes/Memes: "@, group.inside_jokes) + list_line(
        "Common Topics: "@,
        group.common_topics,
    ) + list_line("Important Memories: "@, group.important_memories) + GROUP_PROFILE_END@
}

/// One answer that people liked.
pub open spec fn example_text(example: InteractionView) -> Seq<char> {
    "User: "@ + example.prompt + "\nYou: "@ + example.response + "\n---\n"@
}

/// The answers that people liked.
pub open spec fn examples_text(examples: Seq<InteractionView>) -> Seq<char>
    decreases examples.len(),
{
    if examples.len() == 0 {
        EXAMPLES_START@
    } else {
        examples_text(examples.drop_last()) + example_text(examples.last())
    }
}

fn append_line(out: &mut String, label: &str, text: &str)
    ensures
        final(out)@ == old(out)@ + line(label@, text@),
{
    let ghost before = out@;
    out.append(label);
    out.append(text);
    out.append("\n");
    assert(out@ =~= before + line(label@, text@));
}

fn append_opt_line(out: &mut String, label: &str, text: &Option<String>)
    ensures
        final(out)@ == old(out)@ + opt_line(label@, opt_view(*text)),
{
    let ghost before = out@;
    if let Some(text) = text {
        append_line(out, label, text.as_str());
    } else {
        assert(before + Seq::<char>::empty() =~= before);
    }
}

fn append_list_line(out: &mut String, label: &str, items: &Vec<String>)
    ensures
        final(out)@ == old(out)@ + list_line(label@, views(items@)),
{
    let ghost before = out@;
    if items.len() > 0 {
        append_line(out, label, join(items, ", ").as_str());
    } else {
        assert(before + Seq::<char>::empty() =~= before);
    }
}

/// Words what is said of a person.
pub fn profile_context(profile: &UserProfile, display_name: &str) -> (r: String)
    ensures
        r@ == profile_text(profile@, display_name@),
{
    let mut out = "User Profile for ".to_string();
    out.append(display_name);
    out.append(":\n");
    append_opt_line(&mut out, "Name: ", &profile.name);
    append_opt_line(&mut out, "Nickname: ", &profile.nickname);
    append_line(&mut out, "Personality: ", profile.personality_summary.as_str());
    append_line(&mut out, "Style: ", profile.interaction_style.as_str());
    append_list_line(&mut out, "Interests: ", &profile.topics_of_interest);
    out.append(PROFILE_END);
    out
}

/// Words what is said of a group.
pub fn group_context(group: &GroupProfile) -> (r: String)
    ensures
        r@ == group_text(group@),
{
    let mut out = "Group Chat Profile for ".to_string();
    match &group.group_name {
        Some(name) => out.append(name.as_str()),
        None => out.append("this group"),
    }
    out.append(":\n");
    append_line(&mut out, "Vibe: ", group.group_vibe.as_str());
    append_list_line(&mut out, "Inside Jokes/Memes: ", &group.inside_jokes);
    append_list_line(&mut out, "Common Topics: ", &group.common_topics);
    append_list_line(&mut out, "Important Memories: ", &group.important_memories);
    out.append(GROUP_PROFILE_END);
    out
}

/// Words the answers that people liked.
pub fn examples_context(examples: &Vec<Interaction>) -> (r: String)
    ensures
        r@ == examples_text(interaction_views(examples@)),
{
    let ghost all = interaction_views(examples@);
    let mut out = EXAMPLES_START.to_string();
    let mut i: usize = 0;
    while i < examples.len()
        invariant
            i <= examples@.len(),
            all == interaction_views(examples@),
            out@ == examples_text(all.take(i as int)),
        decreases examples@.len() - i,
    {
        let ghost before = out@;
        assert(all.take(i + 1).drop_last() =~= all.take(i as int));
        assert(all.take(i + 1).last() == examples@[i as int]@);
        out.append("User: ");
        out.append(examples[i].prompt.as_str());
        out.append("\nYou: ");
        out.append(examples[i].response.as_str());
        out.append("\n---\n");
        assert(out@ =~= before + example_text(examples@[i as int]@));
        i += 1;
    }
    assert(all.take(all.len() as int) =~= all);
    out
}

/// What a model is told before a conversation: the character of the bot, the
/// length of the answer, and what is known of the person, of the group and of
/// earlier answers.
pub open spec fn instructions(
    system_prompt: Seq<char>,
    intent: Seq<char>,
    target_len: usize,
    person: Option<(UserProfileView, Seq<char>)>,
    group: Option<GroupProfileView>,
    examples: Seq<InteractionView>,
) -> Seq<Seq<char>> {
    let start = Seq::empty().push(system_prompt).push(format_text(intent, target_len));
    let with_person = match person {
        Some((profile, name)) => start.push(profile_text(profile, name)),
        None => start,
    };
    let with_group = match group {
        Some(group) => with_person.push(group_text(group)),
        None => with_person,
    };
    if examples.len() > 0 {
        with_group.push(examples_text(examples))
    } else {
        with_group
    }
}

/// What an optional profile of a person says, with the name to show.
pub open spec fn person_view(profile: Option<UserProfile>, name: Seq<char>) -> Option<
    (UserProfileView, Seq<char>),
> {
    match profile {
        Some(p) => Some((p@, name)),
        None => None,
    }
}

/// What an optional profile of a group says.
pub open spec fn opt_group_view(group: Option<GroupProfile>) -> Option<GroupProfileView> {
    match group {
        Some(g) => Some(g@),
        None => None,
    }
}

/// Puts together what a model is told before a conversation.
pub fn system_instruction(
    system_prompt: &str,
    intent: &str,
    target_len: usize,
    profile: &Option<UserProfile>,
    display_name: &str,
    group: &Option<GroupProfile>,
    examples: &Vec<Interaction>,
) -> (r: String)
    ensures
        r@ == joined(
            instructions(
                system_prompt@,
                intent@,
                target_len,
                person_view(*profile, display_name@),
                opt_group_view(*group),
                interaction_views(examples@),
            ),
            SEPARATOR@,
        ),
{
    let mut parts: Vec<String> = Vec::new();
    parts.push(system_prompt.to_string());
    parts.push(format_instruction(intent, target_len));
    assert(views(parts@) =~= Seq::empty().push(system_prompt@).push(
        format_text(intent@, target_len),
    ));
    let ghost a = views(parts@);
    if let Some(profile) = profile {
        parts.push(profile_context(profile, display_name));
        assert(views(parts@) =~= a.push(profile_text(profile@, display_name@)));
    }
    let ghost b = views(parts@);
    if let Some(group) = group {
        parts.push(group_context(group));
        assert(views(parts@) =~= b.push(group_text(group@)));
    }
    let ghost c = views(parts@);
    if examples.len() > 0 {
        parts.push(examples_context(examples));
        assert(views(parts@) =~= c.push(examples_text(interaction_views(examples@))));
    }
    join(&parts, SEPARATOR)
}

// ---------------------------------------------------------------------------
// Laws
// ---------------------------------------------------------------------------

/// The question about a prompt ends with the prompt. It says that the bot must
/// answer exactly where the bot was addressed; else it asks whether the bot
/// should chime in.
pub proof fn questions_end_with_the_prompt(prompt: Seq<char>, is_explicit: bool)
    ensures
        ({
            let question = classification_question(prompt, is_explicit);
            &&& question.len() > prompt.len()
            &&& question.skip(question.len() - prompt.len()) == prompt
            &&& is_explicit ==> begins_with(
                question,
                "SYSTEM: The user explicitly addressed you, so you MUST respond."@,
            )
            &&& !is_explicit ==> begins_with(
                question,
                "SYSTEM: Analyze this group chat message context."@,
            )
        }),
{
    let question = classification_question(prompt, is_explicit);
    reveal_strlit("SYSTEM: The user explicitly addressed you, so you MUST respond. Do NOT output IGNORE. Categorize intent normally as FLASH, SEARCH, PRO, or IMAGE. User prompt: ");
    reveal_strlit("SYSTEM: Analyze this group chat message context. If it is appropriate for you to chime in unprompted to be helpful or funny, categorize the intent normally as FLASH, SEARCH, PRO, or IMAGE. Otherwise, reply IGNORE. User prompt: ");
    reveal_strlit("SYSTEM: The user explicitly addressed you, so you MUST respond.");
    reveal_strlit("SYSTEM: Analyze this group chat message context.");
    assert(question.skip(question.len() - prompt.len()) =~= prompt);
    if is_explicit {
        let start = "SYSTEM: The user explicitly addressed you, so you MUST respond."@;
        assert(question.subrange(0, start.len() as int) =~= start);
    } else {
        let start = "SYSTEM: Analyze this group chat message context."@;
        assert(question.subrange(0, start.len() as int) =~= start);
    }
}

/// A short answer is asked for by naming the length, unless the prompt needs
/// thought; then none is named.
pub proof fn lengths_are_named_for_casual_answers(intent: Seq<char>, target_len: usize, other: usize)
    ensures
        intent != "PRO"@ ==> has_text(
            format_text(intent, target_len),
            " "@ + decimal(target_len as nat) + " characters"@,
        ),
        intent == "PRO"@ ==> format_text(intent, target_len) == format_text(intent, other),
{
    if intent != "PRO"@ {
        reveal_strlit("FORMATTING INSTRUCTION: For casual conversation, aim to respond with exactly one paragraph of around ");
        reveal_strlit(" characters. You may use subsequent paragraphs if necessary, but do so with reluctance, as each paragraph is a separate push notification. IMPORTANT: If the user explicitly asks for a long-form response (like an essay or detailed explanation), you may completely ignore this length limit and write as much as needed.");
        reveal_strlit(" ");
        reveal_strlit(" characters");
        let start = CASUAL_FORMAT_START@;
        let end = CASUAL_FORMAT_END@;
        let head = start.take(start.len() - 1);
        let tail = end.skip(11);
        let middle = " "@ + decimal(target_len as nat) + " characters"@;
        assert(start =~= head + " "@);
        assert(end =~= " characters"@ + tail);
        text_is_found_where_it_stands(head, middle, tail);
        assert(head + middle + tail =~= format_text(intent, target_len));
    }
}

/// What is said of a person names the person first and then all that the
/// profile knows, each under its label.
pub proof fn profiles_are_told_in_full(profile: UserProfileView, display_name: Seq<char>, i: int)
    ensures
        ({
            let text = profile_text(profile, display_name);
            &&& begins_with(text, "User Profile for "@ + display_name + ":\n"@)
            &&& profile.name matches Some(name) ==> has_text(text, "Name: "@ + name + "\n"@)
            &&& profile.nickname matches Some(name) ==> has_text(
                text,
                "Nickname: "@ + name + "\n"@,
            )
            &&& has_text(text, "Personality: "@ + profile.personality_summary + "\n"@)
            &&& has_text(text, "Style: "@ + profile.interaction_style + "\n"@)
            &&& 0 <= i < profile.topics_of_interest.len() ==> has_text(
                text,
                profile.topics_of_interest[i],
            )
        }),
{
    let text = profile_text(profile, display_name);
    let a = "User Profile for "@ + display_name + ":\n"@;
    let b = opt_line("Name: "@, profile.name);
    let c = opt_line("Nickname: "@, profile.nickname);
    let d = line("Personality: "@, profile.personality_summary);
    let e = line("Style: "@, profile.interaction_style);
    let f = list_line("Interests: "@, profile.topics_of_interest);
    let none = Seq::<char>::empty();
    let l1 = seq![a];
    let l2 = l1.push(b);
    let l3 = l2.push(c);
    let l4 = l3.push(d);
    let l5 = l4.push(e);
    let l6 = l5.push(f);
    let l7 = l6.push(PROFILE_END@);
    lemma_one_behind(l1, b);
    lemma_one_behind(l2, c);
    lemma_one_behind(l3, d);
    lemma_one_behind(l4, e);
    lemma_one_behind(l5, f);
    lemma_one_behind(l6, PROFILE_END@);
    assert(text == joined(l7, none));
    joined_text_holds_its_parts(l7, none, 1);
    joined_text_holds_its_parts(l7, none, 2);
    joined_text_holds_its_parts(l7, none, 3);
    joined_text_holds_its_parts(l7, none, 4);
    joined_text_holds_its_parts(l7, none, 5);
    if 0 <= i < profile.topics_of_interest.len() {
        lemma_listed("Interests: "@, profile.topics_of_interest, text, i);
    }
}

proof fn lemma_one_behind(parts: Seq<Seq<char>>, part: Seq<char>)
    requires
        parts.len() > 0,
    ensures
        joined(parts.push(part), Seq::empty()) == joined(parts, Seq::empty()) + part,
        parts.len() == 1 ==> joined(parts, Seq::empty()) == parts[0],
{
    let none = Seq::<char>::empty();
    assert(parts.push(part).drop_last() =~= parts);
    assert(joined(parts, none) + none =~= joined(parts, none));
}

proof fn lemma_listed(label: Seq<char>, items: Seq<Seq<char>>, text: Seq<char>, i: int)
    requires
        0 <= i < items.len(),
        has_text(text, list_line(label, items)),
    ensures
        has_text(text, items[i]),
{
    let told = list_line(label, items);
    joined_text_holds_its_parts(items, ", "@, i);
    text_stays_found(joined(items, ", "@), items[i], label, "\n"@);
    found_text_can_be_cut_out(text, told);
    let (a, b) = choose|a: Seq<char>, b: Seq<char>| text == #[trigger] (a + told + b);
    text_stays_found(told, items[i], a, b);
}

/// What is said of a group names the group first and then all that the profile
/// knows.
pub proof fn group_profiles_are_told_in_full(group: GroupProfileView, i: int)
    ensures
        ({
            let text = group_text(group);
            &&& group.group_name matches Some(name) ==> begins_with(
                text,
                "Group Chat Profile for "@ + name + ":\n"@,
            )
            &&& group.group_name is None ==> begins_with(
                text,
                "Group Chat Profile for this group:\n"@,
            )
            &&& has_text(text, "Vibe: "@ + group.group_vibe + "\n"@)
            &&& 0 <= i < group.inside_jokes.len() ==> has_text(text, group.inside_jokes[i])
            &&& 0 <= i < group.common_topics.len() ==> has_text(text, group.common_topics[i])
            &&& 0 <= i < group.important_memories.len() ==> has_text(
                text,
                group.important_memories[i],
            )
        }),
{
    let text = group_text(group);
    let name = text_or(group.group_name, "this group"@);
    let a = "Group Chat Profile for "@ + name + ":\n"@;
    let b = line("Vibe: "@, group.group_vibe);
    let c = list_line("Inside Jokes/Memes: "@, group.inside_jokes);
    let d = list_line("Common Topics: "@, group.common_topics);
    let e = list_line("Important Memories: "@, group.important_memories);
    let none = Seq::<char>::empty();
    let l1 = seq![a];
    let l2 = l1.push(b);
    let l3 = l2.push(c);
    let l4 = l3.push(d);
    let l5 = l4.push(e);
    let l6 = l5.push(GROUP_PROFILE_END@);
    lemma_one_behind(l1, b);
    lemma_one_behind(l2, c);
    lemma_one_behind(l3, d);
    lemma_one_behind(l4, e);
    lemma_one_behind(l5, GROUP_PROFILE_END@);
    assert(text == joined(l6, none));
    joined_text_holds_its_parts(l6, none, 1);
    joined_text_holds_its_parts(l6, none, 2);
    joined_text_holds_its_parts(l6, none, 3);
    joined_text_holds_its_parts(l6, none, 4);
    if group.group_name is None {
        assert(a =~= "Group Chat Profile for this group:\n"@) by {
            reveal_strlit("Group Chat Profile for ");
            reveal_strlit("this group");
            reveal_strlit(":\n");
            reveal_strlit("Group Chat Profile for this group:\n");
        }
    }
    if 0 <= i < group.inside_jokes.len() {
        lemma_listed("Inside Jokes/Memes: "@, group.inside_jokes, text, i);
    }
    if 0 <= i < group.common_topics.len() {
        lemma_listed("Common Topics: "@, group.common_topics, text, i);
    }
    if 0 <= i < group.important_memories.len() {
        lemma_listed("Important Memories: "@, group.important_memories, text, i);
    }
}

/// Every example is told with its prompt and, behind it, the answer.
pub proof fn examples_are_told_in_full(examples: Seq<InteractionView>, i: int)
    requires
        0 <= i < examples.len(),
    ensures
        has_text(
            examples_text(examples),
            "User: "@ + examples[i].prompt + "\nYou: "@ + examples[i].response + "\n"@,
        ),
    decreases examples.len(),
{
    let front = examples.drop_last();
    let before = examples_text(front);
    let told = "User: "@ + examples[i].prompt + "\nYou: "@ + examples[i].response + "\n"@;
    if i == examples.len() - 1 {
        reveal_strlit("\n---\n");
        reveal_strlit("\n");
        let tail = "\n---\n"@.skip(1);
        assert("\n---\n"@ =~= "\n"@ + tail);
        text_is_found_where_it_stands(before, told, tail);
        assert(before + told + tail =~= examples_text(examples));
    } else {
        examples_are_told_in_full(front, i);
        assert(front[i] == examples[i]);
        text_stays_found(before, told, Seq::empty(), example_text(examples.last()));
        assert(Seq::<char>::empty() + before + example_text(examples.last()) =~= examples_text(
            examples,
        ));
    }
}

/// What a model is told begins with the character of the bot and says how long
/// the answer should be. Of the person, of the group and of earlier answers it
/// tells what is known, and nothing where nothing is known.
pub proof fn models_are_told_what_is_known(
    system_prompt: Seq<char>,
    intent: Seq<char>,
    target_len: usize,
    person: Option<(UserProfileView, Seq<char>)>,
    group: Option<GroupProfileView>,
    examples: Seq<InteractionView>,
    i: int,
)
    ensures
        ({
            let told = joined(
                instructions(system_prompt, intent, target_len, person, group, examples),
                SEPARATOR@,
            );
            &&& begins_with(told, system_prompt)
            &&& has_text(told, format_text(intent, target_len))
            &&& person matches Some((profile, name)) ==> has_text(told, profile_text(profile, name))
            &&& group matches Some(known) ==> has_text(told, group_text(known))
            &&& 0 <= i < examples.len() ==> has_text(
                told,
                "User: "@ + examples[i].prompt + "\nYou: "@ + examples[i].response + "\n"@,
            )
            &&& person is None && group is None && examples.len() == 0 ==> told == system_prompt
                + SEPARATOR@ + format_text(intent, target_len)
        }),
{
    let parts = instructions(system_prompt, intent, target_len, person, group, examples);
    let told = joined(parts, SEPARATOR@);
    joined_text_holds_its_parts(parts, SEPARATOR@, 0);
    joined_text_holds_its_parts(parts, SEPARATOR@, 1);
    let p: int = if person is Some {
        1
    } else {
        0
    };
    let g: int = if group is Some {
        1
    } else {
        0
    };
    if person is Some {
        joined_text_holds_its_parts(parts, SEPARATOR@, 2);
    }
    if group is Some {
        joined_text_holds_its_parts(parts, SEPARATOR@, 2 + p);
    }
    if 0 <= i < examples.len() {
        let k = 2 + p + g;
        joined_text_holds_its_parts(parts, SEPARATOR@, k);
        assert(parts[k] == examples_text(examples));
        examples_are_told_in_full(examples, i);
        found_text_can_be_cut_out(told, examples_text(examples));
        let (a, b) = choose|a: Seq<char>, b: Seq<char>|
            told == #[trigger] (a + examples_text(examples) + b);
        text_stays_found(
            examples_text(examples),
            "User: "@ + examples[i].prompt + "\nYou: "@ + examples[i].response + "\n"@,
            a,
            b,
        );
    }
    if person is None && group is None && examples.len() == 0 {
        reveal_with_fuel(joined, 2);
        assert(parts.drop_last() =~= Seq::empty().push(system_prompt));
    }
}

} // verus!
