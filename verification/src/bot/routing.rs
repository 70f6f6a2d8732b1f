//! What a message amounts to: who wrote it, where, to whom, and where the
//! answer goes.
use vstd::prelude::*;

use crate::bot::{sanitize_display_name, sanitized};
use crate::signal::{
    opt_quote_view, opt_seq, or_else, source_of, time_of, DataMessage, DataMessageView, Envelope,
    Mention, Quote, QuoteView, Reaction,
};
use crate::state_manager::{ContextRequest, ContextRequestView};
use crate::text::{
    begins_with, chars_of, contains_text, has_text, is_text, is_white_space, lowercase, matches_at,
    opt_view, same_text, to_lowercase, trim, trim_start_chars, trimmed, trimmed_start, white_space,
};

verus! {

/// A prompt and where it belongs.
#[derive(Debug)]
pub struct Incoming {
    pub reply_address: String,
    pub group_id: Option<String>,
    pub context_key: String,
    /// The text as it enters the history of the conversation.
    pub history_text: String,
    pub request: ContextRequest,
}

/// What a prompt says and where it belongs.
#[verifier::ext_equal]
pub struct IncomingView {
    pub reply_address: Seq<char>,
    pub group_id: Option<Seq<char>>,
    pub context_key: Seq<char>,
    pub history_text: Seq<char>,
    pub request: ContextRequestView,
}

impl View for Incoming {
    type V = IncomingView;

    open spec fn view(&self) -> IncomingView {
        IncomingView {
            reply_address: self.reply_address@,
            group_id: opt_view(self.group_id),
            context_key: self.context_key@,
            history_text: self.history_text@,
            request: self.request@,
        }
    }
}

/// The text in an option, or another one.
pub open spec fn text_or(a: Option<Seq<char>>, b: Seq<char>) -> Seq<char> {
    match a {
        Some(s) => s,
        None => b,
    }
}

// ---------------------------------------------------------------------------
// People and places
// ---------------------------------------------------------------------------

/// Whether another device of the bot's own account sent the message.
pub open spec fn is_sync(e: Envelope) -> bool {
    e.sync_message is Some
}

/// To whom the receipt goes that a message was read, and for which time.
pub open spec fn receipt_of(e: Envelope) -> Option<(Seq<char>, u64)> {
    if !is_sync(e) && time_of(e) > 0 {
        Some(
            (
                text_or(
                    or_else(opt_view(e.source_uuid), opt_view(e.source_number)),
                    source_of(e),
                ),
                time_of(e),
            ),
        )
    } else {
        None
    }
}

/// The group of a message.
pub open spec fn group_of(d: DataMessageView) -> Option<Seq<char>> {
    match d.group_info {
        Some(g) => Some(g.group_id@),
        None => None,
    }
}

/// Where the answer goes: back to the sender, or, for a message of another
/// device, to whom that one wrote.
pub open spec fn reply_address_of(e: Envelope, d: DataMessageView, bot_number: Seq<char>) -> Seq<
    char,
> {
    if is_sync(e) {
        text_or(
            or_else(
                group_of(d),
                or_else(d.destination_uuid, or_else(d.destination_number, d.destination)),
            ),
            bot_number,
        )
    } else {
        text_or(opt_view(e.source_uuid), source_of(e))
    }
}

/// The conversation of a message: its group, else the other side.
pub open spec fn context_key_of(e: Envelope, d: DataMessageView) -> Seq<char> {
    match group_of(d) {
        Some(gid) => gid,
        None => if is_sync(e) {
            text_or(d.destination, source_of(e))
        } else {
            source_of(e)
        },
    }
}

/// The name of the sender.
pub open spec fn name_of(e: Envelope) -> Seq<char> {
    text_or(or_else(opt_view(e.source_name), opt_view(e.source_number)), source_of(e))
}

/// The text of a message as it enters the history: in a group, its sender
/// stands before it in quotes.
pub open spec fn history_text_of(e: Envelope, d: DataMessageView, text: Seq<char>) -> Seq<char> {
    if d.group_info is Some {
        "\""@ + sanitized(name_of(e)) + "\": "@ + text
    } else {
        text
    }
}

/// By what the sender is known.
pub open spec fn user_id_of(e: Envelope) -> Seq<char> {
    text_or(opt_view(e.source_number), source_of(e))
}

/// Under what the profile of a person is kept: a profile belongs to one group,
/// or to no group.
pub open spec fn profile_key_for(group: Option<Seq<char>>, user_id: Seq<char>) -> Seq<char> {
    match group {
        Some(gid) => gid + ":"@ + user_id,
        None => user_id,
    }
}

/// The profiles of a person in two groups, and the one outside of groups, are
/// three different ones.
pub proof fn profiles_are_kept_apart(group_a: Seq<char>, group_b: Seq<char>, user_id: Seq<char>)
    requires
        group_a != group_b,
    ensures
        profile_key_for(Some(group_a), user_id) != profile_key_for(Some(group_b), user_id),
        profile_key_for(Some(group_a), user_id) != profile_key_for(None, user_id),
{
    reveal_strlit(":");
    let a = profile_key_for(Some(group_a), user_id);
    let b = profile_key_for(Some(group_b), user_id);
    if a == b {
        assert(a.len() == group_a.len() + 1 + user_id.len());
        assert(b.len() == group_b.len() + 1 + user_id.len());
        assert(a.take(group_a.len() as int) =~= group_a);
        assert(b.take(group_b.len() as int) =~= group_b);
    }
}

// ---------------------------------------------------------------------------
// Whether the bot is addressed
// ---------------------------------------------------------------------------

/// Whether a text replies to a message of the bot.
pub open spec fn quotes_bot(quote: Option<QuoteView>, bot_number: Seq<char>) -> bool {
    match quote {
        Some(q) => q.author == Some(bot_number) || q.author_number == Some(bot_number)
            || q.author_uuid == Some(bot_number),
        None => false,
    }
}

/// Whether a character may stand right after the name of whom a text addresses.
pub open spec fn ends_a_name(c: char) -> bool {
    is_white_space(c) || c == ':' || c == ',' || c == ';' || c == '-'
}

/// Whether a text in lower case begins by addressing the bot: with an at sign
/// and its name, or with its name as a word.
pub open spec fn addresses(lower: Seq<char>, lower_name: Seq<char>) -> bool {
    let t = trimmed_start(lower);
    ||| begins_with(t, "@"@ + lower_name)
    ||| begins_with(t, lower_name) && (t.len() == lower_name.len() || ends_a_name(
        t[lower_name.len() as int],
    ))
}

/// Decides whether a text in lower case begins by addressing the bot.
pub fn is_addressed(lower: &str, lower_name: &str) -> (r: bool)
    ensures
        r == addresses(lower@, lower_name@),
{
    let all = chars_of(lower);
    let t = trim_start_chars(all.as_slice());
    let name = chars_of(lower_name);
    let mut at_name = "@".to_string();
    at_name.append(lower_name);
    let at = chars_of(at_name.as_str());
    if matches_at(t.as_slice(), at.as_slice(), 0) {
        return true;
    }
    if !matches_at(t.as_slice(), name.as_slice(), 0) {
        return false;
    }
    if t.len() == name.len() {
        return true;
    }
    let c = t[name.len()];
    white_space(c) || c == ':' || c == ',' || c == ';' || c == '-'
}

/// Whether a person who is mentioned is the bot.
pub open spec fn is_bot(m: Mention, bot_number: Seq<char>, lower_name: Seq<char>) -> bool {
    opt_view(m.number) == Some(bot_number) || has_text(
        lowercase(text_or(opt_view(m.name), ""@)),
        lower_name,
    )
}

/// Whether one of the people who are mentioned is the bot.
pub open spec fn has_bot(list: Seq<Mention>, bot_number: Seq<char>, lower_name: Seq<char>) -> bool {
    exists|i: int| 0 <= i < list.len() && #[trigger] is_bot(list[i], bot_number, lower_name)
}

/// Whether a message mentions the bot.
pub open spec fn mentions_bot(
    mentions: Option<Seq<Mention>>,
    bot_number: Seq<char>,
    lower_name: Seq<char>,
) -> bool {
    match mentions {
        Some(list) => has_bot(list, bot_number, lower_name),
        None => false,
    }
}

/// Whether a message is meant for the bot: outside of groups, as a reply to
/// it, by its name at the start, or by a mention.
pub open spec fn is_explicit(
    d: DataMessageView,
    text: Seq<char>,
    bot_number: Seq<char>,
    bot_name: Seq<char>,
) -> bool {
    ||| d.group_info is None
    ||| quotes_bot(d.quote, bot_number)
    ||| addresses(lowercase(trimmed(text)), lowercase(bot_name))
    ||| mentions_bot(d.mentions, bot_number, lowercase(bot_name))
}

/// Outside of groups every message is meant for the bot.
pub proof fn direct_messages_are_explicit(
    d: DataMessageView,
    text: Seq<char>,
    bot_number: Seq<char>,
    bot_name: Seq<char>,
)
    requires
        group_of(d) is None,
    ensures
        is_explicit(d, text, bot_number, bot_name),
{
}

fn mentions_the_bot(mentions: &Option<Vec<Mention>>, bot_number: &str, lower_name: &str) -> (r:
    bool)
    ensures
        r == mentions_bot(opt_seq(*mentions), bot_number@, lower_name@),
{
    let list = match mentions {
        Some(list) => list,
        None => {
            return false;
        },
    };
    let mut i: usize = 0;
    while i < list.len()
        invariant
            i <= list@.len(),
            opt_seq(*mentions) == Some(list@),
            forall|j: int|
                0 <= j < i ==> !#[trigger] is_bot(list@[j], bot_number@, lower_name@),
        decreases list@.len() - i,
    {
        let m = &list[i];
        let name = match &m.name {
            Some(name) => to_lowercase(name.as_str()),
            None => to_lowercase(""),
        };
        if is_text(&m.number, bot_number) || contains_text(name.as_str(), lower_name) {
            assert(is_bot(list@[i as int], bot_number@, lower_name@));
            return true;
        }
        i += 1;
    }
    false
}

fn quotes_the_bot(quote: &Option<Quote>, bot_number: &str) -> (r: bool)
    ensures
        r == quotes_bot(opt_quote_view(*quote), bot_number@),
{
    match quote {
        Some(q) => is_text(&q.author, bot_number) || is_text(&q.author_number, bot_number)
            || is_text(&q.author_uuid, bot_number),
        None => false,
    }
}

// ---------------------------------------------------------------------------
// The prompt
// ---------------------------------------------------------------------------

/// The prompt of a text: where it replies to somebody else than the bot, that
/// is said first.
pub open spec fn prompt_of(
    quote: Option<QuoteView>,
    text: Seq<char>,
    bot_number: Seq<char>,
    user_id: Seq<char>,
) -> Seq<char> {
    match quote {
        Some(q) => {
            let author = text_or(
                or_else(q.author, or_else(q.author_number, q.author_uuid)),
                ""@,
            );
            if author.len() > 0 && author != bot_number {
                "(Replying to quote from "@ + (if author == user_id {
                    "themselves"@
                } else {
                    author
                }) + "): "@ + text
            } else {
                text
            }
        },
        None => text,
    }
}

fn first_text<'a>(a: &'a Option<String>, b: &'a Option<String>, c: &'a Option<String>) -> (r:
    Option<&'a String>)
    ensures
        (match r {
            Some(s) => Some(s@),
            None => None,
        }) == or_else(opt_view(*a), or_else(opt_view(*b), opt_view(*c))),
{
    if let Some(s) = a {
        return Some(s);
    }
    if let Some(s) = b {
        return Some(s);
    }
    match c {
        Some(s) => Some(s),
        None => None,
    }
}

fn prompt_text(quote: &Option<Quote>, text: &str, bot_number: &str, user_id: &str) -> (r: String)
    ensures
        r@ == prompt_of(opt_quote_view(*quote), text@, bot_number@, user_id@),
{
    proof {
        reveal_strlit("");
    }
    if let Some(q) = quote {
        if let Some(author) = first_text(&q.author, &q.author_number, &q.author_uuid) {
            let author = author.as_str();
            if author.unicode_len() > 0 && !same_text(author, bot_number) {
                let mut out = "(Replying to quote from ".to_string();
                if same_text(author, user_id) {
                    out.append("themselves");
                } else {
                    out.append(author);
                }
                out.append("): ");
                out.append(text);
                return out;
            }
        }
    }
    text.to_string()
}

/// What a message with the given text amounts to.
pub open spec fn incoming_of(
    e: Envelope,
    d: DataMessageView,
    text: Seq<char>,
    bot_number: Seq<char>,
    bot_name: Seq<char>,
) -> IncomingView {
    IncomingView {
        reply_address: reply_address_of(e, d, bot_number),
        group_id: group_of(d),
        context_key: context_key_of(e, d),
        history_text: history_text_of(e, d, text),
        request: ContextRequestView {
            prompt: prompt_of(d.quote, text, bot_number, user_id_of(e)),
            timestamp: time_of(e),
            profile_key: profile_key_for(group_of(d), user_id_of(e)),
            source_name: Some(name_of(e)),
            is_explicit_interaction: is_explicit(d, text, bot_number, bot_name),
        },
    }
}

fn or_text(a: &Option<String>, b: &str) -> (r: String)
    ensures
        r@ == text_or(opt_view(*a), b@),
{
    match a {
        Some(s) => s.clone(),
        None => b.to_string(),
    }
}

/// Finds out to whom the receipt of a message goes.
pub fn receipt(e: &Envelope) -> (r: Option<(String, u64)>)
    ensures
        (match r {
            Some(p) => Some((p.0@, p.1)),
            None => None,
        }) == receipt_of(*e),
{
    let timestamp = e.effective_timestamp();
    if e.sync_message.is_none() && timestamp > 0 {
        let source = e.effective_source();
        let recipient = match &e.source_uuid {
            Some(uuid) => uuid.clone(),
            None => or_text(&e.source_number, source.as_str()),
        };
        Some((recipient, timestamp))
    } else {
        None
    }
}

/// Finds out what a message with the given text amounts to.
pub fn incoming(
    e: &Envelope,
    data: &DataMessage,
    text: &str,
    bot_number: &str,
    bot_name: &str,
) -> (r: Incoming)
    ensures
        r@ == incoming_of(*e, data@, text@, bot_number@, bot_name@),
{
    let source = e.effective_source();
    let sync = e.sync_message.is_some();
    let group_id = match &data.group_info {
        Some(g) => Some(g.group_id.clone()),
        None => None,
    };
    let reply_address = if sync {
        match &group_id {
            Some(gid) => gid.clone(),
            None => match first_text(
                &data.destination_uuid,
                &data.destination_number,
                &data.destination,
            ) {
                Some(destination) => destination.clone(),
                None => bot_number.to_string(),
            },
        }
    } else {
        or_text(&e.source_uuid, source.as_str())
    };
    let context_key = match &group_id {
        Some(gid) => gid.clone(),
        None => if sync {
            or_text(&data.destination, source.as_str())
        } else {
            source.clone()
        },
    };
    let name = match &e.source_name {
        Some(name) => name.clone(),
        None => or_text(&e.source_number, source.as_str()),
    };
    let history_text = if group_id.is_some() {
        let mut out = "\"".to_string();
        out.append(sanitize_display_name(name.as_str()).as_str());
        out.append("\": ");
        out.append(text);
        out
    } else {
        text.to_string()
    };
    let lower = to_lowercase(trim(text).as_str());
    let lower_name = to_lowercase(bot_name);
    let is_explicit_interaction = group_id.is_none() || quotes_the_bot(&data.quote, bot_number)
        || is_addressed(lower.as_str(), lower_name.as_str()) || mentions_the_bot(
        &data.mentions,
        bot_number,
        lower_name.as_str(),
    );
    let user_id = or_text(&e.source_number, source.as_str());
    let profile_key = match &group_id {
        Some(gid) => {
            let mut out = gid.as_str().to_string();
            out.append(":");
            out.append(user_id.as_str());
            out
        },
        None => user_id.clone(),
    };
    let prompt = prompt_text(&data.quote, text, bot_number, user_id.as_str());
    Incoming {
        reply_address,
        group_id,
        context_key,
        history_text,
        request: ContextRequest {
            prompt,
            timestamp: e.effective_timestamp(),
            profile_key,
            source_name: Some(name),
            is_explicit_interaction,
        },
    }
}

// ---------------------------------------------------------------------------
// Reactions
// ---------------------------------------------------------------------------

/// The time of the message of the bot that a reaction is put on.
pub open spec fn reacted_to(reaction: Reaction, bot_number: Seq<char>) -> Option<u64> {
    let author = text_or(
        or_else(
            opt_view(reaction.target_author),
            or_else(
                opt_view(reaction.target_author_number),
                opt_view(reaction.target_author_uuid),
            ),
        ),
        ""@,
    );
    if author == bot_number {
        reaction.target_sent_timestamp
    } else {
        None
    }
}

/// Finds the message of the bot that a reaction is put on.
pub fn reaction_target(reaction: &Reaction, bot_number: &str) -> (r: Option<u64>)
    ensures
        r == reacted_to(*reaction, bot_number@),
{
    let author = match first_text(
        &reaction.target_author,
        &reaction.target_author_number,
        &reaction.target_author_uuid,
    ) {
        Some(author) => author.as_str(),
        None => "",
    };
    if same_text(author, bot_number) {
        reaction.target_sent_timestamp
    } else {
        None
    }
}

// ---------------------------------------------------------------------------
// Laws
// ---------------------------------------------------------------------------

/// Whether an author field of a quote names the bot.
pub open spec fn author_is(quote: QuoteView, number: Seq<char>) -> bool {
    ||| quote.author matches Some(a) && a == number
    ||| quote.author_number matches Some(a) && a == number
    ||| quote.author_uuid matches Some(a) && a == number
}

/// A message in a group that does not begin by addressing the bot and mentions
/// nobody is meant for the bot exactly where it quotes a message of the bot.
pub proof fn quotes_decide_in_groups(
    d: DataMessageView,
    text: Seq<char>,
    bot_number: Seq<char>,
    bot_name: Seq<char>,
)
    requires
        d.group_info is Some,
        !addresses(lowercase(trimmed(text)), lowercase(bot_name)),
        d.mentions is None,
    ensures
        d.quote is None ==> !is_explicit(d, text, bot_number, bot_name),
        d.quote matches Some(q) ==> (is_explicit(d, text, bot_number, bot_name) <==> author_is(
            q,
            bot_number,
        )),
{
}

/// A message in a group that quotes the bot, addresses it or mentions it is
/// meant for it, whatever else is in the message.
pub proof fn addressing_the_bot_is_enough(
    d: DataMessageView,
    text: Seq<char>,
    bot_number: Seq<char>,
    bot_name: Seq<char>,
)
    ensures
        d.quote matches Some(q) && author_is(q, bot_number) ==> is_explicit(
            d,
            text,
            bot_number,
            bot_name,
        ),
        addresses(lowercase(trimmed(text)), lowercase(bot_name)) ==> is_explicit(
            d,
            text,
            bot_number,
            bot_name,
        ),
        d.mentions matches Some(list) && (exists|i: int|
            0 <= i < list.len() && opt_view((#[trigger] list[i]).number) == Some(bot_number))
            ==> is_explicit(d, text, bot_number, bot_name),
{
    if let Some(list) = d.mentions {
        if exists|i: int|
            0 <= i < list.len() && opt_view((#[trigger] list[i]).number) == Some(bot_number) {
            let i = choose|i: int|
                0 <= i < list.len() && opt_view((#[trigger] list[i]).number) == Some(bot_number);
            assert(is_bot(list[i], bot_number, lowercase(bot_name)));
        }
    }
}

/// A message in a group that neither quotes nor addresses the bot is meant for
/// it exactly where somebody who is mentioned has the bot's number, or has a
/// name with that of the bot in it, in letters of either case.
pub proof fn mentions_decide_in_groups(
    d: DataMessageView,
    text: Seq<char>,
    bot_number: Seq<char>,
    bot_name: Seq<char>,
    list: Seq<Mention>,
)
    requires
        d.group_info is Some,
        d.quote is None,
        !addresses(lowercase(trimmed(text)), lowercase(bot_name)),
        d.mentions == Some(list),
    ensures
        is_explicit(d, text, bot_number, bot_name) <==> exists|i: int|
            0 <= i < list.len() && {
                ||| opt_view((#[trigger] list[i]).number) == Some(bot_number)
                ||| list[i].name is Some && has_text(
                    lowercase(list[i].name->0@),
                    lowercase(bot_name),
                )
                ||| list[i].name is None && has_text(lowercase(""@), lowercase(bot_name))
            },
{
    let lower = lowercase(bot_name);
    if is_explicit(d, text, bot_number, bot_name) {
        let i = choose|i: int| 0 <= i < list.len() && #[trigger] is_bot(list[i], bot_number, lower);
        assert(list[i] == list[i]);
    }
    if exists|i: int|
        0 <= i < list.len() && {
            ||| opt_view((#[trigger] list[i]).number) == Some(bot_number)
            ||| list[i].name is Some && has_text(lowercase(list[i].name->0@), lowercase(bot_name))
            ||| list[i].name is None && has_text(lowercase(""@), lowercase(bot_name))
        } {
        let i = choose|i: int|
            0 <= i < list.len() && {
                ||| opt_view((#[trigger] list[i]).number) == Some(bot_number)
                ||| list[i].name is Some && has_text(
                    lowercase(list[i].name->0@),
                    lowercase(bot_name),
                )
                ||| list[i].name is None && has_text(lowercase(""@), lowercase(bot_name))
            };
        assert(is_bot(list[i], bot_number, lower));
    }
}

proof fn lemma_starts(name: Seq<char>)
    requires
        name.len() == 0 || !is_white_space(name[0]),
    ensures
        trimmed_start(name) == name,
{
}

/// A text addresses the bot where an at sign and its name stand at the start,
/// whatever follows, and where its name alone stands there.
pub proof fn a_name_at_the_start_addresses(name: Seq<char>, rest: Seq<char>)
    requires
        name.len() > 0,
        !is_white_space(name[0]),
    ensures
        addresses("@"@ + name + rest, name),
        addresses(name, name),
{
    reveal_strlit("@");
    let at = "@"@ + name;
    lemma_starts(at + rest);
    lemma_starts(name);
    crate::text::text_is_found_where_it_stands(Seq::empty(), at, rest);
    crate::text::text_is_found_where_it_stands(Seq::empty(), name, Seq::empty());
    assert(name + Seq::<char>::empty() =~= name);
}

/// A text that begins with the name of the bot addresses it exactly where the
/// next character is white space or one of `:`, `,`, `;` and `-`; as the
/// beginning of a longer word the name addresses nobody.
pub proof fn a_name_addresses_as_a_word(name: Seq<char>, next: char, rest: Seq<char>)
    requires
        name.len() > 0,
        !is_white_space(name[0]),
        name[0] != '@',
    ensures
        addresses(name.push(next) + rest, name) <==> is_white_space(next) || next == ':' || next
            == ',' || next == ';' || next == '-',
{
    reveal_strlit("@");
    let text = name.push(next) + rest;
    lemma_starts(text);
    crate::text::text_is_found_where_it_stands(Seq::empty(), name, seq![next] + rest);
    assert(name + (seq![next] + rest) =~= text);
    assert(text[name.len() as int] == next);
    let at = "@"@ + name;
    if begins_with(text, at) {
        assert(text.subrange(0, at.len() as int)[0] == text[0]);
        assert(at[0] == '@');
    }
}

/// A text that begins neither with the name of the bot nor with an at sign and
/// the name does not address it, and white space at the start does not matter.
pub proof fn other_starts_address_nobody(lower: Seq<char>, name: Seq<char>, space: char)
    requires
        is_white_space(space),
    ensures
        addresses(seq![space] + lower, name) == addresses(lower, name),
        lower.len() > 0 && !is_white_space(lower[0]) && name.len() > 0 && lower[0] != name[0]
            && lower[0] != '@' ==> !addresses(lower, name),
{
    reveal_strlit("@");
    let spaced = seq![space] + lower;
    assert(spaced.drop_first() =~= lower);
    if lower.len() > 0 && !is_white_space(lower[0]) && name.len() > 0 && lower[0] != name[0]
        && lower[0] != '@' {
        lemma_starts(lower);
        let at = "@"@ + name;
        if begins_with(lower, at) {
            assert(lower.subrange(0, at.len() as int)[0] == lower[0]);
            assert(at[0] == '@');
        }
        if begins_with(lower, name) {
            assert(lower.subrange(0, name.len() as int)[0] == lower[0]);
        }
    }
}

/// A message in a group belongs to the conversation of that group, whoever
/// wrote it and from which device; in the history its sender stands before it
/// in quotes, and the profile is the one of the sender in that group.
pub proof fn a_group_message_belongs_to_its_group(
    e: Envelope,
    d: DataMessageView,
    text: Seq<char>,
    bot_number: Seq<char>,
    bot_name: Seq<char>,
)
    requires
        d.group_info is Some,
    ensures
        ({
            let incoming = incoming_of(e, d, text, bot_number, bot_name);
            let group = d.group_info->0.group_id@;
            &&& incoming.context_key == group
            &&& incoming.group_id == Some(group)
            &&& incoming.history_text.len() >= text.len()
            &&& incoming.history_text.skip(incoming.history_text.len() - text.len()) == text
            &&& begins_with(
                incoming.history_text,
                "\""@ + sanitized(incoming.request.source_name->0) + "\": "@,
            )
            &&& incoming.history_text.len() == sanitized(incoming.request.source_name->0).len() + 4
                + text.len()
            &&& begins_with(incoming.request.profile_key, group)
            &&& incoming.request.profile_key.len() > group.len()
        }),
{
    reveal_strlit("\"");
    reveal_strlit("\": ");
    reveal_strlit(":");
    let group = d.group_info->0.group_id@;
    let incoming = incoming_of(e, d, text, bot_number, bot_name);
    let start = "\""@ + sanitized(name_of(e)) + "\": "@;
    assert(incoming.history_text == start + text);
    assert(incoming.history_text.skip(incoming.history_text.len() - text.len()) =~= text);
    crate::text::text_is_found_where_it_stands(Seq::empty(), start, text);
    assert(incoming.request.profile_key =~= group + (":"@ + user_id_of(e)));
    crate::text::text_is_found_where_it_stands(Seq::empty(), group, ":"@ + user_id_of(e));
}

/// A message outside of groups belongs to the conversation with its sender, is
/// meant for the bot, enters the history as it is, and is answered to the
/// sender.
pub proof fn a_direct_message_belongs_to_its_sender(
    e: Envelope,
    d: DataMessageView,
    text: Seq<char>,
    bot_number: Seq<char>,
    bot_name: Seq<char>,
    sender: Seq<char>,
)
    requires
        d.group_info is None,
        e.sync_message is None,
        opt_view(e.source) == Some(sender),
    ensures
        ({
            let incoming = incoming_of(e, d, text, bot_number, bot_name);
            &&& incoming.context_key == sender
            &&& incoming.group_id is None
            &&& incoming.history_text == text
            &&& incoming.request.is_explicit_interaction
            &&& opt_view(e.source_uuid) matches Some(uuid) ==> incoming.reply_address == uuid
            &&& e.source_uuid is None ==> incoming.reply_address == sender
            &&& opt_view(e.source_number) matches Some(number) ==> incoming.request.profile_key
                == number
            &&& e.source_number is None ==> incoming.request.profile_key == sender
        }),
{
}

/// What another device of the bot's account wrote is answered where that device
/// wrote to: to the group, else to the other side, else to the account itself.
pub proof fn a_message_of_another_device_is_answered_where_it_went(
    e: Envelope,
    d: DataMessageView,
    text: Seq<char>,
    bot_number: Seq<char>,
    bot_name: Seq<char>,
)
    requires
        e.sync_message is Some,
    ensures
        ({
            let address = incoming_of(e, d, text, bot_number, bot_name).reply_address;
            if d.group_info is Some {
                address == d.group_info->0.group_id@
            } else if d.destination_uuid is Some {
                address == d.destination_uuid->0
            } else if d.destination_number is Some {
                address == d.destination_number->0
            } else if d.destination is Some {
                address == d.destination->0
            } else {
                address == bot_number
            }
        }),
        d.group_info is None && d.destination is Some ==> incoming_of(
            e,
            d,
            text,
            bot_number,
            bot_name,
        ).context_key == d.destination->0,
{
}

/// What somebody else wrote, in a group or outside, is answered to that person.
pub proof fn answers_go_back_to_the_sender(
    e: Envelope,
    d: DataMessageView,
    text: Seq<char>,
    bot_number: Seq<char>,
    bot_name: Seq<char>,
)
    requires
        e.sync_message is None,
    ensures
        opt_view(e.source_uuid) matches Some(uuid) ==> incoming_of(
            e,
            d,
            text,
            bot_number,
            bot_name,
        ).reply_address == uuid,
        e.source_uuid is None && e.source is Some ==> incoming_of(
            e,
            d,
            text,
            bot_number,
            bot_name,
        ).reply_address == e.source->0@,
{
}

/// A prompt carries the time of its message and the name of its sender: the
/// display name, else the number, else the source.
pub proof fn prompts_name_their_sender(
    e: Envelope,
    d: DataMessageView,
    text: Seq<char>,
    bot_number: Seq<char>,
    bot_name: Seq<char>,
)
    ensures
        ({
            let request = incoming_of(e, d, text, bot_number, bot_name).request;
            &&& opt_view(e.source_name) matches Some(name) ==> request.source_name == Some(name)
            &&& e.source_name is None && e.source_number is Some ==> request.source_name == Some(
                e.source_number->0@,
            )
            &&& e.source_name is None && e.source_number is None && e.source is Some
                ==> request.source_name == Some(e.source->0@)
            &&& e.timestamp matches Some(t) ==> request.timestamp == t
        }),
{
}

/// The prompt ends with the text of the message. It is nothing more where
/// nobody or the bot is quoted; where somebody else is, it begins by saying so
/// and names that author, or says that they quote themselves.
pub proof fn prompts_say_who_is_quoted(
    quote: Option<QuoteView>,
    text: Seq<char>,
    bot_number: Seq<char>,
    user_id: Seq<char>,
    author: Seq<char>,
)
    requires
        quote matches Some(q) ==> q.author == Some(author) || (q.author is None && q.author_number
            == Some(author)) || (q.author is None && q.author_number is None && q.author_uuid
            == Some(author)),
        author.len() > 0,
    ensures
        ({
            let prompt = prompt_of(quote, text, bot_number, user_id);
            &&& prompt.len() >= text.len()
            &&& prompt.skip(prompt.len() - text.len()) == text
            &&& quote is None || author == bot_number ==> prompt == text
            &&& quote is Some && author != bot_number ==> prompt.len() > text.len() && begins_with(
                prompt,
                "(Replying to quote from "@ + (if author == user_id {
                    "themselves"@
                } else {
                    author
                }) + ")"@,
            )
        }),
{
    let prompt = prompt_of(quote, text, bot_number, user_id);
    if quote is Some && author != bot_number {
        reveal_strlit("): ");
        reveal_strlit(")");
        let who = if author == user_id {
            "themselves"@
        } else {
            author
        };
        let start = "(Replying to quote from "@ + who + ")"@;
        assert("): "@ =~= ")"@ + "): "@.skip(1));
        assert(prompt =~= start + ("): "@.skip(1) + text));
        crate::text::text_is_found_where_it_stands(Seq::empty(), start, "): "@.skip(1) + text);
        assert(prompt.skip(prompt.len() - text.len()) =~= text);
    } else {
        assert(prompt.skip(0) =~= text);
    }
}

/// A quote of which no author is known says nothing in the prompt.
pub proof fn quotes_of_nobody_say_nothing(
    quote: QuoteView,
    text: Seq<char>,
    bot_number: Seq<char>,
    user_id: Seq<char>,
)
    requires
        quote.author is None,
        quote.author_number is None,
        quote.author_uuid is None,
    ensures
        prompt_of(Some(quote), text, bot_number, user_id) == text,
{
    reveal_strlit("");
}

/// A receipt goes to the sender of a message from outside that has a time, and
/// names that time. What another device of the account wrote gets none.
pub proof fn receipts_go_to_the_sender(e: Envelope)
    ensures
        e.sync_message is Some ==> receipt_of(e) is None,
        e.sync_message is None && e.timestamp == Some(0u64) ==> receipt_of(e) is None,
        e.sync_message is None && e.timestamp is Some && e.timestamp->0 > 0 ==> (receipt_of(
            e,
        ) matches Some((to, time)) && time == e.timestamp->0 && (opt_view(e.source_uuid) matches Some(
            uuid,
        ) ==> to == uuid) && (e.source_uuid is None && e.source_number is Some ==> to
            == e.source_number->0@) && (e.source_uuid is None && e.source_number is None
            && e.source is Some ==> to == e.source->0@)),
{
}

/// A reaction is one to a message of the bot exactly where the first of the
/// fields that name an author names the bot; then it is to the message with the
/// time that it names.
pub proof fn reactions_name_their_message(reaction: Reaction, bot_number: Seq<char>)
    requires
        bot_number.len() > 0,
    ensures
        opt_view(reaction.target_author) == Some(bot_number) ==> reacted_to(reaction, bot_number)
            == reaction.target_sent_timestamp,
        reaction.target_author is Some && reaction.target_author->0@ != bot_number ==> reacted_to(
            reaction,
            bot_number,
        ) is None,
        reaction.target_author is None && opt_view(reaction.target_author_number) == Some(
            bot_number,
        ) ==> reacted_to(reaction, bot_number) == reaction.target_sent_timestamp,
        reaction.target_author is None && reaction.target_author_number is None && opt_view(
            reaction.target_author_uuid,
        ) == Some(bot_number) ==> reacted_to(reaction, bot_number)
            == reaction.target_sent_timestamp,
        opt_view(reaction.target_author) != Some(bot_number) && opt_view(
            reaction.target_author_number,
        ) != Some(bot_number) && opt_view(reaction.target_author_uuid) != Some(bot_number)
            ==> reacted_to(reaction, bot_number) is None,
{
    reveal_strlit("");
}

} // verus!
