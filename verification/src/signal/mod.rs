//! Messages from and to Signal.
use vstd::prelude::*;

use crate::text::opt_view;

pub mod rpc;

verus! {

/// A notification of the Signal process.
#[derive(Debug)]
pub struct JsonRpcNotification {
    pub jsonrpc: Option<String>,
    pub method: String,
    pub params: SignalMessage,
}

/// What a notification carries.
#[derive(Debug)]
pub struct SignalMessage {
    pub account: Option<String>,
    pub envelope: Option<Envelope>,
}

/// A message with its sender.
#[derive(Debug)]
pub struct Envelope {
    pub source: Option<String>,
    pub source_number: Option<String>,
    pub source_uuid: Option<String>,
    pub timestamp: Option<u64>,
    pub source_name: Option<String>,
    pub source_device: Option<u32>,
    pub data_message: Option<DataMessage>,
    pub edit_message: Option<EditMessage>,
    pub sync_message: Option<SyncMessage>,
    pub receipt_message: Option<ReceiptMessage>,
    /// As JSON text.
    pub typing_message: Option<String>,
}

/// A correction of an earlier message.
#[derive(Debug)]
pub struct EditMessage {
    pub target_sent_timestamp: Option<u64>,
    pub data_message: Option<DataMessage>,
}

/// What another device of the same account did.
#[derive(Debug)]
pub struct SyncMessage {
    pub sent_message: Option<SyncDataMessage>,
    /// Each as JSON text.
    pub read_messages: Option<Vec<String>>,
}

/// A message that another device of the same account sent.
#[derive(Debug)]
pub struct SyncDataMessage {
    pub destination: Option<String>,
    pub destination_number: Option<String>,
    pub destination_uuid: Option<String>,
    pub data_message: Option<DataMessage>,
    pub edit_message: Option<EditMessage>,
    // The fields of the data message where it does not stand on its own.
    pub message: Option<String>,
    pub timestamp: Option<u64>,
    pub group_info: Option<GroupInfo>,
    pub quote: Option<Quote>,
    pub reaction: Option<Reaction>,
    pub mentions: Option<Vec<Mention>>,
}

/// A receipt.
#[derive(Debug)]
pub struct ReceiptMessage {
    pub when: Option<u64>,
    pub is_delivery: Option<bool>,
    pub is_read: Option<bool>,
    pub is_viewed: Option<bool>,
    pub timestamps: Option<Vec<u64>>,
}

/// A text or a reaction.
#[derive(Debug)]
pub struct DataMessage {
    pub message: Option<String>,
    pub timestamp: Option<u64>,
    pub destination: Option<String>,
    pub destination_number: Option<String>,
    pub destination_uuid: Option<String>,
    pub expires_in_seconds: Option<u32>,
    pub view_once: Option<bool>,
    pub group_info: Option<GroupInfo>,
    pub quote: Option<Quote>,
    pub reaction: Option<Reaction>,
    pub mentions: Option<Vec<Mention>>,
    /// Each as JSON text.
    pub attachments: Option<Vec<String>>,
}

/// A person who is mentioned in a text.
#[derive(Debug)]
pub struct Mention {
    pub name: Option<String>,
    pub number: Option<String>,
    pub uuid: Option<String>,
    pub start: Option<usize>,
    pub length: Option<usize>,
}

/// An emoji put on a message.
#[derive(Debug)]
pub struct Reaction {
    pub emoji: Option<String>,
    pub target_author: Option<String>,
    pub target_author_number: Option<String>,
    pub target_author_uuid: Option<String>,
    pub target_sent_timestamp: Option<u64>,
    pub is_remove: bool,
}

/// The message that a text replies to.
#[derive(Debug)]
pub struct Quote {
    pub id: Option<u64>,
    pub author: Option<String>,
    pub author_number: Option<String>,
    pub author_uuid: Option<String>,
    pub text: Option<String>,
    pub mentions: Option<Vec<Mention>>,
    /// Each as JSON text.
    pub attachments: Option<Vec<String>>,
}

/// The group that a message belongs to.
#[derive(Debug)]
pub struct GroupInfo {
    pub group_id: String,
    pub group_name: Option<String>,
    pub revision: Option<i32>,
    pub group_type: Option<String>,
}

// ---------------------------------------------------------------------------
// Views and copies
// ---------------------------------------------------------------------------

/// The elements of an optional list.
pub open spec fn opt_seq<T>(o: Option<Vec<T>>) -> Option<Seq<T>> {
    match o {
        Some(v) => Some(v@),
        None => None,
    }
}

/// What a quote says.
#[verifier::ext_equal]
pub struct QuoteView {
    pub id: Option<u64>,
    pub author: Option<Seq<char>>,
    pub author_number: Option<Seq<char>>,
    pub author_uuid: Option<Seq<char>>,
    pub text: Option<Seq<char>>,
    pub mentions: Option<Seq<Mention>>,
    pub attachments: Option<Seq<String>>,
}

impl View for Quote {
    type V = QuoteView;

    open spec fn view(&self) -> QuoteView {
        QuoteView {
            id: self.id,
            author: opt_view(self.author),
            author_number: opt_view(self.author_number),
            author_uuid: opt_view(self.author_uuid),
            text: opt_view(self.text),
            mentions: opt_seq(self.mentions),
            attachments: opt_seq(self.attachments),
        }
    }
}

/// What an optional quote says.
pub open spec fn opt_quote_view(o: Option<Quote>) -> Option<QuoteView> {
    match o {
        Some(q) => Some(q@),
        None => None,
    }
}

/// What a data message says.
#[verifier::ext_equal]
pub struct DataMessageView {
    pub message: Option<Seq<char>>,
    pub timestamp: Option<u64>,
    pub destination: Option<Seq<char>>,
    pub destination_number: Option<Seq<char>>,
    pub destination_uuid: Option<Seq<char>>,
    pub expires_in_seconds: Option<u32>,
    pub view_once: Option<bool>,
    pub group_info: Option<GroupInfo>,
    pub quote: Option<QuoteView>,
    pub reaction: Option<Reaction>,
    pub mentions: Option<Seq<Mention>>,
    pub attachments: Option<Seq<String>>,
}

impl View for DataMessage {
    type V = DataMessageView;

    open spec fn view(&self) -> DataMessageView {
        DataMessageView {
            message: opt_view(self.message),
            timestamp: self.timestamp,
            destination: opt_view(self.destination),
            destination_number: opt_view(self.destination_number),
            destination_uuid: opt_view(self.destination_uuid),
            expires_in_seconds: self.expires_in_seconds,
            view_once: self.view_once,
            group_info: self.group_info,
            quote: opt_quote_view(self.quote),
            reaction: self.reaction,
            mentions: opt_seq(self.mentions),
            attachments: opt_seq(self.attachments),
        }
    }
}

impl Clone for Mention {
    fn clone(&self) -> (r: Self)
        ensures
            r == *self,
    {
        Mention {
            name: self.name.clone(),
            number: self.number.clone(),
            uuid: self.uuid.clone(),
            start: self.start,
            length: self.length,
        }
    }
}

impl Clone for Reaction {
    fn clone(&self) -> (r: Self)
        ensures
            r == *self,
    {
        Reaction {
            emoji: self.emoji.clone(),
            target_author: self.target_author.clone(),
            target_author_number: self.target_author_number.clone(),
            target_author_uuid: self.target_author_uuid.clone(),
            target_sent_timestamp: self.target_sent_timestamp,
            is_remove: self.is_remove,
        }
    }
}

impl Clone for GroupInfo {
    fn clone(&self) -> (r: Self)
        ensures
            r == *self,
    {
        GroupInfo {
            group_id: self.group_id.clone(),
            group_name: self.group_name.clone(),
            revision: self.revision,
            group_type: self.group_type.clone(),
        }
    }
}

fn clone_mentions(o: &Option<Vec<Mention>>) -> (r: Option<Vec<Mention>>)
    ensures
        opt_seq(r) == opt_seq(*o),
{
    match o {
        Some(v) => {
            let w = v.clone();
            assert(w@ =~= v@);
            Some(w)
        },
        None => None,
    }
}

fn clone_texts(o: &Option<Vec<String>>) -> (r: Option<Vec<String>>)
    ensures
        opt_seq(r) == opt_seq(*o),
{
    match o {
        Some(v) => {
            let w = v.clone();
            assert(w@ =~= v@);
            Some(w)
        },
        None => None,
    }
}

fn clone_quote(o: &Option<Quote>) -> (r: Option<Quote>)
    ensures
        opt_quote_view(r) == opt_quote_view(*o),
{
    match o {
        Some(q) => Some(q.clone()),
        None => None,
    }
}

impl Clone for Quote {
    fn clone(&self) -> (r: Self)
        ensures
            r@ == self@,
    {
        Quote {
            id: self.id,
            author: self.author.clone(),
            author_number: self.author_number.clone(),
            author_uuid: self.author_uuid.clone(),
            text: self.text.clone(),
            mentions: clone_mentions(&self.mentions),
            attachments: clone_texts(&self.attachments),
        }
    }
}

impl Clone for DataMessage {
    fn clone(&self) -> (r: Self)
        ensures
            r@ == self@,
    {
        DataMessage {
            message: self.message.clone(),
            timestamp: self.timestamp,
            destination: self.destination.clone(),
            destination_number: self.destination_number.clone(),
            destination_uuid: self.destination_uuid.clone(),
            expires_in_seconds: self.expires_in_seconds,
            view_once: self.view_once,
            group_info: self.group_info.clone(),
            quote: clone_quote(&self.quote),
            reaction: self.reaction.clone(),
            mentions: clone_mentions(&self.mentions),
            attachments: clone_texts(&self.attachments),
        }
    }
}

// ---------------------------------------------------------------------------
// What an envelope amounts to
// ---------------------------------------------------------------------------

/// The first of two options that holds something.
pub open spec fn or_else<T>(a: Option<T>, b: Option<T>) -> Option<T> {
    if a is Some {
        a
    } else {
        b
    }
}

/// The sender of an envelope.
pub open spec fn source_of(e: Envelope) -> Seq<char> {
    match or_else(
        opt_view(e.source),
        or_else(opt_view(e.source_number), opt_view(e.source_uuid)),
    ) {
        Some(s) => s,
        None => "unknown"@,
    }
}

/// The time of the data message in an optional data message.
pub open spec fn data_time(d: Option<DataMessage>) -> Option<u64> {
    match d {
        Some(d) => d.timestamp,
        None => None,
    }
}

/// The message that another device sent, if the envelope tells of one.
pub open spec fn sent_of(e: Envelope) -> Option<SyncDataMessage> {
    match e.sync_message {
        Some(s) => s.sent_message,
        None => None,
    }
}

/// The data message of a correction.
pub open spec fn edited_of(e: Option<EditMessage>) -> Option<DataMessage> {
    match e {
        Some(e) => e.data_message,
        None => None,
    }
}

/// The time of an envelope, or zero where none is given.
pub open spec fn time_of(e: Envelope) -> u64 {
    let sent_time = match sent_of(e) {
        Some(sm) => or_else(data_time(sm.data_message), sm.timestamp),
        None => None,
    };
    match or_else(
        e.timestamp,
        or_else(data_time(e.data_message), or_else(data_time(edited_of(e.edit_message)), sent_time)),
    ) {
        Some(t) => t,
        None => 0,
    }
}

/// A data message with the destination of the sent message that it belongs to
/// wherever it names none itself.
pub open spec fn with_destination(d: DataMessageView, sm: SyncDataMessage) -> DataMessageView {
    DataMessageView {
        destination: or_else(d.destination, opt_view(sm.destination)),
        destination_number: or_else(d.destination_number, opt_view(sm.destination_number)),
        destination_uuid: or_else(d.destination_uuid, opt_view(sm.destination_uuid)),
        ..d
    }
}

/// The data message of a sent message whose fields do not stand on their own.
pub open spec fn flattened(sm: SyncDataMessage) -> DataMessageView {
    DataMessageView {
        message: opt_view(sm.message),
        timestamp: sm.timestamp,
        destination: opt_view(sm.destination),
        destination_number: opt_view(sm.destination_number),
        destination_uuid: opt_view(sm.destination_uuid),
        expires_in_seconds: None,
        view_once: None,
        group_info: sm.group_info,
        quote: opt_quote_view(sm.quote),
        reaction: sm.reaction,
        mentions: opt_seq(sm.mentions),
        attachments: None,
    }
}

/// The data message of a message that another device sent.
pub open spec fn sent_data(sm: SyncDataMessage) -> Option<DataMessageView> {
    if sm.data_message is Some {
        Some(with_destination(sm.data_message->0@, sm))
    } else if sm.edit_message is Some {
        match edited_of(sm.edit_message) {
            Some(d) => Some(with_destination(d@, sm)),
            None => None,
        }
    } else if sm.message is Some || sm.reaction is Some {
        Some(flattened(sm))
    } else {
        None
    }
}

/// The data message of an envelope: its own, else that of its correction, else
/// that of the message another device sent.
pub open spec fn data_of(e: Envelope) -> Option<DataMessageView> {
    if e.data_message is Some {
        Some(e.data_message->0@)
    } else if edited_of(e.edit_message) is Some {
        Some(edited_of(e.edit_message)->0@)
    } else {
        match sent_of(e) {
            Some(sm) => sent_data(sm),
            None => None,
        }
    }
}

/// What an optional data message says.
pub open spec fn opt_data_view(o: Option<DataMessage>) -> Option<DataMessageView> {
    match o {
        Some(d) => Some(d@),
        None => None,
    }
}

fn first_of(a: Option<u64>, b: Option<u64>) -> (r: Option<u64>)
    ensures
        r == or_else(a, b),
{
    if a.is_some() {
        a
    } else {
        b
    }
}

fn time_in(d: &Option<DataMessage>) -> (r: Option<u64>)
    ensures
        r == data_time(*d),
{
    match d {
        Some(d) => d.timestamp,
        None => None,
    }
}

impl SyncDataMessage {
    /// A copy of a data message, with the destination of this sent message
    /// wherever the data message names none.
    fn addressed(&self, d: &DataMessage) -> (r: DataMessage)
        ensures
            r@ == with_destination(d@, *self),
    {
        let mut copy = d.clone();
        if copy.destination.is_none() {
            copy.destination = self.destination.clone();
        }
        if copy.destination_number.is_none() {
            copy.destination_number = self.destination_number.clone();
        }
        if copy.destination_uuid.is_none() {
            copy.destination_uuid = self.destination_uuid.clone();
        }
        copy
    }

    /// The data message of this sent message.
    fn data(&self) -> (r: Option<DataMessage>)
        ensures
            opt_data_view(r) == sent_data(*self),
    {
        if let Some(d) = &self.data_message {
            return Some(self.addressed(d));
        }
        if let Some(e) = &self.edit_message {
            return match &e.data_message {
                Some(d) => Some(self.addressed(d)),
                None => None,
            };
        }
        if self.message.is_some() || self.reaction.is_some() {
            return Some(
                DataMessage {
                    message: self.message.clone(),
                    timestamp: self.timestamp,
                    destination: self.destination.clone(),
                    destination_number: self.destination_number.clone(),
                    destination_uuid: self.destination_uuid.clone(),
                    expires_in_seconds: None,
                    view_once: None,
                    group_info: self.group_info.clone(),
                    quote: clone_quote(&self.quote),
                    reaction: self.reaction.clone(),
                    mentions: clone_mentions(&self.mentions),
                    attachments: None,
                },
            );
        }
        None
    }
}

impl Envelope {
    /// The sender: the source, else its number, else its identifier.
    pub fn effective_source(&self) -> (r: String)
        ensures
            r@ == source_of(*self),
    {
        if let Some(s) = &self.source {
            return s.clone();
        }
        if let Some(s) = &self.source_number {
            return s.clone();
        }
        if let Some(s) = &self.source_uuid {
            return s.clone();
        }
        "unknown".to_string()
    }

    /// The time: that of the envelope, else that of the message in it.
    pub fn effective_timestamp(&self) -> (r: u64)
        ensures
            r == time_of(*self),
    {
        let edited = match &self.edit_message {
            Some(e) => time_in(&e.data_message),
            None => None,
        };
        let sent = match &self.sync_message {
            Some(s) => match &s.sent_message {
                Some(sm) => first_of(time_in(&sm.data_message), sm.timestamp),
                None => None,
            },
            None => None,
        };
        let found = first_of(
            self.timestamp,
            first_of(time_in(&self.data_message), first_of(edited, sent)),
        );
        match found {
            Some(t) => t,
            None => 0,
        }
    }

    /// The data message, wherever in the envelope it stands.
    pub fn effective_data_message(&self) -> (r: Option<DataMessage>)
        ensures
            opt_data_view(r) == data_of(*self),
    {
        if let Some(d) = &self.data_message {
            return Some(d.clone());
        }
        if let Some(e) = &self.edit_message {
            if let Some(d) = &e.data_message {
                return Some(d.clone());
            }
        }
        match &self.sync_message {
            Some(s) => match &s.sent_message {
                Some(sm) => sm.data(),
                None => None,
            },
            None => None,
        }
    }
}

// ---------------------------------------------------------------------------
// Laws
// ---------------------------------------------------------------------------

/// The sender is the source where one is given, else the number, else the
/// identifier; without any of them it is unknown.
pub proof fn senders_are_named_in_order(e: Envelope)
    ensures
        e.source is Some ==> source_of(e) == e.source->0@,
        e.source is None && e.source_number is Some ==> source_of(e) == e.source_number->0@,
        e.source is None && e.source_number is None && e.source_uuid is Some ==> source_of(e)
            == e.source_uuid->0@,
        e.source is None && e.source_number is None && e.source_uuid is None ==> source_of(e)
            == "unknown"@,
{
}

/// The time of an envelope is its own, else that of its message, of its
/// correction, or of the message that another device sent; without any of them
/// it is zero.
pub proof fn times_are_found_in_order(e: Envelope)
    ensures
        e.timestamp is Some ==> time_of(e) == e.timestamp->0,
        e.timestamp is None && e.data_message is Some && e.data_message->0.timestamp is Some
            ==> time_of(e) == e.data_message->0.timestamp->0,
        e.timestamp is None && e.data_message is None && e.edit_message is Some
            && e.edit_message->0.data_message is Some
            && e.edit_message->0.data_message->0.timestamp is Some ==> time_of(e)
            == e.edit_message->0.data_message->0.timestamp->0,
        e.timestamp is None && e.data_message is None && e.edit_message is None
            && e.sync_message is Some && e.sync_message->0.sent_message is Some && ({
            let sent = e.sync_message->0.sent_message->0;
            sent.data_message is None && sent.timestamp is Some
        }) ==> time_of(e) == e.sync_message->0.sent_message->0.timestamp->0,
        e.timestamp is None && e.data_message is None && e.edit_message is None
            && e.sync_message is Some && e.sync_message->0.sent_message is Some && ({
            let sent = e.sync_message->0.sent_message->0;
            sent.data_message is Some && sent.data_message->0.timestamp is Some
        }) ==> time_of(e) == e.sync_message->0.sent_message->0.data_message->0.timestamp->0,
        e.timestamp is None && e.data_message is None && e.edit_message is None
            && e.sync_message is None ==> time_of(e) == 0,
{
}

/// The message in an envelope is handed on unchanged, be it new or a correction;
/// a new one comes first.
pub proof fn messages_are_found_where_they_stand(e: Envelope)
    ensures
        e.data_message matches Some(d) ==> data_of(e) == Some(d@),
        e.data_message is None && e.edit_message is Some && e.edit_message->0.data_message is Some
            ==> data_of(e) == Some(e.edit_message->0.data_message->0@),
        e.data_message is None && e.edit_message is None && e.sync_message is None ==> data_of(
            e,
        ) is None,
        e.data_message is None && e.edit_message is None && e.sync_message is Some
            && e.sync_message->0.sent_message is None ==> data_of(e) is None,
{
}

/// A message that another device sent is handed on with all that it says, be it
/// new, a correction, or without a message of its own. Where it does not name
/// its destination itself, the destination is that of the sending; what it names
/// stays.
pub proof fn sent_messages_keep_what_they_say(e: Envelope, sent: SyncDataMessage)
    requires
        e.data_message is None,
        e.edit_message is None,
        e.sync_message is Some,
        e.sync_message->0.sent_message == Some(sent),
    ensures
        sent.data_message matches Some(inner) ==> (data_of(e) matches Some(d) && says_the_same(
            d,
            inner@,
        ) && is_sent_to(d, inner@, sent)),
        sent.data_message is None && sent.edit_message is Some
            && sent.edit_message->0.data_message is Some ==> (data_of(e) matches Some(d)
            && says_the_same(d, sent.edit_message->0.data_message->0@) && is_sent_to(
            d,
            sent.edit_message->0.data_message->0@,
            sent,
        )),
        sent.data_message is None && sent.edit_message is Some
            && sent.edit_message->0.data_message is None ==> data_of(e) is None,
        sent.data_message is None && sent.edit_message is None && (sent.message is Some
            || sent.reaction is Some) ==> (data_of(e) matches Some(d) && d.message == opt_view(
            sent.message,
        ) && d.timestamp == sent.timestamp && d.group_info == sent.group_info && d.quote
            == opt_quote_view(sent.quote) && d.reaction == sent.reaction && d.mentions == opt_seq(
            sent.mentions,
        ) && d.destination == opt_view(sent.destination) && d.destination_number == opt_view(
            sent.destination_number,
        ) && d.destination_uuid == opt_view(sent.destination_uuid)),
        sent.data_message is None && sent.edit_message is None && sent.message is None
            && sent.reaction is None ==> data_of(e) is None,
{
}

/// Whether two messages say the same, wherever they go.
pub open spec fn says_the_same(a: DataMessageView, b: DataMessageView) -> bool {
    &&& a.message == b.message
    &&& a.timestamp == b.timestamp
    &&& a.expires_in_seconds == b.expires_in_seconds
    &&& a.view_once == b.view_once
    &&& a.group_info == b.group_info
    &&& a.quote == b.quote
    &&& a.reaction == b.reaction
    &&& a.mentions == b.mentions
    &&& a.attachments == b.attachments
}

/// Whether a message goes where it says itself, and else where it was sent to.
pub open spec fn is_sent_to(d: DataMessageView, own: DataMessageView, sent: SyncDataMessage) -> bool {
    &&& own.destination is Some ==> d.destination == own.destination
    &&& own.destination is None ==> d.destination == opt_view(sent.destination)
    &&& own.destination_number is Some ==> d.destination_number == own.destination_number
    &&& own.destination_number is None ==> d.destination_number == opt_view(
        sent.destination_number,
    )
    &&& own.destination_uuid is Some ==> d.destination_uuid == own.destination_uuid
    &&& own.destination_uuid is None ==> d.destination_uuid == opt_view(sent.destination_uuid)
}

} // verus!
