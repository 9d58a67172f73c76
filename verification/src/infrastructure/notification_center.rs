//! Fan-out of change events to subscribers, filtered by interest.
//!
//! The daemon owns the registry of listeners and is driven one command at a
//! time. Whoever drives it waits on the queues and performs the sends; what
//! is decided here is who gets an event, who is swept out of the registry and
//! what a subscriber is handed per wake-up.

use crate::domain::db_id::DbId;
use crate::infrastructure::errors::NotificationCenterError;
use crate::text::{
    chars_of, count_of, lemma_number_text_chars, lemma_split_append_field,
    lemma_split_append_nothing, lemma_split_shape, parse_i32_chars, same_text, spec_parse_i32,
    split, split_chars, texts_of,
};
use tokio::sync::mpsc::{Receiver, Sender};
use vstd::prelude::*;

verus! {

/// Sending half of a bounded tokio channel; opaque to the verifier.
#[verifier::external_type_specification]
#[verifier::external_body]
#[verifier::reject_recursive_types(T)]
pub struct ExSender<T>(Sender<T>);

/// Receiving half of a bounded tokio channel; opaque to the verifier.
#[verifier::external_type_specification]
#[verifier::external_body]
#[verifier::reject_recursive_types(T)]
pub struct ExReceiver<T>(Receiver<T>);

/// Channel on which the database announces new posts.
pub const POST_CHANNEL: &'static str = "post_notification";

/// Channel on which the database announces new comments.
pub const COMMENT_CHANNEL: &'static str = "comment_notification";

/// Separator between the numbers of a payload.
pub const FIELD_SEPARATOR: char = ':';

/// How many events a subscriber's channel holds, and the most that one
/// wake-up hands over.
pub const LISTENER_CAPACITY: usize = 16;

/// How many commands may wait for the daemon.
pub const COMMAND_CAPACITY: usize = 32;

/// How many raw database messages may wait for the bridge.
pub const BRIDGE_CAPACITY: usize = 64;

/// Seconds between two maintenance passes.
pub const MAINTENANCE_PERIOD_SECS: u64 = 10;

/// A post was created.
#[derive(Debug, Clone, Copy, PartialEq, Eq, Structural)]
pub struct PostNotification {
    pub author_id: DbId,
    pub post_id: DbId,
}

/// A comment was created under a post.
#[derive(Debug, Clone, Copy, PartialEq, Eq, Structural)]
pub struct CommentNotification {
    pub author_id: DbId,
    pub post_id: DbId,
    pub comment_id: DbId,
}

/// A change event.
#[derive(Debug, Clone, Copy, PartialEq, Eq, Structural)]
pub enum Notification {
    Post(PostNotification),
    Comment(CommentNotification),
}

/// What a subscriber is interested in.
#[derive(Debug, Clone, Copy, PartialEq, Eq, Structural)]
pub enum ListenerTopic {
    /// Everything that the given user writes.
    User(DbId),
    /// Everything that happens to the given post.
    Post(DbId),
}

impl PostNotification {
    /// What a payload of the post channel stands for: `<post_id>:<author_id>`,
    /// two signed decimal numbers and nothing else.
    pub open spec fn spec_parse(payload: Seq<char>) -> Result<
        PostNotification,
        NotificationCenterError,
    > {
        let parts = split(payload, FIELD_SEPARATOR);
        if parts.len() != 2 {
            Err(NotificationCenterError::ParsingFailed)
        } else {
            match (spec_parse_i32(parts[0]), spec_parse_i32(parts[1])) {
                (Ok(post_id), Ok(author_id)) => Ok(
                    PostNotification { author_id: DbId(author_id), post_id: DbId(post_id) },
                ),
                _ => Err(NotificationCenterError::ParsingFailed),
            }
        }
    }
}

impl TryFrom<&str> for PostNotification {
    type Error = NotificationCenterError;

    fn try_from(value: &str) -> (parsed: Result<Self, Self::Error>) {
        let chars: Vec<char> = chars_of(value);
        let parts: Vec<Vec<char>> = split_chars(&chars, FIELD_SEPARATOR);
        if parts.len() != 2 {
            return Err(NotificationCenterError::ParsingFailed);
        }
        assert(texts_of(parts@)[0] == parts@[0]@ && texts_of(parts@)[1] == parts@[1]@);
        let post_id: i32 = match parse_i32_chars(&parts[0]) {
            Ok(number) => number,
            Err(_) => {
                return Err(NotificationCenterError::ParsingFailed);
            },
        };
        let author_id: i32 = match parse_i32_chars(&parts[1]) {
            Ok(number) => number,
            Err(_) => {
                return Err(NotificationCenterError::ParsingFailed);
            },
        };
        Ok(PostNotification { author_id: DbId(author_id), post_id: DbId(post_id) })
    }
}

impl vstd::std_specs::convert::TryFromSpecImpl<&str> for PostNotification {
    open spec fn obeys_try_from_spec() -> bool {
        true
    }

    open spec fn try_from_spec(value: &str) -> Result<Self, Self::Error> {
        PostNotification::spec_parse(value@)
    }
}

impl CommentNotification {
    /// What a payload of the comment channel stands for:
    /// `<comment_id>:<post_id>:<author_id>`, three signed decimal numbers and
    /// nothing else.
    pub open spec fn spec_parse(payload: Seq<char>) -> Result<
        CommentNotification,
        NotificationCenterError,
    > {
        let parts = split(payload, FIELD_SEPARATOR);
        if parts.len() != 3 {
            Err(NotificationCenterError::ParsingFailed)
        } else {
            match (spec_parse_i32(parts[0]), spec_parse_i32(parts[1]), spec_parse_i32(parts[2])) {
                (Ok(comment_id), Ok(post_id), Ok(author_id)) => Ok(
                    CommentNotification {
                        author_id: DbId(author_id),
                        post_id: DbId(post_id),
                        comment_id: DbId(comment_id),
                    },
                ),
                _ => Err(NotificationCenterError::ParsingFailed),
            }
        }
    }
}

impl TryFrom<&str> for CommentNotification {
    type Error = NotificationCenterError;

    fn try_from(value: &str) -> (parsed: Result<Self, Self::Error>) {
        let chars: Vec<char> = chars_of(value);
        let parts: Vec<Vec<char>> = split_chars(&chars, FIELD_SEPARATOR);
        if parts.len() != 3 {
            return Err(NotificationCenterError::ParsingFailed);
        }
        assert(texts_of(parts@)[0] == parts@[0]@ && texts_of(parts@)[1] == parts@[1]@);
        assert(texts_of(parts@)[2] == parts@[2]@);
        let comment_id: i32 = match parse_i32_chars(&parts[0]) {
            Ok(number) => number,
            Err(_) => {
                return Err(NotificationCenterError::ParsingFailed);
            },
        };
        let post_id: i32 = match parse_i32_chars(&parts[1]) {
            Ok(number) => number,
            Err(_) => {
                return Err(NotificationCenterError::ParsingFailed);
            },
        };
        let author_id: i32 = match parse_i32_chars(&parts[2]) {
            Ok(number) => number,
            Err(_) => {
                return Err(NotificationCenterError::ParsingFailed);
            },
        };
        Ok(
            CommentNotification {
                author_id: DbId(author_id),
                post_id: DbId(post_id),
                comment_id: DbId(comment_id),
            },
        )
    }
}

impl vstd::std_specs::convert::TryFromSpecImpl<&str> for CommentNotification {
    open spec fn obeys_try_from_spec() -> bool {
        true
    }

    open spec fn try_from_spec(value: &str) -> Result<Self, Self::Error> {
        CommentNotification::spec_parse(value@)
    }
}

impl Notification {
    /// The user who caused the event.
    pub open spec fn spec_author_id(self) -> DbId {
        match self {
            Notification::Post(post) => post.author_id,
            Notification::Comment(comment) => comment.author_id,
        }
    }

    /// The post that the event is about.
    pub open spec fn spec_post_id(self) -> DbId {
        match self {
            Notification::Post(post) => post.post_id,
            Notification::Comment(comment) => comment.post_id,
        }
    }

    /// What a raw database notification stands for: the channel picks the
    /// payload form, and any other channel is a failure.
    pub open spec fn spec_from_raw(channel: Seq<char>, payload: Seq<char>) -> Result<
        Notification,
        NotificationCenterError,
    > {
        if channel == POST_CHANNEL@ {
            match PostNotification::spec_parse(payload) {
                Ok(post) => Ok(Notification::Post(post)),
                Err(e) => Err(e),
            }
        } else if channel == COMMENT_CHANNEL@ {
            match CommentNotification::spec_parse(payload) {
                Ok(comment) => Ok(Notification::Comment(comment)),
                Err(e) => Err(e),
            }
        } else {
            Err(NotificationCenterError::ParsingFailed)
        }
    }

    /// The user who caused the event.
    pub fn author_id(&self) -> (id: DbId)
        ensures
            id == self.spec_author_id(),
    {
        match self {
            Notification::Post(post) => post.author_id,
            Notification::Comment(comment) => comment.author_id,
        }
    }

    /// The post that the event is about.
    pub fn post_id(&self) -> (id: DbId)
        ensures
            id == self.spec_post_id(),
    {
        match self {
            Notification::Post(post) => post.post_id,
            Notification::Comment(comment) => comment.post_id,
        }
    }

    /// Decodes a raw database notification, given by its channel name and
    /// its payload.
    pub fn from_raw(channel: &str, payload: &str) -> (parsed: Result<
        Notification,
        NotificationCenterError,
    >)
        ensures
            parsed == Notification::spec_from_raw(channel@, payload@),
    {
        if same_text(channel, POST_CHANNEL) {
            match PostNotification::try_from(payload) {
                Ok(post) => Ok(Notification::Post(post)),
                Err(e) => Err(e),
            }
        } else if same_text(channel, COMMENT_CHANNEL) {
            match CommentNotification::try_from(payload) {
                Ok(comment) => Ok(Notification::Comment(comment)),
                Err(e) => Err(e),
            }
        } else {
            Err(NotificationCenterError::ParsingFailed)
        }
    }
}

impl ListenerTopic {
    /// Whether the topic covers the event: a user topic looks at the author,
    /// a post topic at the post, whatever the kind of event.
    pub open spec fn spec_matches(self, notification: Notification) -> bool {
        match self {
            ListenerTopic::User(user) => user == notification.spec_author_id(),
            ListenerTopic::Post(post) => post == notification.spec_post_id(),
        }
    }

    /// Whether the topic covers the event.
    pub fn matches(&self, notification: &Notification) -> (hit: bool)
        ensures
            hit == self.spec_matches(*notification),
    {
        match (self, notification) {
            (ListenerTopic::User(user), Notification::Post(note_post)) => {
                *user == note_post.author_id
            },
            (ListenerTopic::User(user), Notification::Comment(note_comment)) => {
                *user == note_comment.author_id
            },
            (ListenerTopic::Post(post), Notification::Post(note_post)) => {
                *post == note_post.post_id
            },
            (ListenerTopic::Post(post), Notification::Comment(note_comment)) => {
                *post == note_comment.post_id
            },
        }
    }
}

/// Whether any of the topics covers the event.
pub open spec fn any_matches(topics: Seq<ListenerTopic>, notification: Notification) -> bool {
    exists|i: int| 0 <= i < topics.len() && (#[trigger] topics[i]).spec_matches(notification)
}

/// A registered subscriber: its interests and the way to reach it.
pub struct Listener {
    pub topics: Vec<ListenerTopic>,
    pub tx: Sender<Notification>,
}

impl Listener {
    /// A subscriber with the given interests, reached through `tx`.
    pub fn new(topics: Vec<ListenerTopic>, tx: Sender<Notification>) -> (listener: Listener)
        ensures
            listener.topics == topics,
            listener.tx == tx,
    {
        Listener { topics, tx }
    }

    /// Whether the subscriber wants the event: one matching topic is enough,
    /// and without topics nothing is wanted.
    pub open spec fn spec_cares_about(self, notification: Notification) -> bool {
        any_matches(self.topics@, notification)
    }

    /// Whether the subscriber wants the event.
    pub fn cares_about(&self, notification: &Notification) -> (cares: bool)
        ensures
            cares == self.spec_cares_about(*notification),
    {
        let mut i: usize = 0;
        while i < self.topics.len()
            invariant
                i <= self.topics.len(),
                forall|k: int| 0 <= k < i ==> !(#[trigger] self.topics@[k]).spec_matches(*notification),
            decreases self.topics.len() - i,
        {
            if self.topics[i].matches(notification) {
                return true;
            }
            i += 1;
        }
        false
    }
}

/// Whether position `i` is marked in `closed`; positions beyond the flags are
/// not.
pub open spec fn is_flagged(closed: Seq<bool>, i: int) -> bool {
    0 <= i < closed.len() && closed[i]
}

/// The entries that a sweep leaves: those whose position is not flagged, in
/// their old order.
pub open spec fn kept<T>(entries: Seq<T>, closed: Seq<bool>) -> Seq<T>
    decreases entries.len(),
{
    if entries.len() == 0 {
        Seq::<T>::empty()
    } else {
        let before = kept(entries.drop_last(), closed);
        if is_flagged(closed, entries.len() - 1) {
            before
        } else {
            before.push(entries.last())
        }
    }
}

/// Positions of the listeners that want the event, in rising order.
pub open spec fn interested(listeners: Seq<Listener>, notification: Notification) -> Seq<usize>
    decreases listeners.len(),
{
    if listeners.len() == 0 {
        Seq::<usize>::empty()
    } else {
        let before = interested(listeners.drop_last(), notification);
        if listeners.last().spec_cares_about(notification) {
            before.push((listeners.len() - 1) as usize)
        } else {
            before
        }
    }
}

/// Asks tokio's `Sender::is_closed` whether the receiving half is gone.
/// The answer depends on what the other side has done, so nothing is claimed
/// about it.
#[verifier::external_body]
fn sender_is_closed(tx: &Sender<Notification>) -> bool {
    tx.is_closed()
}

/// Opens a bounded channel with tokio's `mpsc::channel`, which panics on a
/// capacity of zero or above its permit limit; both are excluded. Nothing is
/// claimed about the two halves.
#[verifier::external_body]
fn bounded_channel(capacity: usize) -> (halves: (Sender<Notification>, Receiver<Notification>))
    requires
        0 < capacity <= 0x1000_0000,
{
    tokio::sync::mpsc::channel(capacity)
}

/// One event and the registry positions it goes to.
pub struct Delivery {
    pub notification: Notification,
    pub recipients: Vec<usize>,
}

/// What the daemon can be told to do.
pub enum NotificationCenterDaemonCommand {
    /// Register a subscriber.
    AddListener(Listener),
    /// Sweep out subscribers whose receiving half is gone.
    Maintainance,
    /// Hand an event to everyone who wants it.
    HandleNotification(Notification),
}

/// The registry after a command: registering adds the listener at the end,
/// a maintenance pass leaves the listeners without a flag, and handing out
/// an event changes nothing. The flags matter to a maintenance pass only.
pub open spec fn registry_after(
    before: Seq<Listener>,
    command: NotificationCenterDaemonCommand,
    closed: Seq<bool>,
) -> Seq<Listener> {
    match command {
        NotificationCenterDaemonCommand::AddListener(listener) => before.push(listener),
        NotificationCenterDaemonCommand::Maintainance => kept(before, closed),
        NotificationCenterDaemonCommand::HandleNotification(_) => before,
    }
}

/// What a command gives the driver to send: an event and the positions it
/// goes to, and only for the command that hands out an event.
pub open spec fn recipients_of(
    before: Seq<Listener>,
    command: NotificationCenterDaemonCommand,
) -> Option<(Notification, Seq<usize>)> {
    match command {
        NotificationCenterDaemonCommand::HandleNotification(notification) => Some(
            (notification, interested(before, notification)),
        ),
        _ => None,
    }
}

/// Owner of the registry of listeners.
pub struct NotificationCenterDaemon {
    listeners: Vec<Listener>,
}

impl View for NotificationCenterDaemon {
    type V = Seq<Listener>;

    closed spec fn view(&self) -> Seq<Listener> {
        self.listeners@
    }
}

impl NotificationCenterDaemon {
    /// A daemon without listeners.
    pub fn new() -> (daemon: Self)
        ensures
            daemon@ == Seq::<Listener>::empty(),
    {
        Self { listeners: Vec::new() }
    }

    /// How many listeners are registered.
    pub fn len(&self) -> (count: usize)
        ensures
            count == self@.len(),
    {
        self.listeners.len()
    }

    /// The listener at a registry position, if there is one.
    pub fn listener(&self, index: usize) -> (found: Option<&Listener>)
        ensures
            index < self@.len() ==> found == Some(&self@[index as int]),
            index >= self@.len() ==> found is None,
    {
        if index < self.listeners.len() {
            Some(&self.listeners[index])
        } else {
            None
        }
    }

    /// Registers a listener behind all others. Nothing is compared: the same
    /// interests registered twice are served twice.
    pub fn add_listener(&mut self, listener: Listener)
        ensures
            final(self)@ == old(self)@.push(listener),
    {
        self.listeners.push(listener);
    }

    /// Asks every listener's channel whether its receiving half is gone.
    pub fn closed_flags(&self) -> (flags: Vec<bool>)
        ensures
            flags@.len() == self@.len(),
    {
        let mut flags: Vec<bool> = Vec::new();
        let mut i: usize = 0;
        while i < self.listeners.len()
            invariant
                i <= self.listeners.len(),
                flags@.len() == i,
            decreases self.listeners.len() - i,
        {
            let closed: bool = sender_is_closed(&self.listeners[i].tx);
            flags.push(closed);
            i += 1;
        }
        flags
    }

    /// Removes the listeners whose position is flagged and keeps all others
    /// in their order.
    pub fn sweep(&mut self, closed: &Vec<bool>)
        ensures
            final(self)@ == kept(old(self)@, closed@),
    {
        let mut previous: Vec<Listener> = Vec::new();
        core::mem::swap(&mut previous, &mut self.listeners);
        let ghost entries: Seq<Listener> = previous@;
        let count: usize = previous.len();
        let mut survivors: Vec<Listener> = Vec::new();
        let mut i: usize = 0;
        for listener in it: previous
            invariant
                i == it.index(),
                it.seq() == entries,
                entries.len() == count,
                survivors@ == kept(entries.take(i as int), closed@),
        {
            proof {
                assert(entries.take(i + 1).drop_last() =~= entries.take(i as int));
                assert(entries.take(i + 1).last() == listener);
            }
            if !(i < closed.len() && closed[i]) {
                survivors.push(listener);
            }
            i += 1;
        }
        proof {
            assert(entries.take(i as int) =~= entries);
        }
        self.listeners = survivors;
    }

    /// One maintenance pass: every listener whose channel reports its
    /// receiving half gone is removed, all others stay in their order.
    pub fn maintainence(&mut self)
        ensures
            exists|closed: Seq<bool>|
                closed.len() == old(self)@.len() && final(self)@ == #[trigger] kept(
                    old(self)@,
                    closed,
                ),
    {
        let flags: Vec<bool> = self.closed_flags();
        self.sweep(&flags);
    }

    /// The registry positions that an event goes to: every listener that
    /// wants it, once, in registry order.
    pub fn handle_notification(&self, notification: &Notification) -> (recipients: Vec<usize>)
        ensures
            recipients@ == interested(self@, *notification),
    {
        let mut recipients: Vec<usize> = Vec::new();
        let mut i: usize = 0;
        while i < self.listeners.len()
            invariant
                i <= self.listeners.len(),
                recipients@ == interested(self.listeners@.take(i as int), *notification),
            decreases self.listeners.len() - i,
        {
            proof {
                assert(self.listeners@.take(i + 1).drop_last() =~= self.listeners@.take(i as int));
                assert(self.listeners@.take(i + 1).last() == self.listeners@[i as int]);
            }
            if self.listeners[i].cares_about(notification) {
                recipients.push(i);
            }
            i += 1;
        }
        proof {
            assert(self.listeners@.take(i as int) =~= self.listeners@);
        }
        recipients
    }

    /// Carries out one command. Only an event gives the driver something to
    /// send; registering and sweeping change the registry and nothing else.
    pub fn dispatch(&mut self, command: NotificationCenterDaemonCommand) -> (delivery: Option<
        Delivery,
    >)
        ensures
            exists|closed: Seq<bool>|
                closed.len() == old(self)@.len() && final(self)@ == #[trigger] registry_after(
                    old(self)@,
                    command,
                    closed,
                ),
            match recipients_of(old(self)@, command) {
                Some((notification, recipients)) => delivery matches Some(d) && d.notification
                    == notification && d.recipients@ == recipients,
                None => delivery is None,
            },
    {
        let ghost before: Seq<Listener> = self@;
        match command {
            NotificationCenterDaemonCommand::AddListener(listener) => {
                self.add_listener(listener);
                proof {
                    let none = Seq::new(before.len(), |i: int| false);
                    assert(self@ == registry_after(before, command, none));
                }
                None
            },
            NotificationCenterDaemonCommand::Maintainance => {
                self.maintainence();
                proof {
                    let closed = choose|closed: Seq<bool>|
                        closed.len() == before.len() && self@ == #[trigger] kept(before, closed);
                    assert(self@ == registry_after(before, command, closed));
                }
                None
            },
            NotificationCenterDaemonCommand::HandleNotification(notification) => {
                let recipients: Vec<usize> = self.handle_notification(&notification);
                proof {
                    let none = Seq::new(before.len(), |i: int| false);
                    assert(self@ == registry_after(before, command, none));
                }
                Some(Delivery { notification, recipients })
            },
        }
    }
}

/// The command that a raw database notification turns into, if it is well
/// formed. A malformed one is dropped and leaves nothing to do.
pub fn bridge_command(channel: &str, payload: &str) -> (command: Option<
    NotificationCenterDaemonCommand,
>)
    ensures
        match Notification::spec_from_raw(channel@, payload@) {
            Ok(notification) => command == Some(
                NotificationCenterDaemonCommand::HandleNotification(notification),
            ),
            Err(_) => command is None,
        },
{
    match Notification::from_raw(channel, payload) {
        Ok(notification) => Some(NotificationCenterDaemonCommand::HandleNotification(notification)),
        Err(_) => None,
    }
}

/// A user topic covers exactly the events of that author and a post topic
/// exactly the events about that post, for posts and comments alike.
pub proof fn lemma_topic_truth_table(
    user: DbId,
    post: DbId,
    note_post: PostNotification,
    note_comment: CommentNotification,
)
    ensures
        ListenerTopic::User(user).spec_matches(Notification::Post(note_post)) <==> user
            == note_post.author_id,
        ListenerTopic::User(user).spec_matches(Notification::Comment(note_comment)) <==> user
            == note_comment.author_id,
        ListenerTopic::Post(post).spec_matches(Notification::Post(note_post)) <==> post
            == note_post.post_id,
        ListenerTopic::Post(post).spec_matches(Notification::Comment(note_comment)) <==> post
            == note_comment.post_id,
{
}

/// One matching topic is enough for a listener to want an event.
pub proof fn lemma_one_topic_suffices(listener: Listener, notification: Notification, i: int)
    requires
        0 <= i < listener.topics@.len(),
        listener.topics@[i].spec_matches(notification),
    ensures
        listener.spec_cares_about(notification),
{
}

/// A listener without topics wants nothing.
pub proof fn lemma_no_topics_nothing_wanted(listener: Listener, notification: Notification)
    requires
        listener.topics@.len() == 0,
    ensures
        !listener.spec_cares_about(notification),
{
}

/// A listener that wants an event has a topic that matches it.
pub proof fn lemma_wanted_by_some_topic(listener: Listener, notification: Notification) -> (i: int)
    requires
        listener.spec_cares_about(notification),
    ensures
        0 <= i < listener.topics@.len(),
        listener.topics@[i].spec_matches(notification),
{
    choose|i: int|
        0 <= i < listener.topics@.len() && (#[trigger] listener.topics@[i]).spec_matches(
            notification,
        )
}

/// Every decoding failure is a parsing failure, and so is every message on a
/// channel other than the two that are listened to.
pub proof fn lemma_raw_failures(channel: Seq<char>, payload: Seq<char>)
    ensures
        Notification::spec_from_raw(channel, payload) matches Err(e) ==> e
            == NotificationCenterError::ParsingFailed,
        channel != POST_CHANNEL@ && channel != COMMENT_CHANNEL@ ==> Notification::spec_from_raw(
            channel,
            payload,
        ) is Err,
{
}

/// Two number texts with a colon between them are the payload of the post
/// that they number.
pub proof fn lemma_post_payload(post_text: Seq<char>, author_text: Seq<char>)
    requires
        spec_parse_i32(post_text) is Ok,
        spec_parse_i32(author_text) is Ok,
    ensures
        PostNotification::spec_parse(post_text.push(FIELD_SEPARATOR) + author_text) == Ok::<
            PostNotification,
            NotificationCenterError,
        >(
            PostNotification {
                author_id: DbId(spec_parse_i32(author_text)->Ok_0),
                post_id: DbId(spec_parse_i32(post_text)->Ok_0),
            },
        ),
{
    lemma_number_text_chars(post_text, FIELD_SEPARATOR);
    lemma_number_text_chars(author_text, FIELD_SEPARATOR);
    lemma_split_append_nothing(post_text, FIELD_SEPARATOR);
    lemma_split_append_field(post_text, author_text, FIELD_SEPARATOR);
    assert(split(post_text.push(FIELD_SEPARATOR) + author_text, FIELD_SEPARATOR) =~= seq![
        post_text,
        author_text,
    ]);
}

/// Three number texts with colons between them are the payload of the
/// comment that they number.
pub proof fn lemma_comment_payload(
    comment_text: Seq<char>,
    post_text: Seq<char>,
    author_text: Seq<char>,
)
    requires
        spec_parse_i32(comment_text) is Ok,
        spec_parse_i32(post_text) is Ok,
        spec_parse_i32(author_text) is Ok,
    ensures
        CommentNotification::spec_parse(
            (comment_text.push(FIELD_SEPARATOR) + post_text).push(FIELD_SEPARATOR) + author_text,
        ) == Ok::<CommentNotification, NotificationCenterError>(
            CommentNotification {
                author_id: DbId(spec_parse_i32(author_text)->Ok_0),
                post_id: DbId(spec_parse_i32(post_text)->Ok_0),
                comment_id: DbId(spec_parse_i32(comment_text)->Ok_0),
            },
        ),
{
    lemma_number_text_chars(comment_text, FIELD_SEPARATOR);
    lemma_number_text_chars(post_text, FIELD_SEPARATOR);
    lemma_number_text_chars(author_text, FIELD_SEPARATOR);
    lemma_split_append_nothing(comment_text, FIELD_SEPARATOR);
    lemma_split_append_field(comment_text, post_text, FIELD_SEPARATOR);
    lemma_split_append_field(
        comment_text.push(FIELD_SEPARATOR) + post_text,
        author_text,
        FIELD_SEPARATOR,
    );
    assert(split(
        (comment_text.push(FIELD_SEPARATOR) + post_text).push(FIELD_SEPARATOR) + author_text,
        FIELD_SEPARATOR,
    ) =~= seq![comment_text, post_text, author_text]);
}

/// A payload with another number of fields than its channel asks for is
/// rejected.
pub proof fn lemma_field_count(payload: Seq<char>)
    ensures
        count_of(payload, FIELD_SEPARATOR) != 1 ==> PostNotification::spec_parse(payload) is Err,
        count_of(payload, FIELD_SEPARATOR) != 2 ==> CommentNotification::spec_parse(payload) is Err,
{
    lemma_split_shape(payload, FIELD_SEPARATOR);
}

/// An event goes to exactly the listeners that want it: every position in
/// the list is a listener that wants the event, every listener that wants
/// it is in the list, and the positions rise, so that none comes twice.
pub proof fn lemma_interested_exact(listeners: Seq<Listener>, notification: Notification)
    requires
        listeners.len() <= usize::MAX,
    ensures
        forall|k: int|
            0 <= k < interested(listeners, notification).len() ==> {
                let at = #[trigger] interested(listeners, notification)[k];
                at < listeners.len() && listeners[at as int].spec_cares_about(notification)
            },
        forall|i: int|
            0 <= i < listeners.len() && (#[trigger] listeners[i]).spec_cares_about(notification)
                ==> interested(listeners, notification).contains(i as usize),
        forall|a: int, b: int|
            0 <= a < b < interested(listeners, notification).len() ==> interested(
                listeners,
                notification,
            )[a] < interested(listeners, notification)[b],
    decreases listeners.len(),
{
    if listeners.len() > 0 {
        let shorter = listeners.drop_last();
        let before = interested(shorter, notification);
        let now = interested(listeners, notification);
        lemma_interested_exact(shorter, notification);
        let top = (listeners.len() - 1) as usize;
        assert forall|k: int| 0 <= k < now.len() implies {
            let at = #[trigger] now[k];
            at < listeners.len() && listeners[at as int].spec_cares_about(notification)
        } by {
            if k < before.len() {
                assert(now[k] == before[k]);
                assert(shorter[before[k] as int] == listeners[before[k] as int]);
            }
        }
        assert forall|i: int|
            0 <= i < listeners.len() && (#[trigger] listeners[i]).spec_cares_about(
                notification,
            ) implies now.contains(i as usize) by {
            if i < shorter.len() {
                assert(shorter[i] == listeners[i]);
                assert(before.contains(i as usize));
                let k = choose|k: int| 0 <= k < before.len() && before[k] == i as usize;
                assert(now[k] == i as usize);
            } else {
                assert(now[now.len() - 1] == top);
            }
        }
        assert forall|a: int, b: int| 0 <= a < b < now.len() implies now[a] < now[b] by {
            if b < before.len() {
                assert(now[a] == before[a] && now[b] == before[b]);
            } else {
                assert(now[a] == before[a]);
                assert(before[a] < shorter.len());
            }
        }
    }
}

/// Delivery is a broadcast: two listeners that both want an event both get
/// it.
pub proof fn lemma_fan_out_reaches_both(
    listeners: Seq<Listener>,
    notification: Notification,
    i: int,
    j: int,
)
    requires
        listeners.len() <= usize::MAX,
        0 <= i < listeners.len(),
        0 <= j < listeners.len(),
        listeners[i].spec_cares_about(notification),
        listeners[j].spec_cares_about(notification),
    ensures
        interested(listeners, notification).contains(i as usize),
        interested(listeners, notification).contains(j as usize),
{
    lemma_interested_exact(listeners, notification);
}

/// How many positions below `upto` are not flagged.
pub open spec fn open_below(closed: Seq<bool>, upto: int) -> nat
    decreases upto,
{
    if upto <= 0 {
        0
    } else {
        open_below(closed, upto - 1) + if is_flagged(closed, upto - 1) {
            0nat
        } else {
            1nat
        }
    }
}

/// What a sweep leaves of a shorter list is the start of what it leaves of
/// the whole.
pub proof fn lemma_kept_prefix<T>(entries: Seq<T>, closed: Seq<bool>, upto: int)
    requires
        0 <= upto <= entries.len(),
    ensures
        kept(entries.take(upto), closed).len() == open_below(closed, upto),
        kept(entries.take(upto), closed) == kept(entries, closed).take(
            open_below(closed, upto) as int,
        ),
        open_below(closed, upto) <= kept(entries, closed).len(),
    decreases entries.len() - upto,
{
    lemma_kept_len(entries.take(upto), closed);
    if upto == entries.len() {
        assert(entries.take(upto) =~= entries);
        assert(kept(entries, closed).take(kept(entries, closed).len() as int) =~= kept(
            entries,
            closed,
        ));
    } else {
        lemma_kept_prefix(entries, closed, upto + 1);
        let longer = entries.take(upto + 1);
        assert(longer.drop_last() =~= entries.take(upto));
        let whole = kept(entries, closed);
        if is_flagged(closed, upto) {
            assert(kept(longer, closed) == kept(entries.take(upto), closed));
        } else {
            assert(kept(longer, closed) == kept(entries.take(upto), closed).push(longer.last()));
            assert(kept(entries.take(upto), closed) =~= kept(longer, closed).drop_last());
            assert(kept(longer, closed).drop_last() =~= whole.take(
                open_below(closed, upto) as int,
            ));
        }
    }
}

/// A sweep leaves as many entries as there are positions without a flag.
pub proof fn lemma_kept_len<T>(entries: Seq<T>, closed: Seq<bool>)
    ensures
        kept(entries, closed).len() == open_below(closed, entries.len() as int),
    decreases entries.len(),
{
    if entries.len() > 0 {
        lemma_kept_len(entries.drop_last(), closed);
    }
}

/// A sweep removes no live entry: an entry whose position is not flagged is
/// still there afterwards, moved up by the number of flagged entries ahead
/// of it and by nothing else.
pub proof fn lemma_open_entry_stays<T>(entries: Seq<T>, closed: Seq<bool>, i: int)
    requires
        0 <= i < entries.len(),
        !is_flagged(closed, i),
    ensures
        open_below(closed, i) < kept(entries, closed).len(),
        kept(entries, closed)[open_below(closed, i) as int] == entries[i],
{
    lemma_kept_prefix(entries, closed, i + 1);
    let longer = entries.take(i + 1);
    assert(longer.drop_last() =~= entries.take(i));
    lemma_kept_len(entries.take(i), closed);
    assert(kept(longer, closed) == kept(entries.take(i), closed).push(entries[i]));
    assert(kept(longer, closed)[open_below(closed, i) as int] == entries[i]);
}

/// A sweep leaves nothing but entries that were there and not flagged, in
/// their old order.
pub proof fn lemma_kept_origin<T>(entries: Seq<T>, closed: Seq<bool>, k: int) -> (i: int)
    requires
        0 <= k < kept(entries, closed).len(),
    ensures
        0 <= i < entries.len(),
        !is_flagged(closed, i),
        open_below(closed, i) == k,
        kept(entries, closed)[k] == entries[i],
    decreases entries.len(),
{
    let shorter = entries.drop_last();
    lemma_kept_len(shorter, closed);
    if k < kept(shorter, closed).len() {
        let i = lemma_kept_origin(shorter, closed, k);
        assert(shorter[i] == entries[i]);
        i
    } else {
        entries.len() - 1
    }
}

/// A sweep with no flag set changes nothing.
pub proof fn lemma_kept_all_open<T>(entries: Seq<T>, closed: Seq<bool>)
    requires
        forall|i: int| 0 <= i < entries.len() ==> !is_flagged(closed, i),
    ensures
        kept(entries, closed) == entries,
    decreases entries.len(),
{
    if entries.len() > 0 {
        let shorter = entries.drop_last();
        assert forall|i: int| 0 <= i < shorter.len() implies !is_flagged(closed, i) by {}
        lemma_kept_all_open(shorter, closed);
        assert(shorter.push(entries.last()) =~= entries);
    }
}

/// A flagged entry that is like no other entry is gone after the sweep.
pub proof fn lemma_flagged_entry_goes<T>(entries: Seq<T>, closed: Seq<bool>, i: int)
    requires
        0 <= i < entries.len(),
        is_flagged(closed, i),
        forall|j: int| 0 <= j < entries.len() && j != i ==> entries[j] != entries[i],
    ensures
        !kept(entries, closed).contains(entries[i]),
{
    if kept(entries, closed).contains(entries[i]) {
        let k = choose|k: int|
            0 <= k < kept(entries, closed).len() && kept(entries, closed)[k] == entries[i];
        let j = lemma_kept_origin(entries, closed, k);
        assert(j != i);
    }
}

/// Only a maintenance pass removes: under any other command every
/// registered listener keeps its position, whether its subscriber is still
/// there or not.
pub proof fn lemma_only_maintenance_removes(
    before: Seq<Listener>,
    command: NotificationCenterDaemonCommand,
    closed: Seq<bool>,
    i: int,
)
    requires
        command !is Maintainance,
        0 <= i < before.len(),
    ensures
        before.len() <= registry_after(before, command, closed).len(),
        registry_after(before, command, closed)[i] == before[i],
{
}

/// A maintenance pass removes the flagged listeners and no others: a
/// listener without a flag is still registered afterwards, behind the same
/// unflagged listeners as before.
pub proof fn lemma_maintenance_spares_the_live(
    before: Seq<Listener>,
    closed: Seq<bool>,
    i: int,
)
    requires
        0 <= i < before.len(),
        !is_flagged(closed, i),
    ensures
        open_below(closed, i) < registry_after(
            before,
            NotificationCenterDaemonCommand::Maintainance,
            closed,
        ).len(),
        registry_after(before, NotificationCenterDaemonCommand::Maintainance, closed)[open_below(
            closed,
            i,
        ) as int] == before[i],
{
    lemma_open_entry_stays(before, closed, i);
}

/// The receiving side of one subscription.
///
/// The driver lets the channel fill `buffer` while it waits, then asks
/// [`ListenerHandle::take_batch`] what to hand on.
pub struct ListenerHandle {
    pub buffer: Vec<Notification>,
    pub rx: Receiver<Notification>,
}

impl ListenerHandle {
    /// A handle that reads from `rx` and has nothing buffered.
    pub fn new(rx: Receiver<Notification>) -> (handle: Self)
        ensures
            handle.buffer@ == Seq::<Notification>::empty(),
            handle.rx == rx,
    {
        let buffer: Vec<Notification> = Vec::with_capacity(LISTENER_CAPACITY);
        Self { buffer, rx }
    }

    /// The most events to take from the channel per wake-up.
    pub fn limit(&self) -> (limit: usize)
        ensures
            limit == LISTENER_CAPACITY,
    {
        LISTENER_CAPACITY
    }

    /// What one wake-up hands to the consumer, given how many events the
    /// channel reported. Zero means that the channel is closed and drained:
    /// the stream has ended. Otherwise everything buffered goes out as one
    /// batch, in arrival order, and the buffer is empty again.
    pub fn take_batch(&mut self, received: usize) -> (batch: Option<Vec<Notification>>)
        ensures
            final(self).rx == old(self).rx,
            received == 0 ==> batch is None && final(self).buffer@ == old(self).buffer@,
            received != 0 ==> (batch matches Some(events) && events@ == old(self).buffer@),
            received != 0 ==> final(self).buffer@ == Seq::<Notification>::empty(),
    {
        if received == 0 {
            None
        } else {
            let mut batch: Vec<Notification> = Vec::with_capacity(LISTENER_CAPACITY);
            core::mem::swap(&mut batch, &mut self.buffer);
            Some(batch)
        }
    }
}

/// What a new subscription consists of: the command that registers it and
/// the handle that the subscriber keeps.
pub struct Subscription {
    pub command: NotificationCenterDaemonCommand,
    pub handle: ListenerHandle,
}

/// Entry point for subscribers; knows whether the daemon has been started
/// and how to reach it.
pub struct NotificationCenter {
    daemon_tx: Option<Sender<NotificationCenterDaemonCommand>>,
}

impl NotificationCenter {
    /// The way to the daemon's command queue, once started.
    pub closed spec fn spec_daemon_tx(self) -> Option<Sender<NotificationCenterDaemonCommand>> {
        self.daemon_tx
    }

    /// Whether the daemon has been started.
    pub open spec fn spec_is_started(self) -> bool {
        self.spec_daemon_tx() is Some
    }

    /// A center whose daemon has not been started.
    pub fn new() -> (center: Self)
        ensures
            !center.spec_is_started(),
    {
        Self { daemon_tx: None }
    }

    /// Whether the daemon has been started.
    pub fn is_started(&self) -> (started: bool)
        ensures
            started == self.spec_is_started(),
    {
        self.daemon_tx.is_some()
    }

    /// The way to the daemon's command queue, once started.
    pub fn daemon_tx(&self) -> (tx: Option<&Sender<NotificationCenterDaemonCommand>>)
        ensures
            match self.spec_daemon_tx() {
                Some(sender) => tx == Some(&sender),
                None => tx is None,
            },
    {
        self.daemon_tx.as_ref()
    }

    /// Records that the daemon runs and is reached through `tx`. The daemon
    /// is started once.
    pub fn start_daemon(&mut self, tx: Sender<NotificationCenterDaemonCommand>)
        requires
            !old(self).spec_is_started(),
        ensures
            final(self).spec_daemon_tx() == Some(tx),
    {
        self.daemon_tx = Some(tx);
    }

    /// Prepares a subscription to `topics`: a fresh bounded channel, the
    /// command that registers its sending half with these topics, and the
    /// handle around its receiving half. Before the daemon is started this
    /// fails.
    pub fn subscribe(&self, topics: Vec<ListenerTopic>) -> (prepared: Result<
        Subscription,
        NotificationCenterError,
    >)
        ensures
            !self.spec_is_started() ==> prepared == Err::<Subscription, NotificationCenterError>(
                NotificationCenterError::SubscriptionFailed,
            ),
            self.spec_is_started() ==> ({
                &&& prepared matches Ok(subscription)
                &&& subscription.command matches NotificationCenterDaemonCommand::AddListener(listener)
                &&& listener.topics == topics
                &&& subscription.handle.buffer@ == Seq::<Notification>::empty()
            }),
    {
        if self.daemon_tx.is_none() {
            return Err(NotificationCenterError::SubscriptionFailed);
        }
        let (tx, rx) = bounded_channel(LISTENER_CAPACITY);
        let listener: Listener = Listener::new(topics, tx);
        let handle: ListenerHandle = ListenerHandle::new(rx);
        Ok(Subscription { command: NotificationCenterDaemonCommand::AddListener(listener), handle })
    }

    /// The error for a command queue that no longer takes commands.
    pub fn daemon_dead(cause: String) -> (error: NotificationCenterError)
        ensures
            error == NotificationCenterError::DaemonDead(cause),
    {
        NotificationCenterError::DaemonDead(cause)
    }

    /// The error for a daemon that could not be brought up.
    pub fn daemon_failed_to_start(cause: String) -> (error: NotificationCenterError)
        ensures
            error == NotificationCenterError::DaemonFailedToStart(cause),
    {
        NotificationCenterError::DaemonFailedToStart(cause)
    }
}

} // verus!
