//! What the bot answers to a user's command, and what the command does to the
//! store.

use crate::db::{Database, Pair, StorageError};
use vstd::prelude::*;
use vstd::string::StringExecFns;

verus! {

/// A command that a user sent.
#[derive(Debug)]
pub enum Command {
    Help,
    Subscribe(String),
    Unsubscribe(String),
}

/// A command with its tag as a text.
pub enum Request {
    Help,
    Subscribe(Seq<char>),
    Unsubscribe(Seq<char>),
}

impl View for Command {
    type V = Request;

    open spec fn view(&self) -> Request {
        match self {
            Command::Help => Request::Help,
            Command::Subscribe(tag) => Request::Subscribe(tag@),
            Command::Unsubscribe(tag) => Request::Unsubscribe(tag@),
        }
    }
}

/// What the bot says to a subscription with white space in its tag.
pub const SPACES_IN_TAG: &'static str =
    "Tags cannot contain spaces; use underscores if you are trying to subscribe to a tag with multiple words";

/// What the bot answers.
#[derive(Debug)]
pub enum Reply {
    /// The list of commands.
    Help,
    /// The tag of a subscription holds white space.
    SpacesInTag,
    /// The user follows the tag already.
    AlreadySubscribed(String),
    /// The user follows the tag from now on.
    Subscribed(String),
    /// The user follows the tag no longer.
    Unsubscribed(String),
    /// The user did not follow the tag.
    NotSubscribed(String),
}

/// Why a command was not carried out.
#[derive(Debug, Clone, Copy, PartialEq, Eq)]
pub enum AnswerError {
    /// The command changes a user's subscriptions, and no user sent it.
    NoSender,
    /// The store failed.
    Storage(StorageError),
}

/// The lower-case form of a text, as `str::to_lowercase` gives it.
pub uninterp spec fn lowercase(text: Seq<char>) -> Seq<char>;

/// `str::to_lowercase` of the standard library: the result depends on the
/// text alone.
pub assume_specification[ str::to_lowercase ](text: &str) -> (lower: String)
    ensures
        lower@ == lowercase(text@),
;

/// The characters that count as white space: those that Unicode marks
/// White_Space.
pub open spec fn white_space(c: char) -> bool {
    let code = c as u32;
    ||| 0x9 <= code <= 0xd
    ||| code == 0x20
    ||| code == 0x85
    ||| code == 0xa0
    ||| code == 0x1680
    ||| 0x2000 <= code <= 0x200a
    ||| code == 0x2028
    ||| code == 0x2029
    ||| code == 0x202f
    ||| code == 0x205f
    ||| code == 0x3000
}

/// Whether `c` is white space.
pub fn is_white_space(c: char) -> (white: bool)
    ensures
        white == white_space(c),
{
    let code: u32 = c as u32;
    (0x9 <= code && code <= 0xd) || code == 0x20 || code == 0x85 || code == 0xa0 || code == 0x1680
        || (0x2000 <= code && code <= 0x200a) || code == 0x2028 || code == 0x2029 || code
        == 0x202f || code == 0x205f || code == 0x3000
}

/// The text holds white space somewhere: at an end or inside.
pub open spec fn has_white_space(text: Seq<char>) -> bool {
    exists|i: int| 0 <= i < text.len() && white_space(#[trigger] text[i])
}

/// No stored tag holds white space.
pub open spec fn clean(subscriptions: Set<Pair>) -> bool {
    forall|pair: Pair| #[trigger] subscriptions.contains(pair) ==> !has_white_space(pair.0)
}

/// Whether the tag holds white space anywhere.
pub fn tag_has_spaces(tag: &str) -> (found: bool)
    ensures
        found == has_white_space(tag@),
{
    for c in it: tag.chars()
        invariant
            it.seq() == tag@,
            forall|i: int| 0 <= i < it.index() ==> !white_space(#[trigger] tag@[i]),
    {
        if is_white_space(c) {
            return true;
        }
    }
    false
}

impl Request {
    /// The request with its tag in lower case.
    pub open spec fn lowered(self) -> Request {
        match self {
            Request::Help => Request::Help,
            Request::Subscribe(tag) => Request::Subscribe(lowercase(tag)),
            Request::Unsubscribe(tag) => Request::Unsubscribe(lowercase(tag)),
        }
    }

    /// Whether it takes the user who sent the request to carry it out: not
    /// for the list of commands, and not for a subscription that is turned
    /// down for white space in its tag.
    pub open spec fn needs_sender(self) -> bool {
        match self {
            Request::Help => false,
            Request::Subscribe(tag) => !has_white_space(tag),
            Request::Unsubscribe(_) => true,
        }
    }
}

/// `reply` and the subscriptions `after` are what carrying out `request` for
/// `user_id` may leave of the subscriptions `before`.
///
/// The list of commands is always given. A subscription to a tag that holds
/// white space, at an end or inside, is always turned down, so that no such
/// tag is ever stored. Any other request fails without a sender. With one, the reply tells whether the pair was stored before, a
/// new subscription is stored and one that is to end is removed; where the
/// store failed, its last write may or may not have taken effect.
pub open spec fn carried_out(
    request: Request,
    user_id: Option<i64>,
    before: Set<Pair>,
    after: Set<Pair>,
    reply: Result<Reply, AnswerError>,
) -> bool {
    match request {
        Request::Help => reply matches Ok(Reply::Help) && after == before,
        Request::Subscribe(tag) => {
            if has_white_space(tag) {
                reply matches Ok(Reply::SpacesInTag) && after == before
            } else if user_id is None {
                reply matches Err(AnswerError::NoSender) && after == before
            } else {
                let pair = (tag, user_id->0);
                match reply {
                    Ok(Reply::AlreadySubscribed(name)) => {
                        &&& name@ == tag
                        &&& before.contains(pair)
                        &&& after == before
                    },
                    Ok(Reply::Subscribed(name)) => {
                        &&& name@ == tag
                        &&& !before.contains(pair)
                        &&& after == before.insert(pair)
                    },
                    Err(AnswerError::Storage(_)) => after == before || after == before.insert(pair),
                    _ => false,
                }
            }
        },
        Request::Unsubscribe(tag) => {
            if user_id is None {
                reply matches Err(AnswerError::NoSender) && after == before
            } else {
                let pair = (tag, user_id->0);
                match reply {
                    Ok(Reply::Unsubscribed(name)) => {
                        &&& name@ == tag
                        &&& before.contains(pair)
                        &&& after == before.remove(pair)
                    },
                    Ok(Reply::NotSubscribed(name)) => {
                        &&& name@ == tag
                        &&& !before.contains(pair)
                        &&& after == before
                    },
                    Err(AnswerError::Storage(_)) => after == before || after == before.remove(pair),
                    _ => false,
                }
            }
        },
    }
}

/// Whether a store with the subscriptions `before` that is reliable, and
/// that has room for one more or not, is sure to carry out `request` for
/// `user_id`: the request needs no sender or has one, and a new subscription
/// finds room.
pub open spec fn succeeds(
    request: Request,
    user_id: Option<i64>,
    before: Set<Pair>,
    has_room: bool,
) -> bool {
    match request {
        Request::Help => true,
        Request::Subscribe(tag) => has_white_space(tag) || (user_id matches Some(user) && (
        has_room || before.contains((tag, user)))),
        Request::Unsubscribe(_) => user_id is Some,
    }
}

/// Carrying out a request brings no white space into the store: where no
/// stored tag held any before, none holds any after, whatever the request
/// and whatever the store answered.
pub proof fn lemma_tags_stay_clean(
    request: Request,
    user_id: Option<i64>,
    before: Set<Pair>,
    after: Set<Pair>,
    reply: Result<Reply, AnswerError>,
)
    requires
        clean(before),
        carried_out(request, user_id, before, after, reply),
    ensures
        clean(after),
{
    assert forall|pair: Pair| #[trigger] after.contains(pair) implies !has_white_space(pair.0) by {
        if !before.contains(pair) {
            assert(request matches Request::Subscribe(tag) && pair.0 == tag && !has_white_space(
                tag,
            ));
        }
    }
}

impl Command {
    /// The command with its tag in lower case.
    pub fn normalized(self) -> (lower: Command)
        ensures
            lower@ == self@.lowered(),
    {
        match self {
            Command::Help => Command::Help,
            Command::Subscribe(tag) => Command::Subscribe(tag.as_str().to_lowercase()),
            Command::Unsubscribe(tag) => Command::Unsubscribe(tag.as_str().to_lowercase()),
        }
    }
}

impl Reply {
    /// The text of the reply; `help` is the list of commands.
    pub open spec fn spec_text(&self, help: Seq<char>) -> Seq<char> {
        match self {
            Reply::Help => help,
            Reply::SpacesInTag => SPACES_IN_TAG@,
            Reply::AlreadySubscribed(tag) => "You are already subscribed to "@ + tag@,
            Reply::Subscribed(tag) => "Subscribed to "@ + tag@,
            Reply::Unsubscribed(tag) => "Unsubscribed from "@ + tag@,
            Reply::NotSubscribed(tag) => "You're not subscribed to "@ + tag@,
        }
    }

    /// The text of the reply; `help` is the list of commands.
    pub fn text(&self, help: &str) -> (text: String)
        ensures
            text@ == self.spec_text(help@),
    {
        match self {
            Reply::Help => String::from_str(help),
            Reply::SpacesInTag => String::from_str(SPACES_IN_TAG),
            Reply::AlreadySubscribed(tag) => String::from_str(
                "You are already subscribed to ",
            ).concat(tag.as_str()),
            Reply::Subscribed(tag) => String::from_str("Subscribed to ").concat(tag.as_str()),
            Reply::Unsubscribed(tag) => String::from_str("Unsubscribed from ").concat(
                tag.as_str(),
            ),
            Reply::NotSubscribed(tag) => String::from_str("You're not subscribed to ").concat(
                tag.as_str(),
            ),
        }
    }

    /// The reply to a request to follow `tag`, which is stored already or
    /// not.
    pub fn to_subscribe(tag: String, stored: bool) -> (reply: Reply)
        ensures
            stored ==> reply == Reply::AlreadySubscribed(tag),
            !stored ==> reply == Reply::Subscribed(tag),
    {
        if stored {
            Reply::AlreadySubscribed(tag)
        } else {
            Reply::Subscribed(tag)
        }
    }

    /// The reply to a request to follow `tag` no longer, which was stored or
    /// not.
    pub fn to_unsubscribe(tag: String, stored: bool) -> (reply: Reply)
        ensures
            stored ==> reply == Reply::Unsubscribed(tag),
            !stored ==> reply == Reply::NotSubscribed(tag),
    {
        if stored {
            Reply::Unsubscribed(tag)
        } else {
            Reply::NotSubscribed(tag)
        }
    }
}

/// Carries out a command whose tag is taken as it stands.
///
/// The store decides whether its calls succeed: its first error ends the
/// command. A reliable store fails only a new subscription for which it has
/// no room.
pub fn carry_out<D: Database>(db: &mut D, user_id: Option<i64>, command: Command) -> (reply:
    Result<Reply, AnswerError>)
    requires
        old(db).valid(),
    ensures
        final(db).valid(),
        final(db).post_index() == old(db).post_index(),
        final(db).reliable() == old(db).reliable(),
        carried_out(command@, user_id, old(db).subscriptions(), final(db).subscriptions(), reply),
        clean(old(db).subscriptions()) ==> clean(final(db).subscriptions()),
        old(db).reliable() && succeeds(
            command@,
            user_id,
            old(db).subscriptions(),
            old(db).has_room(),
        ) ==> reply is Ok,
{
    match command {
        Command::Help => Ok(Reply::Help),
        Command::Subscribe(tag) => {
            if tag_has_spaces(tag.as_str()) {
                return Ok(Reply::SpacesInTag);
            }
            let user_id: i64 = match user_id {
                Some(user_id) => user_id,
                None => {
                    return Err(AnswerError::NoSender);
                },
            };
            match db.has_subscription(tag.as_str(), &user_id) {
                Err(error) => Err(AnswerError::Storage(error)),
                Ok(stored) => {
                    if !stored {
                        match db.create_subscription(tag.as_str(), &user_id) {
                            Err(error) => {
                                return Err(AnswerError::Storage(error));
                            },
                            Ok(_) => {},
                        }
                    }
                    Ok(Reply::to_subscribe(tag, stored))
                },
            }
        },
        Command::Unsubscribe(tag) => {
            let user_id: i64 = match user_id {
                Some(user_id) => user_id,
                None => {
                    return Err(AnswerError::NoSender);
                },
            };
            match db.has_subscription(tag.as_str(), &user_id) {
                Err(error) => Err(AnswerError::Storage(error)),
                Ok(stored) => {
                    if stored {
                        match db.remove_subscription(tag.as_str(), &user_id) {
                            Err(error) => {
                                return Err(AnswerError::Storage(error));
                            },
                            Ok(_) => {},
                        }
                    }
                    Ok(Reply::to_unsubscribe(tag, stored))
                },
            }
        },
    }
}

/// Carries out `command` for the user who sent it and says what to answer.
/// The tag counts in lower case, and a subscription whose tag then holds
/// white space is turned down: a store that held no such tag holds none
/// after.
pub fn answer<D: Database>(db: &mut D, user_id: Option<i64>, command: Command) -> (reply: Result<
    Reply,
    AnswerError,
>)
    requires
        old(db).valid(),
    ensures
        final(db).valid(),
        final(db).post_index() == old(db).post_index(),
        final(db).reliable() == old(db).reliable(),
        carried_out(
            command@.lowered(),
            user_id,
            old(db).subscriptions(),
            final(db).subscriptions(),
            reply,
        ),
        clean(old(db).subscriptions()) ==> clean(final(db).subscriptions()),
        old(db).reliable() && succeeds(
            command@.lowered(),
            user_id,
            old(db).subscriptions(),
            old(db).has_room(),
        ) ==> reply is Ok,
{
    carry_out(db, user_id, command.normalized())
}

} // verus!
