//! The subscription store: which user follows which tag, and the index of
//! the last post that was seen.

use crate::text::{join, views};
use vstd::prelude::*;

verus! {

/// A stored subscription: `user_id` follows `tag`.
#[derive(Debug)]
pub struct Subscription {
    pub id: i32,
    pub tag: String,
    pub user_id: i64,
}

/// A subscription that is about to be stored.
#[derive(Debug)]
pub struct NewSubscription<'a> {
    pub tag: &'a str,
    pub user_id: &'a i64,
}

/// One user among the followers of some tags, with those of the tags that
/// the user follows written as a list.
#[derive(Debug)]
pub struct SubscriptionResult {
    pub user_id: i64,
    pub tags: String,
}

/// The stored record of the last post that was seen.
#[derive(Debug, Clone, Copy, PartialEq, Eq)]
pub struct PostIndex {
    pub id: i32,
    pub last_seen_post: i32,
}

/// A store that could not be read or written.
#[derive(Debug, Clone, Copy, PartialEq, Eq)]
pub enum StorageError {
    Read,
    Write,
}

/// A subscription as a store's model holds it: the tag and the user.
pub type Pair = (Seq<char>, i64);

/// What stands between two tags in a `SubscriptionResult`.
pub const TAG_SEPARATOR: &'static str = ", ";

/// The tags among `wanted` that `user` follows.
pub open spec fn followed(subscriptions: Set<Pair>, wanted: Set<Seq<char>>, user: i64) -> Set<
    Seq<char>,
> {
    Set::new(|tag: Seq<char>| wanted.contains(tag) && subscriptions.contains((tag, user)))
}

/// `listed` names each tag of `tags` once, and no other.
pub open spec fn lists(listed: Seq<Seq<char>>, tags: Set<Seq<char>>) -> bool {
    &&& listed.no_duplicates()
    &&& forall|tag: Seq<char>| listed.contains(tag) <==> tags.contains(tag)
}

/// The record's user follows at least one of `wanted`, and the record's text
/// lists the wanted tags that the user follows, each once, in some order,
/// with ", " between them.
pub open spec fn names_followed(
    subscriptions: Set<Pair>,
    wanted: Set<Seq<char>>,
    record: SubscriptionResult,
) -> bool {
    exists|listed: Seq<Seq<char>>|
        {
            &&& listed.len() > 0
            &&& #[trigger] lists(listed, followed(subscriptions, wanted, record.user_id))
            &&& record.tags@ == join(listed, TAG_SEPARATOR@)
        }
}

/// `found` answers the question who follows any of `wanted`: it has one
/// record for each user who follows at least one of them and none for
/// anybody else, and a record's text lists the wanted tags that its user
/// follows, each once, in some order, with ", " between them. The order of
/// the records is left open.
pub open spec fn answers(
    subscriptions: Set<Pair>,
    wanted: Set<Seq<char>>,
    found: Seq<SubscriptionResult>,
) -> bool {
    &&& forall|i: int, j: int|
        0 <= i < j < found.len() ==> (#[trigger] found[i]).user_id != (#[trigger] found[j]).user_id
    &&& forall|i: int|
        0 <= i < found.len() ==> names_followed(subscriptions, wanted, #[trigger] found[i])
    &&& forall|tag: Seq<char>, user: i64|
        wanted.contains(tag) && #[trigger] subscriptions.contains((tag, user)) ==> exists|i: int|
            0 <= i < found.len() && (#[trigger] found[i]).user_id == user
}

/// A subscription store. It holds a pair of tag and user at most once.
///
/// The spec functions are the store's model: the pairs it holds, its post
/// index, what its bookkeeping relies on, and how far it can be counted on.
/// The contracts say what a call answers and how it changes the model.
///
/// An implementation that is verified gives the model bodies of its own and
/// is held to the contracts. The bodies here are for an implementation that
/// is not verified, which cannot write any: they leave the pairs and the
/// post index open, as some function of the store that nothing is known of,
/// and they make the store neither reliable nor roomy, so that no call of
/// it is promised to succeed. Of such a store the contracts are what its
/// author undertakes to keep; nothing checks that.
pub trait Database: Sized {
    /// What the store relies on between calls. Every call keeps it.
    open spec fn valid(&self) -> bool {
        true
    }

    /// The subscriptions that the store holds.
    open spec fn subscriptions(&self) -> Set<Pair> {
        arbitrary::<spec_fn(Self) -> Set<Pair>>()(*self)
    }

    /// The index of the last post seen; 0 while none was stored.
    open spec fn post_index(&self) -> i32 {
        arbitrary::<spec_fn(Self) -> i32>()(*self)
    }

    /// Whether the store can be counted on: a reliable store answers every
    /// question, and it carries out every removal and every write of the
    /// post index. A store that can fail is not reliable.
    open spec fn reliable(&self) -> bool {
        false
    }

    /// Whether a reliable store can take one more subscription.
    open spec fn has_room(&self) -> bool {
        false
    }

    /// Stores that `user_id` follows `tag` and returns the stored
    /// subscription. Where the pair is already stored nothing changes. A
    /// failed write may or may not have taken effect.
    fn create_subscription(&mut self, tag: &str, user_id: &i64) -> (created: Result<
        Subscription,
        StorageError,
    >)
        requires
            old(self).valid(),
        ensures
            final(self).valid(),
            final(self).post_index() == old(self).post_index(),
            final(self).reliable() == old(self).reliable(),
            created matches Ok(subscription) ==> {
                &&& subscription.tag@ == tag@
                &&& subscription.user_id == *user_id
                &&& final(self).subscriptions() == old(self).subscriptions().insert(
                    (tag@, *user_id),
                )
            },
            created is Err ==> {
                ||| final(self).subscriptions() == old(self).subscriptions()
                ||| final(self).subscriptions() == old(self).subscriptions().insert(
                    (tag@, *user_id),
                )
            },
            old(self).reliable() && (old(self).has_room() || old(self).subscriptions().contains(
                (tag@, *user_id),
            )) ==> created is Ok,
    ;

    /// Removes the subscription of `user_id` to `tag` and says whether there
    /// was one. A failed write may or may not have taken effect.
    fn remove_subscription(&mut self, tag: &str, user_id: &i64) -> (removed: Result<
        bool,
        StorageError,
    >)
        requires
            old(self).valid(),
        ensures
            final(self).valid(),
            final(self).post_index() == old(self).post_index(),
            final(self).reliable() == old(self).reliable(),
            final(self).has_room() == old(self).has_room(),
            removed matches Ok(was_stored) ==> {
                &&& was_stored == old(self).subscriptions().contains((tag@, *user_id))
                &&& final(self).subscriptions() == old(self).subscriptions().remove(
                    (tag@, *user_id),
                )
            },
            removed is Err ==> {
                ||| final(self).subscriptions() == old(self).subscriptions()
                ||| final(self).subscriptions() == old(self).subscriptions().remove(
                    (tag@, *user_id),
                )
            },
            old(self).reliable() ==> removed is Ok,
    ;

    /// The stored subscription of `user_id` to `tag`. `None` is also the
    /// answer of a store that could not be read.
    fn get_subscription(&self, tag: &str, user_id: &i64) -> (stored: Option<Subscription>)
        requires
            self.valid(),
        ensures
            stored matches Some(subscription) ==> {
                &&& subscription.tag@ == tag@
                &&& subscription.user_id == *user_id
                &&& self.subscriptions().contains((tag@, *user_id))
            },
            self.reliable() && self.subscriptions().contains((tag@, *user_id)) ==> stored is Some,
    ;

    /// Whether `user_id` follows `tag`.
    fn has_subscription(&self, tag: &str, user_id: &i64) -> (stored: Result<bool, StorageError>)
        requires
            self.valid(),
        ensures
            stored matches Ok(is_stored) ==> is_stored == self.subscriptions().contains(
                (tag@, *user_id),
            ),
            self.reliable() ==> stored is Ok,
    ;

    /// The users who follow any of `tags`, each with the tags that matched.
    fn get_users_subscribed_to_tags(&self, tags: &[String]) -> (found: Result<
        Vec<SubscriptionResult>,
        StorageError,
    >)
        requires
            self.valid(),
        ensures
            found matches Ok(records) ==> answers(
                self.subscriptions(),
                views(tags@).to_set(),
                records@,
            ),
            self.reliable() ==> found is Ok,
    ;

    /// The index of the last post seen, which is 0 while none was stored. A
    /// store that could not be read says so: it answers no index at all.
    fn get_post_index(&self) -> (index: Result<i32, StorageError>)
        requires
            self.valid(),
        ensures
            index matches Ok(stored) ==> stored == self.post_index(),
            self.reliable() ==> index is Ok,
    ;

    /// Overwrites the index of the last post seen. A failed write may or may
    /// not have taken effect.
    fn set_post_index(&mut self, post_id: i32) -> (stored: Result<(), StorageError>)
        requires
            old(self).valid(),
        ensures
            final(self).valid(),
            final(self).subscriptions() == old(self).subscriptions(),
            final(self).reliable() == old(self).reliable(),
            final(self).has_room() == old(self).has_room(),
            stored is Ok ==> final(self).post_index() == post_id,
            stored is Err ==> {
                ||| final(self).post_index() == old(self).post_index()
                ||| final(self).post_index() == post_id
            },
            old(self).reliable() ==> stored is Ok,
    ;
}

} // verus!
