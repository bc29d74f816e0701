//! One polling cycle: the post index is moved up to the newest post that was
//! fetched, and for every fetched post each user who follows one of its tags
//! gets one message.

use crate::api::Post;
use crate::db::{
    answers, followed, lists, names_followed, Database, Pair, StorageError, SubscriptionResult,
    TAG_SEPARATOR,
};
use crate::text::{join, split};
use vstd::prelude::*;
use vstd::string::StringExecFns;

verus! {

/// Why the board's listing could not be had.
#[derive(Debug, Clone, Copy, PartialEq, Eq)]
pub enum FetchError {
    /// The board could not be reached, or not in time.
    Unreachable,
    /// The board's answer could not be read as a list of posts.
    Malformed,
}

/// What becomes of the post index once a page was fetched.
#[derive(Debug, Clone, Copy, PartialEq, Eq)]
pub enum CursorDecision {
    /// The page is empty.
    Empty,
    /// The first post of the page is newer than the index, which moves up to
    /// it.
    Advance { to: i32 },
    /// The first post of the page is not newer than the index, which stays.
    Stale { candidate: i32 },
}

/// The decision for a page: only a first post with a greater id moves the
/// index.
pub open spec fn decision(post_index: i32, posts: Seq<Post>) -> CursorDecision {
    if posts.len() == 0 {
        CursorDecision::Empty
    } else if posts[0].spec_actual_id() > post_index {
        CursorDecision::Advance { to: posts[0].spec_actual_id() }
    } else {
        CursorDecision::Stale { candidate: posts[0].spec_actual_id() }
    }
}

/// The post index after a cycle that fetched `posts`: the greater of the
/// index before and the id of the first post, if there is one.
pub open spec fn next_post_index(post_index: i32, posts: Seq<Post>) -> i32 {
    match decision(post_index, posts) {
        CursorDecision::Advance { to } => to,
        _ => post_index,
    }
}

/// The post index after one cycle for each page of `pages`, in order.
pub open spec fn post_index_after(post_index: i32, pages: Seq<Seq<Post>>) -> i32
    decreases pages.len(),
{
    if pages.len() == 0 {
        post_index
    } else {
        next_post_index(post_index_after(post_index, pages.drop_last()), pages.last())
    }
}

/// Every post of the page is newer than the index: what a board that was
/// asked for the posts after the index returns.
pub open spec fn newer_than(posts: Seq<Post>, post_index: i32) -> bool {
    forall|i: int| 0 <= i < posts.len() ==> (#[trigger] posts[i]).spec_actual_id() > post_index
}

/// No post of the page is newer than one before it.
pub open spec fn newest_first(posts: Seq<Post>) -> bool {
    forall|i: int, j: int|
        0 <= i < j < posts.len() ==> (#[trigger] posts[i]).spec_actual_id() >= (
        #[trigger] posts[j]).spec_actual_id()
}

/// `page` is what a board that holds `board`, newest first, returns for the
/// posts after `post_index`: the first posts of the board, all of them
/// newer than the index, and at least one where the board has a newer one.
pub open spec fn lists_after(board: Seq<Post>, post_index: i32, page: Seq<Post>) -> bool {
    &&& page.len() <= board.len()
    &&& forall|i: int| 0 <= i < page.len() ==> #[trigger] page[i] == board[i]
    &&& newer_than(page, post_index)
    &&& page.len() == 0 ==> board.len() == 0 || board[0].spec_actual_id() <= post_index
}

/// A cycle leaves the post index at the greater of the index before and the
/// id of the page's first post; an empty page leaves it as it is. The index
/// never goes down.
pub proof fn lemma_next_post_index(post_index: i32, posts: Seq<Post>)
    ensures
        next_post_index(post_index, posts) >= post_index,
        posts.len() == 0 ==> next_post_index(post_index, posts) == post_index,
        posts.len() > 0 ==> next_post_index(post_index, posts) == if posts[0].spec_actual_id()
            > post_index {
            posts[0].spec_actual_id()
        } else {
            post_index
        },
{
}

/// Over any run of cycles, whatever the pages hold, the post index never
/// goes down: it is at least what it was after any earlier cycle.
pub proof fn lemma_post_index_never_decreases(
    post_index: i32,
    pages: Seq<Seq<Post>>,
    earlier: int,
    later: int,
)
    requires
        0 <= earlier <= later <= pages.len(),
    ensures
        post_index <= post_index_after(post_index, pages.take(earlier)) <= post_index_after(
            post_index,
            pages.take(later),
        ),
    decreases later,
{
    if later > 0 {
        if earlier < later {
            lemma_post_index_never_decreases(post_index, pages, earlier, later - 1);
        } else {
            lemma_post_index_never_decreases(post_index, pages, earlier - 1, later - 1);
        }
        assert(pages.take(later).drop_last() =~= pages.take(later - 1));
    }
}

/// A second poll repeats nothing. Where the first page came newest first and
/// the board answers the second request with posts that are newer than the
/// index that the first cycle left, no post of the second page was in the
/// first one, so no user hears of a post twice.
pub proof fn lemma_repoll_repeats_nothing(post_index: i32, first: Seq<Post>, second: Seq<Post>)
    requires
        newest_first(first),
        newer_than(second, next_post_index(post_index, first)),
    ensures
        forall|i: int, j: int|
            0 <= i < first.len() && 0 <= j < second.len() ==> (#[trigger] first[i]).spec_actual_id()
                != (#[trigger] second[j]).spec_actual_id(),
{
}

/// A second poll of an unchanged board fetches nothing, so it sends nothing:
/// the first cycle left the index at the board's newest post.
pub proof fn lemma_repoll_fetches_nothing(
    board: Seq<Post>,
    post_index: i32,
    first: Seq<Post>,
    second: Seq<Post>,
)
    requires
        lists_after(board, post_index, first),
        lists_after(board, next_post_index(post_index, first), second),
    ensures
        second.len() == 0,
        next_post_index(next_post_index(post_index, first), second) == next_post_index(
            post_index,
            first,
        ),
{
    if second.len() > 0 {
        assert(second[0] == board[0]);
        assert(second[0].spec_actual_id() > next_post_index(post_index, first));
    }
}

/// Decides what becomes of the post index once `posts` were fetched.
pub fn decide(post_index: i32, posts: &Vec<Post>) -> (cursor: CursorDecision)
    ensures
        cursor == decision(post_index, posts@),
{
    if posts.len() == 0 {
        CursorDecision::Empty
    } else {
        let candidate: i32 = posts[0].actual_id();
        if candidate > post_index {
            CursorDecision::Advance { to: candidate }
        } else {
            CursorDecision::Stale { candidate }
        }
    }
}

/// A message for one user.
#[derive(Debug)]
pub struct Notification {
    pub user_id: i64,
    pub text: String,
}

/// The text that tells a user of a post at `url` which of the followed tags,
/// listed in `tags`, it carries.
pub open spec fn message(url: Seq<char>, tags: Seq<char>) -> Seq<char> {
    "New post "@ + url + " matches your subscription for tags: "@ + tags
}

/// `out` holds one message for each record of `found`, in the same order, to
/// the record's user and about `post`.
pub open spec fn notifies(
    post: Post,
    found: Seq<SubscriptionResult>,
    out: Seq<Notification>,
) -> bool {
    &&& out.len() == found.len()
    &&& forall|i: int|
        0 <= i < out.len() ==> {
            &&& (#[trigger] out[i]).user_id == found[i].user_id
            &&& out[i].text@ == message(post.spec_post_url(), found[i].tags@)
        }
}

/// The messages about `post` for the users in `found`.
pub fn notifications_for(post: &Post, found: &Vec<SubscriptionResult>) -> (out: Vec<Notification>)
    ensures
        notifies(*post, found@, out@),
{
    let url = post.post_url();
    let mut out: Vec<Notification> = Vec::new();
    let mut i: usize = 0;
    while i < found.len()
        invariant
            i <= found.len(),
            url@ == post.spec_post_url(),
            notifies(*post, found@.take(i as int), out@),
        decreases found.len() - i,
    {
        let mut text = String::from_str("New post ");
        text.append(url.as_str());
        text.append(" matches your subscription for tags: ");
        text.append(found[i].tags.as_str());
        out.push(Notification { user_id: found[i].user_id, text });
        i += 1;
    }
    out
}

/// The tags that a post carries.
pub open spec fn tags_of(post: Post) -> Set<Seq<char>> {
    split(post.tag_string@, ' ').to_set()
}

/// `out` is what the followers of `post`'s tags are to be sent: one message
/// for each user who follows at least one of them, which lists the tags of
/// the post that the user follows.
pub open spec fn delivers(subscriptions: Set<Pair>, post: Post, out: Seq<Notification>) -> bool {
    exists|found: Seq<SubscriptionResult>| #[trigger]
        answers(subscriptions, tags_of(post), found) && notifies(post, found, out)
}

/// Of the messages about a post no two go to the same user: whoever follows
/// several of its tags hears of it once.
pub proof fn lemma_one_message_for_each_user(
    subscriptions: Set<Pair>,
    post: Post,
    out: Seq<Notification>,
    i: int,
    j: int,
)
    requires
        delivers(subscriptions, post, out),
        0 <= i < j < out.len(),
    ensures
        out[i].user_id != out[j].user_id,
{
    let found = choose|found: Seq<SubscriptionResult>| #[trigger]
        answers(subscriptions, tags_of(post), found) && notifies(post, found, out);
    assert(found[i].user_id != found[j].user_id);
}

/// Whoever follows a tag of a post is sent a message about it.
pub proof fn lemma_every_follower_gets_a_message(
    subscriptions: Set<Pair>,
    post: Post,
    out: Seq<Notification>,
    tag: Seq<char>,
    user: i64,
)
    requires
        delivers(subscriptions, post, out),
        tags_of(post).contains(tag),
        subscriptions.contains((tag, user)),
    ensures
        exists|i: int| 0 <= i < out.len() && (#[trigger] out[i]).user_id == user,
{
    let found = choose|found: Seq<SubscriptionResult>| #[trigger]
        answers(subscriptions, tags_of(post), found) && notifies(post, found, out);
    let i = choose|i: int| 0 <= i < found.len() && (#[trigger] found[i]).user_id == user;
    assert(out[i].user_id == user);
}

/// A message about a post goes only to a user who follows one of its tags.
pub proof fn lemma_only_followers_get_a_message(
    subscriptions: Set<Pair>,
    post: Post,
    out: Seq<Notification>,
    i: int,
)
    requires
        delivers(subscriptions, post, out),
        0 <= i < out.len(),
    ensures
        exists|tag: Seq<char>|
            tags_of(post).contains(tag) && #[trigger] subscriptions.contains(
                (tag, out[i].user_id),
            ),
{
    let found = choose|found: Seq<SubscriptionResult>| #[trigger]
        answers(subscriptions, tags_of(post), found) && notifies(post, found, out);
    let listed = choose|listed: Seq<Seq<char>>|
        {
            &&& listed.len() > 0
            &&& #[trigger] lists(
                listed,
                followed(subscriptions, tags_of(post), found[i].user_id),
            )
            &&& found[i].tags@ == join(listed, TAG_SEPARATOR@)
        };
    assert(followed(subscriptions, tags_of(post), found[i].user_id).contains(listed[0]));
    assert(subscriptions.contains((listed[0], out[i].user_id)));
}

/// Asks the store who follows any tag of `post` and writes the messages for
/// them. The store decides whether the question is answered.
pub fn notify_users_for_post<D: Database>(db: &D, post: &Post) -> (sent: Result<
    Vec<Notification>,
    StorageError,
>)
    requires
        db.valid(),
    ensures
        sent matches Ok(out) ==> delivers(db.subscriptions(), *post, out@),
        db.reliable() ==> sent is Ok,
{
    let tags = post.tags();
    match db.get_users_subscribed_to_tags(tags.as_slice()) {
        Ok(found) => {
            let out = notifications_for(post, &found);
            assert(answers(db.subscriptions(), tags_of(*post), found@));
            Ok(out)
        },
        Err(error) => Err(error),
    }
}

/// What one fetched post led to: the messages to send, or the error of the
/// store that could not say who follows its tags.
#[derive(Debug)]
pub struct Delivery {
    pub post_id: i32,
    pub notifications: Result<Vec<Notification>, StorageError>,
}

/// What a cycle did.
#[derive(Debug)]
pub enum CycleReport {
    /// The fetch failed: nothing was stored and nothing is to be sent.
    FetchFailed(FetchError),
    /// The stored post index could not be read, so that nothing tells
    /// whether the page is new: nothing was stored and nothing is to be sent.
    IndexUnread(StorageError),
    /// A page was fetched and held against the stored post index.
    Fetched {
        /// What was decided about the post index.
        cursor: CursorDecision,
        /// The error of the store, where the new index could not be written.
        write_error: Option<StorageError>,
        /// One entry for each fetched post, in the order of the page.
        deliveries: Vec<Delivery>,
    },
}

/// `deliveries` holds, for each post of `posts` and in their order, the post's
/// id and, where the store answered, the messages for its followers.
pub open spec fn covers(
    subscriptions: Set<Pair>,
    posts: Seq<Post>,
    deliveries: Seq<Delivery>,
) -> bool {
    &&& deliveries.len() == posts.len()
    &&& forall|i: int|
        0 <= i < deliveries.len() ==> {
            &&& (#[trigger] deliveries[i]).post_id == posts[i].spec_actual_id()
            &&& deliveries[i].notifications matches Ok(out) ==> delivers(
                subscriptions,
                posts[i],
                out@,
            )
        }
}

/// Every entry of `deliveries` holds the messages for its post.
pub open spec fn complete(deliveries: Seq<Delivery>) -> bool {
    forall|i: int| 0 <= i < deliveries.len() ==> (#[trigger] deliveries[i]).notifications is Ok
}

/// What a cycle that fetched `posts` leaves of the post index `before`:
/// the index moves only up, and only to the first post's id; where the
/// write of it failed it may or may not have moved.
pub open spec fn index_follows(
    before: i32,
    after: i32,
    cursor: CursorDecision,
    write_error: Option<StorageError>,
) -> bool {
    match cursor {
        CursorDecision::Advance { to } => {
            ||| after == to
            ||| write_error is Some && after == before
        },
        _ => write_error is None && after == before,
    }
}

/// Runs the part of a cycle that follows the fetch: `fetched` is what the
/// board gave when it was asked for the posts after the stored post index.
///
/// A failed fetch changes nothing, and so does an empty page. Otherwise the
/// stored index is read. Where that fails the cycle ends: nothing is written
/// and nothing is to be sent. Where it succeeds the index is written only if
/// the first post is newer than it, and every post of the page is matched
/// against the store, whatever became of the index. The stored index never
/// goes down. With a reliable store the index is written where it is to move
/// and no post goes without its messages.
pub fn run<D: Database>(db: &mut D, fetched: Result<Vec<Post>, FetchError>) -> (report:
    CycleReport)
    requires
        old(db).valid(),
    ensures
        final(db).valid(),
        final(db).subscriptions() == old(db).subscriptions(),
        final(db).reliable() == old(db).reliable(),
        final(db).has_room() == old(db).has_room(),
        final(db).post_index() >= old(db).post_index(),
        match fetched {
            Err(error) => {
                &&& report == CycleReport::FetchFailed(error)
                &&& final(db).post_index() == old(db).post_index()
            },
            Ok(posts) => match report {
                CycleReport::FetchFailed(_) => false,
                CycleReport::IndexUnread(_) => {
                    &&& posts.len() > 0
                    &&& !old(db).reliable()
                    &&& final(db).post_index() == old(db).post_index()
                },
                CycleReport::Fetched { cursor, write_error, deliveries } => {
                    &&& cursor == decision(old(db).post_index(), posts@)
                    &&& index_follows(
                        old(db).post_index(),
                        final(db).post_index(),
                        cursor,
                        write_error,
                    )
                    &&& write_error is None ==> final(db).post_index() == next_post_index(
                        old(db).post_index(),
                        posts@,
                    )
                    &&& covers(old(db).subscriptions(), posts@, deliveries@)
                    &&& old(db).reliable() ==> write_error is None && complete(deliveries@)
                },
            },
        },
{
    match fetched {
        Err(error) => CycleReport::FetchFailed(error),
        Ok(posts) => {
            if posts.len() == 0 {
                return CycleReport::Fetched {
                    cursor: CursorDecision::Empty,
                    write_error: None,
                    deliveries: Vec::new(),
                };
            }
            let post_index: i32 = match db.get_post_index() {
                Ok(post_index) => post_index,
                Err(error) => {
                    return CycleReport::IndexUnread(error);
                },
            };
            let cursor = decide(post_index, &posts);
            let write_error = match cursor {
                CursorDecision::Advance { to } => match db.set_post_index(to) {
                    Ok(()) => None,
                    Err(error) => Some(error),
                },
                _ => None,
            };
            let mut deliveries: Vec<Delivery> = Vec::new();
            let mut i: usize = 0;
            while i < posts.len()
                invariant
                    i <= posts.len(),
                    db.valid(),
                    db.subscriptions() == old(db).subscriptions(),
                    db.reliable() == old(db).reliable(),
                    db.has_room() == old(db).has_room(),
                    db.reliable() ==> complete(deliveries@),
                    covers(old(db).subscriptions(), posts@.take(i as int), deliveries@),
                decreases posts.len() - i,
            {
                let notifications = notify_users_for_post(&*db, &posts[i]);
                deliveries.push(Delivery { post_id: posts[i].actual_id(), notifications });
                i += 1;
            }
            CycleReport::Fetched { cursor, write_error, deliveries }
        },
    }
}

} // verus!
