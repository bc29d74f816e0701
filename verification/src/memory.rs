//! A subscription store that lives in memory.

use crate::db::{
    answers, followed, lists, names_followed, Database, NewSubscription, Pair, PostIndex,
    StorageError, Subscription, SubscriptionResult, TAG_SEPARATOR,
};
use crate::text::{join, views};
use vstd::prelude::*;
use vstd::string::StringExecFns;

verus! {

/// A stored subscription with its tag as a text.
pub struct Row {
    pub id: i32,
    pub tag: Seq<char>,
    pub user_id: i64,
}

/// What a store in memory holds: the subscriptions in the order in which
/// they were created, the id that the next one gets, and the post index.
pub struct Store {
    pub rows: Seq<Row>,
    pub next_id: i32,
    pub post_index: i32,
}

/// The row that a subscription stands for.
pub open spec fn row_of(subscription: Subscription) -> Row {
    Row { id: subscription.id, tag: subscription.tag@, user_id: subscription.user_id }
}

impl Store {
    /// The tag and the user of each row, in the order of the rows.
    pub open spec fn pairs(self) -> Seq<Pair> {
        self.rows.map_values(|row: Row| (row.tag, row.user_id))
    }

    /// No pair is stored twice.
    pub open spec fn valid(self) -> bool {
        self.pairs().no_duplicates()
    }

    /// Whether the pair is stored.
    pub open spec fn holds(self, pair: Pair) -> bool {
        self.pairs().contains(pair)
    }

    /// The row of a pair that is stored.
    pub open spec fn row(self, pair: Pair) -> Row {
        self.rows[self.pairs().index_of(pair)]
    }

    /// The store after the creation of a subscription: a pair that is stored
    /// already changes nothing, and neither does one for which no id is left;
    /// any other is added at the end under the next id.
    pub open spec fn create(self, pair: Pair) -> Store {
        if self.holds(pair) || self.next_id == i32::MAX {
            self
        } else {
            Store {
                rows: self.rows.push(Row { id: self.next_id, tag: pair.0, user_id: pair.1 }),
                next_id: (self.next_id + 1) as i32,
                ..self
            }
        }
    }

    /// The store after the removal of a subscription: the pair's row is gone,
    /// and the others keep their order.
    pub open spec fn remove(self, pair: Pair) -> Store {
        if self.holds(pair) {
            Store { rows: self.rows.remove(self.pairs().index_of(pair)), ..self }
        } else {
            self
        }
    }
}

/// The tags among `wanted` that `user` follows, in the order of the rows.
pub open spec fn tags_in_order(rows: Seq<Pair>, wanted: Set<Seq<char>>, user: i64) -> Seq<
    Seq<char>,
>
    decreases rows.len(),
{
    if rows.len() == 0 {
        Seq::empty()
    } else {
        let before = tags_in_order(rows.drop_last(), wanted, user);
        if rows.last().1 == user && wanted.contains(rows.last().0) {
            before.push(rows.last().0)
        } else {
            before
        }
    }
}

/// The index of the first row that holds `user` with a wanted tag, or the
/// number of rows where there is none.
pub open spec fn first_row(rows: Seq<Pair>, wanted: Set<Seq<char>>, user: i64) -> int
    decreases rows.len(),
{
    if rows.len() == 0 {
        0
    } else {
        let before = first_row(rows.drop_last(), wanted, user);
        if before < rows.len() - 1 {
            before
        } else if rows.last().1 == user && wanted.contains(rows.last().0) {
            rows.len() - 1
        } else {
            rows.len() as int
        }
    }
}

/// The user of every row with a wanted tag has a record in `found`.
pub open spec fn covered(
    rows: Seq<Pair>,
    wanted: Set<Seq<char>>,
    found: Seq<SubscriptionResult>,
) -> bool {
    forall|j: int|
        0 <= j < rows.len() && wanted.contains((#[trigger] rows[j]).0) ==> exists|i: int|
            0 <= i < found.len() && (#[trigger] found[i]).user_id == rows[j].1
}

/// Records that cover some rows cover one row more, once the records keep
/// their users and the user of the new row has one.
pub proof fn lemma_covered_grows(
    rows: Seq<Pair>,
    wanted: Set<Seq<char>>,
    before: Seq<SubscriptionResult>,
    found: Seq<SubscriptionResult>,
    at: int,
)
    requires
        rows.len() > 0,
        covered(rows.drop_last(), wanted, before),
        before.len() <= found.len(),
        forall|i: int| 0 <= i < before.len() ==> (#[trigger] found[i]).user_id == before[i].user_id,
        0 <= at < found.len(),
        found[at].user_id == rows.last().1,
    ensures
        covered(rows, wanted, found),
{
    let seen = rows.drop_last();
    assert forall|j: int|
        0 <= j < rows.len() && wanted.contains((#[trigger] rows[j]).0) implies exists|i: int|
        0 <= i < found.len() && (#[trigger] found[i]).user_id == rows[j].1 by {
        if j < seen.len() {
            assert(seen[j] == rows[j]);
            let i = choose|i: int|
                0 <= i < before.len() && (#[trigger] before[i]).user_id == seen[j].1;
            assert(found[i].user_id == rows[j].1);
        } else {
            assert(found[at].user_id == rows[j].1);
        }
    }
}

/// `found` groups the rows with a wanted tag by user. There is one record
/// for each user of such a row; the records stand in the order of their
/// users' first such rows; and a record's text lists the user's wanted tags
/// in the order of the rows.
pub open spec fn groups(
    rows: Seq<Pair>,
    wanted: Set<Seq<char>>,
    found: Seq<SubscriptionResult>,
) -> bool {
    &&& forall|i: int, j: int|
        0 <= i < j < found.len() ==> first_row(rows, wanted, (#[trigger] found[i]).user_id)
            < first_row(rows, wanted, (#[trigger] found[j]).user_id)
    &&& forall|i: int|
        0 <= i < found.len() ==> {
            &&& first_row(rows, wanted, (#[trigger] found[i]).user_id) < rows.len()
            &&& found[i].tags@ == join(
                tags_in_order(rows, wanted, found[i].user_id),
                TAG_SEPARATOR@,
            )
        }
    &&& covered(rows, wanted, found)
}

/// A user has a first row exactly if the user's list is not empty, and the
/// first row holds the user with a wanted tag.
pub proof fn lemma_first_row(rows: Seq<Pair>, wanted: Set<Seq<char>>, user: i64)
    ensures
        0 <= first_row(rows, wanted, user) <= rows.len(),
        first_row(rows, wanted, user) < rows.len() <==> tags_in_order(rows, wanted, user).len()
            > 0,
        first_row(rows, wanted, user) < rows.len() ==> {
            &&& rows[first_row(rows, wanted, user)].1 == user
            &&& wanted.contains(rows[first_row(rows, wanted, user)].0)
        },
    decreases rows.len(),
{
    if rows.len() > 0 {
        lemma_first_row(rows.drop_last(), wanted, user);
    }
}

/// A tag is listed for a user exactly if a row holds the two and the tag is
/// wanted.
pub proof fn lemma_tags_in_order_contains(rows: Seq<Pair>, wanted: Set<Seq<char>>, user: i64)
    ensures
        forall|tag: Seq<char>| #[trigger]
            tags_in_order(rows, wanted, user).contains(tag) <==> wanted.contains(tag)
                && rows.contains((tag, user)),
    decreases rows.len(),
{
    let listed = tags_in_order(rows, wanted, user);
    if rows.len() > 0 {
        let before = tags_in_order(rows.drop_last(), wanted, user);
        lemma_tags_in_order_contains(rows.drop_last(), wanted, user);
        assert forall|tag: Seq<char>| #[trigger]
            listed.contains(tag) <==> wanted.contains(tag) && rows.contains((tag, user)) by {
            if listed.contains(tag) {
                let k = choose|k: int| 0 <= k < listed.len() && listed[k] == tag;
                if k < before.len() {
                    assert(before.contains(tag));
                    let j = choose|j: int|
                        0 <= j < rows.drop_last().len() && rows.drop_last()[j] == (tag, user);
                    assert(rows[j] == (tag, user));
                }
            }
            if wanted.contains(tag) && rows.contains((tag, user)) {
                let j = choose|j: int| 0 <= j < rows.len() && rows[j] == (tag, user);
                if j < rows.len() - 1 {
                    assert(rows.drop_last()[j] == (tag, user));
                    assert(before.contains(tag));
                    let k = choose|k: int| 0 <= k < before.len() && before[k] == tag;
                    assert(listed[k] == tag);
                } else {
                    assert(listed[listed.len() - 1] == tag);
                }
            }
        }
    }
}

/// Where no pair is stored twice, a user's list names each followed tag
/// once.
pub proof fn lemma_tags_in_order_lists(rows: Seq<Pair>, wanted: Set<Seq<char>>, user: i64)
    requires
        rows.no_duplicates(),
    ensures
        lists(tags_in_order(rows, wanted, user), followed(rows.to_set(), wanted, user)),
    decreases rows.len(),
{
    lemma_tags_in_order_contains(rows, wanted, user);
    if rows.len() > 0 {
        let before = tags_in_order(rows.drop_last(), wanted, user);
        lemma_tags_in_order_lists(rows.drop_last(), wanted, user);
        lemma_tags_in_order_contains(rows.drop_last(), wanted, user);
        if rows.last().1 == user && wanted.contains(rows.last().0) {
            if before.contains(rows.last().0) {
                let j = choose|j: int|
                    0 <= j < rows.drop_last().len() && rows.drop_last()[j] == (
                        rows.last().0,
                        user,
                    );
                assert(rows[j] == rows[rows.len() - 1]);
            }
        }
    }
}

/// Rows without a repeated pair, grouped, answer the question who follows
/// any of the wanted tags.
pub proof fn lemma_groups_answers(
    rows: Seq<Pair>,
    wanted: Set<Seq<char>>,
    found: Seq<SubscriptionResult>,
)
    requires
        rows.no_duplicates(),
        groups(rows, wanted, found),
    ensures
        answers(rows.to_set(), wanted, found),
{
    assert forall|i: int| 0 <= i < found.len() implies names_followed(
        rows.to_set(),
        wanted,
        #[trigger] found[i],
    ) by {
        lemma_tags_in_order_lists(rows, wanted, found[i].user_id);
        lemma_first_row(rows, wanted, found[i].user_id);
    }
}

/// The pairs of a store with one more row: the old pairs and the new one,
/// which is stored once where it was not stored before.
pub proof fn lemma_create(store: Store, pair: Pair)
    requires
        store.valid(),
    ensures
        store.create(pair).valid(),
        store.create(pair).holds(pair) || store.next_id == i32::MAX,
        store.create(pair).pairs().to_set() == if store.create(pair) == store {
            store.pairs().to_set()
        } else {
            store.pairs().to_set().insert(pair)
        },
        store.create(pair).holds(pair) ==> store.create(pair).row(pair).tag == pair.0
            && store.create(pair).row(pair).user_id == pair.1,
        !store.holds(pair) && store.next_id < i32::MAX ==> store.create(pair).row(pair).id
            == store.next_id,
        store.holds(pair) ==> store.create(pair).row(pair) == store.row(pair),
{
    if !store.holds(pair) && store.next_id < i32::MAX {
        let pairs = store.pairs();
        let grown = store.create(pair).pairs();
        assert(grown =~= pairs.push(pair));
        assert forall|other: Pair| grown.contains(other) <==> pairs.contains(other) || other
            == pair by {
            if pairs.contains(other) {
                let j = choose|j: int| 0 <= j < pairs.len() && pairs[j] == other;
                assert(grown[j] == other);
            }
            assert(grown[grown.len() - 1] == pair);
        }
    }
}

/// The pairs of a store without a pair's row: the old pairs but that one.
pub proof fn lemma_remove(store: Store, pair: Pair)
    requires
        store.valid(),
    ensures
        store.remove(pair).valid(),
        !store.remove(pair).holds(pair),
        store.remove(pair).pairs().to_set() == store.pairs().to_set().remove(pair),
{
    let pairs = store.pairs();
    if store.holds(pair) {
        let k = pairs.index_of(pair);
        let fewer = store.remove(pair).pairs();
        assert(fewer =~= pairs.remove(k));
        assert forall|other: Pair| fewer.contains(other) <==> pairs.contains(other) && other
            != pair by {
            if pairs.contains(other) && other != pair {
                let j = choose|j: int| 0 <= j < pairs.len() && pairs[j] == other;
                if j < k {
                    assert(fewer[j] == other);
                } else {
                    assert(fewer[j - 1] == other);
                }
            }
        }
    }
}

/// A store in memory. It holds no pair twice: storing one again changes
/// nothing. New subscriptions get ids that count up.
pub struct MemoryDb {
    rows: Vec<Subscription>,
    next_id: i32,
    index: Option<PostIndex>,
}

impl View for MemoryDb {
    type V = Store;

    closed spec fn view(&self) -> Store {
        Store {
            rows: self.rows@.map_values(|row: Subscription| row_of(row)),
            next_id: self.next_id,
            post_index: match self.index {
                Some(row) => row.last_seen_post,
                None => 0,
            },
        }
    }
}

fn holds_tag(tags: &[String], tag: &String) -> (held: bool)
    ensures
        held == views(tags@).to_set().contains(tag@),
{
    let mut k: usize = 0;
    while k < tags.len()
        invariant
            k <= tags.len(),
            forall|j: int| 0 <= j < k ==> tags@[j]@ != tag@,
        decreases tags.len() - k,
    {
        if tags[k] == *tag {
            assert(views(tags@)[k as int] == tag@);
            return true;
        }
        k += 1;
    }
    false
}

fn record_of(found: &Vec<SubscriptionResult>, user_id: i64) -> (at: Option<usize>)
    ensures
        at matches Some(k) ==> k < found.len() && found[k as int].user_id == user_id,
        at is None ==> forall|i: int| 0 <= i < found.len() ==> found[i].user_id != user_id,
{
    let mut k: usize = 0;
    while k < found.len()
        invariant
            k <= found.len(),
            forall|i: int| 0 <= i < k ==> found[i].user_id != user_id,
        decreases found.len() - k,
    {
        if found[k].user_id == user_id {
            return Some(k);
        }
        k += 1;
    }
    None
}

fn stored(id: i32, new: &NewSubscription) -> (row: Subscription)
    ensures
        row_of(row) == (Row { id, tag: new.tag@, user_id: *new.user_id }),
{
    Subscription { id, tag: String::from_str(new.tag), user_id: *new.user_id }
}

fn copy_of(row: &Subscription) -> (copy: Subscription)
    ensures
        row_of(copy) == row_of(*row),
{
    Subscription { id: row.id, tag: row.tag.clone(), user_id: row.user_id }
}

impl MemoryDb {
    /// An empty store whose post index is unset and whose ids start at 1.
    pub fn new() -> (db: MemoryDb)
        ensures
            db.valid(),
            db@ == (Store { rows: Seq::empty(), next_id: 1, post_index: 0 }),
    {
        MemoryDb::starting_at(1)
    }

    /// An empty store whose post index is unset and whose ids start at
    /// `first_id`.
    pub fn starting_at(first_id: i32) -> (db: MemoryDb)
        ensures
            db.valid(),
            db@ == (Store { rows: Seq::empty(), next_id: first_id, post_index: 0 }),
    {
        let db = MemoryDb { rows: Vec::new(), next_id: first_id, index: None };
        assert(db@.rows =~= Seq::<Row>::empty());
        db
    }

    fn position(&self, tag: &str, user_id: i64) -> (at: Option<usize>)
        requires
            self@.valid(),
        ensures
            at is Some <==> self@.holds((tag@, user_id)),
            at matches Some(k) ==> k == self@.pairs().index_of((tag@, user_id)) && k
                < self.rows.len(),
    {
        let ghost pairs = self@.pairs();
        let wanted = String::from_str(tag);
        let mut k: usize = 0;
        while k < self.rows.len()
            invariant
                k <= self.rows.len(),
                wanted@ == tag@,
                pairs == self@.pairs(),
                pairs.no_duplicates(),
                forall|j: int| 0 <= j < k ==> pairs[j] != (tag@, user_id),
            decreases self.rows.len() - k,
        {
            if self.rows[k].user_id == user_id && self.rows[k].tag == wanted {
                assert(pairs[k as int] == (tag@, user_id));
                return Some(k);
            }
            k += 1;
        }
        None
    }
}

impl Database for MemoryDb {
    open spec fn valid(&self) -> bool {
        self@.valid()
    }

    open spec fn subscriptions(&self) -> Set<Pair> {
        self@.pairs().to_set()
    }

    open spec fn post_index(&self) -> i32 {
        self@.post_index
    }

    open spec fn reliable(&self) -> bool {
        true
    }

    open spec fn has_room(&self) -> bool {
        self@.next_id < i32::MAX
    }

    /// Fails only where the pair is not stored yet and no id is left for it.
    fn create_subscription(&mut self, tag: &str, user_id: &i64) -> (created: Result<
        Subscription,
        StorageError,
    >)
        ensures
            final(self)@ == old(self)@.create((tag@, *user_id)),
            created is Ok <==> final(self)@.holds((tag@, *user_id)),
            created matches Ok(subscription) ==> row_of(subscription) == final(self)@.row(
                (tag@, *user_id),
            ),
            created matches Err(error) ==> error == StorageError::Write,
    {
        proof {
            lemma_create(self@, (tag@, *user_id));
        }
        match self.position(tag, *user_id) {
            Some(k) => Ok(copy_of(&self.rows[k])),
            None => {
                if self.next_id == i32::MAX {
                    return Err(StorageError::Write);
                }
                let new = NewSubscription { tag, user_id };
                let row = stored(self.next_id, &new);
                let subscription = stored(self.next_id, &new);
                self.rows.push(row);
                self.next_id = self.next_id + 1;
                assert(self@.rows =~= old(self)@.create((tag@, *user_id)).rows);
                Ok(subscription)
            },
        }
    }

    /// Never fails.
    fn remove_subscription(&mut self, tag: &str, user_id: &i64) -> (removed: Result<
        bool,
        StorageError,
    >)
        ensures
            removed is Ok,
            final(self)@ == old(self)@.remove((tag@, *user_id)),
    {
        proof {
            lemma_remove(self@, (tag@, *user_id));
        }
        match self.position(tag, *user_id) {
            Some(k) => {
                self.rows.remove(k);
                assert(self@.rows =~= old(self)@.remove((tag@, *user_id)).rows);
                Ok(true)
            },
            None => Ok(false),
        }
    }

    /// The stored subscription, if there is one.
    fn get_subscription(&self, tag: &str, user_id: &i64) -> (stored: Option<Subscription>)
        ensures
            stored is Some <==> self@.holds((tag@, *user_id)),
            stored matches Some(subscription) ==> row_of(subscription) == self@.row(
                (tag@, *user_id),
            ),
    {
        match self.position(tag, *user_id) {
            Some(k) => Some(copy_of(&self.rows[k])),
            None => None,
        }
    }

    /// Never fails.
    fn has_subscription(&self, tag: &str, user_id: &i64) -> (stored: Result<bool, StorageError>)
        ensures
            stored is Ok,
    {
        Ok(self.position(tag, *user_id).is_some())
    }

    /// Never fails. The records stand in the order in which their users
    /// first subscribed to one of the tags, and a record's text lists the
    /// tags in the order in which the user subscribed to them.
    fn get_users_subscribed_to_tags(&self, tags: &[String]) -> (found: Result<
        Vec<SubscriptionResult>,
        StorageError,
    >)
        ensures
            found matches Ok(records) && groups(
                self@.pairs(),
                views(tags@).to_set(),
                records@,
            ),
    {
        let ghost wanted = views(tags@).to_set();
        let ghost pairs = self@.pairs();
        let mut found: Vec<SubscriptionResult> = Vec::new();
        let mut r: usize = 0;
        while r < self.rows.len()
            invariant
                r <= self.rows.len(),
                wanted == views(tags@).to_set(),
                pairs == self@.pairs(),
                groups(pairs.take(r as int), wanted, found@),
            decreases self.rows.len() - r,
        {
            let row = &self.rows[r];
            let ghost seen = pairs.take(r as int);
            let ghost next = pairs.take(r as int + 1);
            let ghost before = found@;
            proof {
                assert(next.drop_last() =~= seen);
                lemma_first_row(seen, wanted, row.user_id);
            }
            if holds_tag(tags, &row.tag) {
                match record_of(&found, row.user_id) {
                    Some(k) => {
                        let mut text = found[k].tags.clone();
                        text.append(TAG_SEPARATOR);
                        text.append(row.tag.as_str());
                        found.set(k, SubscriptionResult { user_id: row.user_id, tags: text });
                        proof {
                            assert(tags_in_order(next, wanted, row.user_id).drop_last()
                                =~= tags_in_order(seen, wanted, row.user_id));
                            lemma_covered_grows(next, wanted, before, found@, k as int);
                        }
                    },
                    None => {
                        found.push(
                            SubscriptionResult { user_id: row.user_id, tags: row.tag.clone() },
                        );
                        proof {
                            lemma_covered_grows(next, wanted, before, found@, found.len() - 1);
                        }
                    },
                }
            }
            r += 1;
        }
        proof {
            assert(pairs.take(r as int) =~= pairs);
            lemma_groups_answers(pairs, wanted, found@);
        }
        Ok(found)
    }

    /// Never fails.
    fn get_post_index(&self) -> (index: Result<i32, StorageError>)
        ensures
            index is Ok,
    {
        match self.index {
            Some(row) => Ok(row.last_seen_post),
            None => Ok(0),
        }
    }

    /// Never fails.
    fn set_post_index(&mut self, post_id: i32) -> (stored: Result<(), StorageError>)
        ensures
            stored is Ok,
            final(self)@ == (Store { post_index: post_id, ..old(self)@ }),
    {
        self.index = Some(PostIndex { id: 1, last_seen_post: post_id });
        Ok(())
    }
}

} // verus!
