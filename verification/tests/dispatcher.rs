use danbooru_notifier::api::Post;
use danbooru_notifier::db::Database;
use danbooru_notifier::dispatcher::Dispatcher;
use danbooru_notifier::memory::MemoryDb;
use danbooru_notifier::notifier::{run, CycleReport, Notification};

fn batch(users: &[i64]) -> Vec<Notification> {
    users.iter().map(|user| Notification { user_id: *user, text: format!("to {}", user) }).collect()
}

/// Sends the batch with a transport that fails for the users in `refusing`,
/// and returns the users for whom a send was tried.
fn attempts(mut dispatcher: Dispatcher, refusing: &[i64]) -> (Vec<i64>, Dispatcher) {
    let mut tried = Vec::new();
    loop {
        let user = match dispatcher.next() {
            Some(notification) => notification.user_id,
            None => break,
        };
        tried.push(user);
        dispatcher = dispatcher.record(!refusing.contains(&user));
    }
    (tried, dispatcher)
}

#[test]
fn one_failure_among_three_leaves_the_others_their_attempt() {
    let (tried, dispatcher) = attempts(Dispatcher::new(batch(&[1, 2, 3])), &[2]);
    assert_eq!(tried, vec![1, 2, 3]);
    assert_eq!(dispatcher.failures(), &vec![2]);
}

#[test]
fn failure_of_the_first_or_the_last_stops_nothing() {
    let (tried, dispatcher) = attempts(Dispatcher::new(batch(&[1, 2, 3])), &[1]);
    assert_eq!(tried, vec![1, 2, 3]);
    assert_eq!(dispatcher.failures(), &vec![1]);
    let (tried, dispatcher) = attempts(Dispatcher::new(batch(&[1, 2, 3])), &[3]);
    assert_eq!(tried, vec![1, 2, 3]);
    assert_eq!(dispatcher.failures(), &vec![3]);
}

#[test]
fn every_message_is_tried_once_when_all_fail() {
    let (tried, dispatcher) = attempts(Dispatcher::new(batch(&[4, 5, 6, 7])), &[4, 5, 6, 7]);
    assert_eq!(tried, vec![4, 5, 6, 7]);
    assert_eq!(dispatcher.failures(), &vec![4, 5, 6, 7]);
}

#[test]
fn nothing_fails_when_all_are_delivered() {
    let (tried, dispatcher) = attempts(Dispatcher::new(batch(&[4, 5])), &[]);
    assert_eq!(tried, vec![4, 5]);
    assert!(dispatcher.failures().is_empty());
}

#[test]
fn empty_batch_has_nothing_to_send() {
    let dispatcher = Dispatcher::new(vec![]);
    assert!(dispatcher.next().is_none());
    let dispatcher = dispatcher.record(false);
    assert!(dispatcher.next().is_none());
    assert!(dispatcher.failures().is_empty());
}

#[test]
fn next_stays_the_same_until_an_outcome_is_recorded() {
    let dispatcher = Dispatcher::new(batch(&[8, 9]));
    assert_eq!(dispatcher.next().unwrap().user_id, 8);
    assert_eq!(dispatcher.next().unwrap().text, "to 8");
    let dispatcher = dispatcher.record(true);
    assert_eq!(dispatcher.next().unwrap().user_id, 9);
}

#[test]
fn outcome_recorded_after_the_end_is_ignored() {
    let dispatcher = Dispatcher::new(batch(&[8]));
    let dispatcher = dispatcher.record(true).record(false).record(false);
    assert!(dispatcher.next().is_none());
    assert!(dispatcher.failures().is_empty());
}

#[test]
fn failed_delivery_to_one_of_three_followers_costs_the_others_nothing() {
    let mut db = MemoryDb::new();
    db.create_subscription("a", &1).unwrap();
    db.create_subscription("a", &2).unwrap();
    db.create_subscription("a", &3).unwrap();
    let page = vec![Post {
        id: Some(6),
        parent_id: None,
        tag_string: "a".to_string(),
        file_url: None,
    }];
    let mut deliveries = match run(&mut db, Ok(page)) {
        CycleReport::Fetched { deliveries, .. } => deliveries,
        other => panic!("unexpected report: {:?}", other),
    };
    let notifications = deliveries.remove(0).notifications.unwrap();
    assert_eq!(notifications.len(), 3);

    let (tried, dispatcher) = attempts(Dispatcher::new(notifications), &[2]);
    assert_eq!(tried, vec![1, 2, 3]);
    assert_eq!(dispatcher.failures(), &vec![2]);
    assert_eq!(db.get_post_index(), Ok(6));
}
