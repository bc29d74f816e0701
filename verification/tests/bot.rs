use danbooru_notifier::bot::{
    answer, carry_out, is_white_space, tag_has_spaces, AnswerError, Command, Reply,
};
use danbooru_notifier::db::{Database, StorageError, Subscription, SubscriptionResult};
use danbooru_notifier::memory::MemoryDb;

fn text(reply: &Reply) -> String {
    reply.text("the commands")
}

#[test]
fn help_is_answered_with_the_commands() {
    let mut db = MemoryDb::new();
    let reply = answer(&mut db, Some(1), Command::Help).unwrap();
    assert!(matches!(reply, Reply::Help));
    assert_eq!(text(&reply), "the commands");
}

#[test]
fn subscribe_stores_the_tag_in_lower_case() {
    let mut db = MemoryDb::new();
    let reply = answer(&mut db, Some(1), Command::Subscribe("Long_Hair".to_string())).unwrap();
    assert_eq!(text(&reply), "Subscribed to long_hair");
    assert_eq!(db.has_subscription("long_hair", &1), Ok(true));
    assert_eq!(db.has_subscription("Long_Hair", &1), Ok(false));
}

#[test]
fn subscribe_twice_is_answered_differently() {
    let mut db = MemoryDb::new();
    answer(&mut db, Some(1), Command::Subscribe("cat".to_string())).unwrap();
    let reply = answer(&mut db, Some(1), Command::Subscribe("CAT".to_string())).unwrap();
    assert!(matches!(reply, Reply::AlreadySubscribed(_)));
    assert_eq!(text(&reply), "You are already subscribed to cat");
    let found = db.get_users_subscribed_to_tags(&["cat".to_string()]).unwrap();
    assert_eq!(found.len(), 1);
    assert_eq!(found[0].tags, "cat");
}

#[test]
fn subscribe_is_per_user() {
    let mut db = MemoryDb::new();
    answer(&mut db, Some(1), Command::Subscribe("cat".to_string())).unwrap();
    let reply = answer(&mut db, Some(2), Command::Subscribe("cat".to_string())).unwrap();
    assert_eq!(text(&reply), "Subscribed to cat");
}

#[test]
fn subscribe_to_a_tag_with_a_space_is_turned_down() {
    let mut db = MemoryDb::new();
    let reply = answer(&mut db, Some(1), Command::Subscribe("long hair".to_string())).unwrap();
    assert!(matches!(reply, Reply::SpacesInTag));
    assert_eq!(
        text(&reply),
        "Tags cannot contain spaces; use underscores if you are trying to subscribe to a tag with multiple words"
    );
    assert_eq!(db.has_subscription("long hair", &1), Ok(false));
}

#[test]
fn unsubscribe_removes_the_subscription() {
    let mut db = MemoryDb::new();
    answer(&mut db, Some(1), Command::Subscribe("cat".to_string())).unwrap();
    let reply = answer(&mut db, Some(1), Command::Unsubscribe("Cat".to_string())).unwrap();
    assert!(matches!(reply, Reply::Unsubscribed(_)));
    assert_eq!(text(&reply), "Unsubscribed from cat");
    assert_eq!(db.has_subscription("cat", &1), Ok(false));
}

#[test]
fn unsubscribe_without_subscription_says_so() {
    let mut db = MemoryDb::new();
    answer(&mut db, Some(2), Command::Subscribe("cat".to_string())).unwrap();
    let reply = answer(&mut db, Some(1), Command::Unsubscribe("cat".to_string())).unwrap();
    assert!(matches!(reply, Reply::NotSubscribed(_)));
    assert_eq!(text(&reply), "You're not subscribed to cat");
    assert_eq!(db.has_subscription("cat", &2), Ok(true));
}

#[test]
fn replies_for_a_stored_and_a_new_tag() {
    assert_eq!(text(&Reply::to_subscribe("a".to_string(), true)), "You are already subscribed to a");
    assert_eq!(text(&Reply::to_subscribe("a".to_string(), false)), "Subscribed to a");
    assert_eq!(text(&Reply::to_unsubscribe("a".to_string(), true)), "Unsubscribed from a");
    assert_eq!(text(&Reply::to_unsubscribe("a".to_string(), false)), "You're not subscribed to a");
}

#[test]
fn space_inside_a_tag_is_found() {
    assert!(tag_has_spaces("a b"));
    assert!(tag_has_spaces("  a b  "));
    assert!(tag_has_spaces("a  b"));
    assert!(tag_has_spaces("\ta b\n"));
    assert!(tag_has_spaces("a \tb"));
}

#[test]
fn white_space_at_the_ends_counts() {
    assert!(!tag_has_spaces(""));
    assert!(!tag_has_spaces("a"));
    assert!(!tag_has_spaces("long_hair"));
    assert!(tag_has_spaces(" "));
    assert!(tag_has_spaces(" a"));
    assert!(tag_has_spaces("a "));
    assert!(tag_has_spaces("cat "));
    assert!(tag_has_spaces("  ab  "));
    assert!(tag_has_spaces("ab\n"));
    assert!(tag_has_spaces("\u{3000}ab"));
}

#[test]
fn any_white_space_counts_inside() {
    assert!(tag_has_spaces("a\tb"));
    assert!(tag_has_spaces("a\nb"));
    assert!(tag_has_spaces("a\u{a0}b"));
    assert!(tag_has_spaces("a\u{2003}b"));
    assert!(!tag_has_spaces("a_b"));
    assert!(!tag_has_spaces("a\u{200b}b"));
}

#[test]
fn tag_has_spaces_agrees_with_the_white_space_of_its_characters() {
    for tag in ["", " ", "a b", " a", "a ", " a b ", "\u{2003}a b", "ab\u{85}", "x\r\ny", "xy"] {
        assert_eq!(tag_has_spaces(tag), tag.chars().any(|c| c.is_whitespace()));
    }
}

#[test]
fn subscribe_to_a_tag_with_any_white_space_is_turned_down() {
    let mut db = MemoryDb::new();
    for tag in ["a\tb", "cat ", " cat", "A\nB", "\u{a0}", " "] {
        let reply = answer(&mut db, Some(1), Command::Subscribe(tag.to_string())).unwrap();
        assert!(matches!(reply, Reply::SpacesInTag), "{:?}", tag);
        assert_eq!(db.has_subscription(tag, &1), Ok(false));
        assert_eq!(db.has_subscription(&tag.to_lowercase(), &1), Ok(false));
        assert_eq!(db.has_subscription(tag.trim(), &1), Ok(false));
    }
    let reply = carry_out(&mut db, Some(1), Command::Subscribe("cat ".to_string())).unwrap();
    assert!(matches!(reply, Reply::SpacesInTag));
    assert_eq!(db.create_subscription("dog", &1).unwrap().id, 1);
}

#[test]
fn no_command_brings_white_space_into_the_store() {
    let mut db = MemoryDb::new();
    let tags = ["cat", "Long Hair", "a\tb", "dog ", "BLUE_eyes", " x", "q\u{2028}"];
    for (user, tag) in tags.iter().enumerate() {
        let _ = answer(&mut db, Some(user as i64), Command::Subscribe(tag.to_string()));
        let _ = answer(&mut db, Some(user as i64), Command::Unsubscribe("dog".to_string()));
    }
    let asked: Vec<String> =
        tags.iter().flat_map(|tag| [tag.to_string(), tag.to_lowercase()]).collect();
    let found = db.get_users_subscribed_to_tags(&asked).unwrap();
    let stored: Vec<(i64, String)> =
        found.into_iter().map(|record| (record.user_id, record.tags)).collect();
    assert_eq!(stored, vec![(0, "cat".to_string()), (4, "blue_eyes".to_string())]);
}

/// A store that answers no question and stores nothing.
struct Down;

impl Database for Down {
    fn create_subscription(&mut self, _: &str, _: &i64) -> Result<Subscription, StorageError> {
        Err(StorageError::Write)
    }

    fn remove_subscription(&mut self, _: &str, _: &i64) -> Result<bool, StorageError> {
        Err(StorageError::Write)
    }

    fn get_subscription(&self, _: &str, _: &i64) -> Option<Subscription> {
        None
    }

    fn has_subscription(&self, _: &str, _: &i64) -> Result<bool, StorageError> {
        Err(StorageError::Read)
    }

    fn get_users_subscribed_to_tags(
        &self,
        _: &[String],
    ) -> Result<Vec<SubscriptionResult>, StorageError> {
        Err(StorageError::Read)
    }

    fn get_post_index(&self) -> Result<i32, StorageError> {
        Err(StorageError::Read)
    }

    fn set_post_index(&mut self, _: i32) -> Result<(), StorageError> {
        Err(StorageError::Write)
    }
}

#[test]
fn store_error_ends_the_command() {
    let mut db = Down;
    assert_eq!(
        answer(&mut db, Some(1), Command::Subscribe("cat".to_string())).unwrap_err(),
        AnswerError::Storage(StorageError::Read)
    );
    assert_eq!(
        answer(&mut db, Some(1), Command::Unsubscribe("cat".to_string())).unwrap_err(),
        AnswerError::Storage(StorageError::Read)
    );
}

#[test]
fn commands_that_need_no_store_are_answered_without_it() {
    let mut db = Down;
    assert!(matches!(answer(&mut db, Some(1), Command::Help), Ok(Reply::Help)));
    assert!(matches!(
        answer(&mut db, Some(1), Command::Subscribe("a b".to_string())),
        Ok(Reply::SpacesInTag)
    ));
}

#[test]
fn subscribe_fails_when_the_store_has_no_id_left() {
    let mut db = MemoryDb::starting_at(i32::MAX);
    assert_eq!(
        answer(&mut db, Some(1), Command::Subscribe("cat".to_string())).unwrap_err(),
        AnswerError::Storage(StorageError::Write)
    );
    assert_eq!(db.has_subscription("cat", &1), Ok(false));
}

#[test]
fn command_without_sender_fails_where_a_user_is_needed() {
    let mut db = MemoryDb::new();
    assert_eq!(
        answer(&mut db, None, Command::Subscribe("cat".to_string())).unwrap_err(),
        AnswerError::NoSender
    );
    assert_eq!(
        answer(&mut db, None, Command::Unsubscribe("cat".to_string())).unwrap_err(),
        AnswerError::NoSender
    );
    assert_eq!(
        answer(&mut db, None, Command::Unsubscribe("long hair".to_string())).unwrap_err(),
        AnswerError::NoSender
    );
    assert!(db.get_users_subscribed_to_tags(&["cat".to_string()]).unwrap().is_empty());
}

#[test]
fn command_without_sender_is_answered_where_no_user_is_needed() {
    let mut db = MemoryDb::new();
    assert!(matches!(answer(&mut db, None, Command::Help), Ok(Reply::Help)));
    assert!(matches!(
        answer(&mut db, None, Command::Subscribe("Long Hair".to_string())),
        Ok(Reply::SpacesInTag)
    ));
}

#[test]
fn normalized_command_has_its_tag_in_lower_case() {
    assert!(matches!(Command::Help.normalized(), Command::Help));
    match Command::Subscribe("Blue_EYES".to_string()).normalized() {
        Command::Subscribe(tag) => assert_eq!(tag, "blue_eyes"),
        other => panic!("unexpected command: {:?}", other),
    }
    match Command::Unsubscribe("ÄÖ x".to_string()).normalized() {
        Command::Unsubscribe(tag) => assert_eq!(tag, "äö x"),
        other => panic!("unexpected command: {:?}", other),
    }
}

#[test]
fn carry_out_takes_the_tag_as_it_stands() {
    let mut db = MemoryDb::new();
    let reply = carry_out(&mut db, Some(1), Command::Subscribe("Cat".to_string())).unwrap();
    assert_eq!(text(&reply), "Subscribed to Cat");
    assert_eq!(db.has_subscription("Cat", &1), Ok(true));
    assert_eq!(db.has_subscription("cat", &1), Ok(false));
    let reply = carry_out(&mut db, Some(1), Command::Unsubscribe("cat".to_string())).unwrap();
    assert_eq!(text(&reply), "You're not subscribed to cat");
}

#[test]
fn white_space_is_what_the_standard_library_takes_for_it() {
    for code in 0..=0x10ffff_u32 {
        if let Some(c) = char::from_u32(code) {
            assert_eq!(is_white_space(c), c.is_whitespace(), "U+{:04X}", code);
        }
    }
}
