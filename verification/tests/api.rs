use danbooru_notifier::api::{page_after, Post, PAGE_LIMIT, POSTS_URL, POST_URL_BASE};

#[test]
fn tags_splits_tag_string_correctly() {
    let post = Post {
        id: Some(1),
        parent_id: Some(2),
        tag_string: "tag1 tag2 tag3".to_string(),
        file_url: None,
    };

    assert_eq!(post.tags(), vec!["tag1", "tag2", "tag3"]);
}

#[test]
fn actual_id_returns_id_if_present() {
    let post = Post {
        id: Some(1),
        parent_id: None,
        tag_string: "".to_string(),
        file_url: None,
    };

    assert_eq!(post.actual_id(), 1);
}

#[test]
fn actual_id_returns_parent_id_if_no_id() {
    let post = Post {
        id: None,
        parent_id: Some(1),
        tag_string: "".to_string(),
        file_url: None,
    };

    assert_eq!(post.actual_id(), 1);
}

#[test]
fn post_url_returns_correct_url() {
    let post = Post {
        id: Some(1),
        parent_id: Some(2),
        tag_string: "".to_string(),
        file_url: None,
    };

    assert_eq!(post.post_url(), "https://danbooru.donmai.us/posts/1");
}

fn post(id: Option<i32>, parent_id: Option<i32>, tag_string: &str) -> Post {
    Post { id, parent_id, tag_string: tag_string.to_string(), file_url: None }
}

#[test]
fn actual_id_prefers_id_over_parent() {
    assert_eq!(post(Some(7), Some(3), "").actual_id(), 7);
    assert_eq!(post(Some(-4), Some(3), "").actual_id(), -4);
    assert_eq!(post(Some(0), Some(3), "").actual_id(), 0);
}

#[test]
fn actual_id_is_zero_without_id_and_parent() {
    assert_eq!(post(None, None, "a b").actual_id(), 0);
}

#[test]
fn tags_keep_order_and_count() {
    assert_eq!(post(None, None, "a b c").tags(), vec!["a", "b", "c"]);
    assert_eq!(post(None, None, "c b a b").tags(), vec!["c", "b", "a", "b"]);
    assert_eq!(post(None, None, "solo").tags(), vec!["solo"]);
}

#[test]
fn tags_of_an_empty_tag_string_is_one_empty_tag() {
    assert_eq!(post(None, None, "").tags(), vec![""]);
}

#[test]
fn tags_keep_empty_pieces() {
    assert_eq!(post(None, None, "a  b").tags(), vec!["a", "", "b"]);
    assert_eq!(post(None, None, " a").tags(), vec!["", "a"]);
    assert_eq!(post(None, None, "a ").tags(), vec!["a", ""]);
    assert_eq!(post(None, None, " ").tags(), vec!["", ""]);
}

#[test]
fn tags_split_on_spaces_only() {
    assert_eq!(post(None, None, "a\tb c\nd").tags(), vec!["a\tb", "c\nd"]);
    assert_eq!(post(None, None, "é ü").tags(), vec!["é", "ü"]);
}

#[test]
fn tags_joined_by_spaces_give_the_tag_string_back() {
    for text in ["", " ", "a", "a b", " a  b ", "x y z "] {
        let tags = post(None, None, text).tags();
        assert_eq!(tags.join(" "), text);
        assert_eq!(tags.len(), text.matches(' ').count() + 1);
        assert!(tags.iter().all(|tag| !tag.contains(' ')));
    }
}

#[test]
fn post_url_uses_parent_id_without_id() {
    assert_eq!(post(None, Some(42), "").post_url(), "https://danbooru.donmai.us/posts/42");
    assert_eq!(post(None, None, "").post_url(), "https://danbooru.donmai.us/posts/0");
}

#[test]
fn post_url_writes_the_id_in_decimal() {
    assert_eq!(post(Some(10), None, "").post_url(), "https://danbooru.donmai.us/posts/10");
    assert_eq!(post(Some(907), None, "").post_url(), "https://danbooru.donmai.us/posts/907");
    assert_eq!(
        post(Some(1234567890), None, "").post_url(),
        "https://danbooru.donmai.us/posts/1234567890"
    );
    assert_eq!(
        post(Some(i32::MAX), None, "").post_url(),
        "https://danbooru.donmai.us/posts/2147483647"
    );
    assert_eq!(post(Some(-5), None, "").post_url(), "https://danbooru.donmai.us/posts/-5");
    assert_eq!(
        post(Some(i32::MIN), None, "").post_url(),
        "https://danbooru.donmai.us/posts/-2147483648"
    );
}

#[test]
fn post_url_agrees_with_the_standard_numeral() {
    for id in [0, 1, 9, 10, 11, 99, 100, 101, 5000, -1, -10, -99, 65536, -65536] {
        assert_eq!(
            post(Some(id), None, "").post_url(),
            format!("https://danbooru.donmai.us/posts/{}", id)
        );
    }
}

#[test]
fn page_after_is_the_letter_a_and_the_id() {
    assert_eq!(page_after(0), "a0");
    assert_eq!(page_after(123), "a123");
    assert_eq!(page_after(-1), "a-1");
    assert_eq!(page_after(i32::MAX), "a2147483647");
}

#[test]
fn listing_address_and_page_size() {
    assert_eq!(POSTS_URL, "https://danbooru.donmai.us/posts.json");
    assert_eq!(PAGE_LIMIT, "200");
    assert_eq!(POST_URL_BASE, "https://danbooru.donmai.us/posts/");
}
