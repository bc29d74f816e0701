//! Posts as the board's listing returns them.

use crate::text::{decimal, push_decimal, split, split_on, views};
use vstd::prelude::*;
use vstd::string::StringExecFns;

verus! {

/// Where the board shows a post; the post's id follows.
pub const POST_URL_BASE: &'static str = "https://danbooru.donmai.us/posts/";

/// Where the board lists its posts.
pub const POSTS_URL: &'static str = "https://danbooru.donmai.us/posts.json";

/// How many posts a page of the listing holds at most, as the `limit`
/// parameter of a request.
pub const PAGE_LIMIT: &'static str = "200";

/// The `page` parameter that asks the board for the posts after `after_id`:
/// the letter a, then the id as a decimal numeral.
pub fn page_after(after_id: i32) -> (page: String)
    ensures
        page@ == seq!['a'] + decimal(after_id as int),
{
    let mut page = String::new();
    page.push('a');
    push_decimal(&mut page, after_id);
    page
}

/// One entry of the board's post listing.
#[derive(Debug)]
pub struct Post {
    pub id: Option<i32>,
    pub parent_id: Option<i32>,
    pub tag_string: String,
    pub file_url: Option<String>,
}

impl Post {
    /// The post's tags: the pieces of the tag string between single spaces,
    /// empty pieces included.
    pub fn tags(&self) -> (tags: Vec<String>)
        ensures
            views(tags@) == split(self.tag_string@, ' '),
    {
        split_on(self.tag_string.as_str(), ' ')
    }

    /// The id a post goes by: its own, else its parent's, else 0.
    pub open spec fn spec_actual_id(&self) -> i32 {
        match (self.id, self.parent_id) {
            (Some(id), _) => id,
            (None, Some(parent)) => parent,
            (None, None) => 0,
        }
    }

    /// The id a post goes by: its own, else its parent's, else 0.
    #[verifier::when_used_as_spec(spec_actual_id)]
    pub fn actual_id(&self) -> (id: i32)
        ensures
            id == self.spec_actual_id(),
            self.id is Some ==> id == self.id->0,
            self.id is None && self.parent_id is Some ==> id == self.parent_id->0,
            self.id is None && self.parent_id is None ==> id == 0,
    {
        match self.id {
            Some(id) => id,
            None => match self.parent_id {
                Some(parent) => parent,
                None => 0,
            },
        }
    }

    /// The address of the post's page: the base address, then the id as a
    /// decimal numeral.
    pub open spec fn spec_post_url(&self) -> Seq<char> {
        POST_URL_BASE@ + decimal(self.spec_actual_id() as int)
    }

    /// The address of the post's page on the board.
    pub fn post_url(&self) -> (url: String)
        ensures
            url@ == self.spec_post_url(),
    {
        let mut url = String::from_str(POST_URL_BASE);
        push_decimal(&mut url, self.actual_id());
        url
    }
}

} // verus!
