//! The reader's records: groups, feeds, their fetch state, items,
//! bookmarks and the login session.
use vstd::prelude::*;

verus! {

/// A snapshot of a bookmarked item.
#[derive(Debug, Clone)]
pub struct Bookmark {
    pub id: i64,
    pub item_id: Option<i64>,
    pub link: String,
    pub title: String,
    pub content: String,
    pub feed_title: String,
    pub pub_date: i64,
    pub created_at: i64,
}

/// A subscribed feed.
#[derive(Debug, Clone)]
pub struct Feed {
    pub id: i64,
    pub group_id: i64,
    pub title: String,
    pub feed_url: String,
    pub site_url: String,
    pub description: String,
    pub suspended: i64,
    pub created_at: i64,
    pub updated_at: i64,
}

/// A feed with its group's name and its number of unread items.
#[derive(Debug, Clone)]
pub struct FeedWithGroup {
    pub id: i64,
    pub group_id: i64,
    pub group_name: String,
    pub title: String,
    pub feed_url: String,
    pub site_url: String,
    pub description: String,
    pub suspended: i64,
    pub unread_count: i64,
}

/// What the last fetches of a feed left behind.
#[derive(Debug, Clone)]
pub struct FeedFetchState {
    pub feed_id: i64,
    pub etag: String,
    pub last_modified: String,
    pub cache_control: String,
    pub expires_at: i64,
    pub retry_after_until: i64,
    pub last_checked_at: i64,
    pub next_check_at: i64,
    pub last_http_status: i64,
    pub last_success_at: i64,
    pub last_error_at: i64,
    pub last_error: String,
    pub consecutive_failures: i64,
}

/// A group of feeds.
#[derive(Debug, Clone)]
pub struct Group {
    pub id: i64,
    pub name: String,
    pub created_at: i64,
    pub updated_at: i64,
}

/// A stored feed item.
#[derive(Debug, Clone)]
pub struct Item {
    pub id: i64,
    pub feed_id: i64,
    pub guid: String,
    pub title: String,
    pub link: String,
    pub content: String,
    pub author: String,
    pub pub_date: i64,
    pub unread: i64,
    pub created_at: i64,
    pub updated_at: i64,
}

/// An item as the reader lists it.
#[derive(Debug, Clone)]
pub struct ItemListEntry {
    pub id: i64,
    pub feed_id: i64,
    pub feed_title: String,
    pub title: String,
    pub link: String,
    pub author: String,
    pub pub_date: i64,
    pub unread: i64,
    pub bookmarked: i64,
}

/// Which items a listing shows.
#[derive(Debug, Clone, Copy, PartialEq, Eq)]
pub enum ItemFilter {
    Unread,
    All,
    Starred,
}

/// A signed-in session, valid until `expires_at` (Unix seconds).
#[derive(Debug, Clone, Copy, PartialEq, Eq)]
pub struct UserSession {
    pub expires_at: i64,
}

} // verus!
