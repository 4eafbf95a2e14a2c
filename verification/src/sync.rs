//! The decisions of syncing the history: paging through it and keeping the
//! cursor and head index, from what each page reports.
use vstd::prelude::*;

verus! {

/// What a history page reports: how many items it holds, the content size
/// at its end and the latest one, and the server's current item index.
#[derive(Debug, Clone, Copy)]
pub struct PageInfo {
    pub item_count: usize,
    pub end_total_content_size: Option<i64>,
    pub latest_total_content_size: Option<i64>,
    pub current_item_index: Option<i64>,
}

/// What follows a page: where the next page starts, the head index now
/// known, whether paging is over, and whether the cursor is written.
#[derive(Debug, Clone, Copy, PartialEq, Eq, Structural)]
pub struct PageOutcome {
    pub next_start_index: i64,
    pub head_index: i64,
    pub done: bool,
    pub write_cursor: bool,
}

/// The outcome of a page while appending to the local log: the start moves
/// past the page's items (and the cursor is written) when it has some; the
/// head index is the page's, or stays; paging ends on an empty page or when
/// the end size reaches the latest (a missing size counts as zero).
pub open spec fn log_page_outcome(start_index: i64, head_index: i64, page: PageInfo) -> PageOutcome {
    let end = match page.end_total_content_size { Some(e) => e, None => 0 };
    let latest = match page.latest_total_content_size { Some(l) => l, None => 0 };
    PageOutcome {
        next_start_index: if page.item_count > 0 { (start_index + page.item_count) as i64 } else { start_index },
        head_index: match page.current_item_index { Some(c) => c, None => head_index },
        done: page.item_count == 0 || end >= latest,
        write_cursor: page.item_count > 0,
    }
}

/// Decides what follows a page while appending to the local log.
pub fn log_page_step(start_index: i64, head_index: i64, page: &PageInfo) -> (r: PageOutcome)
    requires
        page.item_count <= i64::MAX,
        start_index + page.item_count <= i64::MAX,
    ensures
        r == log_page_outcome(start_index, head_index, *page),
{
    let end = match page.end_total_content_size {
        Some(e) => e,
        None => 0,
    };
    let latest = match page.latest_total_content_size {
        Some(l) => l,
        None => 0,
    };
    let next = if page.item_count > 0 {
        start_index + page.item_count as i64
    } else {
        start_index
    };
    PageOutcome {
        next_start_index: next,
        head_index: match page.current_item_index {
            Some(c) => c,
            None => head_index,
        },
        done: page.item_count == 0 || end >= latest,
        write_cursor: page.item_count > 0,
    }
}

/// The outcome of a page while reading the whole history into memory: the
/// start moves past the page's items; paging ends when the end size reaches
/// the latest.
pub open spec fn full_page_outcome(start_index: i64, head_index: i64, page: PageInfo) -> PageOutcome {
    let end = match page.end_total_content_size { Some(e) => e, None => 0 };
    let latest = match page.latest_total_content_size { Some(l) => l, None => 0 };
    PageOutcome {
        next_start_index: (start_index + page.item_count) as i64,
        head_index: match page.current_item_index { Some(c) => c, None => head_index },
        done: end >= latest,
        write_cursor: false,
    }
}

/// Decides what follows a page while reading the whole history.
pub fn full_page_step(start_index: i64, head_index: i64, page: &PageInfo) -> (r: PageOutcome)
    requires
        page.item_count <= i64::MAX,
        start_index + page.item_count <= i64::MAX,
    ensures
        r == full_page_outcome(start_index, head_index, *page),
{
    let end = match page.end_total_content_size {
        Some(e) => e,
        None => 0,
    };
    let latest = match page.latest_total_content_size {
        Some(l) => l,
        None => 0,
    };
    PageOutcome {
        next_start_index: start_index + page.item_count as i64,
        head_index: match page.current_item_index {
            Some(c) => c,
            None => head_index,
        },
        done: end >= latest,
        write_cursor: false,
    }
}

/// Where the history key comes from before syncing.
#[derive(Debug, Clone, Copy, PartialEq, Eq, Structural)]
pub enum KeySource {
    /// The client already holds one.
    Client,
    /// The one the cursor recorded.
    Cursor,
    /// A fresh authentication.
    Authenticate,
}

/// Where the history key comes from: the client's own, else the cursor's
/// when it recorded one, else a fresh authentication.
pub fn key_source(client_has_key: bool, cursor_key: &str) -> (r: KeySource)
    ensures
        r == if client_has_key {
            KeySource::Client
        } else if cursor_key@.len() > 0 {
            KeySource::Cursor
        } else {
            KeySource::Authenticate
        },
{
    if client_has_key {
        KeySource::Client
    } else if !cursor_key.is_empty() {
        KeySource::Cursor
    } else {
        KeySource::Authenticate
    }
}

/// Whether the cursor is rewritten after syncing: the client holds a key
/// that differs from the recorded one.
pub fn cursor_key_changed(client_key: Option<&str>, cursor_key: &str) -> (r: bool)
    ensures
        r == (client_key matches Some(k) && k@ != cursor_key@),
{
    match client_key {
        Some(k) => !crate::text::str_eq(k, cursor_key),
        None => false,
    }
}

/// The history index a commit builds on: the one given, else the head.
pub fn commit_ancestor(ancestor_index: Option<i64>, head_index: i64) -> (r: i64)
    ensures
        r == match ancestor_index { Some(a) => a, None => head_index },
{
    match ancestor_index {
        Some(a) => a,
        None => head_index,
    }
}

/// The head index after a commit: the server's, else the ancestor.
pub fn head_after_commit(server_head_index: Option<i64>, ancestor: i64) -> (r: i64)
    ensures
        r == match server_head_index { Some(h) => h, None => ancestor },
{
    match server_head_index {
        Some(h) => h,
        None => ancestor,
    }
}

/// Appending the log, each page moves the start on by exactly its number
/// of items and writes the cursor exactly when it had items; an empty page
/// ends the paging, and a page with items ends it only once the end size has
/// reached the latest; the head index is the one the page reports, if any.
pub proof fn lemma_log_paging(start_index: i64, head_index: i64, page: PageInfo)
    requires
        start_index + page.item_count <= i64::MAX,
    ensures
        ({
            let o = log_page_outcome(start_index, head_index, page);
            &&& o.next_start_index == start_index + page.item_count
            &&& o.write_cursor == (page.item_count > 0)
            &&& (page.item_count == 0 ==> o.done)
            &&& (page.item_count > 0 ==> match (page.end_total_content_size, page.latest_total_content_size) {
                (Some(e), Some(l)) => (o.done <==> e >= l),
                _ => true,
            })
            &&& (page.current_item_index matches Some(c) ==> o.head_index == c)
            &&& (page.current_item_index is None ==> o.head_index == head_index)
        }),
{
}

/// Reading the whole history, each page moves the start on by exactly its
/// number of items, and paging ends once the end size has reached the
/// latest.
pub proof fn lemma_full_paging(start_index: i64, head_index: i64, page: PageInfo)
    requires
        start_index + page.item_count <= i64::MAX,
    ensures
        ({
            let o = full_page_outcome(start_index, head_index, page);
            &&& o.next_start_index == start_index + page.item_count
            &&& match (page.end_total_content_size, page.latest_total_content_size) {
                (Some(e), Some(l)) => (o.done <==> e >= l),
                _ => true,
            }
            &&& (page.current_item_index matches Some(c) ==> o.head_index == c)
        }),
{
}

} // verus!
