//! The query gateway: search requests for an index and the pages they return.
use crate::document::LuoxuMessage;
use crate::ids::{event_sigil, LuoxuAvatar};
use crate::text::clone_opt;
use vstd::prelude::*;
use vstd::string::*;

verus! {

/// The query string of a search: the text, and the cursor of the page
/// (results strictly older than this many milliseconds), if any.
#[derive(Debug, Clone)]
pub struct Params {
    pub query: String,
    pub offset: Option<u64>,
}

/// What is asked of the search engine for one page.
#[derive(Debug, Clone)]
pub struct SearchRequest {
    pub index_name: String,
    pub query: String,
    /// Sort order, newest first.
    pub sort: String,
    /// The one field that the text is matched against.
    pub search_on: String,
    /// The one field whose matches are highlighted.
    pub highlight: String,
    pub highlight_pre_tag: String,
    pub highlight_post_tag: String,
    /// The bound put on timestamps by the cursor.
    pub filter: Option<String>,
}

/// The character of decimal digit `d`.
pub open spec fn digit_char(d: nat) -> char {
    if d == 0 {
        '0'
    } else if d == 1 {
        '1'
    } else if d == 2 {
        '2'
    } else if d == 3 {
        '3'
    } else if d == 4 {
        '4'
    } else if d == 5 {
        '5'
    } else if d == 6 {
        '6'
    } else if d == 7 {
        '7'
    } else if d == 8 {
        '8'
    } else {
        '9'
    }
}

/// `n` written in decimal, without leading zeros.
pub open spec fn decimal(n: nat) -> Seq<char>
    decreases n,
{
    if n < 10 {
        seq![digit_char(n)]
    } else {
        decimal(n / 10) + seq![digit_char(n % 10)]
    }
}

/// Decimal digit `d` as a string.
fn digit_text(d: u64) -> (r: &'static str)
    requires
        d < 10,
    ensures
        r@ == seq![digit_char(d as nat)],
{
    proof {
        reveal_strlit("0");
        reveal_strlit("1");
        reveal_strlit("2");
        reveal_strlit("3");
        reveal_strlit("4");
        reveal_strlit("5");
        reveal_strlit("6");
        reveal_strlit("7");
        reveal_strlit("8");
        reveal_strlit("9");
    }
    if d == 0 {
        "0"
    } else if d == 1 {
        "1"
    } else if d == 2 {
        "2"
    } else if d == 3 {
        "3"
    } else if d == 4 {
        "4"
    } else if d == 5 {
        "5"
    } else if d == 6 {
        "6"
    } else if d == 7 {
        "7"
    } else if d == 8 {
        "8"
    } else {
        "9"
    }
}

/// `n` written in decimal.
pub fn u64_to_decimal(n: u64) -> (r: String)
    ensures
        r@ == decimal(n as nat),
    decreases n,
{
    if n < 10 {
        String::from_str(digit_text(n))
    } else {
        let mut s = u64_to_decimal(n / 10);
        s.append(digit_text(n % 10));
        s
    }
}

/// The filter that keeps the results older than `cursor`.
pub open spec fn cursor_filter_text(cursor: u64) -> Seq<char> {
    "timestamp < "@ + decimal(cursor as nat)
}

/// The filter that keeps the results strictly older than `cursor` milliseconds.
pub fn cursor_filter(cursor: u64) -> (r: String)
    ensures
        r@ == cursor_filter_text(cursor),
{
    proof {
        reveal_strlit("timestamp < ");
    }
    String::from_str("timestamp < ").concat(u64_to_decimal(cursor).as_str())
}

/// The request for a page of `index_name` matching `params`: newest first,
/// matched and highlighted on the body, bounded by the cursor when there is one.
pub fn search_request(index_name: String, params: Params) -> (r: SearchRequest)
    ensures
        r.index_name@ == index_name@,
        r.query@ == params.query@,
        r.sort@ == "timestamp:desc"@,
        r.search_on@ == "body"@,
        r.highlight@ == "body"@,
        r.highlight_pre_tag@ == "<span class=\"keyword\">"@,
        r.highlight_post_tag@ == "</span>"@,
        params.offset is None ==> r.filter is None,
        params.offset matches Some(c) ==> r.filter matches Some(f) && f@ == cursor_filter_text(c),
{
    let filter = match params.offset {
        Some(c) => Some(cursor_filter(c)),
        None => None,
    };
    SearchRequest {
        index_name,
        query: params.query,
        sort: String::from_str("timestamp:desc"),
        search_on: String::from_str("body"),
        highlight: String::from_str("body"),
        highlight_pre_tag: String::from_str("<span class=\"keyword\">"),
        highlight_post_tag: String::from_str("</span>"),
        filter,
    }
}

/// Whether matches remain beyond a page: the engine's estimate of all matches
/// exceeds the page size.
pub fn has_more(estimated_total_hits: usize, limit: usize) -> (r: bool)
    ensures
        r == (estimated_total_hits > limit),
{
    estimated_total_hits > limit
}

/// One message of a result page.
#[derive(Debug, Clone)]
pub struct MessageSearchResult {
    pub event_id: String,
    pub html_body: String,
    pub external_url: Option<String>,
    pub display_name: Option<String>,
    pub avatar_url: Option<String>,
    pub timestamp: u64,
    pub room_id: String,
}

/// A result page: its messages, newest first, and whether more remain.
#[derive(Debug, Clone)]
pub struct MessageSearchResults {
    pub messages: Vec<MessageSearchResult>,
    pub has_more: bool,
}

/// The avatar URL, as a string.
pub open spec fn avatar_text(a: Option<LuoxuAvatar>) -> Option<Seq<char>> {
    match a {
        Some(x) => Some(x@),
        None => None,
    }
}

/// `r` shows document `m` with its highlighted body `html`.
pub open spec fn shows(r: MessageSearchResult, m: LuoxuMessage, html: Seq<char>) -> bool {
    &&& r.event_id@ == event_sigil() + m.event_id@
    &&& r.html_body@ == html
    &&& r.external_url == m.external_url
    &&& r.display_name == m.user_display_name
    &&& match r.avatar_url {
        Some(u) => avatar_text(m.user_avatar) == Some(u@),
        None => m.user_avatar is None,
    }
    &&& r.timestamp == m.timestamp
    &&& r.room_id@ == m.room_id@
}

/// The result for document `m` whose body, highlighted, reads `html_body`.
pub fn search_result(m: &LuoxuMessage, html_body: String) -> (r: MessageSearchResult)
    ensures
        shows(r, *m, html_body@),
{
    let avatar_url = match &m.user_avatar {
        Some(a) => Some(a.0.clone()),
        None => None,
    };
    MessageSearchResult {
        event_id: m.event_id.event_id(),
        html_body,
        external_url: clone_opt(&m.external_url),
        display_name: clone_opt(&m.user_display_name),
        avatar_url,
        timestamp: m.timestamp,
        room_id: m.room_id.clone(),
    }
}

/// The page for `hits` (each document with its highlighted body), in the
/// engine's order, out of an estimated `estimated_total_hits` matches for a
/// page size of `limit`.
pub fn search_results(hits: &Vec<(LuoxuMessage, String)>, estimated_total_hits: usize, limit: usize) -> (r:
    MessageSearchResults)
    ensures
        r.messages@.len() == hits@.len(),
        forall|i: int| 0 <= i < hits@.len() ==> shows(r.messages@[i], hits@[i].0, hits@[i].1@),
        r.has_more == (estimated_total_hits > limit),
{
    let mut messages: Vec<MessageSearchResult> = Vec::new();
    let mut i: usize = 0;
    while i < hits.len()
        invariant
            0 <= i <= hits@.len(),
            messages@.len() == i,
            forall|j: int| 0 <= j < i ==> shows(messages@[j], hits@[j].0, hits@[j].1@),
        decreases hits@.len() - i,
    {
        let hit = &hits[i];
        let html = hit.1.clone();
        messages.push(search_result(&hit.0, html));
        i = i + 1;
    }
    MessageSearchResults { messages, has_more: has_more(estimated_total_hits, limit) }
}

/// A failure reported to a search client as a server error.
#[derive(Debug, Clone)]
pub struct AppError(pub String);

impl AppError {
    /// The text of the server error response.
    pub fn response_text(&self) -> (r: String)
        ensures
            r@ == "Something went wrong: "@ + self.0@,
    {
        proof {
            reveal_strlit("Something went wrong: ");
        }
        String::from_str("Something went wrong: ").concat(self.0.as_str())
    }
}

} // verus!
