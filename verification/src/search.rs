//! Searching the league chat history: filters, the paging state machine,
//! and the search report.
use vstd::prelude::*;
use vstd::string::*;

use crate::chat::ChatMessage;
use crate::text::{
    contains, decimal, has_substring, join, joined, lines_text, lowercase, push_decimal, push_str,
    str_or, text_or, to_lower, views,
};

verus! {

/// At most this many messages are looked at.
pub const MAX_SEARCH_MESSAGES: usize = 1000;

/// At most this many pages are fetched.
pub const MAX_SEARCH_PAGES: usize = 40;

// ───────────── Dates ─────────────

/// The name given to what chrono makes of a "YYYY-MM-DD" date at a time
/// of day: `NaiveDate::parse_from_str(text, "%Y-%m-%d")`, then
/// `and_hms_opt(hour, minute, second)`, then `and_utc().timestamp_millis()`;
/// `None` where parsing or the time of day fails.
pub uninterp spec fn date_millis(text: Seq<char>, hour: u32, minute: u32, second: u32) -> Option<i64>;

/// `NaiveDate::parse_from_str` with "%Y-%m-%d", `NaiveDate::and_hms_opt`,
/// `NaiveDateTime::and_utc` and `DateTime::timestamp_millis`. Claimed: the
/// outcome is a function of the arguments alone, named [`date_millis`];
/// the calendar arithmetic is not restated.
#[verifier::external_body]
fn parse_date_millis(text: &str, hour: u32, minute: u32, second: u32) -> (r: Option<i64>)
    ensures
        r == date_millis(text@, hour, minute, second),
{
    match chrono::NaiveDate::parse_from_str(text, "%Y-%m-%d") {
        Ok(d) => match d.and_hms_opt(hour, minute, second) {
            Some(t) => Some(t.and_utc().timestamp_millis()),
            None => None,
        },
        Err(_) => None,
    }
}

/// The name given to what chrono writes for a time given in seconds since
/// the epoch: `DateTime::from_timestamp(secs, 0)` formatted with
/// "%Y-%m-%d %H:%M UTC"; `None` where the time is out of chrono's range.
pub uninterp spec fn utc_minute_text(secs: i64) -> Option<Seq<char>>;

/// `DateTime::from_timestamp` and `DateTime::format` with
/// "%Y-%m-%d %H:%M UTC". Claimed: the outcome is a function of `secs`
/// alone, named [`utc_minute_text`].
#[verifier::external_body]
fn format_utc_minute(secs: i64) -> (r: Option<String>)
    ensures
        match r {
            Some(s) => utc_minute_text(secs) == Some(s@),
            None => utc_minute_text(secs) is None,
        },
{
    match chrono::DateTime::from_timestamp(secs, 0) {
        Some(dt) => Some(dt.format("%Y-%m-%d %H:%M UTC").to_string()),
        None => None,
    }
}

// ───────────── Filters ─────────────

/// The filters of a message search: lower-cased author and keyword
/// fragments, and the bounds (milliseconds) of the creation time.
#[derive(Debug)]
pub struct MessageFilter {
    pub username: Option<String>,
    pub keyword: Option<String>,
    pub after_ms: Option<i64>,
    pub before_ms: Option<i64>,
}

/// The lower-cased text of an optional string.
pub open spec fn lowered(o: Option<Seq<char>>) -> Option<Seq<char>> {
    match o {
        Some(s) => Some(lowercase(s)),
        None => None,
    }
}

/// The view of an optional string.
pub open spec fn opt_text(o: Option<String>) -> Option<Seq<char>> {
    match o {
        Some(s) => Some(s@),
        None => None,
    }
}

/// A date bound, when the date is given and can be read.
pub open spec fn date_bound(d: Option<Seq<char>>, hour: u32, minute: u32, second: u32) -> Option<i64> {
    match d {
        Some(t) => date_millis(t, hour, minute, second),
        None => None,
    }
}

/// The filter for the given search arguments.
pub open spec fn filter_holds(
    f: MessageFilter,
    username: Option<Seq<char>>,
    keyword: Option<Seq<char>>,
    after_date: Option<Seq<char>>,
    before_date: Option<Seq<char>>,
) -> bool {
    &&& opt_text(f.username) == lowered(username)
    &&& opt_text(f.keyword) == lowered(keyword)
    &&& f.after_ms == date_bound(after_date, 0, 0, 0)
    &&& f.before_ms == date_bound(before_date, 23, 59, 59)
}

/// The lower-cased text of an optional string.
fn lowered_arg(o: Option<&str>) -> (r: Option<String>)
    ensures
        opt_text(r) == lowered(match o { Some(s) => Some(s@), None => None }),
{
    match o {
        Some(s) => Some(to_lower(s)),
        None => None,
    }
}

/// A date bound read from an optional "YYYY-MM-DD" date.
fn date_arg(o: Option<&str>, hour: u32, minute: u32, second: u32) -> (r: Option<i64>)
    ensures
        r == date_bound(match o { Some(s) => Some(s@), None => None }, hour, minute, second),
{
    match o {
        Some(s) => parse_date_millis(s, hour, minute, second),
        None => None,
    }
}

impl MessageFilter {
    /// The filter for the search arguments: author and keyword lower-cased,
    /// messages after the start of `after_date` and up to the last second
    /// of `before_date` (UTC); a date that cannot be read sets no bound.
    pub fn new(
        username: Option<&str>,
        keyword: Option<&str>,
        after_date: Option<&str>,
        before_date: Option<&str>,
    ) -> (f: Self)
        ensures
            filter_holds(
                f,
                match username { Some(s) => Some(s@), None => None },
                match keyword { Some(s) => Some(s@), None => None },
                match after_date { Some(s) => Some(s@), None => None },
                match before_date { Some(s) => Some(s@), None => None },
            ),
    {
        MessageFilter {
            username: lowered_arg(username),
            keyword: lowered_arg(keyword),
            after_ms: date_arg(after_date, 0, 0, 0),
            before_ms: date_arg(before_date, 23, 59, 59),
        }
    }
}

/// A message passes the filter: created within the bounds (a missing time
/// reads 0), its lower-cased author contains the author fragment and its
/// lower-cased text the keyword.
pub open spec fn message_selected(f: MessageFilter, msg: ChatMessage) -> bool {
    let created = msg.created.unwrap_or(0);
    &&& (f.after_ms matches Some(a) ==> created >= a)
    &&& (f.before_ms matches Some(b) ==> created <= b)
    &&& (f.username matches Some(u) ==> has_substring(
        lowercase(text_or(msg.author_display_name, Seq::empty())),
        u@,
    ))
    &&& (f.keyword matches Some(k) ==> has_substring(lowercase(text_or(msg.text, Seq::empty())), k@))
}

/// Whether a message passes the filter.
pub fn message_passes(f: &MessageFilter, msg: &ChatMessage) -> (b: bool)
    ensures
        b == message_selected(*f, *msg),
{
    proof {
        reveal_strlit("");
    }
    assert(""@ =~= Seq::<char>::empty());
    let created = match msg.created { Some(c) => c, None => 0 };
    if let Some(a) = f.after_ms {
        if created < a {
            return false;
        }
    }
    if let Some(b) = f.before_ms {
        if created > b {
            return false;
        }
    }
    if let Some(u) = &f.username {
        let author = to_lower(str_or(&msg.author_display_name, ""));
        if !contains(author.as_str(), u.as_str()) {
            return false;
        }
    }
    if let Some(k) = &f.keyword {
        let text = to_lower(str_or(&msg.text, ""));
        if !contains(text.as_str(), k.as_str()) {
            return false;
        }
    }
    true
}

// ───────────── Message lines ─────────────

/// The date shown for a creation time: a time above 10^12 is taken as
/// milliseconds, else as seconds; a time of zero or less, or one chrono
/// cannot place, reads "unknown date".
pub open spec fn message_date_text(created: i64) -> Seq<char> {
    if created > 0 {
        let secs = if created > 1_000_000_000_000 { created / 1000 } else { created as int };
        match utc_minute_text(secs as i64) {
            Some(t) => t,
            None => "unknown date"@,
        }
    } else {
        "unknown date"@
    }
}

/// "[date] author: text" for a matching message.
pub open spec fn message_line_text(msg: ChatMessage) -> Seq<char> {
    "["@ + message_date_text(msg.created.unwrap_or(0)) + "] "@ + text_or(
        msg.author_display_name,
        "Unknown"@,
    ) + ": "@ + text_or(msg.text, Seq::empty())
}

/// The line shown for a matching message.
pub fn message_line(msg: &ChatMessage) -> (r: String)
    ensures
        r@ == message_line_text(*msg),
{
    proof {
        reveal_strlit("");
    }
    assert(""@ =~= Seq::<char>::empty());
    let created = match msg.created { Some(c) => c, None => 0 };
    let date = if created > 0 {
        let secs = if created > 1_000_000_000_000 { created / 1000 } else { created };
        match format_utc_minute(secs) {
            Some(t) => t,
            None => String::from_str("unknown date"),
        }
    } else {
        String::from_str("unknown date")
    };
    let mut r = String::new();
    push_str(&mut r, "[");
    push_str(&mut r, date.as_str());
    push_str(&mut r, "] ");
    push_str(&mut r, str_or(&msg.author_display_name, "Unknown"));
    push_str(&mut r, ": ");
    push_str(&mut r, str_or(&msg.text, ""));
    r
}

// ───────────── Paging ─────────────

/// The state of a paged search through the chat history, newest page
/// first: where the next page starts, how many messages and pages were
/// looked at, whether the history ran out, and the matching lines found so
/// far (newest first).
#[derive(Debug)]
pub struct MessageSearch {
    pub cursor: Option<String>,
    pub fetched: usize,
    pub pages: usize,
    pub finished: bool,
    pub matches: Vec<String>,
}

/// The lines of the messages of a page that pass the filter, in order.
pub open spec fn page_matches(f: MessageFilter, page: Seq<ChatMessage>) -> Seq<Seq<char>>
    decreases page.len(),
{
    if page.len() == 0 {
        Seq::empty()
    } else if message_selected(f, page.last()) {
        page_matches(f, page.drop_last()).push(message_line_text(page.last()))
    } else {
        page_matches(f, page.drop_last())
    }
}

/// Whether another page is to be fetched: the history has not run out,
/// fewer than the page limit were fetched and fewer than the message limit
/// looked at.
pub open spec fn wants_page(s: MessageSearch) -> bool {
    !s.finished && s.pages < MAX_SEARCH_PAGES && s.fetched < MAX_SEARCH_MESSAGES
}

/// How many messages of a page of `len` are looked at when `fetched` were
/// looked at before: all of them, up to the message limit.
pub open spec fn counted_len(fetched: usize, len: nat) -> int {
    if fetched + len <= MAX_SEARCH_MESSAGES {
        len as int
    } else if fetched < MAX_SEARCH_MESSAGES {
        MAX_SEARCH_MESSAGES - fetched
    } else {
        0
    }
}

/// What taking in a fetched page does to a search: an empty page ends
/// it; otherwise its messages are looked at, up to the message limit, the
/// matching ones kept, the last message's id becomes the cursor, and a
/// page without one ends the search.
pub open spec fn after_page(s: MessageSearch, f: MessageFilter, page: Seq<ChatMessage>) -> (
    Option<Seq<char>>,
    int,
    int,
    bool,
    Seq<Seq<char>>,
) {
    if page.len() == 0 {
        (opt_text(s.cursor), s.fetched as int, s.pages + 1, true, views(s.matches@))
    } else {
        let c = opt_text(page.last().message_id);
        let n = counted_len(s.fetched, page.len());
        (c, s.fetched + n, s.pages + 1, c is None, views(s.matches@) + page_matches(f, page.take(n)))
    }
}

/// The state as plain values.
pub open spec fn search_view(s: MessageSearch) -> (Option<Seq<char>>, int, int, bool, Seq<Seq<char>>) {
    (opt_text(s.cursor), s.fetched as int, s.pages as int, s.finished, views(s.matches@))
}

impl MessageSearch {
    /// A search that has fetched nothing yet.
    pub fn new() -> (s: Self)
        ensures
            search_view(s) == (None::<Seq<char>>, 0int, 0int, false, Seq::<Seq<char>>::empty()),
    {
        let s = MessageSearch { cursor: None, fetched: 0, pages: 0, finished: false, matches: Vec::new() };
        assert(views(s.matches@) =~= Seq::<Seq<char>>::empty());
        s
    }

    /// The page to fetch next: `Some(cursor)` (no cursor for the newest
    /// page), or `None` when the search is over.
    pub fn next_page(&self) -> (r: Option<Option<String>>)
        ensures
            r is Some <==> wants_page(*self),
            r matches Some(c) ==> opt_text(c) == opt_text(self.cursor),
    {
        if !self.finished && self.pages < MAX_SEARCH_PAGES && self.fetched < MAX_SEARCH_MESSAGES {
            Some(
                match &self.cursor {
                    Some(c) => Some(c.clone()),
                    None => None,
                },
            )
        } else {
            None
        }
    }

    /// Take in a fetched page.
    pub fn take_page(&mut self, f: &MessageFilter, page: &Vec<ChatMessage>)
        requires
            wants_page(*old(self)),
        ensures
            search_view(*final(self)) == after_page(*old(self), *f, page@),
    {
        if page.len() == 0 {
            self.pages = self.pages + 1;
            self.finished = true;
            return;
        }
        let room = MAX_SEARCH_MESSAGES - self.fetched;
        let n = if page.len() <= room { page.len() } else { room };
        assert(n == counted_len(old(self).fetched, page@.len()));
        let ghost start = views(self.matches@);
        for i in 0..n
            invariant
                n <= page.len(),
                views(self.matches@) == start + page_matches(*f, page@.take(i as int)),
                start == views(old(self).matches@),
                self.fetched == old(self).fetched,
                self.pages == old(self).pages,
                wants_page(*old(self)),
        {
            assert(page@.take(i + 1).drop_last() =~= page@.take(i as int));
            assert(page@.take(i + 1).last() == page@[i as int]);
            if message_passes(f, &page[i]) {
                let line = message_line(&page[i]);
                let ghost before = views(self.matches@);
                self.matches.push(line);
                assert(views(self.matches@) =~= before.push(line@));
            }
        }
        self.fetched = self.fetched + n;
        self.pages = self.pages + 1;
        let last = page.len() - 1;
        self.cursor = match &page[last].message_id {
            Some(id) => Some(id.clone()),
            None => None,
        };
        self.finished = self.cursor.is_none();
    }
}

// ───────────── Report ─────────────

/// `text` when the value is given, nothing otherwise.
pub open spec fn when_given(o: Option<Seq<char>>, pre: Seq<char>, post: Seq<char>) -> Seq<Seq<char>> {
    match o {
        Some(v) => seq![pre + v + post],
        None => Seq::empty(),
    }
}

/// The filters of a search, described.
pub open spec fn filter_descriptions(
    username: Option<Seq<char>>,
    keyword: Option<Seq<char>>,
    after_date: Option<Seq<char>>,
    before_date: Option<Seq<char>>,
) -> Seq<Seq<char>> {
    when_given(username, "from user \""@, "\""@) + when_given(keyword, "containing \""@, "\""@)
        + when_given(after_date, "after "@, Seq::empty()) + when_given(before_date, "before "@, Seq::empty())
}

/// The report of a finished search: the matching lines oldest first, or a
/// description of what was searched for.
pub open spec fn search_report_text(
    matches: Seq<Seq<char>>,
    fetched: nat,
    username: Option<Seq<char>>,
    keyword: Option<Seq<char>>,
    after_date: Option<Seq<char>>,
    before_date: Option<Seq<char>>,
) -> Seq<char> {
    if matches.len() == 0 {
        let filters = filter_descriptions(username, keyword, after_date, before_date);
        "No messages found"@ + (if filters.len() > 0 {
            " "@ + joined(filters, ", "@)
        } else {
            Seq::empty()
        }) + " (searched "@ + decimal(fetched) + " messages)."@
    } else {
        "Found "@ + decimal(matches.len()) + " matching message(s) (searched "@ + decimal(fetched)
            + " messages):\n\n"@ + lines_text(matches.reverse())
    }
}

/// Appends `pre + v + post` to `parts` when `v` is given.
fn push_described(parts: &mut Vec<String>, o: Option<&str>, pre: &str, post: &str)
    ensures
        views(final(parts)@) == views(old(parts)@) + when_given(
            match o { Some(s) => Some(s@), None => None },
            pre@,
            post@,
        ),
{
    if let Some(v) = o {
        let mut d = String::new();
        push_str(&mut d, pre);
        push_str(&mut d, v);
        push_str(&mut d, post);
        let ghost before = views(parts@);
        parts.push(d);
        assert(views(parts@) =~= before + seq![d@]);
    } else {
        assert(views(parts@) =~= views(parts@) + Seq::<Seq<char>>::empty());
    }
}

impl MessageSearch {
    /// The report of the search for the given filters.
    pub fn report(
        &self,
        username: Option<&str>,
        keyword: Option<&str>,
        after_date: Option<&str>,
        before_date: Option<&str>,
    ) -> (r: String)
        ensures
            r@ == search_report_text(
                views(self.matches@),
                self.fetched as nat,
                match username { Some(s) => Some(s@), None => None },
                match keyword { Some(s) => Some(s@), None => None },
                match after_date { Some(s) => Some(s@), None => None },
                match before_date { Some(s) => Some(s@), None => None },
            ),
    {
        proof {
            reveal_strlit("");
        }
        let mut r = String::new();
        if self.matches.len() == 0 {
            let mut filters: Vec<String> = Vec::new();
            push_described(&mut filters, username, "from user \"", "\"");
            push_described(&mut filters, keyword, "containing \"", "\"");
            push_described(&mut filters, after_date, "after ", "");
            push_described(&mut filters, before_date, "before ", "");
            assert(""@ =~= Seq::<char>::empty());
            assert(views(filters@) =~= filter_descriptions(
                match username { Some(s) => Some(s@), None => None },
                match keyword { Some(s) => Some(s@), None => None },
                match after_date { Some(s) => Some(s@), None => None },
                match before_date { Some(s) => Some(s@), None => None },
            ));
            push_str(&mut r, "No messages found");
            if filters.len() > 0 {
                push_str(&mut r, " ");
                let j = join(filters.as_slice(), ", ");
                push_str(&mut r, j.as_str());
            }
            push_str(&mut r, " (searched ");
            push_decimal(&mut r, self.fetched as u64);
            push_str(&mut r, " messages).");
        } else {
            push_str(&mut r, "Found ");
            push_decimal(&mut r, self.matches.len() as u64);
            push_str(&mut r, " matching message(s) (searched ");
            push_decimal(&mut r, self.fetched as u64);
            push_str(&mut r, " messages):\n\n");
            let ghost head = r@;
            let ghost m = views(self.matches@);
            let mut k = self.matches.len();
            while k > 0
                invariant
                    k <= self.matches.len(),
                    m == views(self.matches@),
                    r@ == head + lines_text(m.reverse().take((m.len() - k) as int)),
                decreases k,
            {
                k = k - 1;
                let ghost prev = m.reverse().take(m.len() - k - 1);
                assert(m.reverse().take(m.len() - k) =~= prev.push(self.matches@[k as int]@));
                assert(prev.push(self.matches@[k as int]@).drop_last() =~= prev);
                push_str(&mut r, self.matches[k].as_str());
                push_str(&mut r, "\n");
            }
            assert(m.reverse().take(m.len() as int) =~= m.reverse());
        }
        r
    }
}

} // verus!
