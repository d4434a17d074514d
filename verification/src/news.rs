use vstd::prelude::*;
use vstd::string::*;
use vstd::utf8::{encode_scalar, encode_utf8};

use crate::text::{
    chars_of, decimal, find_from, join, joined, occurs_at, push_char, push_decimal, push_str,
    string_of, trim_chars, trimmed, views,
};

verus! {

/// The Google News search feed.
pub const GOOGLE_NEWS_RSS: &'static str = "https://news.google.com/rss/search";

// ───────────── URL encoding ─────────────

/// Characters kept as they are in a query parameter.
pub open spec fn is_unreserved(c: char) -> bool {
    ||| 'A' <= c && c <= 'Z'
    ||| 'a' <= c && c <= 'z'
    ||| '0' <= c && c <= '9'
    ||| c == '-' || c == '_' || c == '.' || c == '~'
}

/// The upper-case hexadecimal digit for `d < 16`.
pub open spec fn hex_char(d: nat) -> char {
    if d < 10 {
        crate::text::digit_char(d)
    } else if d == 10 {
        'A'
    } else if d == 11 {
        'B'
    } else if d == 12 {
        'C'
    } else if d == 13 {
        'D'
    } else if d == 14 {
        'E'
    } else {
        'F'
    }
}

/// "%XY" for each byte.
pub open spec fn percent_bytes(bytes: Seq<u8>) -> Seq<char>
    decreases bytes.len(),
{
    if bytes.len() == 0 {
        Seq::empty()
    } else {
        seq!['%', hex_char((bytes[0] / 16) as nat), hex_char((bytes[0] % 16) as nat)]
            + percent_bytes(bytes.drop_first())
    }
}

/// The encoding of one character: kept when unreserved, '+' for a space,
/// else its UTF-8 bytes percent-encoded.
pub open spec fn url_char(c: char) -> Seq<char> {
    if is_unreserved(c) {
        seq![c]
    } else if c == ' ' {
        seq!['+']
    } else {
        percent_bytes(encode_scalar(c as u32))
    }
}

/// The encoding of a text, character by character.
pub open spec fn url_encoded(s: Seq<char>) -> Seq<char>
    decreases s.len(),
{
    if s.len() == 0 {
        Seq::empty()
    } else {
        url_encoded(s.drop_last()) + url_char(s.last())
    }
}

fn hex_digit(d: u8) -> (c: char)
    requires
        d < 16,
    ensures
        c == hex_char(d as nat),
{
    if d == 0 { '0' }
    else if d == 1 { '1' }
    else if d == 2 { '2' }
    else if d == 3 { '3' }
    else if d == 4 { '4' }
    else if d == 5 { '5' }
    else if d == 6 { '6' }
    else if d == 7 { '7' }
    else if d == 8 { '8' }
    else if d == 9 { '9' }
    else if d == 10 { 'A' }
    else if d == 11 { 'B' }
    else if d == 12 { 'C' }
    else if d == 13 { 'D' }
    else if d == 14 { 'E' }
    else { 'F' }
}

/// Appends the encoding of one character to `out`.
pub fn urlenccode_char(c: char, out: &mut String)
    ensures
        final(out)@ == old(out)@ + url_char(c),
{
    if ('A' <= c && c <= 'Z') || ('a' <= c && c <= 'z') || ('0' <= c && c <= '9') || c == '-'
        || c == '_' || c == '.' || c == '~' {
        push_char(out, c);
    } else if c == ' ' {
        push_char(out, '+');
    } else {
        let arr = [c];
        let one = string_of(&arr);
        assert(arr@ =~= seq![c]);
        let bytes = one.as_str().as_bytes();
        assert(one@ =~= seq![c]);
        assert(encode_utf8(seq![c]) =~= encode_scalar(c as u32)) by {
            assert(seq![c].drop_first() =~= Seq::<char>::empty());
            assert(encode_utf8(Seq::<char>::empty()) =~= Seq::<u8>::empty());
            assert(encode_utf8(seq![c]) == encode_scalar(seq![c][0] as u32) + encode_utf8(seq![c].drop_first()));
        }
        let ghost start = out@;
        for i in 0..bytes.len()
            invariant
                bytes@ == encode_scalar(c as u32),
                out@ == start + percent_bytes(bytes@.take(i as int)),
        {
            let b = bytes[i];
            push_char(out, '%');
            push_char(out, hex_digit(b / 16));
            push_char(out, hex_digit(b % 16));
            proof {
                lemma_percent_push(bytes@.take(i as int), b);
                assert(bytes@.take(i + 1) =~= bytes@.take(i as int).push(b));
            }
        }
        assert(bytes@.take(bytes.len() as int) =~= bytes@);
    }
}

proof fn lemma_percent_push(bytes: Seq<u8>, b: u8)
    ensures
        percent_bytes(bytes.push(b)) == percent_bytes(bytes) + seq!['%', hex_char((b / 16) as nat), hex_char((b % 16) as nat)],
    decreases bytes.len(),
{
    let tail = seq!['%', hex_char((b / 16) as nat), hex_char((b % 16) as nat)];
    if bytes.len() == 0 {
        assert(bytes.push(b).drop_first() =~= Seq::<u8>::empty());
        assert(percent_bytes(Seq::<u8>::empty()) == Seq::<char>::empty());
        assert(bytes.push(b)[0] == b);
        assert(percent_bytes(bytes.push(b)) =~= tail);
        assert(percent_bytes(bytes) + tail =~= tail);
    } else {
        assert(bytes.push(b).drop_first() =~= bytes.drop_first().push(b));
        lemma_percent_push(bytes.drop_first(), b);
        assert(bytes.push(b)[0] == bytes[0]);
        let head = seq!['%', hex_char((bytes[0] / 16) as nat), hex_char((bytes[0] % 16) as nat)];
        assert(percent_bytes(bytes.push(b)) == head + percent_bytes(bytes.drop_first().push(b)));
        assert(percent_bytes(bytes) == head + percent_bytes(bytes.drop_first()));
        assert(head + (percent_bytes(bytes.drop_first()) + tail) =~= (head + percent_bytes(bytes.drop_first())) + tail);
    }
}

/// The text encoded for a URL query parameter: unreserved characters kept,
/// spaces as '+', everything else as percent-encoded UTF-8 bytes.
pub fn urlencode(s: &str) -> (r: String)
    ensures
        r@ == url_encoded(s@),
{
    let v = chars_of(s);
    let mut r = String::new();
    for i in 0..v.len()
        invariant
            v@ == s@,
            r@ == url_encoded(v@.take(i as int)),
    {
        urlenccode_char(v[i], &mut r);
        assert(v@.take(i + 1).drop_last() =~= v@.take(i as int));
    }
    assert(v@.take(v.len() as int) =~= v@);
    r
}

/// The Google News feed address for a search query.
pub fn news_search_url(query: &str) -> (r: String)
    ensures
        r@ == GOOGLE_NEWS_RSS@ + "?q="@ + url_encoded(query@) + "&hl=en-US&gl=US&ceid=US:en"@,
{
    let mut r = String::new();
    push_str(&mut r, GOOGLE_NEWS_RSS);
    push_str(&mut r, "?q=");
    let q = urlencode(query);
    push_str(&mut r, q.as_str());
    push_str(&mut r, "&hl=en-US&gl=US&ceid=US:en");
    r
}

// ───────────── Entities and feed titles ─────────────

/// The entity at position `i` of `s`, if one starts there: its length
/// and the character it stands for (`&amp;`, `&lt;`, `&gt;`, `&quot;`,
/// `&apos;`, `&#39;`, `&#x27;`).
pub open spec fn entity_at(s: Seq<char>, i: int) -> Option<(int, char)> {
    if occurs_at(s, "&amp;"@, i) {
        Some((5, '&'))
    } else if occurs_at(s, "&lt;"@, i) {
        Some((4, '<'))
    } else if occurs_at(s, "&gt;"@, i) {
        Some((4, '>'))
    } else if occurs_at(s, "&quot;"@, i) {
        Some((6, '"'))
    } else if occurs_at(s, "&apos;"@, i) {
        Some((6, '\''))
    } else if occurs_at(s, "&#39;"@, i) {
        Some((5, '\''))
    } else if occurs_at(s, "&#x27;"@, i) {
        Some((6, '\''))
    } else {
        None
    }
}

/// `s` from position `i` on with each entity decoded once, left to
/// right: what an entity decodes to is not read again.
pub open spec fn decoded_from(s: Seq<char>, i: int) -> Seq<char>
    decreases s.len() - i,
{
    if i < 0 || i >= s.len() {
        Seq::empty()
    } else {
        match entity_at(s, i) {
            Some((n, c)) => if 0 < n && i + n <= s.len() {
                seq![c] + decoded_from(s, i + n)
            } else {
                Seq::empty()
            },
            None => seq![s[i]] + decoded_from(s, i + 1),
        }
    }
}

/// The common XML/HTML entities of `s` decoded, each once.
pub open spec fn entities_decoded(s: Seq<char>) -> Seq<char> {
    decoded_from(s, 0)
}

/// The entity at position `i`, as [`entity_at`].
fn entity_here(
    s: &Vec<char>,
    i: usize,
    amp: &Vec<char>,
    lt: &Vec<char>,
    gt: &Vec<char>,
    quot: &Vec<char>,
    apos: &Vec<char>,
    n39: &Vec<char>,
    x27: &Vec<char>,
) -> (r: Option<(usize, char)>)
    requires
        amp@ == "&amp;"@,
        lt@ == "&lt;"@,
        gt@ == "&gt;"@,
        quot@ == "&quot;"@,
        apos@ == "&apos;"@,
        n39@ == "&#39;"@,
        x27@ == "&#x27;"@,
    ensures
        match r {
            Some((n, c)) => entity_at(s@, i as int) == Some((n as int, c)),
            None => entity_at(s@, i as int) is None,
        },
{
    if crate::text::matches_at(s.as_slice(), amp.as_slice(), i) {
        Some((5, '&'))
    } else if crate::text::matches_at(s.as_slice(), lt.as_slice(), i) {
        Some((4, '<'))
    } else if crate::text::matches_at(s.as_slice(), gt.as_slice(), i) {
        Some((4, '>'))
    } else if crate::text::matches_at(s.as_slice(), quot.as_slice(), i) {
        Some((6, '"'))
    } else if crate::text::matches_at(s.as_slice(), apos.as_slice(), i) {
        Some((6, '\''))
    } else if crate::text::matches_at(s.as_slice(), n39.as_slice(), i) {
        Some((5, '\''))
    } else if crate::text::matches_at(s.as_slice(), x27.as_slice(), i) {
        Some((6, '\''))
    } else {
        None
    }
}

fn decode_entities_chars(s: &Vec<char>) -> (r: Vec<char>)
    ensures
        r@ == entities_decoded(s@),
{
    let amp = chars_of("&amp;");
    let lt = chars_of("&lt;");
    let gt = chars_of("&gt;");
    let quot = chars_of("&quot;");
    let apos = chars_of("&apos;");
    let n39 = chars_of("&#39;");
    let x27 = chars_of("&#x27;");
    let mut out: Vec<char> = Vec::new();
    let mut i: usize = 0;
    while i < s.len()
        invariant
            i <= s.len(),
            amp@ == "&amp;"@,
            lt@ == "&lt;"@,
            gt@ == "&gt;"@,
            quot@ == "&quot;"@,
            apos@ == "&apos;"@,
            n39@ == "&#39;"@,
            x27@ == "&#x27;"@,
            decoded_from(s@, 0) == out@ + decoded_from(s@, i as int),
        decreases s.len() - i,
    {
        match entity_here(s, i, &amp, &lt, &gt, &quot, &apos, &n39, &x27) {
            Some((n, c)) => {
                proof {
                    reveal_strlit("&amp;");
                    reveal_strlit("&lt;");
                    reveal_strlit("&gt;");
                    reveal_strlit("&quot;");
                    reveal_strlit("&apos;");
                    reveal_strlit("&#39;");
                    reveal_strlit("&#x27;");
                }
                assert(i + n <= s.len());
                let ghost before = out@;
                out.push(c);
                assert(out@ + decoded_from(s@, (i + n) as int) =~= before + (seq![c] + decoded_from(s@, (i + n) as int)));
                i = i + n;
            },
            None => {
                let ghost before = out@;
                out.push(s[i]);
                assert(out@ + decoded_from(s@, (i + 1) as int) =~= before + (seq![s@[i as int]] + decoded_from(s@, (i + 1) as int)));
                i = i + 1;
            },
        }
    }
    assert(out@ + decoded_from(s@, i as int) =~= out@);
    out
}

/// Decode the common XML/HTML entities, each once.
pub fn decode_xml_entities(s: &str) -> (r: String)
    ensures
        r@ == entities_decoded(s@),
{
    let v = chars_of(s);
    let d = decode_entities_chars(&v);
    string_of(&d)
}

/// The first index at or after `from` where `pat` occurs in `s`.
pub open spec fn find_index(s: Seq<char>, pat: Seq<char>, from: int) -> Option<int>
    decreases s.len() + 1 - from,
{
    if from < 0 || from > s.len() {
        None
    } else if occurs_at(s, pat, from) {
        Some(from)
    } else {
        find_index(s, pat, from + 1)
    }
}

/// The decoded, trimmed title of an item body, when it has a non-empty
/// `<title>...</title>`.
pub open spec fn item_title(body: Seq<char>) -> Option<Seq<char>> {
    match find_index(body, "<title>"@, 0) {
        Some(ts) => {
            let after = body.skip(ts + 7);
            match find_index(after, "</title>"@, 0) {
                Some(te) => {
                    let t = trimmed(entities_decoded(after.take(te)));
                    if t.len() > 0 { Some(t) } else { None }
                },
                None => None,
            }
        },
        None => None,
    }
}

/// The titles of the `<item>` elements of a feed, in order. An item whose
/// closing tag is missing runs to the end of the text.
pub open spec fn item_titles(rest: Seq<char>) -> Seq<Seq<char>>
    decreases rest.len(),
{
    match find_index(rest, "<item>"@, 0) {
        None => Seq::empty(),
        Some(i) => {
            if 0 <= i && i + 6 <= rest.len() {
                let r1 = rest.skip(i + 6);
                let end = match find_index(r1, "</item>"@, 0) {
                    Some(e) => if 0 <= e <= r1.len() { e } else { r1.len() as int },
                    None => r1.len() as int,
                };
                let tail = item_titles(r1.skip(end));
                match item_title(r1.take(end)) {
                    Some(t) => seq![t] + tail,
                    None => tail,
                }
            } else {
                Seq::empty()
            }
        },
    }
}

/// At most the first six item titles of a feed.
pub open spec fn feed_titles(xml: Seq<char>) -> Seq<Seq<char>> {
    let all = item_titles(xml);
    if all.len() <= 6 { all } else { all.take(6) }
}

proof fn lemma_find_index_facts(s: Seq<char>, pat: Seq<char>, from: int)
    requires
        0 <= from,
    ensures
        match find_index(s, pat, from) {
            Some(i) => from <= i && occurs_at(s, pat, i) && forall|k: int| from <= k < i ==> !occurs_at(s, pat, k),
            None => forall|k: int| from <= k ==> !occurs_at(s, pat, k),
        },
    decreases s.len() + 1 - from,
{
    if from > s.len() {
        assert forall|k: int| from <= k implies !occurs_at(s, pat, k) by {
            assert(k + pat.len() > s.len());
        }
    } else if !occurs_at(s, pat, from) {
        lemma_find_index_facts(s, pat, from + 1);
    }
}

proof fn lemma_find_index_unique(s: Seq<char>, pat: Seq<char>, from: int, r: Option<int>)
    requires
        0 <= from,
        match r {
            Some(i) => from <= i && occurs_at(s, pat, i) && forall|k: int| from <= k < i ==> !occurs_at(s, pat, k),
            None => forall|k: int| from <= k ==> !occurs_at(s, pat, k),
        },
    ensures
        find_index(s, pat, from) == r,
{
    lemma_find_index_facts(s, pat, from);
    match find_index(s, pat, from) {
        Some(i) => {
            match r {
                Some(j) => {
                    if i < j {
                        assert(!occurs_at(s, pat, i));
                    } else if j < i {
                        assert(!occurs_at(s, pat, j));
                    }
                },
                None => {},
            }
        },
        None => {
            match r {
                Some(j) => {
                    assert(!occurs_at(s, pat, j));
                },
                None => {},
            }
        },
    }
}

/// Occurrences in a suffix are occurrences in the whole, shifted.
proof fn lemma_occurs_skip(s: Seq<char>, pat: Seq<char>, p: int, k: int)
    requires
        0 <= p <= s.len(),
        0 <= k,
    ensures
        occurs_at(s.skip(p), pat, k) == occurs_at(s, pat, p + k),
{
    if p + k + pat.len() <= s.len() {
        assert(s.skip(p).subrange(k, k + pat.len()) =~= s.subrange(p + k, p + k + pat.len()));
    }
}

/// First occurrence of `pat` in `s` at or after `from`, in terms of the
/// suffix of `s` that starts at `p <= from`.
fn find_in_suffix(s: &Vec<char>, pat: &Vec<char>, p: usize) -> (r: Option<usize>)
    requires
        p <= s.len(),
    ensures
        match r {
            Some(j) => p <= j && find_index(s@.skip(p as int), pat@, 0) == Some(j - p),
            None => find_index(s@.skip(p as int), pat@, 0) is None,
        },
{
    let r = find_from(s, pat, p);
    proof {
        let t = s@.skip(p as int);
        assert forall|k: int| 0 <= k implies #[trigger] occurs_at(t, pat@, k) == occurs_at(s@, pat@, p + k) by {
            lemma_occurs_skip(s@, pat@, p as int, k);
        }
        match r {
            Some(i) => {
                assert(occurs_at(t, pat@, i - p));
                assert forall|k: int| 0 <= k < i - p implies !occurs_at(t, pat@, k) by {
                    assert(!occurs_at(s@, pat@, p + k));
                }
                lemma_find_index_unique(t, pat@, 0, Some(i - p));
            },
            None => {
                assert forall|k: int| 0 <= k implies !occurs_at(t, pat@, k) by {
                    assert(!occurs_at(s@, pat@, p + k));
                }
                lemma_find_index_unique(t, pat@, 0, None);
            },
        }
    }
    r
}

/// The characters `v[from..to]`.
fn slice_chars(v: &Vec<char>, from: usize, to: usize) -> (r: Vec<char>)
    requires
        from <= to <= v.len(),
    ensures
        r@ == v@.subrange(from as int, to as int),
{
    let mut r: Vec<char> = Vec::new();
    let mut k = from;
    while k < to
        invariant
            from <= k <= to <= v.len(),
            r@ == v@.subrange(from as int, k as int),
        decreases to - k,
    {
        r.push(v[k]);
        assert(v@.subrange(from as int, k + 1) =~= v@.subrange(from as int, k as int).push(v@[k as int]));
        k = k + 1;
    }
    r
}

/// The title of one item body, as `item_title` describes it.
fn title_of_item(body: &Vec<char>) -> (r: Option<String>)
    ensures
        match r {
            Some(t) => item_title(body@) == Some(t@),
            None => item_title(body@) is None,
        },
{
    let open_tag = chars_of("<title>");
    let close_tag = chars_of("</title>");
    proof {
        reveal_strlit("<title>");
    }
    let ts = match find_in_suffix(body, &open_tag, 0) {
        Some(ts) => ts,
        None => {
            assert(body@.skip(0) =~= body@);
            return None;
        },
    };
    assert(body@.skip(0) =~= body@);
    proof {
        lemma_find_index_facts(body@, "<title>"@, 0);
        assert(open_tag@ == "<title>"@);
        assert(find_index(body@, "<title>"@, 0) == Some(ts as int));
        assert("<title>"@.len() == 7);
        assert(occurs_at(body@, "<title>"@, ts as int));
        assert(ts + 7 <= body@.len());
    }
    let n = body.len();
    assert(ts + 7 <= n);
    let after = slice_chars(body, ts + 7, n);
    assert(after@ =~= body@.skip(ts + 7));
    let te = match find_in_suffix(&after, &close_tag, 0) {
        Some(te) => te,
        None => {
            assert(after@.skip(0) =~= after@);
            return None;
        },
    };
    assert(after@.skip(0) =~= after@);
    proof {
        lemma_find_index_facts(after@, "</title>"@, 0);
    }
    let raw = slice_chars(&after, 0, te);
    assert(raw@ =~= after@.take(te as int));
    let decoded = decode_entities_chars(&raw);
    let t = trim_chars(&decoded);
    if t.len() > 0 {
        Some(string_of(&t))
    } else {
        None
    }
}

/// The titles of the first six `<item>` elements of an RSS feed, decoded
/// and trimmed; items without a non-empty title are skipped.
pub fn extract_rss_titles(xml: &str) -> (titles: Vec<String>)
    ensures
        views(titles@) == feed_titles(xml@),
{
    let v = chars_of(xml);
    let item_open = chars_of("<item>");
    let item_close = chars_of("</item>");
    proof {
        reveal_strlit("<item>");
        reveal_strlit("</item>");
    }
    let mut titles: Vec<String> = Vec::new();
    let mut pos: usize = 0;
    assert(v@.skip(0) =~= v@);
    loop
        invariant
            v@ == xml@,
            item_open@ == "<item>"@,
            item_close@ == "</item>"@,
            pos <= v.len(),
            titles.len() <= 6,
            item_titles(v@) == views(titles@) + item_titles(v@.skip(pos as int)),
        decreases v.len() - pos,
    {
        proof {
            reveal_strlit("<item>");
            reveal_strlit("</item>");
        }
        let ghost rest = v@.skip(pos as int);
        let i = match find_in_suffix(&v, &item_open, pos) {
            Some(i) => i,
            None => {
                assert(item_titles(rest) =~= Seq::<Seq<char>>::empty());
                assert(item_titles(v@) =~= views(titles@));
                return titles;
            },
        };
        proof {
            lemma_find_index_facts(rest, "<item>"@, 0);
            assert(find_index(rest, "<item>"@, 0) == Some(i - pos));
            assert("<item>"@.len() == 6);
            assert(occurs_at(rest, "<item>"@, i - pos));
        }
        if titles.len() >= 6 {
            proof {
                let all = item_titles(v@);
                assert(all.take(6) =~= views(titles@));
            }
            return titles;
        }
        let start = i + 6;
        assert(rest.skip(i - pos + 6) =~= v@.skip(start as int));
        let end = match find_in_suffix(&v, &item_close, start) {
            Some(e) => e,
            None => v.len(),
        };
        proof {
            lemma_find_index_facts(v@.skip(start as int), "</item>"@, 0);
        }
        let body = slice_chars(&v, start, end);
        let ghost r1 = v@.skip(start as int);
        assert(body@ =~= r1.take(end - start));
        assert(r1.skip(end - start) =~= v@.skip(end as int));
        match title_of_item(&body) {
            Some(t) => {
                let ghost before = views(titles@);
                titles.push(t);
                assert(views(titles@) =~= before.push(t@));
                assert(before.push(t@) + item_titles(v@.skip(end as int)) =~= before + (seq![t@] + item_titles(v@.skip(end as int))));
            },
            None => {},
        }
        pos = end;
    }
}

/// Up to four headlines as a numbered list joined by "; ".
pub open spec fn headline_summary(titles: Seq<Seq<char>>) -> Seq<char> {
    let shown = if titles.len() <= 4 { titles } else { titles.take(4) };
    joined(Seq::new(shown.len(), |i: int| decimal((i + 1) as nat) + ". "@ + shown[i]), "; "@)
}

/// "1. A; 2. B; ..." for the first four headlines.
pub fn format_headlines(titles: &Vec<String>) -> (r: String)
    ensures
        r@ == headline_summary(views(titles@)),
{
    let n = if titles.len() <= 4 { titles.len() } else { 4 };
    let ghost tv = views(titles@);
    let ghost shown = if tv.len() <= 4 { tv } else { tv.take(4) };
    let ghost want = Seq::new(shown.len(), |i: int| decimal((i + 1) as nat) + ". "@ + shown[i]);
    let mut lines: Vec<String> = Vec::new();
    for i in 0..n
        invariant
            n == shown.len(),
            n <= titles.len(),
            tv == views(titles@),
            want == Seq::new(shown.len(), |i: int| decimal((i + 1) as nat) + ". "@ + shown[i]),
            forall|j: int| 0 <= j < n ==> shown[j] == tv[j],
            views(lines@) == want.take(i as int),
    {
        let mut line = String::new();
        push_decimal(&mut line, (i as u64) + 1);
        push_str(&mut line, ". ");
        push_str(&mut line, titles[i].as_str());
        let ghost before = views(lines@);
        lines.push(line);
        assert(views(lines@) =~= before.push(line@));
        assert(want.take(i + 1) =~= want.take(i as int).push(want[i as int]));
    }
    assert(want.take(n as int) =~= want);
    join(&lines, "; ")
}

/// The reply of the web search tool: the headlines, a notice when there
/// are none, or the failure.
pub open spec fn search_reply_text(outcome: Result<Seq<char>, Seq<char>>) -> Seq<char> {
    match outcome {
        Ok(h) => if h.len() > 0 { h } else { "No relevant news found."@ },
        Err(e) => "Search failed: "@ + e,
    }
}

/// The reply of the web search tool for a fetched headline summary or a
/// fetch failure message.
pub fn web_search_reply(outcome: Result<String, String>) -> (r: String)
    ensures
        r@ == search_reply_text(match outcome { Ok(h) => Ok(h@), Err(e) => Err(e@) }),
{
    match outcome {
        Ok(h) => {
            if h.as_str().is_empty() {
                let mut r = String::new();
                push_str(&mut r, "No relevant news found.");
                r
            } else {
                h
            }
        },
        Err(e) => {
            let mut r = String::new();
            push_str(&mut r, "Search failed: ");
            push_str(&mut r, e.as_str());
            r
        },
    }
}

} // verus!
