//! The DrivingSports event source: its notification message formats (the
//! current link-wrapped form and the older plain-bold form), the extraction
//! rules for its pages, the skip-list URL filter, and the discovery pipeline.
use vstd::prelude::*;
use vstd::string::StrSliceExecFns;
use vstd::string::StringExecFns;
use crate::common::{
    EventFinder, TitleSet, Notification, NotificationView, FetchedPage, FetchedPageView,
    html_first_inner, select_first_inner_html,
};
use crate::text::{
    contains_char, is_prefix_of, has_substring, contains_char_exec, starts_with_str, str_eq,
    contains_substr,
};

verus! {

/// The fixed head of every DrivingSports notification message.
pub open spec fn ds_prefix() -> Seq<char> {
    "@everyone New DrivingSports event: "@
}

/// What may follow the closing bold pair: nothing (the older plain form), or
/// a `](...)` link suffix whose target has no newline (the link-wrapped form).
pub open spec fn ds_valid_tail(r: Seq<char>) -> bool {
    r.len() == 0 || (r.len() >= 3 && r[0] == ']' && r[1] == '(' && r[r.len() - 1] == ')'
        && !contains_char(r.subrange(2, r.len() - 1), '\n'))
}

/// The message body after the opening bold pair splits at `t`: a newline-free
/// title of length `t`, a closing `**`, and a valid tail.
pub open spec fn ds_split_ok(inner: Seq<char>, t: int) -> bool {
    &&& 0 <= t
    &&& t + 2 <= inner.len()
    &&& inner[t] == '*'
    &&& inner[t + 1] == '*'
    &&& !contains_char(inner.subrange(0, t), '\n')
    &&& ds_valid_tail(inner.subrange(t + 2, inner.len() as int))
}

/// The rightmost valid split position at most `t`: the title capture is
/// greedy, matching how the recognizer resolves a `**` that occurs inside
/// the title itself.
pub open spec fn ds_best_split(inner: Seq<char>, t: int) -> Option<int>
    decreases t + 1,
{
    if t < 0 {
        None
    } else if ds_split_ok(inner, t) {
        Some(t)
    } else {
        ds_best_split(inner, t - 1)
    }
}

/// The title announced by a DrivingSports notification message, if the text
/// matches one of the recognized formats: the prefix, an optional opening
/// `[`, a bold pair around the title, and an optional `](...)` link suffix.
pub open spec fn ds_parse(msg: Seq<char>) -> Option<Seq<char>> {
    let p = ds_prefix();
    if !is_prefix_of(p, msg) {
        None
    } else {
        let rest = msg.subrange(p.len() as int, msg.len() as int);
        let s = if rest.len() > 0 && rest[0] == '[' {
            rest.subrange(1, rest.len() as int)
        } else {
            rest
        };
        if s.len() >= 2 && s[0] == '*' && s[1] == '*' {
            let inner = s.subrange(2, s.len() as int);
            match ds_best_split(inner, inner.len() - 2) {
                Some(t) => Some(inner.subrange(0, t)),
                None => None,
            }
        } else {
            None
        }
    }
}

/// The text of a fresh DrivingSports notification: the title in bold,
/// wrapped as a link to the event page.
pub open spec fn ds_link_content_of(title: Seq<char>, url: Seq<char>) -> Seq<char> {
    ds_prefix() + "[**"@ + title + "**]("@ + url + ")"@
}

/// The older plain-bold notification text, still recognized on replay.
pub open spec fn ds_plain_content_of(title: Seq<char>) -> Seq<char> {
    ds_prefix() + "**"@ + title + "**"@
}

proof fn lemma_best_split_found(inner: Seq<char>, t: int, top: int)
    requires
        0 <= t <= top,
        ds_split_ok(inner, t),
        forall|u: int| t < u <= top ==> !ds_split_ok(inner, u),
    ensures
        ds_best_split(inner, top) == Some(t),
    decreases top - t,
{
    if top > t {
        lemma_best_split_found(inner, t, top - 1);
    }
}

proof fn lemma_best_split_none(inner: Seq<char>, top: int)
    requires
        forall|u: int| 0 <= u <= top ==> !ds_split_ok(inner, u),
    ensures
        ds_best_split(inner, top) is None,
    decreases top + 1,
{
    if top >= 0 {
        lemma_best_split_none(inner, top - 1);
    }
}

/// Decides `ds_valid_tail(r@)`.
fn ds_valid_tail_exec(r: &str) -> (b: bool)
    ensures
        b == ds_valid_tail(r@),
{
    let n = r.unicode_len();
    if n == 0 {
        return true;
    }
    if n < 3 {
        return false;
    }
    if r.get_char(0) != ']' {
        return false;
    }
    if r.get_char(1) != '(' {
        return false;
    }
    if r.get_char(n - 1) != ')' {
        return false;
    }
    !contains_char_exec(r.substring_char(2, n - 1), '\n')
}

/// Decides `ds_split_ok(inner@, t)`.
fn ds_split_ok_exec(inner: &str, t: usize) -> (b: bool)
    requires
        t + 2 <= inner@.len(),
    ensures
        b == ds_split_ok(inner@, t as int),
{
    let n = inner.unicode_len();
    if inner.get_char(t) != '*' {
        return false;
    }
    if inner.get_char(t + 1) != '*' {
        return false;
    }
    if contains_char_exec(inner.substring_char(0, t), '\n') {
        return false;
    }
    ds_valid_tail_exec(inner.substring_char(t + 2, n))
}

/// Decides `ds_parse(msg@)`, returning the captured title.
pub fn parse_driving_sports_message(msg: &str) -> (r: Option<String>)
    ensures
        match r {
            Some(t) => ds_parse(msg@) == Some(t@),
            None => ds_parse(msg@) is None,
        },
{
    let p: &str = "@everyone New DrivingSports event: ";
    if !starts_with_str(msg, p) {
        return None;
    }
    let plen = p.unicode_len();
    let n = msg.unicode_len();
    let rest = msg.substring_char(plen, n);
    let rlen = rest.unicode_len();
    let s = if rlen > 0 && rest.get_char(0) == '[' {
        rest.substring_char(1, rlen)
    } else {
        rest
    };
    let slen = s.unicode_len();
    if slen < 2 {
        return None;
    }
    if s.get_char(0) != '*' || s.get_char(1) != '*' {
        return None;
    }
    let inner = s.substring_char(2, slen);
    let ilen = slen - 2;
    if ilen < 2 {
        return None;
    }
    let mut t: usize = ilen - 2;
    loop
        invariant
            inner@.len() == ilen,
            2 <= ilen,
            t <= ilen - 2,
            ds_parse(msg@) == (match ds_best_split(inner@, ilen - 2) {
                Some(u) => Some(inner@.subrange(0, u)),
                None => None,
            }),
            forall|u: int| t < u <= ilen - 2 ==> !ds_split_ok(inner@, u),
        decreases t,
    {
        if ds_split_ok_exec(inner, t) {
            proof {
                lemma_best_split_found(inner@, t as int, ilen - 2);
            }
            return Some(inner.substring_char(0, t).to_owned());
        }
        if t == 0 {
            proof {
                lemma_best_split_none(inner@, ilen - 2);
            }
            return None;
        }
        t -= 1;
    }
}

/// Builds the notification text for a new event: the title in bold, wrapped
/// as a link to the event page.
pub fn ds_link_content(title: &str, url: &str) -> (r: String)
    ensures
        r@ == ds_link_content_of(title@, url@),
{
    let mut s = String::from_str("@everyone New DrivingSports event: ");
    s.append("[**");
    s.append(title);
    s.append("**](");
    s.append(url);
    s.append(")");
    proof {
        assert(s@ =~= ds_link_content_of(title@, url@));
    }
    s
}

/// A legacy plain-bold DrivingSports notification parses back to the very
/// title it was built from, for every title without a newline.
pub proof fn lemma_ds_plain_round_trip(title: Seq<char>)
    requires
        !contains_char(title, '\n'),
    ensures
        ds_parse(ds_plain_content_of(title)) == Some(title),
{
    reveal_strlit("**");
    let p = ds_prefix();
    let msg = ds_plain_content_of(title);
    let plen = p.len() as int;
    let tl = title.len() as int;
    assert(msg.subrange(0, plen) =~= p);
    assert(is_prefix_of(p, msg));
    let rest = msg.subrange(plen, msg.len() as int);
    assert(rest =~= "**"@ + title + "**"@);
    assert(rest[0] == '*');
    assert(rest[1] == '*');
    let inner = rest.subrange(2, rest.len() as int);
    assert(inner =~= title + "**"@);
    assert(inner[tl] == '*' && inner[tl + 1] == '*');
    assert(inner.subrange(0, tl) =~= title);
    assert(inner.subrange(tl + 2, inner.len() as int) =~= Seq::<char>::empty());
    assert(ds_split_ok(inner, tl));
    lemma_best_split_found(inner, tl, inner.len() - 2);
    assert(ds_parse(msg) == Some(inner.subrange(0, tl)));
}

proof fn lemma_link_inner_split(title: Seq<char>, url: Seq<char>)
    requires
        !contains_char(title, '\n'),
        !contains_char(url, '\n'),
        !has_substring(url, "**"@),
    ensures
        ds_best_split(title + "**]("@ + url + ")"@, title.len() + url.len() + 3 as int) == Some(
            title.len() as int,
        ),
{
    reveal_strlit("**");
    reveal_strlit("**](");
    reveal_strlit(")");
    let inner = title + "**]("@ + url + ")"@;
    let tl = title.len() as int;
    let ul = url.len() as int;
    assert(inner.len() == tl + ul + 5);
    assert(forall|i: int| 0 <= i < tl ==> inner[i] == title[i]);
    assert(inner[tl] == '*');
    assert(inner[tl + 1] == '*');
    assert(inner[tl + 2] == ']');
    assert(inner[tl + 3] == '(');
    assert(forall|i: int| 0 <= i < ul ==> inner[tl + 4 + i] == url[i]);
    assert(inner[tl + 4 + ul] == ')');
    // the intended split is valid
    assert(inner.subrange(0, tl) =~= title);
    let tail = inner.subrange(tl + 2, inner.len() as int);
    assert(tail.len() == ul + 3);
    assert(tail[0] == ']' && tail[1] == '(' && tail[tail.len() - 1] == ')');
    assert(tail.subrange(2, tail.len() - 1) =~= url);
    assert(ds_valid_tail(tail));
    assert(ds_split_ok(inner, tl));
    // no split to the right of it is valid: the url has no bold marker
    assert forall|u: int| tl < u <= inner.len() - 2 implies !ds_split_ok(inner, u) by {
        if ds_split_ok(inner, u) {
            if u == tl + 1 {
                assert(inner[u + 1] == ']');
            } else if u == tl + 2 {
                assert(inner[u] == ']');
            } else if u == tl + 3 {
                assert(inner[u] == '(');
            } else {
                assert(u >= tl + 4);
                if u + 1 == tl + 4 + ul {
                    assert(inner[u + 1] == ')');
                } else {
                    let i = u - (tl + 4);
                    assert(url[i] == '*' && url[i + 1] == '*');
                    assert(url.subrange(i, i + 2) =~= "**"@);
                    assert(has_substring(url, "**"@));
                }
            }
        }
    }
    lemma_best_split_found(inner, tl, inner.len() - 2);
}

/// A freshly built link-wrapped DrivingSports notification parses back to
/// the very title it was built from: replay recognizes every message this
/// source emits. The link target must not itself contain a bold marker
/// `**`, or the greedy title capture would absorb part of it.
#[verifier::rlimit(100)]
pub proof fn lemma_ds_link_round_trip(title: Seq<char>, url: Seq<char>)
    requires
        !contains_char(title, '\n'),
        !contains_char(url, '\n'),
        !has_substring(url, "**"@),
    ensures
        ds_parse(ds_link_content_of(title, url)) == Some(title),
{
    reveal_strlit("**");
    reveal_strlit("[**");
    reveal_strlit("**](");
    reveal_strlit(")");
    let p = ds_prefix();
    let msg = ds_link_content_of(title, url);
    let plen = p.len() as int;
    let tl = title.len() as int;
    let ul = url.len() as int;
    assert(msg.subrange(0, plen) =~= p);
    assert(is_prefix_of(p, msg));
    let rest = msg.subrange(plen, msg.len() as int);
    assert(rest.len() == tl + ul + 8);
    assert(rest[0] == '[');
    let s = rest.subrange(1, rest.len() as int);
    assert(s[0] == '*' && s[1] == '*');
    let inner = s.subrange(2, s.len() as int);
    assert(inner =~= title + "**]("@ + url + ")"@);
    lemma_link_inner_split(title, url);
    assert(ds_best_split(inner, inner.len() - 2) == Some(tl));
    assert(inner.subrange(0, tl) =~= title);
    assert(ds_parse(msg) == Some(inner.subrange(0, tl)));
}

/// The DrivingSports site root; candidate URLs are trimmed against it, and
/// everything listed in the sitemap before it is old clutter to be skipped.
pub open spec fn ds_base_url() -> Seq<char> {
    "https://www.drivingsports.com.au/"@
}

/// `s` with every leading copy of `p` removed.
pub open spec fn strip_prefix_all(s: Seq<char>, p: Seq<char>) -> Seq<char>
    decreases s.len(),
{
    if p.len() > 0 && is_prefix_of(p, s) {
        strip_prefix_all(s.subrange(p.len() as int, s.len() as int), p)
    } else {
        s
    }
}

/// `s` with every trailing `c` removed.
pub open spec fn strip_trailing_char(s: Seq<char>, c: char) -> Seq<char>
    decreases s.len(),
{
    if s.len() > 0 && s[s.len() - 1] == c {
        strip_trailing_char(s.drop_last(), c)
    } else {
        s
    }
}

/// The page name of a candidate URL: the URL with the site root and any
/// trailing slash removed.
pub open spec fn ds_page_name(url: Seq<char>) -> Seq<char> {
    strip_trailing_char(strip_prefix_all(url, ds_base_url()), '/')
}

/// The skip-list of known non-event pages.
pub open spec fn ds_non_event_name(name: Seq<char>) -> bool {
    ||| name == "home"@
    ||| name == "members"@
    ||| name == "scrutineering"@
    ||| name == "events"@
    ||| name == "contact"@
    ||| name == "track-day"@
    ||| name == "terms-conditions"@
    ||| name == "events-2"@
}

/// A candidate URL that is known not to be an event page: its page name is
/// on the skip-list, or mentions a form.
pub open spec fn ds_is_skipped(url: Seq<char>) -> bool {
    ds_non_event_name(ds_page_name(url)) || has_substring(ds_page_name(url), "form"@)
}

/// The candidate URLs that pass the skip-list filter, in order.
pub open spec fn ds_kept_urls(urls: Seq<Seq<char>>) -> Seq<Seq<char>> {
    urls.filter(|u: Seq<char>| !ds_is_skipped(u))
}

/// The pages worth fetching from a sitemap's URL run: everything before the
/// first occurrence of the site root is dropped (old clutter), and from the
/// site root on, pages on the skip-list are dropped.
pub open spec fn ds_candidate_urls(urls: Seq<Seq<char>>) -> Seq<Seq<char>>
    decreases urls.len(),
{
    if urls.len() == 0 {
        Seq::empty()
    } else if urls[0] == ds_base_url() {
        ds_kept_urls(urls)
    } else {
        ds_candidate_urls(urls.subrange(1, urls.len() as int))
    }
}

proof fn lemma_candidates_skip(urls: Seq<Seq<char>>, j: int)
    requires
        0 <= j <= urls.len(),
        forall|i: int| 0 <= i < j ==> urls[i] != ds_base_url(),
    ensures
        ds_candidate_urls(urls) == ds_candidate_urls(urls.subrange(j, urls.len() as int)),
    decreases j,
{
    if j > 0 {
        assert(urls[0] != ds_base_url());
        let tail = urls.subrange(1, urls.len() as int);
        assert(forall|i: int| 0 <= i < j - 1 ==> #[trigger] tail[i] == urls[i + 1]);
        lemma_candidates_skip(tail, j - 1);
        assert(tail.subrange(j - 1, tail.len() as int) =~= urls.subrange(j, urls.len() as int));
    } else {
        assert(urls.subrange(0, urls.len() as int) =~= urls);
    }
}

/// Computes `ds_page_name(url@)`: trims the site root and trailing slashes.
pub fn ds_page_name_exec(url: &str) -> (r: String)
    ensures
        r@ == ds_page_name(url@),
{
    let base: &str = "https://www.drivingsports.com.au/";
    proof {
        reveal_strlit("https://www.drivingsports.com.au/");
    }
    let blen = base.unicode_len();
    let mut cur: String = url.to_owned();
    loop
        invariant
            base@ == ds_base_url(),
            blen == ds_base_url().len(),
            1 <= blen,
            strip_prefix_all(cur@, ds_base_url()) == strip_prefix_all(url@, ds_base_url()),
        ensures
            cur@ == strip_prefix_all(url@, ds_base_url()),
        decreases cur@.len(),
    {
        let clen = cur.as_str().unicode_len();
        if starts_with_str(cur.as_str(), base) {
            cur = cur.as_str().substring_char(blen, clen).to_owned();
        } else {
            break;
        }
    }
    loop
        invariant
            strip_trailing_char(cur@, '/') == ds_page_name(url@),
        ensures
            cur@ == ds_page_name(url@),
        decreases cur@.len(),
    {
        let clen = cur.as_str().unicode_len();
        if clen > 0 && cur.as_str().get_char(clen - 1) == '/' {
            let ghost pre = cur@;
            cur = cur.as_str().substring_char(0, clen - 1).to_owned();
            proof {
                assert(pre.drop_last() =~= cur@);
            }
        } else {
            break;
        }
    }
    cur
}

/// Decides `ds_is_skipped(url@)`.
fn ds_url_skipped(url: &str) -> (b: bool)
    ensures
        b == ds_is_skipped(url@),
{
    let name = ds_page_name_exec(url);
    let n = name.as_str();
    if str_eq(n, "home") || str_eq(n, "members") || str_eq(n, "scrutineering") || str_eq(
        n,
        "events",
    ) || str_eq(n, "contact") || str_eq(n, "track-day") || str_eq(n, "terms-conditions") || str_eq(
        n,
        "events-2",
    ) {
        return true;
    }
    contains_substr(n, "form")
}

/// Applies the candidate filter to a sitemap's URL run: drops the clutter
/// before the site root, then every page on the skip-list, keeping sitemap
/// order.
pub fn filter_candidate_urls(urls: &Vec<String>) -> (r: Vec<String>)
    ensures
        r.deep_view() == ds_candidate_urls(urls.deep_view()),
{
    let ghost all = urls.deep_view();
    let n = urls.len();
    let base: &str = "https://www.drivingsports.com.au/";
    proof {
        reveal_strlit("https://www.drivingsports.com.au/");
    }
    let mut j: usize = 0;
    loop
        invariant
            base@ == ds_base_url(),
            n == urls.len(),
            all == urls.deep_view(),
            j <= n,
            forall|i: int| 0 <= i < j ==> all[i] != ds_base_url(),
        ensures
            j <= n,
            forall|i: int| 0 <= i < j ==> all[i] != ds_base_url(),
            j == n || all[j as int] == ds_base_url(),
        decreases n - j,
    {
        if j == n {
            break;
        }
        if str_eq(urls[j].as_str(), base) {
            break;
        }
        j += 1;
    }
    proof {
        lemma_candidates_skip(all, j as int);
    }
    let mut out: Vec<String> = Vec::new();
    if j == n {
        proof {
            assert(all.subrange(j as int, all.len() as int) =~= Seq::<Seq<char>>::empty());
            assert(out.deep_view() =~= ds_candidate_urls(all));
        }
        return out;
    }
    proof {
        reveal(Seq::filter);
        assert(all.subrange(j as int, j as int).filter(|u: Seq<char>| !ds_is_skipped(u))
            =~= Seq::<Seq<char>>::empty());
    }
    let mut i: usize = j;
    while i < n
        invariant
            n == urls.len(),
            all == urls.deep_view(),
            j <= i <= n,
            out.deep_view() == ds_kept_urls(all.subrange(j as int, i as int)),
        decreases n - i,
    {
        let ghost pre_out = out.deep_view();
        let keep = !ds_url_skipped(urls[i].as_str());
        if keep {
            out.push(urls[i].clone());
        }
        proof {
            reveal(Seq::filter);
            assert(all.subrange(j as int, i + 1).drop_last() =~= all.subrange(j as int, i as int));
            assert(all.subrange(j as int, i + 1).last() == all[i as int]);
            if keep {
                assert(out.deep_view() =~= pre_out.push(all[i as int]));
            }
            assert(out.deep_view() =~= ds_kept_urls(all.subrange(j as int, i + 1)));
        }
        i += 1;
    }
    proof {
        assert(all.subrange(j as int, n as int) =~= all.subrange(j as int, all.len() as int));
    }
    out
}

/// The URL of the DrivingSports posts sitemap: the discovery entry point.
pub fn driving_sports_sitemap_url() -> (r: String)
    ensures
        r@ == ds_base_url() + "wp-sitemap-posts-page-1.xml"@,
{
    let mut s = String::from_str("https://www.drivingsports.com.au/");
    s.append("wp-sitemap-posts-page-1.xml");
    s
}

/// An event discovered on the DrivingSports site.
#[derive(Debug)]
pub struct DrivingSportsEvent {
    pub url: String,
    pub title: String,
}

pub struct DrivingSportsEventView {
    pub url: Seq<char>,
    pub title: Seq<char>,
}

impl View for DrivingSportsEvent {
    type V = DrivingSportsEventView;

    open spec fn view(&self) -> DrivingSportsEventView {
        DrivingSportsEventView { url: self.url@, title: self.title@ }
    }
}

/// CSS selector for the title of a DrivingSports page.
pub open spec fn ds_title_selector() -> Seq<char> {
    "h1.entry-title.page-title"@
}

/// What one DrivingSports page yields: an event when the page has a title
/// element.
pub open spec fn ds_extract_spec(url: Seq<char>, page: Seq<char>) -> Option<
    DrivingSportsEventView,
> {
    match html_first_inner(page, ds_title_selector()) {
        Some(t) => Some(DrivingSportsEventView { url: url, title: t }),
        None => None,
    }
}

/// Applies the DrivingSports extraction rules to one fetched page; `None`
/// when the page has no title element.
pub fn extract_driving_sports_event(url: String, page_text: &str) -> (r: Option<
    DrivingSportsEvent,
>)
    ensures
        match r {
            Some(e) => ds_extract_spec(url@, page_text@) == Some(e@),
            None => ds_extract_spec(url@, page_text@) is None,
        },
{
    match select_first_inner_html(page_text, "h1.entry-title.page-title") {
        Some(title) => Some(DrivingSportsEvent { url, title }),
        None => None,
    }
}

/// The events extracted from a run of fetched pages, in page order; a page
/// whose fetch or extraction failed contributes nothing.
pub open spec fn ds_collected(pages: Seq<FetchedPageView>) -> Seq<DrivingSportsEventView>
    decreases pages.len(),
{
    if pages.len() == 0 {
        Seq::empty()
    } else {
        let rest = ds_collected(pages.drop_last());
        let pg = pages.last();
        match pg.body {
            Some(b) => match ds_extract_spec(pg.url, b) {
                Some(e) => rest.push(e),
                None => rest,
            },
            None => rest,
        }
    }
}

/// The URLs of the pages that yielded no event, in page order: failures stay
/// isolated to their page and are only reported.
pub open spec fn ds_failed(pages: Seq<FetchedPageView>) -> Seq<Seq<char>>
    decreases pages.len(),
{
    if pages.len() == 0 {
        Seq::empty()
    } else {
        let rest = ds_failed(pages.drop_last());
        let pg = pages.last();
        match pg.body {
            Some(b) => if ds_extract_spec(pg.url, b) is Some {
                rest
            } else {
                rest.push(pg.url)
            },
            None => rest.push(pg.url),
        }
    }
}

/// Processes candidate pages sequentially, in sitemap order: every page that
/// fetched and extracted yields an event, and each failing page is reported
/// in the second component without aborting the remaining pages.
pub fn collect_driving_sports_events(pages: &Vec<FetchedPage>) -> (r: (
    Vec<DrivingSportsEvent>,
    Vec<String>,
))
    ensures
        r.0@.map_values(|e: DrivingSportsEvent| e@) == ds_collected(
            pages@.map_values(|p: FetchedPage| p@),
        ),
        r.1.deep_view() == ds_failed(pages@.map_values(|p: FetchedPage| p@)),
{
    let ghost all = pages@.map_values(|p: FetchedPage| p@);
    let mut events: Vec<DrivingSportsEvent> = Vec::new();
    let mut failed: Vec<String> = Vec::new();
    let n = pages.len();
    let mut i: usize = 0;
    while i < n
        invariant
            n == pages.len(),
            i <= n,
            all == pages@.map_values(|p: FetchedPage| p@),
            events@.map_values(|e: DrivingSportsEvent| e@) == ds_collected(
                all.subrange(0, i as int),
            ),
            failed.deep_view() == ds_failed(all.subrange(0, i as int)),
        decreases n - i,
    {
        match &pages[i].body {
            Some(b) => {
                match extract_driving_sports_event(pages[i].url.clone(), b.as_str()) {
                    Some(e) => events.push(e),
                    None => failed.push(pages[i].url.clone()),
                }
            },
            None => failed.push(pages[i].url.clone()),
        }
        proof {
            assert(all.subrange(0, i + 1).drop_last() =~= all.subrange(0, i as int));
            assert(all.subrange(0, i + 1).last() == all[i as int]);
            assert(all[i as int] == pages@[i as int]@);
            assert(events@.map_values(|e: DrivingSportsEvent| e@) =~= ds_collected(
                all.subrange(0, i + 1),
            ));
            assert(failed.deep_view() =~= ds_failed(all.subrange(0, i + 1)));
        }
        i += 1;
    }
    proof {
        assert(all.subrange(0, n as int) =~= all);
    }
    (events, failed)
}

/// Some event of `events` carries the title `t`.
pub open spec fn ds_has_title(events: Seq<DrivingSportsEventView>, t: Seq<char>) -> bool {
    exists|i: int| 0 <= i < events.len() && (#[trigger] events[i]).title == t
}

/// The per-tick diff: the discovered events whose titles are not yet known,
/// one event per distinct new title — two equal-titled events in one run are
/// the same event, and only the first occurrence is kept.
pub open spec fn ds_new_events(events: Seq<DrivingSportsEventView>, known: Set<Seq<char>>) -> Seq<
    DrivingSportsEventView,
>
    decreases events.len(),
{
    if events.len() == 0 {
        Seq::empty()
    } else {
        let rest = ds_new_events(events.drop_last(), known);
        let e = events.last();
        if !known.contains(e.title) && !ds_has_title(rest, e.title) {
            rest.push(e)
        } else {
            rest
        }
    }
}

/// For every discovered run `events` and known set `known`, the diff
/// `ds_new_events(events, known)` contains no title present in `known`.
pub proof fn lemma_ds_diff_excludes_known(
    events: Seq<DrivingSportsEventView>,
    known: Set<Seq<char>>,
)
    ensures
        forall|i: int|
            0 <= i < ds_new_events(events, known).len() ==> !known.contains(
                #[trigger] ds_new_events(events, known)[i].title,
            ),
    decreases events.len(),
{
    if events.len() > 0 {
        lemma_ds_diff_excludes_known(events.drop_last(), known);
        let rest = ds_new_events(events.drop_last(), known);
        let result = ds_new_events(events, known);
        assert forall|i: int| 0 <= i < result.len() implies !known.contains(result[i].title) by {
            if i < rest.len() {
                assert(result[i] == rest[i]);
            }
        }
    }
}

/// Within one tick, two discovered events with an equal title are the same
/// event: the diff never carries one title twice.
pub proof fn lemma_ds_diff_titles_distinct(
    events: Seq<DrivingSportsEventView>,
    known: Set<Seq<char>>,
)
    ensures
        forall|i: int, j: int|
            0 <= i < j < ds_new_events(events, known).len() ==> (
            #[trigger] ds_new_events(events, known)[i]).title != (
            #[trigger] ds_new_events(events, known)[j]).title,
    decreases events.len(),
{
    if events.len() > 0 {
        lemma_ds_diff_titles_distinct(events.drop_last(), known);
        let rest = ds_new_events(events.drop_last(), known);
        let result = ds_new_events(events, known);
        assert forall|i: int, j: int| 0 <= i < j < result.len() implies result[i].title
            != result[j].title by {
            assert(result[i] == rest[i]);
            if j < rest.len() {
                assert(result[j] == rest[j]);
            } else {
                if rest[i].title == events.last().title {
                    assert(ds_has_title(rest, events.last().title));
                }
            }
        }
    }
}

/// The notification built for one new DrivingSports event: the bold title
/// wrapped as a link to the event page, with no rich preview.
pub open spec fn ds_notification_of(e: DrivingSportsEventView) -> NotificationView {
    NotificationView { content: ds_link_content_of(e.title, e.url), embed: None }
}

/// A notification text emitted for `e` that replay recognizes again: as long
/// as the title and URL hold no newline and the URL holds no bold marker
/// `**`, parsing the text recovers exactly `e`'s title, so the event is
/// never re-announced. A URL containing `**` breaks this (the greedy title
/// capture absorbs into the link target) and such an event would be
/// re-announced every tick.
pub open spec fn ds_notification_replayable(e: DrivingSportsEventView, content: Seq<char>) -> bool {
    (!contains_char(e.title, '\n') && !contains_char(e.url, '\n') && !has_substring(
        e.url,
        "**"@,
    )) ==> ds_parse(content) == Some(e.title)
}

/// The notifications one polling tick sends for this source, given what was
/// discovered and what is already known.
pub open spec fn ds_plan(events: Seq<DrivingSportsEventView>, known: Set<Seq<char>>) -> Seq<
    NotificationView,
> {
    ds_new_events(events, known).map_values(|e: DrivingSportsEventView| ds_notification_of(e))
}

/// The DrivingSports source adapter: holds the titles already announced for
/// this source, as rebuilt from the channel transcript.
pub struct DrivingSports {
    previous_titles: TitleSet,
}

/// Decides `ds_has_title(events@..., t@)`: whether some already-kept event
/// carries this title.
fn ds_events_hold_title(events: &Vec<DrivingSportsEvent>, t: &str) -> (r: bool)
    ensures
        r == ds_has_title(events@.map_values(|e: DrivingSportsEvent| e@), t@),
{
    let n = events.len();
    let mut i: usize = 0;
    while i < n
        invariant
            n == events.len(),
            i <= n,
            forall|j: int| 0 <= j < i ==> (#[trigger] events@[j])@.title != t@,
        decreases n - i,
    {
        if str_eq(events[i].title.as_str(), t) {
            proof {
                assert(events@.map_values(|e: DrivingSportsEvent| e@)[i as int].title == t@);
            }
            return true;
        }
        i += 1;
    }
    proof {
        let views = events@.map_values(|e: DrivingSportsEvent| e@);
        if ds_has_title(views, t@) {
            let w = choose|w: int| 0 <= w < views.len() && views[w].title == t@;
            assert(views[w] == events@[w]@);
            assert(false);
        }
    }
    false
}

impl DrivingSports {
    pub fn new() -> (s: Self)
        ensures
            s.known_titles() == Set::<Seq<char>>::empty(),
    {
        Self { previous_titles: TitleSet::new() }
    }

    /// The per-tick diff: keeps, in discovery order, the discovered events
    /// whose titles this source has not announced yet — one event per
    /// distinct new title, the first occurrence. No event whose title is
    /// already known ever comes back, and no title comes back twice.
    pub fn new_events(&self, discovered: Vec<DrivingSportsEvent>) -> (r: Vec<DrivingSportsEvent>)
        ensures
            r@.map_values(|e: DrivingSportsEvent| e@) == ds_new_events(
                discovered@.map_values(|e: DrivingSportsEvent| e@),
                self.known_titles(),
            ),
            forall|i: int|
                0 <= i < r@.len() ==> !self.known_titles().contains(#[trigger] r@[i]@.title),
            forall|i: int, j: int|
                0 <= i < j < r@.len() ==> (#[trigger] r@[i])@.title != (#[trigger] r@[j])@.title,
    {
        let ghost all = discovered@.map_values(|e: DrivingSportsEvent| e@);
        let ghost k = self.known_titles();
        let mut rem = discovered;
        let mut out: Vec<DrivingSportsEvent> = Vec::new();
        let ghost mut done: int = 0;
        proof {
            assert(ds_new_events(all.subrange(0, 0), k) =~= Seq::<DrivingSportsEventView>::empty());
        }
        while rem.len() > 0
            invariant
                0 <= done,
                done + rem@.len() == all.len(),
                k == self.known_titles(),
                forall|j: int| 0 <= j < rem@.len() ==> (#[trigger] rem@[j])@ == all[done + j],
                out@.map_values(|e: DrivingSportsEvent| e@) == ds_new_events(
                    all.subrange(0, done),
                    k,
                ),
                forall|i: int|
                    0 <= i < out@.len() ==> !self.known_titles().contains(
                        #[trigger] out@[i]@.title,
                    ),
                forall|i: int, j: int|
                    0 <= i < j < out@.len() ==> (#[trigger] out@[i])@.title != (
                    #[trigger] out@[j])@.title,
            decreases rem@.len(),
        {
            let ghost pre_rem = rem@;
            let e = rem.remove(0);
            proof {
                assert(e@ == all[done]);
                assert(forall|j: int| 0 <= j < rem@.len() ==> #[trigger] rem@[j] == pre_rem[j + 1]);
                assert(all.subrange(0, done + 1).drop_last() =~= all.subrange(0, done));
                assert(all.subrange(0, done + 1).last() == all[done]);
            }
            let ghost pre_out = out@;
            let keep = !self.previous_titles.contains_title(e.title.as_str())
                && !ds_events_hold_title(&out, e.title.as_str());
            if keep {
                out.push(e);
            }
            proof {
                let f = |ev: DrivingSportsEvent| ev@;
                assert(e@.title == e.title@);
                assert(self.known_titles() == self.previous_titles@);
                assert(keep == (!k.contains(e@.title) && !ds_has_title(
                    pre_out.map_values(f),
                    e@.title,
                )));
                if keep {
                    assert(ds_new_events(all.subrange(0, done + 1), k) == ds_new_events(
                        all.subrange(0, done),
                        k,
                    ).push(all[done]));
                    assert(out@.map_values(f) =~= pre_out.map_values(f).push(e@));
                    assert forall|i: int| 0 <= i < pre_out.len() implies (
                    #[trigger] pre_out[i])@.title != e@.title by {
                        assert(pre_out.map_values(f)[i].title != e@.title);
                    }
                } else {
                    assert(ds_new_events(all.subrange(0, done + 1), k) == ds_new_events(
                        all.subrange(0, done),
                        k,
                    ));
                }
                assert(out@.map_values(f) =~= ds_new_events(all.subrange(0, done + 1), k));
                done = done + 1;
            }
        }
        proof {
            assert(all.subrange(0, all.len() as int) =~= all);
        }
        out
    }

    /// Formats one fresh notification for each newly discovered event, in
    /// discovery order: the bold title wrapped as a link to the event page.
    /// Every emitted text is recognized by replay, for every title without a
    /// newline — provided the event's URL holds no newline and no bold
    /// marker `**` (see `ds_notification_replayable`).
    pub fn new_broadcasts(&self, discovered: Vec<DrivingSportsEvent>) -> (r: Vec<Notification>)
        ensures
            r@.map_values(|n: Notification| n@) == ds_plan(
                discovered@.map_values(|e: DrivingSportsEvent| e@),
                self.known_titles(),
            ),
            forall|i: int|
                0 <= i < r@.len() ==> ds_notification_replayable(
                    ds_new_events(
                        discovered@.map_values(|e: DrivingSportsEvent| e@),
                        self.known_titles(),
                    )[i],
                    (#[trigger] r@[i])@.content,
                ),
    {
        let ghost all = discovered@.map_values(|e: DrivingSportsEvent| e@);
        let ghost k = self.known_titles();
        let picked = self.new_events(discovered);
        let ghost picked_views = picked@.map_values(|e: DrivingSportsEvent| e@);
        let mut rem = picked;
        let mut out: Vec<Notification> = Vec::new();
        let ghost mut done: int = 0;
        while rem.len() > 0
            invariant
                0 <= done,
                done + rem@.len() == picked_views.len(),
                forall|j: int|
                    0 <= j < rem@.len() ==> (#[trigger] rem@[j])@ == picked_views[done + j],
                out@.map_values(|n: Notification| n@) == picked_views.subrange(
                    0,
                    done,
                ).map_values(|e: DrivingSportsEventView| ds_notification_of(e)),
            decreases rem@.len(),
        {
            let ghost pre_rem = rem@;
            let e = rem.remove(0);
            proof {
                assert(e@ == picked_views[done]);
                assert(forall|j: int| 0 <= j < rem@.len() ==> #[trigger] rem@[j] == pre_rem[j + 1]);
            }
            let ghost pre_out = out@;
            let content = ds_link_content(e.title.as_str(), e.url.as_str());
            let notif = Notification { content, embed: None };
            proof {
                assert(notif@ == ds_notification_of(picked_views[done]));
            }
            out.push(notif);
            proof {
                let g = |ev: DrivingSportsEventView| ds_notification_of(ev);
                let h = |n: Notification| n@;
                assert(out@.map_values(h) =~= pre_out.map_values(h).push(notif@));
                assert(picked_views.subrange(0, done + 1).map_values(g) =~= picked_views.subrange(
                    0,
                    done,
                ).map_values(g).push(ds_notification_of(picked_views[done])));
                assert(out@.map_values(h) =~= picked_views.subrange(0, done + 1).map_values(g));
                done = done + 1;
            }
        }
        proof {
            assert(picked_views.subrange(0, picked_views.len() as int) =~= picked_views);
            let g = |ev: DrivingSportsEventView| ds_notification_of(ev);
            let h = |n: Notification| n@;
            assert forall|i: int| 0 <= i < out@.len() implies ds_notification_replayable(
                ds_new_events(all, k)[i],
                (#[trigger] out@[i])@.content,
            ) by {
                let e = picked_views[i];
                assert(out@.map_values(h)[i] == picked_views.map_values(g)[i]);
                assert(out@[i]@ == ds_notification_of(e));
                if !contains_char(e.title, '\n') && !contains_char(e.url, '\n') && !has_substring(
                    e.url,
                    "**"@,
                ) {
                    lemma_ds_link_round_trip(e.title, e.url);
                }
            }
        }
        out
    }
}

impl EventFinder for DrivingSports {
    closed spec fn known_titles(&self) -> Set<Seq<char>> {
        self.previous_titles@
    }

    open spec fn parse_message(msg: Seq<char>) -> Option<Seq<char>> {
        ds_parse(msg)
    }

    fn previous_broadcast(&mut self, content: &str) {
        match parse_driving_sports_message(content) {
            Some(title) => self.previous_titles.insert_title(title),
            None => (),
        }
    }
}

/// Format evolution: both historically emitted variants — the plain-bold
/// form and the link-wrapped form — parse back to the identical title.
pub proof fn lemma_format_variants_agree(title: Seq<char>, url: Seq<char>)
    requires
        !contains_char(title, '\n'),
        !contains_char(url, '\n'),
        !has_substring(url, "**"@),
    ensures
        ds_parse(ds_plain_content_of(title)) == Some(title),
        ds_parse(ds_link_content_of(title, url)) == Some(title),
{
    lemma_ds_plain_round_trip(title);
    lemma_ds_link_round_trip(title, url);
}

} // verus!
