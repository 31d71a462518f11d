//! The ADC event source: its notification message format, the extraction
//! rules for its event pages, and the discovery pipeline from fetched pages
//! to notifications.
use vstd::prelude::*;
use vstd::string::StrSliceExecFns;
use vstd::string::StringExecFns;
use crate::common::{
    EventFinder, TitleSet, Notification, NotificationView, Embed, EmbedView, FetchedPage,
    FetchedPageView, html_first_inner, html_first_attr, select_first_inner_html,
    select_first_attr,
};
use crate::text::{
    contains_char, is_prefix_of, contains_char_exec, starts_with_str, str_eq,
};

verus! {

/// The fixed head of every ADC notification message.
pub open spec fn adc_prefix() -> Seq<char> {
    "@everyone New ADC event: "@
}

/// The title announced by an ADC notification message, if the text matches
/// the ADC format: the prefix, then the title between a bold pair `**...**`
/// reaching the end of the message, with no newline inside the title.
pub open spec fn adc_parse(msg: Seq<char>) -> Option<Seq<char>> {
    let plen = adc_prefix().len() as int;
    let n = msg.len() as int;
    if n >= plen + 4 && msg.subrange(0, plen) == adc_prefix() && msg.subrange(plen, plen + 2)
        == "**"@ && msg.subrange(n - 2, n) == "**"@ && !contains_char(
        msg.subrange(plen + 2, n - 2),
        '\n',
    ) {
        Some(msg.subrange(plen + 2, n - 2))
    } else {
        None
    }
}

/// The text of a fresh ADC notification for the given title.
pub open spec fn adc_content_of(title: Seq<char>) -> Seq<char> {
    adc_prefix() + "**"@ + title + "**"@
}

/// Decides `adc_parse(msg@)`, returning the captured title.
pub fn parse_adc_message(msg: &str) -> (r: Option<String>)
    ensures
        match r {
            Some(t) => adc_parse(msg@) == Some(t@),
            None => adc_parse(msg@) is None,
        },
{
    let p: &str = "@everyone New ADC event: ";
    let plen = p.unicode_len();
    let n = msg.unicode_len();
    if n < 4 || plen > n - 4 {
        return None;
    }
    if !starts_with_str(msg, p) {
        return None;
    }
    if !str_eq(msg.substring_char(plen, plen + 2), "**") {
        return None;
    }
    if !str_eq(msg.substring_char(n - 2, n), "**") {
        return None;
    }
    let middle = msg.substring_char(plen + 2, n - 2);
    if contains_char_exec(middle, '\n') {
        return None;
    }
    Some(middle.to_owned())
}

/// Builds the notification text for a title: the ADC prefix, then the title
/// in bold.
pub fn adc_content(title: &str) -> (r: String)
    ensures
        r@ == adc_content_of(title@),
{
    let mut s = String::from_str("@everyone New ADC event: ");
    s.append("**");
    s.append(title);
    s.append("**");
    proof {
        assert(s@ =~= adc_content_of(title@));
    }
    s
}

/// A freshly built ADC notification parses back to the very title it was
/// built from, for every title without a newline: replay recognizes every
/// message this source emits.
pub proof fn lemma_adc_round_trip(title: Seq<char>)
    requires
        !contains_char(title, '\n'),
    ensures
        adc_parse(adc_content_of(title)) == Some(title),
{
    reveal_strlit("**");
    let msg = adc_content_of(title);
    let plen = adc_prefix().len() as int;
    let n = msg.len() as int;
    assert(n == plen + 4 + title.len());
    assert(msg.subrange(0, plen) =~= adc_prefix());
    assert(msg.subrange(plen, plen + 2) =~= "**"@);
    assert(msg.subrange(n - 2, n) =~= "**"@);
    assert(msg.subrange(plen + 2, n - 2) =~= title);
}

/// The ADC site root.
pub open spec fn adc_base_url() -> Seq<char> {
    "https://www.australiandriftclub.com.au/"@
}

/// The URL of the ADC event sitemap: the discovery entry point.
pub fn adc_sitemap_url() -> (r: String)
    ensures
        r@ == adc_base_url() + "wp-sitemap-posts-mep_events-1.xml"@,
{
    let mut s = String::from_str("https://www.australiandriftclub.com.au/");
    s.append("wp-sitemap-posts-mep_events-1.xml");
    s
}

/// An event discovered on the ADC site.
#[derive(Debug)]
pub struct AdcEvent {
    pub url: String,
    pub title: String,
    pub banner_url: Option<String>,
}

pub struct AdcEventView {
    pub url: Seq<char>,
    pub title: Seq<char>,
    pub banner_url: Option<Seq<char>>,
}

impl View for AdcEvent {
    type V = AdcEventView;

    open spec fn view(&self) -> AdcEventView {
        AdcEventView {
            url: self.url@,
            title: self.title@,
            banner_url: match self.banner_url {
                Some(b) => Some(b@),
                None => None,
            },
        }
    }
}

/// CSS selector for the title of an ADC event page.
pub open spec fn adc_title_selector() -> Seq<char> {
    ".mep-default-title > h2"@
}

/// CSS selector for the banner image of an ADC event page.
pub open spec fn adc_banner_selector() -> Seq<char> {
    ".mep-event-thumbnail > img"@
}

/// What one ADC page yields: an event when the page has a title element,
/// with the banner taken from the thumbnail's `data-src` when present.
pub open spec fn adc_extract_spec(url: Seq<char>, page: Seq<char>) -> Option<AdcEventView> {
    match html_first_inner(page, adc_title_selector()) {
        Some(t) => Some(
            AdcEventView {
                url: url,
                title: t,
                banner_url: html_first_attr(page, adc_banner_selector(), "data-src"@),
            },
        ),
        None => None,
    }
}

/// Applies the ADC extraction rules to one fetched page; `None` when the page
/// has no title element.
pub fn extract_adc_event(url: String, page_text: &str) -> (r: Option<AdcEvent>)
    ensures
        match r {
            Some(e) => adc_extract_spec(url@, page_text@) == Some(e@),
            None => adc_extract_spec(url@, page_text@) is None,
        },
{
    match select_first_inner_html(page_text, ".mep-default-title > h2") {
        Some(title) => {
            let banner_url = select_first_attr(page_text, ".mep-event-thumbnail > img", "data-src");
            Some(AdcEvent { url, title, banner_url })
        },
        None => None,
    }
}

/// The events extracted from a run of fetched pages, in page order; a page
/// whose fetch or extraction failed contributes nothing.
pub open spec fn adc_collected(pages: Seq<FetchedPageView>) -> Seq<AdcEventView>
    decreases pages.len(),
{
    if pages.len() == 0 {
        Seq::empty()
    } else {
        let rest = adc_collected(pages.drop_last());
        let pg = pages.last();
        match pg.body {
            Some(b) => match adc_extract_spec(pg.url, b) {
                Some(e) => rest.push(e),
                None => rest,
            },
            None => rest,
        }
    }
}

/// The URLs of the pages that yielded no event, in page order: failures stay
/// isolated to their page and are only reported.
pub open spec fn adc_failed(pages: Seq<FetchedPageView>) -> Seq<Seq<char>>
    decreases pages.len(),
{
    if pages.len() == 0 {
        Seq::empty()
    } else {
        let rest = adc_failed(pages.drop_last());
        let pg = pages.last();
        match pg.body {
            Some(b) => if adc_extract_spec(pg.url, b) is Some {
                rest
            } else {
                rest.push(pg.url)
            },
            None => rest.push(pg.url),
        }
    }
}

/// Processes candidate pages sequentially, in sitemap order: every page that
/// fetched and extracted yields an event, and each failing page is reported
/// in the second component without aborting the remaining pages.
pub fn collect_adc_events(pages: &Vec<FetchedPage>) -> (r: (Vec<AdcEvent>, Vec<String>))
    ensures
        r.0@.map_values(|e: AdcEvent| e@) == adc_collected(
            pages@.map_values(|p: FetchedPage| p@),
        ),
        r.1.deep_view() == adc_failed(pages@.map_values(|p: FetchedPage| p@)),
{
    let ghost all = pages@.map_values(|p: FetchedPage| p@);
    let mut events: Vec<AdcEvent> = Vec::new();
    let mut failed: Vec<String> = Vec::new();
    let n = pages.len();
    let mut i: usize = 0;
    while i < n
        invariant
            n == pages.len(),
            i <= n,
            all == pages@.map_values(|p: FetchedPage| p@),
            events@.map_values(|e: AdcEvent| e@) == adc_collected(all.subrange(0, i as int)),
            failed.deep_view() == adc_failed(all.subrange(0, i as int)),
        decreases n - i,
    {
        let ghost pre_events = events@.map_values(|e: AdcEvent| e@);
        let ghost pre_failed = failed.deep_view();
        match &pages[i].body {
            Some(b) => {
                match extract_adc_event(pages[i].url.clone(), b.as_str()) {
                    Some(e) => events.push(e),
                    None => failed.push(pages[i].url.clone()),
                }
            },
            None => failed.push(pages[i].url.clone()),
        }
        proof {
            assert(all.subrange(0, i + 1).drop_last() =~= all.subrange(0, i as int));
            assert(all.subrange(0, i + 1).last() == all[i as int]);
            assert(all[i as int] == pages@[i as int]@);
            assert(events@.map_values(|e: AdcEvent| e@) =~= adc_collected(all.subrange(0, i + 1)));
            assert(failed.deep_view() =~= adc_failed(all.subrange(0, i + 1)));
        }
        i += 1;
    }
    proof {
        assert(all.subrange(0, n as int) =~= all);
    }
    (events, failed)
}

/// Some event of `events` carries the title `t`.
pub open spec fn adc_has_title(events: Seq<AdcEventView>, t: Seq<char>) -> bool {
    exists|i: int| 0 <= i < events.len() && (#[trigger] events[i]).title == t
}

/// The per-tick diff: the discovered events whose titles are not yet known,
/// one event per distinct new title — two equal-titled events in one run are
/// the same event, and only the first occurrence is kept.
pub open spec fn adc_new_events(events: Seq<AdcEventView>, known: Set<Seq<char>>) -> Seq<
    AdcEventView,
>
    decreases events.len(),
{
    if events.len() == 0 {
        Seq::empty()
    } else {
        let rest = adc_new_events(events.drop_last(), known);
        let e = events.last();
        if !known.contains(e.title) && !adc_has_title(rest, e.title) {
            rest.push(e)
        } else {
            rest
        }
    }
}

/// For every discovered run `events` and known set `known`, the diff
/// `adc_new_events(events, known)` contains no title present in `known`.
pub proof fn lemma_adc_diff_excludes_known(events: Seq<AdcEventView>, known: Set<Seq<char>>)
    ensures
        forall|i: int|
            0 <= i < adc_new_events(events, known).len() ==> !known.contains(
                #[trigger] adc_new_events(events, known)[i].title,
            ),
    decreases events.len(),
{
    if events.len() > 0 {
        lemma_adc_diff_excludes_known(events.drop_last(), known);
    }
}

/// Within one tick, two discovered events with an equal title are the same
/// event: the diff never carries one title twice.
pub proof fn lemma_adc_diff_titles_distinct(events: Seq<AdcEventView>, known: Set<Seq<char>>)
    ensures
        forall|i: int, j: int|
            0 <= i < j < adc_new_events(events, known).len() ==> (
            #[trigger] adc_new_events(events, known)[i]).title != (
            #[trigger] adc_new_events(events, known)[j]).title,
    decreases events.len(),
{
    if events.len() > 0 {
        lemma_adc_diff_titles_distinct(events.drop_last(), known);
    }
}

/// The notification built for one new ADC event: the bold-title text, plus a
/// rich preview when the event has a banner.
pub open spec fn adc_notification_of(e: AdcEventView) -> NotificationView {
    NotificationView {
        content: adc_content_of(e.title),
        embed: match e.banner_url {
            Some(b) => Some(EmbedView { title: e.title, url: e.url, image: b }),
            None => None,
        },
    }
}

/// The notifications one polling tick sends for this source, given what was
/// discovered and what is already known.
pub open spec fn adc_plan(events: Seq<AdcEventView>, known: Set<Seq<char>>) -> Seq<
    NotificationView,
> {
    adc_new_events(events, known).map_values(|e: AdcEventView| adc_notification_of(e))
}

/// A notification text emitted for `e` that replay recognizes again: as long
/// as the title holds no newline, parsing the text recovers exactly `e`'s
/// title, so the event is never re-announced.
pub open spec fn adc_notification_replayable(e: AdcEventView, content: Seq<char>) -> bool {
    !contains_char(e.title, '\n') ==> adc_parse(content) == Some(e.title)
}

/// The ADC source adapter: holds the titles already announced for this
/// source, as rebuilt from the channel transcript.
pub struct Adc {
    previous_titles: TitleSet,
}

/// Decides `adc_has_title(events@..., t@)`: whether some already-kept event
/// carries this title.
fn adc_events_hold_title(events: &Vec<AdcEvent>, t: &str) -> (r: bool)
    ensures
        r == adc_has_title(events@.map_values(|e: AdcEvent| e@), t@),
{
    let n = events.len();
    let mut i: usize = 0;
    while i < n
        invariant
            n == events.len(),
            i <= n,
            forall|j: int| 0 <= j < i ==> (#[trigger] events@[j])@.title != t@,
        decreases n - i,
    {
        if str_eq(events[i].title.as_str(), t) {
            proof {
                assert(events@.map_values(|e: AdcEvent| e@)[i as int].title == t@);
            }
            return true;
        }
        i += 1;
    }
    proof {
        let views = events@.map_values(|e: AdcEvent| e@);
        if adc_has_title(views, t@) {
            let w = choose|w: int| 0 <= w < views.len() && views[w].title == t@;
            assert(views[w] == events@[w]@);
            assert(false);
        }
    }
    false
}

impl Adc {
    pub fn new() -> (s: Self)
        ensures
            s.known_titles() == Set::<Seq<char>>::empty(),
    {
        Self { previous_titles: TitleSet::new() }
    }

    /// The per-tick diff: keeps, in discovery order, the discovered events
    /// whose titles this source has not announced yet — one event per
    /// distinct new title, the first occurrence. No event whose title is
    /// already known ever comes back, and no title comes back twice.
    pub fn new_events(&self, discovered: Vec<AdcEvent>) -> (r: Vec<AdcEvent>)
        ensures
            r@.map_values(|e: AdcEvent| e@) == adc_new_events(
                discovered@.map_values(|e: AdcEvent| e@),
                self.known_titles(),
            ),
            forall|i: int|
                0 <= i < r@.len() ==> !self.known_titles().contains(#[trigger] r@[i]@.title),
            forall|i: int, j: int|
                0 <= i < j < r@.len() ==> (#[trigger] r@[i])@.title != (#[trigger] r@[j])@.title,
    {
        let ghost all = discovered@.map_values(|e: AdcEvent| e@);
        let ghost k = self.known_titles();
        let mut rem = discovered;
        let mut out: Vec<AdcEvent> = Vec::new();
        let ghost mut done: int = 0;
        proof {
            assert(adc_new_events(all.subrange(0, 0), k) =~= Seq::<AdcEventView>::empty());
        }
        while rem.len() > 0
            invariant
                0 <= done,
                done + rem@.len() == all.len(),
                k == self.known_titles(),
                forall|j: int| 0 <= j < rem@.len() ==> (#[trigger] rem@[j])@ == all[done + j],
                out@.map_values(|e: AdcEvent| e@) == adc_new_events(all.subrange(0, done), k),
                forall|i: int|
                    0 <= i < out@.len() ==> !self.known_titles().contains(
                        #[trigger] out@[i]@.title,
                    ),
                forall|i: int, j: int|
                    0 <= i < j < out@.len() ==> (#[trigger] out@[i])@.title != (
                    #[trigger] out@[j])@.title,
            decreases rem@.len(),
        {
            let ghost pre_rem = rem@;
            let e = rem.remove(0);
            proof {
                assert(e@ == all[done]);
                assert(forall|j: int| 0 <= j < rem@.len() ==> #[trigger] rem@[j] == pre_rem[j + 1]);
                assert(all.subrange(0, done + 1).drop_last() =~= all.subrange(0, done));
                assert(all.subrange(0, done + 1).last() == all[done]);
            }
            let ghost pre_out = out@;
            let keep = !self.previous_titles.contains_title(e.title.as_str())
                && !adc_events_hold_title(&out, e.title.as_str());
            if keep {
                out.push(e);
            }
            proof {
                let f = |ev: AdcEvent| ev@;
                assert(e@.title == e.title@);
                assert(self.known_titles() == self.previous_titles@);
                assert(keep == (!k.contains(e@.title) && !adc_has_title(
                    pre_out.map_values(f),
                    e@.title,
                )));
                if keep {
                    assert(adc_new_events(all.subrange(0, done + 1), k) == adc_new_events(
                        all.subrange(0, done),
                        k,
                    ).push(all[done]));
                    assert(out@.map_values(f) =~= pre_out.map_values(f).push(e@));
                    assert forall|i: int| 0 <= i < pre_out.len() implies (
                    #[trigger] pre_out[i])@.title != e@.title by {
                        assert(pre_out.map_values(f)[i].title != e@.title);
                    }
                } else {
                    assert(adc_new_events(all.subrange(0, done + 1), k) == adc_new_events(
                        all.subrange(0, done),
                        k,
                    ));
                }
                assert(out@.map_values(f) =~= adc_new_events(all.subrange(0, done + 1), k));
                done = done + 1;
            }
        }
        proof {
            assert(all.subrange(0, all.len() as int) =~= all);
        }
        out
    }

    /// Formats one fresh notification for each newly discovered event, in
    /// discovery order: the bold-title message text, plus a rich preview
    /// carrying title, URL and banner when the event has one. Every emitted
    /// text is recognized by replay, for every title without a newline.
    pub fn new_broadcasts(&self, discovered: Vec<AdcEvent>) -> (r: Vec<Notification>)
        ensures
            r@.map_values(|n: Notification| n@) == adc_plan(
                discovered@.map_values(|e: AdcEvent| e@),
                self.known_titles(),
            ),
            forall|i: int|
                0 <= i < r@.len() ==> adc_notification_replayable(
                    adc_new_events(
                        discovered@.map_values(|e: AdcEvent| e@),
                        self.known_titles(),
                    )[i],
                    (#[trigger] r@[i])@.content,
                ),
    {
        let ghost all = discovered@.map_values(|e: AdcEvent| e@);
        let ghost k = self.known_titles();
        let picked = self.new_events(discovered);
        let ghost picked_views = picked@.map_values(|e: AdcEvent| e@);
        let mut rem = picked;
        let mut out: Vec<Notification> = Vec::new();
        let ghost mut done: int = 0;
        while rem.len() > 0
            invariant
                0 <= done,
                done + rem@.len() == picked_views.len(),
                forall|j: int|
                    0 <= j < rem@.len() ==> (#[trigger] rem@[j])@ == picked_views[done + j],
                out@.map_values(|n: Notification| n@) == picked_views.subrange(
                    0,
                    done,
                ).map_values(|e: AdcEventView| adc_notification_of(e)),
            decreases rem@.len(),
        {
            let ghost pre_rem = rem@;
            let e = rem.remove(0);
            proof {
                assert(e@ == picked_views[done]);
                assert(forall|j: int| 0 <= j < rem@.len() ==> #[trigger] rem@[j] == pre_rem[j + 1]);
            }
            let ghost pre_out = out@;
            let content = adc_content(e.title.as_str());
            let AdcEvent { url, title, banner_url } = e;
            let embed = match banner_url {
                Some(b) => Some(Embed { title, url, image: b }),
                None => None,
            };
            let notif = Notification { content, embed };
            proof {
                assert(notif@ == adc_notification_of(picked_views[done]));
            }
            out.push(notif);
            proof {
                let g = |ev: AdcEventView| adc_notification_of(ev);
                let h = |n: Notification| n@;
                assert(out@.map_values(h) =~= pre_out.map_values(h).push(notif@));
                assert(picked_views.subrange(0, done + 1).map_values(g) =~= picked_views.subrange(
                    0,
                    done,
                ).map_values(g).push(adc_notification_of(picked_views[done])));
                assert(out@.map_values(h) =~= picked_views.subrange(0, done + 1).map_values(g));
                done = done + 1;
            }
        }
        proof {
            assert(picked_views.subrange(0, picked_views.len() as int) =~= picked_views);
            let g = |ev: AdcEventView| adc_notification_of(ev);
            let h = |n: Notification| n@;
            assert forall|i: int| 0 <= i < out@.len() implies adc_notification_replayable(
                adc_new_events(all, k)[i],
                (#[trigger] out@[i])@.content,
            ) by {
                let e = picked_views[i];
                assert(out@.map_values(h)[i] == picked_views.map_values(g)[i]);
                assert(out@[i]@ == adc_notification_of(e));
                if !contains_char(e.title, '\n') {
                    lemma_adc_round_trip(e.title);
                }
            }
        }
        out
    }
}

impl EventFinder for Adc {
    closed spec fn known_titles(&self) -> Set<Seq<char>> {
        self.previous_titles@
    }

    open spec fn parse_message(msg: Seq<char>) -> Option<Seq<char>> {
        adc_parse(msg)
    }

    fn previous_broadcast(&mut self, content: &str) {
        match parse_adc_message(content) {
            Some(title) => self.previous_titles.insert_title(title),
            None => (),
        }
    }
}

} // verus!
