//! Shared pieces of the discovery engine: the per-source `EventFinder`
//! contract, the notification value handed to the transport, transcript
//! messages, the discovery error taxonomy, and the sitemap / page-extraction
//! helpers that call into the HTML and XML parsing crates.
use vstd::prelude::*;

verus! {

/// A discovery failure, isolated to one source for one tick.
#[derive(Debug, PartialEq, Eq)]
pub enum SourceError {
    /// A host could not be reached or a transfer failed.
    Network(String),
    /// A document did not have the expected structure.
    Parse(String),
}

/// The rich preview attached to a notification when a banner is available.
pub struct Embed {
    pub title: String,
    pub url: String,
    pub image: String,
}

/// A notification ready to be posted to the channel.
pub struct Notification {
    pub content: String,
    pub embed: Option<Embed>,
}

pub struct EmbedView {
    pub title: Seq<char>,
    pub url: Seq<char>,
    pub image: Seq<char>,
}

pub struct NotificationView {
    pub content: Seq<char>,
    pub embed: Option<EmbedView>,
}

impl View for Embed {
    type V = EmbedView;

    open spec fn view(&self) -> EmbedView {
        EmbedView { title: self.title@, url: self.url@, image: self.image@ }
    }
}

impl View for Notification {
    type V = NotificationView;

    open spec fn view(&self) -> NotificationView {
        NotificationView {
            content: self.content@,
            embed: match self.embed {
                Some(e) => Some(e@),
                None => None,
            },
        }
    }
}

/// One message of the channel transcript, as the replayer sees it: who wrote
/// it (only messages authored by this bot are replayed) and its raw text.
pub struct TranscriptMessage {
    pub author_is_self: bool,
    pub content: String,
}

/// One candidate page, after its fetch was attempted: `body` is `None` when
/// the page could not be retrieved.
pub struct FetchedPage {
    pub url: String,
    pub body: Option<String>,
}

pub struct FetchedPageView {
    pub url: Seq<char>,
    pub body: Option<Seq<char>>,
}

impl View for FetchedPage {
    type V = FetchedPageView;

    open spec fn view(&self) -> FetchedPageView {
        FetchedPageView {
            url: self.url@,
            body: match self.body {
                Some(b) => Some(b@),
                None => None,
            },
        }
    }
}

/// A per-source set of already-announced titles: membership only, no order.
/// Created empty at the start of a resync, populated by replay, read-only
/// during discovery ticks.
pub struct TitleSet {
    items: Vec<String>,
}

impl View for TitleSet {
    type V = Set<Seq<char>>;

    closed spec fn view(&self) -> Set<Seq<char>> {
        self.items.deep_view().to_set()
    }
}

impl TitleSet {
    pub fn new() -> (s: TitleSet)
        ensures
            s@ == Set::<Seq<char>>::empty(),
    {
        let s = TitleSet { items: Vec::new() };
        proof {
            assert(s@ =~= Set::<Seq<char>>::empty());
        }
        s
    }

    pub fn contains_title(&self, t: &str) -> (r: bool)
        ensures
            r == self@.contains(t@),
    {
        let n = self.items.len();
        let mut i: usize = 0;
        while i < n
            invariant
                n == self.items.len(),
                i <= n,
                forall|j: int| 0 <= j < i ==> self.items.deep_view()[j] != t@,
            decreases n - i,
        {
            if crate::text::str_eq(self.items[i].as_str(), t) {
                proof {
                    assert(self.items.deep_view()[i as int] == t@);
                    assert(self.items.deep_view().contains(t@));
                }
                return true;
            }
            i += 1;
        }
        proof {
            assert(!self.items.deep_view().contains(t@));
        }
        false
    }

    pub fn insert_title(&mut self, t: String)
        ensures
            final(self)@ == old(self)@.insert(t@),
    {
        let ghost pre = self.items.deep_view();
        if !self.contains_title(t.as_str()) {
            self.items.push(t);
            proof {
                assert(self.items.deep_view() =~= pre.push(t@));
                assert forall|a: Seq<char>| #[trigger] self.items.deep_view().contains(a)
                    <==> (pre.contains(a) || a == t@) by {
                    if pre.contains(a) {
                        let j = choose|j: int| 0 <= j < pre.len() && pre[j] == a;
                        assert(self.items.deep_view()[j] == a);
                    }
                    if a == t@ {
                        assert(self.items.deep_view()[pre.len() as int] == a);
                    }
                    if self.items.deep_view().contains(a) {
                        let j = choose|j: int|
                            0 <= j < self.items.deep_view().len() && self.items.deep_view()[j]
                                == a;
                        if j < pre.len() {
                            assert(pre[j] == a);
                        }
                    }
                }
                assert(self@ =~= old(self)@.insert(t@));
            }
        } else {
            proof {
                assert(self@ =~= old(self)@.insert(t@));
            }
        }
    }
}

/// The per-source contract: every adapter can replay a historical channel
/// message into its known-title set. A message that does not match the
/// source's recognized formats is silently ignored.
pub trait EventFinder {
    /// The titles this source has already announced, as rebuilt from the
    /// transcript so far.
    spec fn known_titles(&self) -> Set<Seq<char>>;

    /// Which title, if any, the given message text announces for this source.
    spec fn parse_message(msg: Seq<char>) -> Option<Seq<char>>;

    /// Replays one historical message: inserts its captured title when the
    /// text matches this source's notification format, and does nothing
    /// otherwise.
    fn previous_broadcast(&mut self, content: &str)
        ensures
            final(self).known_titles() == (match Self::parse_message(content@) {
                Some(t) => old(self).known_titles().insert(t),
                None => old(self).known_titles(),
            }),
    ;
}

/// The inner HTML of the first element matching a CSS selector in a parsed
/// HTML document, `None` when the selector is invalid or nothing matches.
/// The result depends on the document text and the selector alone.
pub uninterp spec fn html_first_inner(page: Seq<char>, selector: Seq<char>) -> Option<Seq<char>>;

/// The value of attribute `attr` on the first element matching a CSS selector,
/// `None` when the selector is invalid, nothing matches, or the attribute is
/// absent. The result depends on the arguments alone.
pub uninterp spec fn html_first_attr(page: Seq<char>, selector: Seq<char>, attr: Seq<char>) -> Option<
    Seq<char>,
>;

/// The `<loc>` texts of the children of the `<urlset>` element of an XML
/// sitemap, `None` when the text is not well-formed XML or has no `<urlset>`.
/// The result depends on the text alone.
pub uninterp spec fn sitemap_locs(text: Seq<char>) -> Option<Seq<Seq<char>>>;

/// Relies on scraper (`Html::parse_document`, `Selector::parse`, `select`,
/// `ElementRef::inner_html`): the inner HTML of the first match of the
/// selector, a pure function of the two texts.
#[verifier::external_body]
pub(crate) fn select_first_inner_html(page: &str, selector: &str) -> (r: Option<String>)
    ensures
        match r {
            Some(s) => html_first_inner(page@, selector@) == Some(s@),
            None => html_first_inner(page@, selector@) is None,
        },
{
    let sel = match scraper::Selector::parse(selector) {
        Ok(s) => s,
        Err(_) => return None,
    };
    let doc = scraper::Html::parse_document(page);
    match doc.select(&sel).next() {
        Some(e) => Some(e.inner_html()),
        None => None,
    }
}

/// Relies on scraper (`Html::parse_document`, `Selector::parse`, `select`,
/// `ElementRef::attr`): the named attribute of the first match of the
/// selector, a pure function of the three texts.
#[verifier::external_body]
pub(crate) fn select_first_attr(page: &str, selector: &str, attr: &str) -> (r: Option<String>)
    ensures
        match r {
            Some(s) => html_first_attr(page@, selector@, attr@) == Some(s@),
            None => html_first_attr(page@, selector@, attr@) is None,
        },
{
    let sel = match scraper::Selector::parse(selector) {
        Ok(s) => s,
        Err(_) => return None,
    };
    let doc = scraper::Html::parse_document(page);
    match doc.select(&sel).next() {
        Some(e) => e.attr(attr).map(|v| v.to_string()),
        None => None,
    }
}

/// Relies on roxmltree (`Document::parse`, `Node::descendants`,
/// `Node::has_tag_name`, `Node::children`, `Node::text`): the `<loc>` texts
/// under the `<urlset>` element, a pure function of the sitemap text.
#[verifier::external_body]
pub(crate) fn parse_sitemap_locs(text: &str) -> (r: Option<Vec<String>>)
    ensures
        match r {
            Some(urls) => sitemap_locs(text@) == Some(urls.deep_view()),
            None => sitemap_locs(text@) is None,
        },
{
    let doc = roxmltree::Document::parse(text).ok()?;
    let urlset = doc.descendants().find(|n| n.has_tag_name("urlset"))?;
    let mut out = Vec::new();
    for child in urlset.children() {
        if let Some(t) = child.children().find(|n| n.has_tag_name("loc")).and_then(|n| n.text()) {
            out.push(t.to_string());
        }
    }
    Some(out)
}

/// Enumerates the candidate URLs of a fetched sitemap document: the `<loc>`
/// text of each child of its `<urlset>` element. A text that is not a
/// well-formed sitemap is a parse error, fatal for the whole source this tick.
pub fn sitemap_urls_from_text(text: &str) -> (r: Result<Vec<String>, SourceError>)
    ensures
        match r {
            Ok(urls) => sitemap_locs(text@) == Some(urls.deep_view()),
            Err(e) => sitemap_locs(text@) is None && e is Parse,
        },
{
    match parse_sitemap_locs(text) {
        Some(urls) => Ok(urls),
        None => Err(SourceError::Parse(String::from_str("sitemap is not well-formed XML with a urlset"))),
    }
}

} // verus!
