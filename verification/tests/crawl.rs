//! Sitemap and page-extraction tests, run against the real XML and HTML
//! parsing crates: candidate enumeration, skip-list filtering, per-page
//! failure isolation.
use event_notifier::adc::{adc_sitemap_url, collect_adc_events, extract_adc_event};
use event_notifier::common::{FetchedPage, SourceError, sitemap_urls_from_text};
use event_notifier::driving_sports::{
    collect_driving_sports_events, driving_sports_sitemap_url, extract_driving_sports_event,
    filter_candidate_urls,
};

const SITEMAP: &str = r#"<?xml version="1.0" encoding="UTF-8"?>
<urlset xmlns="http://www.sitemaps.org/schemas/sitemap/0.9">
<url><loc>https://www.drivingsports.com.au/old-page/</loc></url>
<url><loc>https://www.drivingsports.com.au/</loc></url>
<url><loc>https://www.drivingsports.com.au/round-4/</loc></url>
</urlset>"#;

fn adc_page(title: &str, banner: Option<&str>) -> String {
    let banner_html = match banner {
        Some(b) => format!(r#"<div class="mep-event-thumbnail"><img data-src="{b}"/></div>"#),
        None => String::new(),
    };
    format!(
        r#"<html><body><div class="mep-default-title"><h2>{title}</h2></div>{banner_html}</body></html>"#
    )
}

fn ds_page(title: &str) -> String {
    format!(r#"<html><body><h1 class="entry-title page-title">{title}</h1></body></html>"#)
}

#[test]
fn sitemap_locs_are_enumerated_in_order() {
    let urls = sitemap_urls_from_text(SITEMAP).expect("well-formed sitemap");
    assert_eq!(
        urls,
        vec![
            String::from("https://www.drivingsports.com.au/old-page/"),
            String::from("https://www.drivingsports.com.au/"),
            String::from("https://www.drivingsports.com.au/round-4/"),
        ]
    );
}

#[test]
fn malformed_sitemap_is_a_parse_error() {
    let r = sitemap_urls_from_text("this is not xml at all <<<");
    assert!(matches!(r, Err(SourceError::Parse(_))));
}

#[test]
fn sitemap_without_urlset_is_a_parse_error() {
    let r = sitemap_urls_from_text("<?xml version=\"1.0\"?><other><loc>https://x</loc></other>");
    assert!(matches!(r, Err(SourceError::Parse(_))));
}

#[test]
fn adc_extraction_reads_title_and_banner() {
    let page = adc_page("Round 5", Some("https://img.example/r5.jpg"));
    let event = extract_adc_event(String::from("https://e/"), &page).expect("title present");
    assert_eq!(event.title, "Round 5");
    assert_eq!(event.url, "https://e/");
    assert_eq!(event.banner_url, Some(String::from("https://img.example/r5.jpg")));
}

#[test]
fn adc_extraction_without_banner_yields_event_without_embed_image() {
    let page = adc_page("Round 6", None);
    let event = extract_adc_event(String::from("https://e/"), &page).expect("title present");
    assert_eq!(event.title, "Round 6");
    assert_eq!(event.banner_url, None);
}

#[test]
fn adc_extraction_without_title_yields_nothing() {
    let page = "<html><body><p>no event here</p></body></html>";
    assert!(extract_adc_event(String::from("https://e/"), page).is_none());
}

#[test]
fn one_failing_page_does_not_abort_the_others() {
    let pages: Vec<FetchedPage> = (1..=5)
        .map(|i| {
            let url = format!("https://site/page-{i}/");
            if i == 3 {
                // this page fetched, but its extraction fails: no title element
                FetchedPage { url, body: Some(String::from("<html><body></body></html>")) }
            } else {
                FetchedPage { url, body: Some(adc_page(&format!("Round {i}"), None)) }
            }
        })
        .collect();
    let (events, failed) = collect_adc_events(&pages);
    let titles: Vec<String> = events.iter().map(|e| e.title.clone()).collect();
    assert_eq!(
        titles,
        vec![
            String::from("Round 1"),
            String::from("Round 2"),
            String::from("Round 4"),
            String::from("Round 5"),
        ]
    );
    assert_eq!(failed, vec![String::from("https://site/page-3/")]);
}

#[test]
fn unfetched_page_is_reported_and_skipped() {
    let pages = vec![
        FetchedPage {
            url: String::from("https://www.drivingsports.com.au/round-4/"),
            body: Some(ds_page("Round 4")),
        },
        FetchedPage { url: String::from("https://www.drivingsports.com.au/round-5/"), body: None },
    ];
    let (events, failed) = collect_driving_sports_events(&pages);
    assert_eq!(events.len(), 1);
    assert_eq!(events[0].title, "Round 4");
    assert_eq!(failed, vec![String::from("https://www.drivingsports.com.au/round-5/")]);
}

#[test]
fn driving_sports_extraction_reads_title() {
    let page = ds_page("Round 4");
    let event =
        extract_driving_sports_event(String::from("https://e/"), &page).expect("title present");
    assert_eq!(event.title, "Round 4");
    assert_eq!(event.url, "https://e/");
}

#[test]
fn candidate_filter_drops_clutter_before_site_root() {
    let urls = vec![
        String::from("https://www.drivingsports.com.au/old-junk/"),
        String::from("https://www.drivingsports.com.au/ancient-event/"),
        String::from("https://www.drivingsports.com.au/"),
        String::from("https://www.drivingsports.com.au/round-4/"),
    ];
    let kept = filter_candidate_urls(&urls);
    assert_eq!(
        kept,
        vec![
            String::from("https://www.drivingsports.com.au/"),
            String::from("https://www.drivingsports.com.au/round-4/"),
        ]
    );
}

#[test]
fn candidate_filter_applies_skip_list_and_form_rule() {
    let urls = vec![
        String::from("https://www.drivingsports.com.au/"),
        String::from("https://www.drivingsports.com.au/home/"),
        String::from("https://www.drivingsports.com.au/members/"),
        String::from("https://www.drivingsports.com.au/scrutineering/"),
        String::from("https://www.drivingsports.com.au/events/"),
        String::from("https://www.drivingsports.com.au/contact/"),
        String::from("https://www.drivingsports.com.au/track-day/"),
        String::from("https://www.drivingsports.com.au/terms-conditions/"),
        String::from("https://www.drivingsports.com.au/events-2/"),
        String::from("https://www.drivingsports.com.au/entry-form-round-4/"),
        String::from("https://www.drivingsports.com.au/round-4/"),
    ];
    let kept = filter_candidate_urls(&urls);
    assert_eq!(
        kept,
        vec![
            String::from("https://www.drivingsports.com.au/"),
            String::from("https://www.drivingsports.com.au/round-4/"),
        ]
    );
}

#[test]
fn candidate_filter_without_site_root_keeps_nothing() {
    let urls = vec![
        String::from("https://www.drivingsports.com.au/round-4/"),
        String::from("https://elsewhere.example/"),
    ];
    assert_eq!(filter_candidate_urls(&urls), Vec::<String>::new());
}

#[test]
fn sitemap_urls_are_fixed() {
    assert_eq!(
        adc_sitemap_url(),
        "https://www.australiandriftclub.com.au/wp-sitemap-posts-mep_events-1.xml"
    );
    assert_eq!(
        driving_sports_sitemap_url(),
        "https://www.drivingsports.com.au/wp-sitemap-posts-page-1.xml"
    );
}
