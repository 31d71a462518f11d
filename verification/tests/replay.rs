//! Replay and diff tests: rebuilding known-title sets from transcript text,
//! idempotent replay, and the per-tick diff that never re-announces a known
//! title.
use event_notifier::adc::{Adc, AdcEvent};
use event_notifier::common::{EventFinder, TranscriptMessage};
use event_notifier::driving_sports::{DrivingSports, DrivingSportsEvent};
use event_notifier::scheduler::replay_source;

fn adc_event(title: &str) -> AdcEvent {
    AdcEvent {
        url: format!("https://www.australiandriftclub.com.au/{title}/"),
        title: String::from(title),
        banner_url: None,
    }
}

fn ds_event(title: &str) -> DrivingSportsEvent {
    DrivingSportsEvent {
        url: format!("https://www.drivingsports.com.au/{title}/"),
        title: String::from(title),
    }
}

fn titles_of_adc(events: &[AdcEvent]) -> Vec<String> {
    events.iter().map(|e| e.title.clone()).collect()
}

#[test]
fn replay_inserts_matching_titles_only() {
    let mut adc = Adc::new();
    adc.previous_broadcast("@everyone New ADC event: **Round 1**");
    adc.previous_broadcast("random chatter");
    adc.previous_broadcast("@everyone New DrivingSports event: **Round 2**");
    let new = adc.new_events(vec![adc_event("Round 1"), adc_event("Round 2")]);
    assert_eq!(titles_of_adc(&new), vec![String::from("Round 2")]);
}

#[test]
fn replaying_twice_yields_identical_known_titles() {
    let history = [
        "@everyone New ADC event: **Round 1**",
        "@everyone New ADC event: **Round 2**",
        "noise",
    ];
    let mut once = Adc::new();
    for m in history.iter() {
        once.previous_broadcast(m);
    }
    let mut twice = Adc::new();
    for m in history.iter() {
        twice.previous_broadcast(m);
    }
    for m in history.iter() {
        twice.previous_broadcast(m);
    }
    let discovered = vec![adc_event("Round 1"), adc_event("Round 2"), adc_event("Round 3")];
    let discovered_again = vec![adc_event("Round 1"), adc_event("Round 2"), adc_event("Round 3")];
    let from_once = once.new_events(discovered);
    let from_twice = twice.new_events(discovered_again);
    assert_eq!(titles_of_adc(&from_once), vec![String::from("Round 3")]);
    assert_eq!(titles_of_adc(&from_once), titles_of_adc(&from_twice));
}

#[test]
fn diff_contains_no_known_title() {
    let mut ds = DrivingSports::new();
    ds.previous_broadcast("@everyone New DrivingSports event: **Round 3**");
    ds.previous_broadcast("@everyone New DrivingSports event: [**Round 5**](http://x)");
    let new = ds.new_events(vec![
        ds_event("Round 3"),
        ds_event("Round 4"),
        ds_event("Round 5"),
        ds_event("Round 6"),
    ]);
    let titles: Vec<String> = new.iter().map(|e| e.title.clone()).collect();
    assert_eq!(titles, vec![String::from("Round 4"), String::from("Round 6")]);
    assert!(!titles.contains(&String::from("Round 3")));
    assert!(!titles.contains(&String::from("Round 5")));
}

#[test]
fn one_known_one_new_yields_exactly_one_broadcast() {
    let mut ds = DrivingSports::new();
    ds.previous_broadcast("@everyone New DrivingSports event: **Round 3**");
    let discovered = vec![ds_event("Round 3"), ds_event("Round 4")];
    let broadcasts = ds.new_broadcasts(discovered);
    assert_eq!(broadcasts.len(), 1);
    assert_eq!(
        broadcasts[0].content,
        "@everyone New DrivingSports event: [**Round 4**](https://www.drivingsports.com.au/Round 4/)"
    );
    assert!(broadcasts[0].embed.is_none());
}

#[test]
fn equal_titles_within_one_tick_are_one_event() {
    let adc = Adc::new();
    let first = AdcEvent {
        url: String::from("https://www.australiandriftclub.com.au/round-1/"),
        title: String::from("Round 1"),
        banner_url: None,
    };
    let duplicate = AdcEvent {
        url: String::from("https://www.australiandriftclub.com.au/round-1-again/"),
        title: String::from("Round 1"),
        banner_url: None,
    };
    let new = adc.new_events(vec![first, duplicate, adc_event("Round 2")]);
    assert_eq!(titles_of_adc(&new), vec![String::from("Round 1"), String::from("Round 2")]);
    // the first occurrence is the one kept
    assert_eq!(new[0].url, "https://www.australiandriftclub.com.au/round-1/");
}

#[test]
fn duplicate_new_title_yields_a_single_broadcast() {
    let ds = DrivingSports::new();
    let broadcasts = ds.new_broadcasts(vec![
        ds_event("Round 4"),
        ds_event("Round 4"),
    ]);
    assert_eq!(broadcasts.len(), 1);
    assert_eq!(
        broadcasts[0].content,
        "@everyone New DrivingSports event: [**Round 4**](https://www.drivingsports.com.au/Round 4/)"
    );
}

#[test]
fn replay_source_skips_messages_from_other_authors() {
    let transcript = vec![
        TranscriptMessage {
            author_is_self: true,
            content: String::from("@everyone New ADC event: **Round 1**"),
        },
        TranscriptMessage {
            author_is_self: false,
            content: String::from("@everyone New ADC event: **Round 2**"),
        },
    ];
    let mut adc = Adc::new();
    replay_source(&mut adc, &transcript);
    let new = adc.new_events(vec![adc_event("Round 1"), adc_event("Round 2")]);
    assert_eq!(titles_of_adc(&new), vec![String::from("Round 2")]);
}

#[test]
fn adc_broadcast_carries_banner_embed_when_present() {
    let adc = Adc::new();
    let event = AdcEvent {
        url: String::from("https://www.australiandriftclub.com.au/round-7/"),
        title: String::from("Round 7"),
        banner_url: Some(String::from("https://img.example/banner.jpg")),
    };
    let broadcasts = adc.new_broadcasts(vec![event]);
    assert_eq!(broadcasts.len(), 1);
    assert_eq!(broadcasts[0].content, "@everyone New ADC event: **Round 7**");
    let embed = broadcasts[0].embed.as_ref().expect("banner should yield an embed");
    assert_eq!(embed.title, "Round 7");
    assert_eq!(embed.url, "https://www.australiandriftclub.com.au/round-7/");
    assert_eq!(embed.image, "https://img.example/banner.jpg");
}
