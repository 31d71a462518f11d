//! Scheduler state-machine tests: resync before polling, per-source failure
//! isolation within a tick, and the forced resync after a successful send.
use event_notifier::adc::AdcEvent;
use event_notifier::common::{SourceError, TranscriptMessage};
use event_notifier::driving_sports::DrivingSportsEvent;
use event_notifier::scheduler::{Scheduler, SchedulerPhase};

fn message(content: &str) -> TranscriptMessage {
    TranscriptMessage { author_is_self: true, content: String::from(content) }
}

fn ds_event(title: &str, url: &str) -> DrivingSportsEvent {
    DrivingSportsEvent { url: String::from(url), title: String::from(title) }
}

#[test]
fn scheduler_starts_resyncing_and_polls_after_resync() {
    let mut s = Scheduler::new();
    assert_eq!(s.phase, SchedulerPhase::Resyncing);
    s.resync(&Vec::new());
    assert_eq!(s.phase, SchedulerPhase::Polling);
}

#[test]
fn successful_send_forces_resync_before_next_diff() {
    let mut s = Scheduler::new();
    s.resync(&vec![message("@everyone New DrivingSports event: **Round 3**")]);
    assert_eq!(s.phase, SchedulerPhase::Polling);
    let plan = s.plan_tick(
        Ok(Vec::new()),
        Ok(vec![
            ds_event("Round 3", "https://www.drivingsports.com.au/round-3/"),
            ds_event("Round 4", "https://www.drivingsports.com.au/round-4/"),
        ]),
    );
    let ds_notifs = plan.driving_sports.expect("discovery succeeded");
    assert_eq!(ds_notifs.len(), 1);
    assert_eq!(
        ds_notifs[0].content,
        "@everyone New DrivingSports event: [**Round 4**](https://www.drivingsports.com.au/round-4/)"
    );
    // the send of that one notification succeeded: the transcript changed
    s.finish_tick(true);
    assert_eq!(s.phase, SchedulerPhase::Resyncing);
    // replaying the grown transcript makes the new title known
    s.resync(&vec![
        message("@everyone New DrivingSports event: **Round 3**"),
        message(
            "@everyone New DrivingSports event: [**Round 4**](https://www.drivingsports.com.au/round-4/)",
        ),
    ]);
    assert_eq!(s.phase, SchedulerPhase::Polling);
    let plan = s.plan_tick(
        Ok(Vec::new()),
        Ok(vec![
            ds_event("Round 3", "https://www.drivingsports.com.au/round-3/"),
            ds_event("Round 4", "https://www.drivingsports.com.au/round-4/"),
        ]),
    );
    assert_eq!(plan.driving_sports.expect("discovery succeeded").len(), 0);
}

#[test]
fn tick_without_send_keeps_polling() {
    let mut s = Scheduler::new();
    s.resync(&Vec::new());
    let plan = s.plan_tick(Ok(Vec::new()), Ok(Vec::new()));
    assert_eq!(plan.adc.expect("empty discovery succeeds").len(), 0);
    assert_eq!(plan.driving_sports.expect("empty discovery succeeds").len(), 0);
    s.finish_tick(false);
    assert_eq!(s.phase, SchedulerPhase::Polling);
}

#[test]
fn one_sources_failure_is_isolated_from_the_other() {
    let mut s = Scheduler::new();
    s.resync(&Vec::new());
    let discovered = vec![ds_event("Round 4", "https://www.drivingsports.com.au/round-4/")];
    let failing = s.plan_tick(
        Err(SourceError::Network(String::from("sitemap unreachable"))),
        Ok(discovered),
    );
    // source A's failure: zero notifications, exactly its own error
    assert!(matches!(failing.adc, Err(SourceError::Network(_))));
    // source B is unaffected: its notification is planned as ever
    let ds_notifs = failing.driving_sports.expect("unaffected source succeeds");
    assert_eq!(ds_notifs.len(), 1);
    assert_eq!(
        ds_notifs[0].content,
        "@everyone New DrivingSports event: [**Round 4**](https://www.drivingsports.com.au/round-4/)"
    );

    // the same ds outcome with a healthy source A plans the same ds half
    let discovered = vec![ds_event("Round 4", "https://www.drivingsports.com.au/round-4/")];
    let healthy = s.plan_tick(
        Ok(vec![AdcEvent {
            url: String::from("https://www.australiandriftclub.com.au/round-1/"),
            title: String::from("Round 1"),
            banner_url: None,
        }]),
        Ok(discovered),
    );
    let ds_again = healthy.driving_sports.expect("unaffected source succeeds");
    assert_eq!(ds_again.len(), 1);
    assert_eq!(ds_again[0].content, ds_notifs[0].content);
    assert_eq!(healthy.adc.expect("healthy source succeeds").len(), 1);
}

#[test]
fn resync_rebuilds_from_scratch_each_time() {
    let mut s = Scheduler::new();
    s.resync(&vec![message("@everyone New ADC event: **Round 1**")]);
    // a later resync over a transcript without that message forgets it
    s.finish_tick(true);
    s.resync(&Vec::new());
    let plan = s.plan_tick(
        Ok(vec![AdcEvent {
            url: String::from("https://www.australiandriftclub.com.au/round-1/"),
            title: String::from("Round 1"),
            banner_url: None,
        }]),
        Ok(Vec::new()),
    );
    assert_eq!(plan.adc.expect("discovery succeeded").len(), 1);
}
