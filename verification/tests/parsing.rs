//! Message-format tests: both sources' notification grammars, round trips,
//! and rejection of non-matching text.
use event_notifier::adc::{adc_content, parse_adc_message};
use event_notifier::driving_sports::{ds_link_content, parse_driving_sports_message};

#[test]
fn adc_plain_message_parses() {
    let r = parse_adc_message("@everyone New ADC event: **Round 1**");
    assert_eq!(r, Some(String::from("Round 1")));
}

#[test]
fn adc_empty_title_parses() {
    let r = parse_adc_message("@everyone New ADC event: ****");
    assert_eq!(r, Some(String::from("")));
}

#[test]
fn adc_title_with_inner_bold_is_captured_greedily() {
    let r = parse_adc_message("@everyone New ADC event: **a**b**");
    assert_eq!(r, Some(String::from("a**b")));
}

#[test]
fn adc_rejects_other_sources_messages() {
    assert_eq!(parse_adc_message("@everyone New DrivingSports event: **Round 1**"), None);
    assert_eq!(parse_adc_message("hello there"), None);
    assert_eq!(parse_adc_message(""), None);
}

#[test]
fn adc_rejects_missing_bold_markers() {
    assert_eq!(parse_adc_message("@everyone New ADC event: Round 1"), None);
    assert_eq!(parse_adc_message("@everyone New ADC event: **Round 1"), None);
    assert_eq!(parse_adc_message("@everyone New ADC event: Round 1**"), None);
    assert_eq!(parse_adc_message("@everyone New ADC event: ***"), None);
}

#[test]
fn adc_rejects_newline_in_title() {
    assert_eq!(parse_adc_message("@everyone New ADC event: **Round\n1**"), None);
}

#[test]
fn adc_rejects_trailing_text() {
    assert_eq!(parse_adc_message("@everyone New ADC event: **Round 1** and more"), None);
}

#[test]
fn adc_content_round_trips() {
    let content = adc_content("Round 9");
    assert_eq!(content, "@everyone New ADC event: **Round 9**");
    assert_eq!(parse_adc_message(&content), Some(String::from("Round 9")));
}

#[test]
fn driving_sports_both_format_variants_parse_to_same_title() {
    let plain = parse_driving_sports_message("@everyone New DrivingSports event: **Round 3**");
    let linked = parse_driving_sports_message(
        "@everyone New DrivingSports event: [**Round 3**](http://x)",
    );
    assert_eq!(plain, Some(String::from("Round 3")));
    assert_eq!(linked, Some(String::from("Round 3")));
    assert_eq!(plain, linked);
}

#[test]
fn driving_sports_link_content_round_trips() {
    let content = ds_link_content("Round 4", "https://www.drivingsports.com.au/round-4/");
    assert_eq!(
        content,
        "@everyone New DrivingSports event: [**Round 4**](https://www.drivingsports.com.au/round-4/)"
    );
    assert_eq!(parse_driving_sports_message(&content), Some(String::from("Round 4")));
}

#[test]
fn driving_sports_greedy_capture_with_inner_bold() {
    let r = parse_driving_sports_message("@everyone New DrivingSports event: **a**b**");
    assert_eq!(r, Some(String::from("a**b")));
}

#[test]
fn driving_sports_rejects_non_matching_text() {
    assert_eq!(parse_driving_sports_message("@everyone New ADC event: **Round 1**"), None);
    assert_eq!(parse_driving_sports_message("@everyone New DrivingSports event: Round 1"), None);
    assert_eq!(parse_driving_sports_message(""), None);
}

#[test]
fn driving_sports_rejects_newline() {
    assert_eq!(
        parse_driving_sports_message("@everyone New DrivingSports event: **Round\n3**"),
        None
    );
    assert_eq!(
        parse_driving_sports_message("@everyone New DrivingSports event: [**Round 3**](http://x\n)"),
        None
    );
}

#[test]
fn driving_sports_bracket_without_link_suffix_still_parses() {
    let r = parse_driving_sports_message("@everyone New DrivingSports event: [**Round 3**");
    assert_eq!(r, Some(String::from("Round 3")));
}
