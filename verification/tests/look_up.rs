use dfu::cli::{CommonOptions, InputArguments, OverviewArguments};
use dfu::image::Tag;
use dfu::line::{Channel, Line};
use dfu::look_up::{handle_input, handle_overview, ImageNames, LookUpEvent, LookUpStep};
use dfu::strategy::Strategy;

fn tag(text: &str, order: u64) -> Tag {
    Tag { text: text.to_string(), order }
}

fn line(channel: Channel, text: &str) -> Line {
    Line { channel, text: text.to_string() }
}

fn names() -> ImageNames {
    ImageNames {
        full_name: "docker.io/clamav/clamav".to_string(),
        full_tagged_name: "docker.io/clamav/clamav:1.5.1-11_base".to_string(),
        dockerimage_name: "clamav/clamav".to_string(),
    }
}

fn common(quiet: bool) -> CommonOptions {
    CommonOptions {
        arch: Some("amd64".to_string()),
        tag_search_limit: Some(1000),
        debug: false,
        color: false,
        save_config: None,
        quiet,
    }
}

fn input(quiet: bool) -> InputArguments {
    InputArguments { input: "clamav/clamav:1.5.1-11_base".to_string(), strat: Strategy::Latest, common: common(quiet) }
}

fn overview(quiet: bool) -> OverviewArguments {
    OverviewArguments { input: "node:8.0".to_string(), common: common(quiet) }
}

fn said(step: LookUpStep) -> Vec<Line> {
    match step {
        LookUpStep::Say(lines) => lines,
        _ => panic!("something is said"),
    }
}

#[test]
fn input_is_looked_up_step_by_step() {
    let mode = input(false);
    assert!(matches!(handle_input(&mode, LookUpEvent::Started), LookUpStep::ParseImage(image) if image == "clamav/clamav:1.5.1-11_base"));
    assert!(matches!(
        handle_input(&mode, LookUpEvent::ImageParsed),
        LookUpStep::FetchTags { tag_search_limit: Some(1000), arch: Some(arch) } if arch == "amd64"
    ));
    match handle_input(&mode, LookUpEvent::TagsFetched(vec![tag("2", 2), tag("1", 1)])) {
        LookUpStep::Search { tags, strategies } => {
            assert_eq!(tags, vec![tag("1", 1), tag("2", 2)]);
            assert_eq!(strategies, vec![Strategy::Latest]);
        }
        _ => panic!("the tags are searched"),
    }
}

#[test]
fn found_tag_is_reported() {
    let info = line(
        Channel::Info,
        "===> Candidate tag: docker.io/clamav/clamav:1.5.2.. (from: docker.io/clamav/clamav:1.5.1-11_base)",
    );
    let event = || LookUpEvent::Searched { names: names(), found: Some(tag("1.5.2..", 152)) };
    assert_eq!(said(handle_input(&input(false), event())), vec![info]);
    let lines = said(handle_input(&input(true), event()));
    assert_eq!(lines.len(), 2);
    assert_eq!(lines[1], line(Channel::Stdout, "clamav/clamav:1.5.2"));
}

#[test]
fn missing_tag_is_reported() {
    let info = || line(Channel::Info, "===> No candidate found.");
    let event = || LookUpEvent::Searched { names: names(), found: None };
    assert_eq!(said(handle_input(&input(false), event())), vec![info()]);
    assert_eq!(said(handle_input(&input(true), event())), vec![info(), line(Channel::Stdout, "")]);
}

#[test]
fn a_tag_of_stops_is_left_out() {
    let event = LookUpEvent::Searched { names: names(), found: Some(tag("...", 1)) };
    assert_eq!(said(handle_input(&input(true), event))[1], line(Channel::Stdout, "clamav/clamav:"));
}

fn found() -> [Option<Tag>; 7] {
    [Some(tag("8.0.1", 801)), Some(tag("8.0.9.", 809)), None, None, Some(tag("9.0", 900)), None, Some(tag("21.0.", 2100))]
}

#[test]
fn overview_shows_every_strategy() {
    let lines = said(handle_overview(&overview(false), LookUpEvent::Searched { names: names(), found: found() }));
    assert_eq!(
        lines,
        vec![
            line(Channel::Info, "Results for:\tdocker.io/clamav/clamav:1.5.1-11_base"),
            line(Channel::Info, "===> next patch:\tclamav/clamav:8.0.1"),
            line(Channel::Info, "===> latest patch:\tclamav/clamav:8.0.9."),
            line(Channel::Info, "===> No candidate found for next minor."),
            line(Channel::Info, "===> No candidate found for latest minor."),
            line(Channel::Info, "===> next major:\tclamav/clamav:9.0"),
            line(Channel::Info, "===> No candidate found for latest major."),
            line(Channel::Info, "===> latest:\tclamav/clamav:21.0."),
        ]
    );
}

#[test]
fn quiet_overview_shows_what_was_found() {
    let lines = said(handle_overview(&overview(true), LookUpEvent::Searched { names: names(), found: found() }));
    assert_eq!(
        lines,
        vec![
            line(Channel::Stdout, "Results for:\tdocker.io/clamav/clamav:1.5.1-11_base"),
            line(Channel::Stdout, "next patch:\tclamav/clamav:8.0.1"),
            line(Channel::Stdout, "latest patch:\tclamav/clamav:8.0.9"),
            line(Channel::Stdout, "next major:\tclamav/clamav:9.0"),
            line(Channel::Stdout, "latest:\tclamav/clamav:21.0"),
        ]
    );
}

#[test]
fn overview_searches_for_all_strategies() {
    let mode = overview(false);
    assert!(matches!(handle_overview(&mode, LookUpEvent::Started), LookUpStep::ParseImage(image) if image == "node:8.0"));
    assert!(matches!(
        handle_overview(&mode, LookUpEvent::ImageParsed),
        LookUpStep::FetchTags { tag_search_limit: Some(1000), arch: Some(arch) } if arch == "amd64"
    ));
    match handle_overview(&mode, LookUpEvent::TagsFetched(vec![tag("2", 2), tag("1", 1)])) {
        LookUpStep::Search { tags, strategies } => {
            assert_eq!(tags, vec![tag("1", 1), tag("2", 2)]);
            assert_eq!(
                strategies,
                vec![
                    Strategy::NextPatch,
                    Strategy::LatestPatch,
                    Strategy::NextMinor,
                    Strategy::LatestMinor,
                    Strategy::NextMajor,
                    Strategy::LatestMajor,
                    Strategy::Latest,
                ]
            );
            for strategy in Strategy::value_variants() {
                assert_eq!(strategies.iter().filter(|shown| **shown == strategy).count(), 1);
            }
        }
        _ => panic!("the tags are searched"),
    }
}
