use dfu::cache::{cache_dir_name, create_cache_dir, extract_cache_from_file, CacheEvent, CacheStep, TagsCache};
use dfu::image::Tag;
use dfu::line::{Channel, Line};

fn tag(text: &str, order: u64) -> Tag {
    Tag { text: text.to_string(), order }
}

fn line(channel: Channel, text: &str) -> Option<Line> {
    Some(Line { channel, text: text.to_string() })
}

fn advance(event: CacheEvent) -> (CacheStep, Option<Line>) {
    let mut tags = vec![tag("old", 1)];
    let next = extract_cache_from_file(event, "docker.io/node", &mut tags, "/tmp/dfu/node");
    assert_eq!(tags, vec![tag("old", 1)]);
    next
}

#[test]
fn a_fresh_file_is_read_to_the_end() {
    assert!(matches!(advance(CacheEvent::Started), (CacheStep::CreateDir, None)));
    assert!(matches!(advance(CacheEvent::DirTried), (CacheStep::Open, None)));
    assert!(matches!(advance(CacheEvent::Opened), (CacheStep::ReadMetadata, None)));
    assert!(matches!(advance(CacheEvent::MetadataRead), (CacheStep::AskModification, None)));
    assert!(matches!(advance(CacheEvent::ModificationKnown), (CacheStep::AskAge, None)));
    assert!(matches!(advance(CacheEvent::Aged(0)), (CacheStep::Read, None)));
    assert!(matches!(advance(CacheEvent::Aged(3599)), (CacheStep::Read, None)));
    assert!(matches!(advance(CacheEvent::Read), (CacheStep::Parse, None)));
    let mut tags = vec![tag("old", 1)];
    let read = vec![tag("1.0", 10), tag("1.1", 11)];
    let next = extract_cache_from_file(CacheEvent::Parsed(read.clone()), "docker.io/node", &mut tags, "/tmp/dfu/node");
    assert_eq!(tags, read);
    match next {
        (CacheStep::Keep { full_name, tags: kept }, None) => {
            assert_eq!(full_name, "docker.io/node");
            assert_eq!(kept, read);
        }
        _ => panic!("the tags are kept"),
    }
    assert!(matches!(advance(CacheEvent::Kept { is_new: false }), (CacheStep::Finish(Ok(())), None)));
    let (step, said) = advance(CacheEvent::Kept { is_new: true });
    assert!(matches!(step, CacheStep::Finish(Ok(()))));
    assert_eq!(said, line(Channel::Debug, "Populated cache successfully."));
}

#[test]
fn an_old_file_is_not_read() {
    for seconds in [3600, 3601, u64::MAX] {
        let (step, said) = advance(CacheEvent::Aged(seconds));
        assert!(matches!(step, CacheStep::Finish(Ok(()))));
        assert_eq!(said, line(Channel::Info, "Cache file is older than 3600 seconds. Fetching new data instead."));
    }
}

#[test]
fn some_failures_only_leave_the_cache_unused() {
    let (step, said) = advance(CacheEvent::OpenFailed("not found".to_string()));
    assert!(matches!(step, CacheStep::Finish(Ok(()))));
    assert_eq!(
        said,
        line(
            Channel::Info,
            "No cache file exists under `/tmp/dfu/node`. Error: not found. Fetching info from docker hub."
        )
    );
    assert!(matches!(advance(CacheEvent::ModificationUnknown), (CacheStep::Finish(Ok(())), None)));
    let (step, said) = advance(CacheEvent::ParseFailed);
    assert!(matches!(step, CacheStep::Finish(Ok(()))));
    assert_eq!(said, line(Channel::Error, "Could not read tags from file"));
}

#[test]
fn other_failures_are_errors() {
    for event in [
        CacheEvent::MetadataFailed("broken".to_string()),
        CacheEvent::AgeFailed("broken".to_string()),
        CacheEvent::ReadFailed("broken".to_string()),
        CacheEvent::LockFailed("broken".to_string()),
    ] {
        match advance(event) {
            (CacheStep::Finish(Err(message)), None) => assert_eq!(message, "broken"),
            _ => panic!("the failure is an error"),
        }
    }
}

#[test]
fn kept_tags_are_found() {
    let mut cache = TagsCache::new();
    assert!(cache.get("node").is_none());
    assert!(cache.keep("node", vec![tag("8.0", 80)]));
    assert!(cache.keep("alpine", vec![]));
    assert!(!cache.keep("node", vec![tag("9.0", 90)]));
    assert_eq!(cache.get("node"), Some(&vec![tag("9.0", 90)]));
    assert_eq!(cache.get("alpine"), Some(&vec![]));
    assert!(cache.get("debian").is_none());
}

fn run(events: Vec<CacheEvent>, full_name: &str, tags: &mut Vec<Tag>, cache: &mut TagsCache) {
    for event in events {
        let (step, _) = extract_cache_from_file(event, full_name, tags, "/tmp/dfu/file");
        if let CacheStep::Keep { full_name, tags } = step {
            cache.keep(&full_name, tags);
        }
    }
}

fn up_to_the_age() -> Vec<CacheEvent> {
    vec![
        CacheEvent::Started,
        CacheEvent::DirTried,
        CacheEvent::Opened,
        CacheEvent::MetadataRead,
        CacheEvent::ModificationKnown,
    ]
}

#[test]
fn a_whole_run_changes_only_the_entry_of_its_image() {
    let mut cache = TagsCache::new();
    cache.keep("alpine", vec![tag("3.12", 312)]);
    let mut tags = vec![tag("old", 1)];

    let mut too_old = up_to_the_age();
    too_old.push(CacheEvent::Aged(3600));
    run(too_old, "node", &mut tags, &mut cache);
    assert_eq!(tags, vec![tag("old", 1)]);
    assert!(cache.get("node").is_none());

    let mut fresh = up_to_the_age();
    fresh.push(CacheEvent::Aged(10));
    fresh.push(CacheEvent::Read);
    fresh.push(CacheEvent::Parsed(vec![tag("8.0", 80)]));
    fresh.push(CacheEvent::Kept { is_new: true });
    run(fresh, "node", &mut tags, &mut cache);
    assert_eq!(tags, vec![tag("8.0", 80)]);
    assert_eq!(cache.get("node"), Some(&vec![tag("8.0", 80)]));
    assert_eq!(cache.get("alpine"), Some(&vec![tag("3.12", 312)]));
}

#[test]
fn a_directory_that_cannot_be_created_is_told() {
    assert_eq!(cache_dir_name(), "dfu");
    assert_eq!(create_cache_dir("/tmp/dfu", None), None);
    assert_eq!(
        create_cache_dir("/tmp/dfu", Some("denied")),
        line(Channel::Stderr, "Could not create temp dir: /tmp/dfu. Error: denied")
    );
}
