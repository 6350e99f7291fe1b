use dfu::image::Tag;
use dfu::line::{Channel, Line};
use dfu::release::{
    check_update, download_line, fetch_latest_version, handle_self_update, release_versions, repository_urls, Download,
    ReleaseReply, RepositoryUrls,
};

fn tag(text: &str, order: u64) -> Tag {
    Tag { text: text.to_string(), order }
}

fn line(channel: Channel, text: &str) -> Line {
    Line { channel, text: text.to_string() }
}

fn urls() -> RepositoryUrls {
    repository_urls("SomeONE", "Dfu")
}

#[test]
fn urls_are_built_for_the_author() {
    assert_eq!(
        urls(),
        RepositoryUrls {
            base: "https://github.com/someone/Dfu".to_string(),
            release_refs: "https://github.com/someone/Dfu/refs?type=tag".to_string(),
            release: "https://github.com/someone/Dfu/releases".to_string(),
        }
    );
}

#[test]
fn one_leading_v_is_left_out() {
    let refs = ["v1.2.3", "1.2.4", "vv2", "v", "", "V3", "\u{00e4}v"].iter().map(|text| text.to_string()).collect();
    assert_eq!(release_versions(&refs), vec!["1.2.3", "1.2.4", "v2", "", "", "V3", "\u{00e4}v"]);
}

#[test]
fn a_newer_release_is_offered() {
    let listed = vec![Some(tag("1.0.0", 100)), None, Some(tag("1.2.0", 120)), Some(tag("1.1.0", 110))];
    assert_eq!(
        fetch_latest_version(ReleaseReply::Listed { versions: listed, current: tag("1.1.0", 110) }),
        (Some(tag("1.2.0", 120)), None)
    );
}

#[test]
fn no_other_release_is_offered() {
    let check = |versions| fetch_latest_version(ReleaseReply::Listed { versions, current: tag("1.2.0", 120) });
    let up_to_date = (None, Some(line(Channel::Stdout, "Already up to date.")));
    assert_eq!(check(vec![Some(tag("1.2.0", 120))]), up_to_date);
    assert_eq!(check(vec![Some(tag("1.1.0", 110))]), up_to_date);
    assert_eq!(check(vec![None]), (None, None));
    assert_eq!(check(vec![]), (None, None));
}

#[test]
fn the_order_of_refs_and_a_leading_v_change_nothing() {
    let check = |refs: [&str; 4]| {
        let refs = refs.iter().map(|text| text.to_string()).collect();
        let read = |version: &String| match version.as_str() {
            "1.0.0" => Some(tag("1.0.0", 100)),
            "1.1.0" => Some(tag("1.1.0", 110)),
            "1.2.0" => Some(tag("1.2.0", 120)),
            _ => None,
        };
        let versions = release_versions(&refs).iter().map(read).collect();
        fetch_latest_version(ReleaseReply::Listed { versions, current: tag("1.1.0", 110) })
    };
    let found = (Some(tag("1.2.0", 120)), None);
    assert_eq!(check(["1.2.0", "1.0.0", "nightly", "1.1.0"]), found);
    assert_eq!(check(["nightly", "1.1.0", "1.2.0", "1.0.0"]), found);
    assert_eq!(check(["v1.0.0", "1.1.0", "vnightly", "v1.2.0"]), found);
}

#[test]
fn the_last_of_two_newest_releases_is_offered() {
    let check = |versions| fetch_latest_version(ReleaseReply::Listed { versions, current: tag("1.1.0", 110) }).0;
    assert_eq!(check(vec![Some(tag("1.2.0", 120)), Some(tag("1.2", 120))]), Some(tag("1.2", 120)));
    assert_eq!(check(vec![Some(tag("1.2", 120)), Some(tag("1.2.0", 120))]), Some(tag("1.2.0", 120)));
}

#[test]
fn failures_to_ask_are_told() {
    assert_eq!(
        fetch_latest_version(ReleaseReply::Unreachable("timeout".to_string())),
        (None, Some(line(Channel::Stderr, "Failed to check for updates: timeout")))
    );
    assert_eq!(
        fetch_latest_version(ReleaseReply::Malformed("no refs".to_string())),
        (None, Some(line(Channel::Stderr, "Failed to parse update response from GitHub. Error: no refs")))
    );
}

#[test]
fn a_newer_release_is_told() {
    assert_eq!(check_update(&None, &urls()), None);
    assert_eq!(
        check_update(&Some(tag("1.2.0", 120)), &urls()),
        Some(line(
            Channel::Stdout,
            "A newer version is available: v1.2.0\nPlease check: https://github.com/someone/Dfu/releases"
        ))
    );
}

#[test]
fn the_program_for_the_system_is_placed_next_to_this_one() {
    assert_eq!(handle_self_update(&None, "linux", "/opt/dfu", &urls()), None);
    assert_eq!(
        handle_self_update(&Some(tag("1.2.0", 120)), "windows", "C:\\dfu", &urls()),
        Some(Download {
            directory: "C:\\dfu".to_string(),
            file_name: "dfu-v1.2.0.exe".to_string(),
            url: "https://github.com/someone/Dfu/releases/download/v1.2.0/dfu-v1.2.0.exe".to_string(),
            line: line(
                Channel::Debug,
                "Download URL: https://github.com/someone/Dfu/releases/download/v1.2.0/dfu-v1.2.0.exe"
            ),
        })
    );
    for os in ["linux", "macos", "Windows"] {
        assert_eq!(
            handle_self_update(&Some(tag("1.2.0", 120)), os, "/opt/dfu", &urls()),
            Some(Download {
                directory: "/opt/dfu".to_string(),
                file_name: "dfu-v1.2.0-x86_64-unknown-linux-musl".to_string(),
                url: "https://github.com/someone/Dfu/releases/download/v1.2.0/dfu-v1.2.0-x86_64-unknown-linux-musl"
                    .to_string(),
                line: line(
                    Channel::Debug,
                    "Download URL: https://github.com/someone/Dfu/releases/download/v1.2.0/dfu-v1.2.0-x86_64-unknown-linux-musl"
                ),
            })
        );
    }
}

#[test]
fn the_end_of_a_download_is_told() {
    assert_eq!(
        download_line("/home/dfu-v1.2.0.exe", Ok(())),
        line(Channel::Info, "Successfully downloaded new version to: /home/dfu-v1.2.0.exe")
    );
    assert_eq!(
        download_line("/home/dfu-v1.2.0.exe", Err("timeout".to_string())),
        line(Channel::Error, "Error while downloading new release: timeout")
    );
}
