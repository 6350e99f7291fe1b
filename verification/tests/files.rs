use dfu::cli::{CommonOptions, MultiFileArguments, SingleFileArguments};
use dfu::files::{handle_file, handle_multi, say_selection, FileStep, FoundFile, MultiEvent, MultiStep};
use dfu::image::{ContainerImage, Dockerfile, DockerfileUpdate, Tag};
use dfu::line::{Channel, Line};
use dfu::strategy::Strategy;

fn common() -> CommonOptions {
    CommonOptions {
        arch: Some("amd64".to_string()),
        tag_search_limit: Some(1000),
        debug: false,
        color: false,
        save_config: None,
        quiet: false,
    }
}

fn single(dry_run: bool) -> SingleFileArguments {
    SingleFileArguments {
        file: "./tests/fixtures/DockerfileExample1".to_string(),
        strat: Strategy::NextMinor,
        dry_run,
        common: common(),
    }
}

fn multi(dry_run: bool, exclude: &[&str]) -> MultiFileArguments {
    MultiFileArguments {
        folder: "./tests/fixtures".to_string(),
        strat: Strategy::LatestPatch,
        dry_run,
        exclude_file: exclude.iter().map(|text| text.to_string()).collect(),
        ignore_versions: vec!["node:8.0-alpine".to_string()],
        common: common(),
    }
}

fn found(name: &str, path: &str) -> FoundFile {
    FoundFile { name: name.to_string(), path: path.to_string() }
}

fn walked() -> Vec<FoundFile> {
    vec![
        found("fixtures", "./tests/fixtures"),
        found("DockerfileExample1", "./tests/fixtures/DockerfileExample1"),
        found("config_example.json", "./tests/fixtures/config_example.json"),
        found("dockerfile", "./tests/fixtures/a/dockerfile"),
        found("my.Dockerfile", "./tests/fixtures/a/my.Dockerfile"),
        found("DOCKERFILE.dev", "./tests/fixtures/b/DOCKERFILE.dev"),
    ]
}

fn selected(exclude: &[&str]) -> Vec<String> {
    match handle_multi(&multi(true, exclude), MultiEvent::Walked(walked())) {
        MultiStep::Process { files, .. } => files,
        _ => panic!("the files are processed"),
    }
}

#[test]
fn a_file_that_exists_is_updated() {
    for dry_run in [true, false] {
        match handle_file(&single(dry_run), Some("/tests/DockerfileExample1")) {
            FileStep::Update { line, write, strategy, tag_search_limit, arch } => {
                assert_eq!(
                    line,
                    Line { channel: Channel::Info, text: "Processing dockerfile: /tests/DockerfileExample1".to_string() }
                );
                assert_eq!(write, !dry_run);
                assert_eq!(strategy, Strategy::NextMinor);
                assert_eq!(tag_search_limit, Some(1000));
                assert_eq!(arch, Some("amd64".to_string()));
            }
            FileStep::Missing(_) => panic!("the file exists"),
        }
    }
}

#[test]
fn a_file_that_does_not_exist_is_named() {
    match handle_file(&single(false), None) {
        FileStep::Missing(line) => assert_eq!(
            line,
            Line {
                channel: Channel::Error,
                text: "File `./tests/fixtures/DockerfileExample1` not found.".to_string(),
            }
        ),
        FileStep::Update { .. } => panic!("there is no file"),
    }
}

#[test]
fn dockerfiles_are_known_by_their_names() {
    assert_eq!(
        selected(&[]),
        vec![
            "./tests/fixtures/DockerfileExample1",
            "./tests/fixtures/a/dockerfile",
            "./tests/fixtures/b/DOCKERFILE.dev",
        ]
    );
}

#[test]
fn files_are_excluded_by_the_end_of_their_path() {
    assert_eq!(
        selected(&["./tests/fixtures/DockerfileExample1"]),
        vec!["./tests/fixtures/a/dockerfile", "./tests/fixtures/b/DOCKERFILE.dev"]
    );
    assert_eq!(selected(&["file", ".dev"]), vec!["./tests/fixtures/DockerfileExample1"]);
    assert_eq!(selected(&[".dev", "file", "file"]), selected(&["file", ".dev"]));
    // The case of an exclusion counts, and it has to fit the end.
    assert_eq!(selected(&["Dockerfile", "./tests"]).len(), 3);
    assert_eq!(selected(&[""]).len(), 0);
}

#[test]
fn selected_and_excluded_files_are_told() {
    let info = |text: &str| Line { channel: Channel::Info, text: text.to_string() };
    let said = |exclude: &[&str]| match handle_multi(&multi(true, exclude), MultiEvent::Walked(walked())) {
        MultiStep::Process { lines, .. } => lines,
        _ => panic!("the files are processed"),
    };
    assert_eq!(
        said(&["file", ".dev"]),
        vec![info("Ignoring files: [\"file\", \".dev\"]"), info("Found files: [\"./tests/fixtures/DockerfileExample1\"]")]
    );
    assert_eq!(
        said(&[]),
        vec![info(
            "Found files: [\"./tests/fixtures/DockerfileExample1\", \"./tests/fixtures/a/dockerfile\", \"./tests/fixtures/b/DOCKERFILE.dev\"]"
        )]
    );
    assert_eq!(say_selection(&None, "[]"), vec![info("Found files: []")]);
    assert_eq!(
        say_selection(&Some("[1]".to_string()), "[]"),
        vec![info("Ignoring files: [1]"), info("Found files: []")]
    );
}

#[test]
fn nothing_is_skipped_without_ignored_images() {
    match handle_multi(&multi(true, &[]), MultiEvent::IgnoredParsed(vec![])) {
        MultiStep::FindUpdates { lines, .. } => assert_eq!(lines, vec![]),
        _ => panic!("updates are looked for"),
    }
}

fn dockerfile(order: u64) -> Dockerfile {
    Dockerfile {
        path: Some("a/Dockerfile".to_string()),
        source: "FROM node\n".to_string(),
        base_images: vec![ContainerImage {
            name: "node".to_string(),
            tag: Tag { text: format!("{order}"), order },
        }],
    }
}

fn update() -> DockerfileUpdate {
    DockerfileUpdate { dockerfile: dockerfile(8), updates: vec![(0, Tag { text: "9".to_string(), order: 9 })] }
}

#[test]
fn updates_are_written_or_shown() {
    match handle_multi(&multi(false, &[]), MultiEvent::UpdatesFound(update())) {
        MultiStep::Write(updated) => assert_eq!(updated, dockerfile(9)),
        _ => panic!("the dockerfile is written"),
    }
    match handle_multi(&multi(true, &[]), MultiEvent::UpdatesFound(update())) {
        MultiStep::Render { path, dockerfile: updated } => {
            assert_eq!(path, "a/Dockerfile");
            assert_eq!(updated, dockerfile(9));
        }
        _ => panic!("the dockerfile is shown"),
    }
    match handle_multi(
        &multi(true, &[]),
        MultiEvent::Rendered { path: "a/Dockerfile".to_string(), text: "FROM node:9\n".to_string() },
    ) {
        MultiStep::Say(line) => assert_eq!(
            line,
            Line {
                channel: Channel::Info,
                text: "Updated dockerfile `a/Dockerfile` would look like:\nFROM node:9\n".to_string(),
            }
        ),
        _ => panic!("the dockerfile is shown"),
    }
}

#[test]
fn a_folder_is_worked_on_step_by_step() {
    let mode = multi(true, &[]);
    match handle_multi(&mode, MultiEvent::Resolved("/tests/fixtures".to_string())) {
        MultiStep::Walk(line) => assert_eq!(
            line,
            Line { channel: Channel::Info, text: "Processing folder: /tests/fixtures".to_string() }
        ),
        _ => panic!("the folder is walked"),
    }
    match handle_multi(&mode, MultiEvent::Read) {
        MultiStep::ParseIgnored(ignored) => assert_eq!(ignored, vec!["node:8.0-alpine"]),
        _ => panic!("the ignored images are read"),
    }
    match handle_multi(&mode, MultiEvent::IgnoredParsed(vec!["node".to_string(), "alpine".to_string()])) {
        MultiStep::FindUpdates { lines, strategy, tag_search_limit, arch } => {
            let texts: Vec<String> = lines.iter().map(|line| line.text.clone()).collect();
            assert_eq!(texts, vec!["Skipping image updates:", "\t\tnode", "\t\talpine"]);
            assert!(lines.iter().all(|line| line.channel == Channel::Debug));
            assert_eq!(strategy, Strategy::LatestPatch);
            assert_eq!(tag_search_limit, Some(1000));
            assert_eq!(arch, Some("amd64".to_string()));
        }
        _ => panic!("updates are looked for"),
    }
    match handle_multi(
        &mode,
        MultiEvent::ReadFailed { file: "a/Dockerfile".to_string(), message: "no FROM".to_string() },
    ) {
        MultiStep::Say(line) => assert_eq!(
            line,
            Line {
                channel: Channel::Error,
                text: "Could not read dockerfile: `a/Dockerfile` with error: no FROM".to_string(),
            }
        ),
        _ => panic!("the failure is told"),
    }
}
