//! Updating the images of one dockerfile, or of all dockerfiles below a folder.

use vstd::prelude::*;

use crate::cli::{MultiFileArguments, SingleFileArguments};
use crate::image::{updated_dockerfile, updates_view, Dockerfile, DockerfileUpdate};
use crate::line::{Channel, Line, LineView};
use crate::strategy::Strategy;
use crate::text::{
    ascii_lowercase, debug_list, debug_text, ends_with, optional_text, starts_with,
};

verus! {

/// What is done with one dockerfile.
#[derive(Debug)]
pub enum FileStep {
    /// Say the line, read the dockerfile, look for newer tags of its images with the
    /// strategy, the limit and the architecture, and write it back if asked for.
    Update {
        line: Line,
        write: bool,
        strategy: Strategy,
        tag_search_limit: Option<u16>,
        arch: Option<String>,
    },
    /// There is no such file: only say so.
    Missing(Line),
}

/// A file below a folder: its own name, and its path.
#[derive(Debug, PartialEq, Eq)]
pub struct FoundFile {
    pub name: String,
    pub path: String,
}

/// What a `FoundFile` stands for.
#[verifier::ext_equal]
pub struct FoundFileView {
    pub name: Seq<char>,
    pub path: Seq<char>,
}

impl View for FoundFile {
    type V = FoundFileView;

    open spec fn view(&self) -> FoundFileView {
        FoundFileView { name: self.name@, path: self.path@ }
    }
}

impl DeepView for FoundFile {
    type V = FoundFileView;

    open spec fn deep_view(&self) -> FoundFileView {
        self@
    }
}

/// What has been done for a folder.
#[derive(Debug)]
pub enum MultiEvent {
    /// The path of the folder was resolved.
    Resolved(String),
    /// The files below it were listed.
    Walked(Vec<FoundFile>),
    /// A dockerfile could not be read.
    ReadFailed { file: String, message: String },
    /// A dockerfile was read.
    Read,
    /// The images that are to be ignored were read; they have these names.
    IgnoredParsed(Vec<String>),
    /// Updates for a dockerfile were looked for.
    UpdatesFound(DockerfileUpdate),
    /// The text of an updated dockerfile was made.
    Rendered { path: String, text: String },
}

/// What is to be done next for a folder.
#[derive(Debug)]
pub enum MultiStep {
    /// Say the line and list the files below the folder.
    Walk(Line),
    /// Say the lines and read these dockerfiles, one after the other.
    Process { lines: Vec<Line>, files: Vec<String> },
    /// Read the images that are to be ignored.
    ParseIgnored(Vec<String>),
    /// Say the lines and look for updates of the dockerfile, but not for the images that are
    /// ignored.
    FindUpdates {
        lines: Vec<Line>,
        strategy: Strategy,
        tag_search_limit: Option<u16>,
        arch: Option<String>,
    },
    /// Make the text of the updated dockerfile that belongs to a path.
    Render { path: String, dockerfile: Dockerfile },
    /// Write the updated dockerfile, and go on with the next.
    Write(Dockerfile),
    /// Say the line, and go on with the next dockerfile.
    Say(Line),
}

/// A file of this name is taken for a dockerfile.
pub open spec fn is_dockerfile_name(name: Seq<char>) -> bool {
    "dockerfile"@.is_prefix_of(ascii_lowercase(name))
}

/// A path ends in one of the texts by which files are excluded.
pub open spec fn is_excluded(path: Seq<char>, exclude: Seq<Seq<char>>) -> bool {
    exists|i: int| 0 <= i < exclude.len() && (#[trigger] exclude[i]).is_suffix_of(path)
}

/// A file is a dockerfile that is not excluded.
pub open spec fn is_wanted(file: FoundFileView, exclude: Seq<Seq<char>>) -> bool {
    is_dockerfile_name(file.name) && !is_excluded(file.path, exclude)
}

/// The paths of the files that are wanted, in the order in which they were found.
pub open spec fn wanted_paths(files: Seq<FoundFileView>, exclude: Seq<Seq<char>>) -> Seq<Seq<char>>
    decreases files.len(),
{
    if files.len() == 0 {
        Seq::empty()
    } else if is_wanted(files.last(), exclude) {
        wanted_paths(files.drop_last(), exclude).push(files.last().path)
    } else {
        wanted_paths(files.drop_last(), exclude)
    }
}

/// What is said of the files that are excluded, if there are any, and of those that are left,
/// when their lists are written so.
pub open spec fn selection_lines(ignored: Option<Seq<char>>, found: Seq<char>) -> Seq<LineView> {
    let found_line = LineView { channel: Channel::Info, text: "Found files: "@ + found };
    match ignored {
        Some(list) => seq![
            LineView { channel: Channel::Info, text: "Ignoring files: "@ + list },
            found_line,
        ],
        None => seq![found_line],
    }
}

/// How the texts by which files are excluded are written, if there are any.
pub open spec fn exclusion_list(exclude: Seq<Seq<char>>) -> Option<Seq<char>> {
    if exclude.len() > 0 {
        Some(debug_text(exclude))
    } else {
        None
    }
}

/// What is said of the images of these names that are ignored.
pub open spec fn skipping_lines(names: Seq<Seq<char>>) -> Seq<LineView> {
    if names.len() == 0 {
        Seq::empty()
    } else {
        let head = LineView { channel: Channel::Debug, text: "Skipping image updates:"@ };
        seq![head] + Seq::new(
            names.len(),
            |i: int| LineView { channel: Channel::Debug, text: "\t\t"@ + names[i] },
        )
    }
}

/// A path is taken exactly if it is that of a file that is wanted.
pub proof fn paths_are_those_of_wanted_files(
    files: Seq<FoundFileView>,
    exclude: Seq<Seq<char>>,
    path: Seq<char>,
)
    ensures
        wanted_paths(files, exclude).contains(path) <==> exists|i: int|
            0 <= i < files.len() && (#[trigger] files[i]).path == path && is_wanted(
                files[i],
                exclude,
            ),
    decreases files.len(),
{
    if files.len() > 0 {
        let rest = files.drop_last();
        let before = wanted_paths(rest, exclude);
        paths_are_those_of_wanted_files(rest, exclude, path);
        if is_wanted(files.last(), exclude) {
            let after = before.push(files.last().path);
            assert(after[before.len() as int] == files.last().path);
            if before.contains(path) {
                let k = choose|k: int| 0 <= k < before.len() && before[k] == path;
                assert(after[k] == path);
            }
        }
        if before.contains(path) {
            let i = choose|i: int|
                0 <= i < rest.len() && (#[trigger] rest[i]).path == path && is_wanted(
                    rest[i],
                    exclude,
                );
            assert(files[i].path == path && is_wanted(files[i], exclude));
        }
        if exists|i: int|
            0 <= i < files.len() && (#[trigger] files[i]).path == path && is_wanted(
                files[i],
                exclude,
            ) {
            let i = choose|i: int|
                0 <= i < files.len() && (#[trigger] files[i]).path == path && is_wanted(
                    files[i],
                    exclude,
                );
            if i < rest.len() {
                assert(rest[i].path == path && is_wanted(rest[i], exclude));
            }
        }
    }
}

/// Files that were found first come first.
pub proof fn paths_keep_their_order(
    first: Seq<FoundFileView>,
    second: Seq<FoundFileView>,
    exclude: Seq<Seq<char>>,
)
    ensures
        wanted_paths(first + second, exclude) == wanted_paths(first, exclude) + wanted_paths(
            second,
            exclude,
        ),
    decreases second.len(),
{
    if second.len() == 0 {
        assert(first + second == first);
        assert(wanted_paths(first, exclude) + wanted_paths(second, exclude) =~= wanted_paths(
            first,
            exclude,
        ));
    } else {
        paths_keep_their_order(first, second.drop_last(), exclude);
        assert((first + second).drop_last() == first + second.drop_last());
        assert((first + second).last() == second.last());
        assert(wanted_paths(first + second, exclude) =~= wanted_paths(first, exclude)
            + wanted_paths(second, exclude));
    }
}

/// Which texts exclude counts, and not their order or how often they are given.
pub proof fn exclusions_count_as_a_set(
    files: Seq<FoundFileView>,
    a: Seq<Seq<char>>,
    b: Seq<Seq<char>>,
)
    requires
        forall|text: Seq<char>| a.contains(text) <==> b.contains(text),
    ensures
        wanted_paths(files, a) == wanted_paths(files, b),
    decreases files.len(),
{
    if files.len() > 0 {
        exclusions_count_as_a_set(files.drop_last(), a, b);
        let path = files.last().path;
        if is_excluded(path, a) {
            let i = choose|i: int| 0 <= i < a.len() && (#[trigger] a[i]).is_suffix_of(path);
            assert(b.contains(a[i]));
            let j = choose|j: int| 0 <= j < b.len() && b[j] == a[i];
            assert(b[j].is_suffix_of(path));
        }
        if is_excluded(path, b) {
            let i = choose|i: int| 0 <= i < b.len() && (#[trigger] b[i]).is_suffix_of(path);
            assert(a.contains(b[i]));
            let j = choose|j: int| 0 <= j < a.len() && a[j] == b[i];
            assert(a[j].is_suffix_of(path));
        }
    }
}

/// To exclude by two lists of texts is to drop, of what the first leaves, what the second
/// excludes.
pub proof fn exclusions_add_up(
    files: Seq<FoundFileView>,
    first: Seq<Seq<char>>,
    second: Seq<Seq<char>>,
)
    ensures
        wanted_paths(files, first + second) == wanted_paths(files, first).filter(
            |path: Seq<char>| !is_excluded(path, second),
        ),
    decreases files.len(),
{
    reveal(Seq::filter);
    if files.len() > 0 {
        exclusions_add_up(files.drop_last(), first, second);
        let path = files.last().path;
        let both = first + second;
        assert(is_excluded(path, both) == (is_excluded(path, first) || is_excluded(path, second)))
            by {
            if is_excluded(path, first) {
                let i = choose|i: int| 0 <= i < first.len() && (#[trigger] first[i]).is_suffix_of(path);
                assert(both[i] == first[i]);
            }
            if is_excluded(path, second) {
                let i = choose|i: int|
                    0 <= i < second.len() && (#[trigger] second[i]).is_suffix_of(path);
                assert(both[first.len() + i] == second[i]);
            }
            if is_excluded(path, both) {
                let i = choose|i: int| 0 <= i < both.len() && (#[trigger] both[i]).is_suffix_of(path);
                if i < first.len() {
                    assert(both[i] == first[i]);
                } else {
                    assert(both[i] == second[i - first.len()]);
                }
            }
        }
        let before = wanted_paths(files.drop_last(), first);
        if is_wanted(files.last(), first) {
            assert(before.push(path).drop_last() == before);
        }
    }
}

/// Whether a file of this name is taken for a dockerfile.
fn names_dockerfile(name: &str) -> (yes: bool)
    ensures
        yes == is_dockerfile_name(name@),
{
    starts_with(name.to_ascii_lowercase().as_str(), "dockerfile")
}

/// Whether a path ends in one of `exclude`.
fn excludes(path: &str, exclude: &Vec<String>) -> (yes: bool)
    ensures
        yes == is_excluded(path@, exclude.deep_view()),
{
    let ghost texts = exclude.deep_view();
    let mut i: usize = 0;
    while i < exclude.len()
        invariant
            i <= exclude@.len(),
            texts == exclude.deep_view(),
            forall|j: int| 0 <= j < i ==> !(#[trigger] texts[j]).is_suffix_of(path@),
        decreases exclude.len() - i,
    {
        if ends_with(path, exclude[i].as_str()) {
            assert(texts[i as int].is_suffix_of(path@));
            return true;
        }
        assert(!texts[i as int].is_suffix_of(path@));
        i = i + 1;
    }
    false
}

/// The paths of the files that are wanted.
fn select_dockerfiles(files: &Vec<FoundFile>, exclude: &Vec<String>) -> (paths: Vec<String>)
    ensures
        paths.deep_view() == wanted_paths(files.deep_view(), exclude.deep_view()),
{
    let ghost all = files.deep_view();
    let mut paths: Vec<String> = Vec::new();
    let mut i: usize = 0;
    assert(paths.deep_view() =~= wanted_paths(all.take(0), exclude.deep_view()));
    while i < files.len()
        invariant
            i <= files@.len(),
            all == files.deep_view(),
            paths.deep_view() == wanted_paths(all.take(i as int), exclude.deep_view()),
        decreases files.len() - i,
    {
        let ghost before = paths.deep_view();
        assert(all.take(i + 1).drop_last() == all.take(i as int));
        assert(all.take(i + 1).last() == files@[i as int]@);
        if names_dockerfile(files[i].name.as_str()) && !excludes(files[i].path.as_str(), exclude) {
            paths.push(files[i].path.clone());
            assert(paths.deep_view() =~= before.push(files@[i as int].path@));
        }
        i = i + 1;
    }
    assert(all.take(i as int) == all);
    paths
}

/// What is said of the files that are excluded, if there are any, and of those that are left,
/// when their lists are written so.
pub fn say_selection(ignored: &Option<String>, found: &str) -> (lines: Vec<Line>)
    ensures
        lines.deep_view() == selection_lines(optional_text(*ignored), found@),
{
    let mut lines: Vec<Line> = Vec::new();
    if let Some(list) = ignored {
        let mut text: String = "Ignoring files: ".to_owned();
        text.append(list.as_str());
        lines.push(Line { channel: Channel::Info, text });
    }
    let mut text: String = "Found files: ".to_owned();
    text.append(found);
    lines.push(Line { channel: Channel::Info, text });
    assert(lines.deep_view() =~= selection_lines(optional_text(*ignored), found@));
    lines
}

/// What is said of the images of these names that are ignored.
fn say_skipping(names: &Vec<String>) -> (lines: Vec<Line>)
    ensures
        lines.deep_view() == skipping_lines(names.deep_view()),
{
    let mut lines: Vec<Line> = Vec::new();
    if names.len() > 0 {
        let head: String = "Skipping image updates:".to_owned();
        lines.push(Line { channel: Channel::Debug, text: head });
        let mut i: usize = 0;
        while i < names.len()
            invariant
                0 < names@.len(),
                i <= names@.len(),
                lines@.len() == i + 1,
                lines.deep_view() == skipping_lines(names.deep_view()).take(i + 1),
            decreases names.len() - i,
        {
            let ghost before = lines.deep_view();
            let mut text: String = "\t\t".to_owned();
            text.append(names[i].as_str());
            lines.push(Line { channel: Channel::Debug, text });
            assert(lines.deep_view() =~= before.push(lines@.last()@));
            assert(skipping_lines(names.deep_view()).take(i + 2) =~= skipping_lines(
                names.deep_view(),
            ).take(i + 1).push(lines@.last()@));
            i = i + 1;
        }
    }
    assert(lines.deep_view() =~= skipping_lines(names.deep_view()));
    lines
}

/// A copy of some texts.
fn copy_texts(texts: &Vec<String>) -> (copy: Vec<String>)
    ensures
        copy@ == texts@,
{
    let mut copy: Vec<String> = Vec::new();
    let mut i: usize = 0;
    while i < texts.len()
        invariant
            i <= texts@.len(),
            copy@ == texts@.take(i as int),
        decreases texts.len() - i,
    {
        copy.push(texts[i].clone());
        i = i + 1;
    }
    copy
}

/// What is done with the dockerfile of `file_mode`, given its resolved path if it exists.
pub fn handle_file(file_mode: &SingleFileArguments, resolved: Option<&str>) -> (step: FileStep)
    ensures
        match resolved {
            Some(path) => {
                &&& step is Update
                &&& step->line@ == (LineView {
                    channel: Channel::Info,
                    text: "Processing dockerfile: "@ + path@,
                })
                &&& step->write == !file_mode.dry_run
                &&& step->strategy == file_mode.strat
                &&& step->tag_search_limit == file_mode.common.tag_search_limit
                &&& step->arch == file_mode.common.arch
            },
            None => {
                &&& step is Missing
                &&& step->Missing_0@ == (LineView {
                    channel: Channel::Error,
                    text: "File `"@ + file_mode.file@ + "` not found."@,
                })
            },
        },
        file_mode.dry_run ==> !(step is Update && step->write),
{
    match resolved {
        Some(path) => {
            let mut text: String = "Processing dockerfile: ".to_owned();
            text.append(path);
            FileStep::Update {
                line: Line { channel: Channel::Info, text },
                write: !file_mode.dry_run,
                strategy: file_mode.strat,
                tag_search_limit: file_mode.common.tag_search_limit,
                arch: file_mode.common.arch.clone(),
            }
        },
        None => {
            let mut text: String = "File `".to_owned();
            text.append(file_mode.file.as_str());
            text.append("` not found.");
            FileStep::Missing(Line { channel: Channel::Error, text })
        },
    }
}

/// Takes the work on the folder of `multi_mode` one step on. A dockerfile that is only to be
/// shown has to have a path.
pub fn handle_multi(multi_mode: &MultiFileArguments, event: MultiEvent) -> (step: MultiStep)
    requires
        multi_mode.dry_run && event is UpdatesFound ==> event->UpdatesFound_0.dockerfile.path is Some,
    ensures
        match event {
            MultiEvent::Resolved(path) => {
                &&& step is Walk
                &&& step->Walk_0@ == (LineView {
                    channel: Channel::Info,
                    text: "Processing folder: "@ + path@,
                })
            },
            MultiEvent::Walked(files) => {
                let exclude = multi_mode.exclude_file.deep_view();
                let paths = wanted_paths(files.deep_view(), exclude);
                &&& step is Process
                &&& step->files.deep_view() == paths
                &&& step->Process_lines.deep_view() == selection_lines(
                    exclusion_list(exclude),
                    debug_text(paths),
                )
            },
            MultiEvent::ReadFailed { file, message } => {
                &&& step is Say
                &&& step->Say_0@ == (LineView {
                    channel: Channel::Error,
                    text: "Could not read dockerfile: `"@ + file@ + "` with error: "@ + message@,
                })
            },
            MultiEvent::Read => {
                &&& step is ParseIgnored
                &&& step->ParseIgnored_0@ == multi_mode.ignore_versions@
            },
            MultiEvent::IgnoredParsed(names) => {
                &&& step is FindUpdates
                &&& step->FindUpdates_lines.deep_view() == skipping_lines(names.deep_view())
                &&& step->strategy == multi_mode.strat
                &&& step->tag_search_limit == multi_mode.common.tag_search_limit
                &&& step->arch == multi_mode.common.arch
            },
            MultiEvent::UpdatesFound(found) => {
                let updated = updated_dockerfile(found.dockerfile@, updates_view(found.updates@));
                if multi_mode.dry_run {
                    &&& step is Render
                    &&& step->path == found.dockerfile.path->0
                    &&& step->dockerfile@ == updated
                } else {
                    &&& step is Write
                    &&& step->Write_0@ == updated
                }
            },
            MultiEvent::Rendered { path, text } => {
                &&& step is Say
                &&& step->Say_0@ == (LineView {
                    channel: Channel::Info,
                    text: "Updated dockerfile `"@ + path@ + "` would look like:\n"@ + text@,
                })
            },
        },
        multi_mode.dry_run ==> !(step is Write),
{
    match event {
        MultiEvent::Resolved(path) => {
            let mut text: String = "Processing folder: ".to_owned();
            text.append(path.as_str());
            MultiStep::Walk(Line { channel: Channel::Info, text })
        },
        MultiEvent::Walked(files) => {
            let paths: Vec<String> = select_dockerfiles(&files, &multi_mode.exclude_file);
            let ignored: Option<String> = if multi_mode.exclude_file.len() > 0 {
                Some(debug_list(&multi_mode.exclude_file))
            } else {
                None
            };
            let lines: Vec<Line> = say_selection(&ignored, debug_list(&paths).as_str());
            MultiStep::Process { lines, files: paths }
        },
        MultiEvent::ReadFailed { file, message } => {
            let mut text: String = "Could not read dockerfile: `".to_owned();
            text.append(file.as_str());
            text.append("` with error: ");
            text.append(message.as_str());
            MultiStep::Say(Line { channel: Channel::Error, text })
        },
        MultiEvent::Read => MultiStep::ParseIgnored(copy_texts(&multi_mode.ignore_versions)),
        MultiEvent::IgnoredParsed(names) => MultiStep::FindUpdates {
            lines: say_skipping(&names),
            strategy: multi_mode.strat,
            tag_search_limit: multi_mode.common.tag_search_limit,
            arch: multi_mode.common.arch.clone(),
        },
        MultiEvent::UpdatesFound(found) => {
            let dockerfile: Dockerfile = found.apply();
            if multi_mode.dry_run {
                MultiStep::Render { path: found.dockerfile.path.unwrap(), dockerfile }
            } else {
                MultiStep::Write(dockerfile)
            }
        },
        MultiEvent::Rendered { path, text } => {
            let mut message: String = "Updated dockerfile `".to_owned();
            message.append(path.as_str());
            message.append("` would look like:\n");
            message.append(text.as_str());
            MultiStep::Say(Line { channel: Channel::Info, text: message })
        },
    }
}

/// The names that are taken for those of dockerfiles, by their characters.
proof fn lemma_dockerfile_name(name: Seq<char>)
    ensures
        is_dockerfile_name(name) <==> {
            &&& name.len() >= 10
            &&& name[0] == 'd' || name[0] == 'D'
            &&& name[1] == 'o' || name[1] == 'O'
            &&& name[2] == 'c' || name[2] == 'C'
            &&& name[3] == 'k' || name[3] == 'K'
            &&& name[4] == 'e' || name[4] == 'E'
            &&& name[5] == 'r' || name[5] == 'R'
            &&& name[6] == 'f' || name[6] == 'F'
            &&& name[7] == 'i' || name[7] == 'I'
            &&& name[8] == 'l' || name[8] == 'L'
            &&& name[9] == 'e' || name[9] == 'E'
        },
{
    reveal_strlit("dockerfile");
    let lower = ascii_lowercase(name);
    let word = "dockerfile"@;
    if name.len() >= 10 {
        assert(forall|i: int| 0 <= i < 10 ==> lower.take(10)[i] == #[trigger] lower[i]);
        if is_dockerfile_name(name) {
            assert(forall|i: int| 0 <= i < 10 ==> #[trigger] word[i] == lower[i]);
            assert(word[0] == 'd' && word[1] == 'o' && word[2] == 'c' && word[3] == 'k');
            assert(word[4] == 'e' && word[5] == 'r' && word[6] == 'f' && word[7] == 'i');
            assert(word[8] == 'l' && word[9] == 'e');
        } else {
            assert(!(word =~= lower.take(10)));
        }
    }
}

/// The texts by which a path is excluded, by their characters.
proof fn lemma_excluded(path: Seq<char>, exclude: Seq<String>, texts: Seq<Seq<char>>)
    requires
        texts == exclude.map_values(|text: String| text@),
    ensures
        is_excluded(path, texts) <==> exists|i: int|
            0 <= i < exclude.len() && (#[trigger] exclude[i])@.len() <= path.len() && path.skip(
                path.len() - exclude[i]@.len(),
            ) == exclude[i]@,
{
    assert forall|i: int| 0 <= i < exclude.len() implies (#[trigger] texts[i]).is_suffix_of(path)
        == ((exclude[i])@.len() <= path.len() && path.skip(path.len() - exclude[i]@.len())
        == exclude[i]@) by {
        if texts[i].len() <= path.len() {
            let start = path.len() - texts[i].len();
            assert(path.skip(start) =~= path.subrange(start, path.len() as int));
        }
    }
    if is_excluded(path, texts) {
        let i = choose|i: int| 0 <= i < texts.len() && (#[trigger] texts[i]).is_suffix_of(path);
        assert(exclude[i]@ == texts[i]);
    }
    if exists|i: int|
        0 <= i < exclude.len() && (#[trigger] exclude[i])@.len() <= path.len() && path.skip(
            path.len() - exclude[i]@.len(),
        ) == exclude[i]@ {
        let i = choose|i: int|
            0 <= i < exclude.len() && (#[trigger] exclude[i])@.len() <= path.len() && path.skip(
                path.len() - exclude[i]@.len(),
            ) == exclude[i]@;
        assert(texts[i].is_suffix_of(path));
    }
}

/// The paths of the wanted files are those of the files that a test keeps, if it keeps the
/// wanted files.
proof fn lemma_wanted_paths(
    files: Seq<FoundFile>,
    exclude: Seq<Seq<char>>,
    keep: spec_fn(FoundFile) -> bool,
)
    requires
        forall|file: FoundFile| #[trigger] keep(file) == is_wanted(file@, exclude),
    ensures
        wanted_paths(files.map_values(|file: FoundFile| file@), exclude) == files.filter(
            keep,
        ).map_values(|file: FoundFile| file.path@),
    decreases files.len(),
{
    reveal(Seq::filter);
    let views = files.map_values(|file: FoundFile| file@);
    if files.len() > 0 {
        let rest = files.drop_last();
        lemma_wanted_paths(rest, exclude, keep);
        assert(views.drop_last() =~= rest.map_values(|file: FoundFile| file@));
        assert(views.last() == files.last()@);
    }
    assert(wanted_paths(views, exclude) =~= files.filter(keep).map_values(
        |file: FoundFile| file.path@,
    ));
}

/// Of the files below a folder, exactly those are worked on whose name begins with the letters
/// of `dockerfile`, each small or capital, and whose path ends in none of the texts that
/// exclude; they are worked on in the order in which they were found.
pub proof fn dockerfiles_are_selected_by_their_names(
    multi_mode: MultiFileArguments,
    files: Vec<FoundFile>,
    step: MultiStep,
    keep: spec_fn(FoundFile) -> bool,
)
    requires
        call_ensures(handle_multi, (&multi_mode, MultiEvent::Walked(files)), step),
        forall|file: FoundFile|
            #[trigger] keep(file) <==> {
                &&& file.name@.len() >= 10
                &&& file.name@[0] == 'd' || file.name@[0] == 'D'
                &&& file.name@[1] == 'o' || file.name@[1] == 'O'
                &&& file.name@[2] == 'c' || file.name@[2] == 'C'
                &&& file.name@[3] == 'k' || file.name@[3] == 'K'
                &&& file.name@[4] == 'e' || file.name@[4] == 'E'
                &&& file.name@[5] == 'r' || file.name@[5] == 'R'
                &&& file.name@[6] == 'f' || file.name@[6] == 'F'
                &&& file.name@[7] == 'i' || file.name@[7] == 'I'
                &&& file.name@[8] == 'l' || file.name@[8] == 'L'
                &&& file.name@[9] == 'e' || file.name@[9] == 'E'
                &&& !exists|i: int|
                    0 <= i < multi_mode.exclude_file@.len() && (
                    #[trigger] multi_mode.exclude_file@[i])@.len() <= file.path@.len()
                        && file.path@.skip(file.path@.len() - multi_mode.exclude_file@[i]@.len())
                        == multi_mode.exclude_file@[i]@
            },
    ensures
        step is Process,
        step->files@.map_values(|path: String| path@) == files@.filter(keep).map_values(
            |file: FoundFile| file.path@,
        ),
{
    let exclude = multi_mode.exclude_file.deep_view();
    assert(exclude =~= multi_mode.exclude_file@.map_values(|text: String| text@));
    assert forall|file: FoundFile| #[trigger] keep(file) == is_wanted(file@, exclude) by {
        lemma_dockerfile_name(file.name@);
        lemma_excluded(file.path@, multi_mode.exclude_file@, exclude);
    }
    lemma_wanted_paths(files@, exclude, keep);
    assert(files.deep_view() =~= files@.map_values(|file: FoundFile| file@));
    assert(step->files.deep_view() =~= step->files@.map_values(|path: String| path@));
}

/// The files that are worked on are told, and before them, if there are any, the texts that
/// exclude; each list is written as a whole.
pub proof fn selected_files_are_told(
    multi_mode: MultiFileArguments,
    files: Vec<FoundFile>,
    step: MultiStep,
)
    requires
        call_ensures(handle_multi, (&multi_mode, MultiEvent::Walked(files)), step),
    ensures
        step is Process,
        ({
            let lines = step->Process_lines@;
            let last = lines.len() - 1;
            &&& lines.len() == (if multi_mode.exclude_file@.len() > 0 {
                2nat
            } else {
                1nat
            })
            &&& lines[last].channel == Channel::Info
            &&& lines[last].text@ == "Found files: "@ + debug_text(step->files.deep_view())
            &&& multi_mode.exclude_file@.len() > 0 ==> {
                &&& lines[0].channel == Channel::Info
                &&& lines[0].text@ == "Ignoring files: "@ + debug_text(
                    multi_mode.exclude_file.deep_view(),
                )
            }
        }),
{
    let lines = step->Process_lines.deep_view();
    let exclude = multi_mode.exclude_file.deep_view();
    assert(lines == selection_lines(
        exclusion_list(exclude),
        debug_text(step->files.deep_view()),
    ));
    assert(exclude.len() == multi_mode.exclude_file@.len());
    assert(lines[0] == step->Process_lines@[0]@);
    assert(lines[lines.len() - 1] == step->Process_lines@[lines.len() - 1]@);
}

/// What is told of a selection is told in the words for it, whatever the lists are.
pub proof fn selections_are_told_alike(ignored: Option<String>, found: &str, lines: Vec<Line>)
    requires
        call_ensures(say_selection, (&ignored, found), lines),
    ensures
        lines@.len() == (if ignored is Some {
            2nat
        } else {
            1nat
        }),
        forall|i: int| 0 <= i < lines@.len() ==> (#[trigger] lines@[i]).channel == Channel::Info,
        lines@[lines@.len() - 1].text@ == "Found files: "@ + found@,
        ignored is Some ==> lines@[0].text@ == "Ignoring files: "@ + ignored->0@,
{
    let views = lines.deep_view();
    assert(views == selection_lines(optional_text(ignored), found@));
    assert(views[0] == lines@[0]@);
    assert(views[views.len() - 1] == lines@[views.len() - 1]@);
}

/// A folder is told and its files are listed, whatever its path is.
pub proof fn folders_are_walked(multi_mode: MultiFileArguments, path: String, step: MultiStep)
    requires
        call_ensures(handle_multi, (&multi_mode, MultiEvent::Resolved(path)), step),
    ensures
        step is Walk,
        step->Walk_0.channel == Channel::Info,
        step->Walk_0.text@ == "Processing folder: "@ + path@,
{
    assert(step->Walk_0@.text == step->Walk_0.text@);
}

/// A dockerfile that cannot be read is told with the reason, and is not worked on further.
pub proof fn unreadable_dockerfiles_are_passed_over(
    multi_mode: MultiFileArguments,
    file: String,
    message: String,
    step: MultiStep,
)
    requires
        call_ensures(handle_multi, (&multi_mode, MultiEvent::ReadFailed { file, message }), step),
    ensures
        step is Say,
        step->Say_0.channel == Channel::Error,
        step->Say_0.text@ == "Could not read dockerfile: `"@ + file@ + "` with error: "@ + message@,
{
    assert(step->Say_0@.text == step->Say_0.text@);
}

/// For every dockerfile that was read, all images that are to be ignored are read as they were
/// given; then they are told, one by one, and updates are looked for as the arguments say.
pub proof fn updates_are_looked_for_as_asked(
    multi_mode: MultiFileArguments,
    names: Vec<String>,
    parse: MultiStep,
    find: MultiStep,
)
    requires
        call_ensures(handle_multi, (&multi_mode, MultiEvent::Read), parse),
        call_ensures(handle_multi, (&multi_mode, MultiEvent::IgnoredParsed(names)), find),
    ensures
        parse is ParseIgnored && parse->ParseIgnored_0@ == multi_mode.ignore_versions@,
        find is FindUpdates,
        find->strategy == multi_mode.strat,
        find->tag_search_limit == multi_mode.common.tag_search_limit,
        find->arch == multi_mode.common.arch,
        find->FindUpdates_lines@.len() == (if names@.len() == 0 {
            0
        } else {
            names@.len() + 1
        }),
        forall|i: int|
            0 <= i < find->FindUpdates_lines@.len() ==> (
            #[trigger] find->FindUpdates_lines@[i]).channel == Channel::Debug,
        names@.len() > 0 ==> find->FindUpdates_lines@[0].text@ == "Skipping image updates:"@,
        forall|i: int|
            0 <= i < names@.len() ==> find->FindUpdates_lines@[i + 1].text@ == "\t\t"@ + (
            #[trigger] names@[i])@,
{
    let lines = find->FindUpdates_lines.deep_view();
    let texts = names.deep_view();
    assert(lines == skipping_lines(texts));
    assert(texts.len() == names@.len());
    assert(forall|i: int|
        0 <= i < lines.len() ==> lines[i] == (#[trigger] find->FindUpdates_lines@[i])@);
    assert forall|i: int| 0 <= i < names@.len() implies find->FindUpdates_lines@[i + 1].text@
        == "\t\t"@ + (#[trigger] names@[i])@ by {
        assert(lines[i + 1].text == "\t\t"@ + texts[i]);
        assert(find->FindUpdates_lines@[i + 1]@ == lines[i + 1]);
    }
}

/// A dockerfile with its updates made is written exactly if it is not only to be shown; what
/// is written or shown is the same, and what the updates make of it. It is shown under the path
/// that it was read from.
pub proof fn updates_are_written_unless_only_shown(
    multi_mode: MultiFileArguments,
    found: DockerfileUpdate,
    applied: Dockerfile,
    step: MultiStep,
)
    requires
        multi_mode.dry_run ==> found.dockerfile.path is Some,
        call_ensures(DockerfileUpdate::apply, (&found,), applied),
        call_ensures(handle_multi, (&multi_mode, MultiEvent::UpdatesFound(found)), step),
    ensures
        step is Write <==> !multi_mode.dry_run,
        step is Render <==> multi_mode.dry_run,
        ({
            let result = if multi_mode.dry_run {
                step->dockerfile
            } else {
                step->Write_0
            };
            &&& result.source@ == applied.source@
            &&& result.path is Some <==> applied.path is Some
            &&& result.path is Some ==> result.path->0@ == applied.path->0@
            &&& result.base_images@.len() == applied.base_images@.len()
            &&& forall|i: int|
                0 <= i < result.base_images@.len() ==> {
                    &&& (#[trigger] result.base_images@[i]).name@ == applied.base_images@[i].name@
                    &&& result.base_images@[i].tag.text@ == applied.base_images@[i].tag.text@
                    &&& result.base_images@[i].tag.order == applied.base_images@[i].tag.order
                }
        }),
        multi_mode.dry_run ==> step->path@ == found.dockerfile.path->0@,
{
    let result = if multi_mode.dry_run {
        step->dockerfile
    } else {
        step->Write_0
    };
    assert(result@ == applied@);
    lemma_same_dockerfile(result, applied);
}

/// Dockerfiles that stand for the same have the same parts.
proof fn lemma_same_dockerfile(a: Dockerfile, b: Dockerfile)
    requires
        a@ == b@,
    ensures
        a.source@ == b.source@,
        optional_text(a.path) == optional_text(b.path),
        a.base_images@.len() == b.base_images@.len(),
        forall|i: int|
            0 <= i < a.base_images@.len() ==> (#[trigger] a.base_images@[i])@
                == b.base_images@[i]@,
{
    let images = a@.base_images;
    assert(images == b@.base_images);
    assert(a.base_images.deep_view().len() == a.base_images@.len());
    assert(b.base_images.deep_view().len() == b.base_images@.len());
    assert forall|i: int| 0 <= i < a.base_images@.len() implies (#[trigger] a.base_images@[i])@
        == b.base_images@[i]@ by {
        assert(a.base_images.deep_view()[i] == a.base_images@[i]@);
        assert(b.base_images.deep_view()[i] == b.base_images@[i]@);
    }
}

/// The text of an updated dockerfile is shown whole, behind its path.
pub proof fn updated_dockerfiles_are_shown_whole(
    multi_mode: MultiFileArguments,
    path: String,
    text: String,
    step: MultiStep,
)
    requires
        call_ensures(handle_multi, (&multi_mode, MultiEvent::Rendered { path, text }), step),
    ensures
        step is Say,
        step->Say_0.channel == Channel::Info,
        step->Say_0.text@ == "Updated dockerfile `"@ + path@ + "` would look like:\n"@ + text@,
{
    assert(step->Say_0@.text == step->Say_0.text@);
}

/// A file that exists is told by its resolved path and updated as the arguments say, and it is
/// written exactly if it is not only to be looked at; of one that does not exist only that is
/// told, by the path that was given.
pub proof fn single_files_are_updated_as_asked(
    file_mode: SingleFileArguments,
    path: &str,
    existing: FileStep,
    missing: FileStep,
)
    requires
        call_ensures(handle_file, (&file_mode, Some(path)), existing),
        call_ensures(handle_file, (&file_mode, None::<&str>), missing),
    ensures
        existing is Update,
        existing->line.channel == Channel::Info,
        existing->line.text@ == "Processing dockerfile: "@ + path@,
        existing->write <==> !file_mode.dry_run,
        existing->strategy == file_mode.strat,
        existing->tag_search_limit == file_mode.common.tag_search_limit,
        existing->arch == file_mode.common.arch,
        missing is Missing,
        missing->Missing_0.channel == Channel::Error,
        missing->Missing_0.text@ == "File `"@ + file_mode.file@ + "` not found."@,
{
    assert(existing->line@.text == existing->line.text@);
    assert(missing->Missing_0@.text == missing->Missing_0.text@);
}

} // verus!
