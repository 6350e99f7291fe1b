//! Looking for a newer release of the program, and where to get it.

use vstd::prelude::*;

use crate::image::{Tag, TagView};
use crate::line::{optional_line, Channel, Line, LineView};
use crate::tags::{
    has_one_newest, newest, newest_depends_on_the_tags_alone, newest_is_the_last_greatest,
    newest_tag, optional_tag, optional_tags,
};
use crate::text::{ascii_lowercase, starts_with};

verus! {

/// The addresses under which the releases of the program are found.
#[derive(Debug, PartialEq, Eq)]
pub struct RepositoryUrls {
    /// The repository.
    pub base: String,
    /// The list of its tags.
    pub release_refs: String,
    /// Its releases.
    pub release: String,
}

/// The address of the repository of an author. The name of the author is written in lower
/// case, that of the repository as it is.
pub open spec fn base_url(author: Seq<char>, repository: Seq<char>) -> Seq<char> {
    "https://github.com/"@ + ascii_lowercase(author) + "/"@ + repository
}

/// The addresses for the repository of an author.
pub fn repository_urls(author: &str, repository: &str) -> (urls: RepositoryUrls)
    ensures
        urls.base@ == base_url(author@, repository@),
        urls.release_refs@ == base_url(author@, repository@) + "/refs?type=tag"@,
        urls.release@ == base_url(author@, repository@) + "/releases"@,
{
    let mut base: String = "https://github.com/".to_owned();
    base.append(author.to_ascii_lowercase().as_str());
    base.append("/");
    base.append(repository);
    let mut release_refs: String = base.clone();
    release_refs.append("/refs?type=tag");
    let mut release: String = base.clone();
    release.append("/releases");
    RepositoryUrls { base, release_refs, release }
}

/// The version that a tag of the repository names: the tag without a leading `v`.
pub open spec fn version_of(reference: Seq<char>) -> Seq<char> {
    if reference.len() > 0 && reference[0] == 'v' {
        reference.skip(1)
    } else {
        reference
    }
}

/// The version that a tag of the repository names.
fn version_name(reference: &str) -> (version: &str)
    ensures
        version@ == version_of(reference@),
{
    proof {
        reveal_strlit("v");
        assert("v"@ =~= seq!['v']);
        if reference@.len() > 0 {
            assert(reference@.subrange(0, 1) =~= seq![reference@[0]]);
            assert(seq![reference@[0]][0] == reference@[0]);
            assert(seq!['v'][0] == 'v');
        }
    }
    if starts_with(reference, "v") {
        reference.substring_char(1, reference.unicode_len())
    } else {
        reference
    }
}

/// The versions that the tags of the repository name, in the same order.
pub fn release_versions(refs: &Vec<String>) -> (versions: Vec<String>)
    ensures
        versions.deep_view() == refs.deep_view().map_values(
            |reference: Seq<char>| version_of(reference),
        ),
{
    let mut versions: Vec<String> = Vec::new();
    let mut i: usize = 0;
    while i < refs.len()
        invariant
            i <= refs@.len(),
            versions@.len() == i,
            forall|j: int| 0 <= j < i ==> (#[trigger] versions@[j])@ == version_of(refs@[j]@),
        decreases refs.len() - i,
    {
        versions.push(version_name(refs[i].as_str()).to_owned());
        i = i + 1;
    }
    assert(versions.deep_view() =~= refs.deep_view().map_values(
        |reference: Seq<char>| version_of(reference),
    ));
    versions
}

/// The answer to the question which releases there are.
#[derive(Debug)]
pub enum ReleaseReply {
    /// There was none.
    Unreachable(String),
    /// It could not be read.
    Malformed(String),
    /// The versions of the releases, where they could be read as tags, and that of the
    /// program.
    Listed { versions: Vec<Option<Tag>>, current: Tag },
}

/// The newest release, if it is newer than the program.
pub open spec fn newer_release(reply: ReleaseReply) -> Option<TagView> {
    match reply {
        ReleaseReply::Listed { versions, current } => match newest(optional_tags(versions@)) {
            Some(latest) => if latest.order > current.order {
                Some(latest)
            } else {
                None
            },
            None => None,
        },
        _ => None,
    }
}

/// What is said where there is no newer release.
pub open spec fn release_line(reply: ReleaseReply) -> Option<LineView> {
    match reply {
        ReleaseReply::Unreachable(message) => Some(
            LineView {
                channel: Channel::Stderr,
                text: "Failed to check for updates: "@ + message@,
            },
        ),
        ReleaseReply::Malformed(message) => Some(
            LineView {
                channel: Channel::Stderr,
                text: "Failed to parse update response from GitHub. Error: "@ + message@,
            },
        ),
        ReleaseReply::Listed { versions, .. } => if newest(optional_tags(versions@)) is Some
            && newer_release(reply) is None {
            Some(LineView { channel: Channel::Stdout, text: "Already up to date."@ })
        } else {
            None
        },
    }
}

/// A release is offered exactly if one of those that are listed is newer than the program;
/// the one that is offered is listed, and none that is listed is newer.
pub proof fn newest_release_is_offered(versions: Vec<Option<Tag>>, current: Tag)
    ensures
        ({
            let listed = optional_tags(versions@);
            match newer_release(ReleaseReply::Listed { versions, current }) {
                Some(latest) => {
                    &&& latest.order > current.order
                    &&& exists|i: int| 0 <= i < listed.len() && #[trigger] listed[i] == Some(latest)
                    &&& forall|i: int|
                        0 <= i < listed.len() && (#[trigger] listed[i]) is Some
                            ==> listed[i]->0.order <= latest.order
                },
                None => forall|i: int|
                    0 <= i < listed.len() && (#[trigger] listed[i]) is Some ==> listed[i]->0.order
                        <= current.order,
            }
        }),
{
    newest_is_the_last_greatest(optional_tags(versions@));
}

/// Two tags of the repository are the same, but that a `v` may stand before the second where
/// none stands before the first.
pub open spec fn same_up_to_v(first: Seq<char>, second: Seq<char>) -> bool {
    first == second || (!(first.len() > 0 && first[0] == 'v') && second == seq!['v'] + first)
}

/// What is listed where the tags of the repository are `refs` and `read` is how versions are
/// read as tags.
pub open spec fn listed_tags(
    refs: Seq<Seq<char>>,
    read: spec_fn(Seq<char>) -> Option<TagView>,
) -> Seq<Option<TagView>> {
    refs.map_values(|reference: Seq<char>| read(version_of(reference)))
}

/// The order in which the repository lists its tags, and a `v` put before some of them, change
/// neither whether a release is offered, nor how new it is, nor what is said; nor do they
/// change which release is offered, where all that are as new as it are the same.
pub proof fn order_of_refs_does_not_matter(
    first: Seq<Seq<char>>,
    reordered: Seq<Seq<char>>,
    second: Seq<Seq<char>>,
    read: spec_fn(Seq<char>) -> Option<TagView>,
    first_versions: Vec<Option<Tag>>,
    second_versions: Vec<Option<Tag>>,
    current: Tag,
)
    requires
        reordered.to_multiset() == first.to_multiset(),
        second.len() == reordered.len(),
        forall|i: int|
            0 <= i < second.len() ==> same_up_to_v(#[trigger] reordered[i], second[i]),
        optional_tags(first_versions@) == listed_tags(first, read),
        optional_tags(second_versions@) == listed_tags(second, read),
    ensures
        ({
            let a = ReleaseReply::Listed { versions: first_versions, current };
            let b = ReleaseReply::Listed { versions: second_versions, current };
            &&& newer_release(a) is Some <==> newer_release(b) is Some
            &&& newer_release(a) is Some ==> newer_release(a)->0.order == newer_release(
                b,
            )->0.order
            &&& release_line(a) == release_line(b)
            &&& has_one_newest(listed_tags(first, read)) ==> newer_release(a) == newer_release(b)
        }),
{
    broadcast use vstd::seq_lib::group_to_multiset_ensures;

    let a = listed_tags(first, read);
    let b = listed_tags(second, read);
    assert forall|i: int| 0 <= i < second.len() implies version_of(#[trigger] reordered[i])
        == version_of(second[i]) by {
        if reordered[i] != second[i] {
            assert(second[i].skip(1) =~= reordered[i]);
        }
    }
    assert forall|reference: Seq<char>|
        first.contains(reference) <==> reordered.contains(reference) by {
        assert(reordered.contains(reference) <==> reordered.to_multiset().count(reference) > 0);
    }
    assert forall|tag: TagView| a.contains(Some(tag)) <==> b.contains(Some(tag)) by {
        if a.contains(Some(tag)) {
            let i = choose|i: int| 0 <= i < a.len() && a[i] == Some(tag);
            assert(reordered.contains(first[i]));
            let j = choose|j: int| 0 <= j < reordered.len() && reordered[j] == first[i];
            assert(b[j] == Some(tag));
        }
        if b.contains(Some(tag)) {
            let j = choose|j: int| 0 <= j < b.len() && b[j] == Some(tag);
            assert(first.contains(reordered[j]));
            let i = choose|i: int| 0 <= i < first.len() && first[i] == reordered[j];
            assert(a[i] == Some(tag));
        }
    }
    newest_depends_on_the_tags_alone(a, b);
}

/// The newest release if it is newer than the program, and what is said if there is none.
pub fn fetch_latest_version(reply: ReleaseReply) -> (found: (
    Option<Tag>,
    Option<Line>,
))
    ensures
        optional_tag(found.0) == newer_release(reply),
        optional_line(found.1) == release_line(reply),
{
    match reply {
        ReleaseReply::Unreachable(message) => {
            let mut text: String = "Failed to check for updates: ".to_owned();
            text.append(message.as_str());
            (None, Some(Line { channel: Channel::Stderr, text }))
        },
        ReleaseReply::Malformed(message) => {
            let mut text: String =
                "Failed to parse update response from GitHub. Error: ".to_owned();
            text.append(message.as_str());
            (None, Some(Line { channel: Channel::Stderr, text }))
        },
        ReleaseReply::Listed { versions, current } => match newest_tag(&versions) {
            Some(latest) => {
                if latest.order > current.order {
                    (Some(latest), None)
                } else {
                    let text: String = "Already up to date.".to_owned();
                    (None, Some(Line { channel: Channel::Stdout, text }))
                }
            },
            None => (None, None),
        },
    }
}

/// What is said of a newer release.
pub fn check_update(latest: &Option<Tag>, urls: &RepositoryUrls) -> (line: Option<Line>)
    ensures
        optional_line(line) == (match *latest {
            Some(tag) => Some(
                LineView {
                    channel: Channel::Stdout,
                    text: "A newer version is available: v"@ + tag.text@ + "\nPlease check: "@
                        + urls.release@,
                },
            ),
            None => None,
        }),
{
    match latest {
        Some(tag) => {
            let mut text: String = "A newer version is available: v".to_owned();
            text.append(tag.text.as_str());
            text.append("\nPlease check: ");
            text.append(urls.release.as_str());
            Some(Line { channel: Channel::Stdout, text })
        },
        None => None,
    }
}

/// The file that holds a release.
#[derive(Debug, PartialEq, Eq)]
pub struct Download {
    /// The directory in which it is to lie: that of the running program.
    pub directory: String,
    /// Its name, here and there.
    pub file_name: String,
    /// Where it is found.
    pub url: String,
    /// What is said before it is fetched.
    pub line: Line,
}

/// How the name of the program ends on an operating system.
pub open spec fn program_suffix(os: Seq<char>) -> Seq<char> {
    if os == "windows"@ {
        ".exe"@
    } else {
        "-x86_64-unknown-linux-musl"@
    }
}

/// The name of the program of a release.
pub open spec fn program_file(latest: TagView, os: Seq<char>) -> Seq<char> {
    "dfu-v"@ + latest.text + program_suffix(os)
}

/// The address of the program of a release.
pub open spec fn program_url(latest: TagView, os: Seq<char>, release_url: Seq<char>) -> Seq<char> {
    release_url + "/download/v"@ + latest.text + "/"@ + program_file(latest, os)
}

/// A program is found under its name, below the address of the releases.
pub proof fn program_is_found_under_its_name(
    latest: TagView,
    os: Seq<char>,
    release_url: Seq<char>,
)
    ensures
        release_url.is_prefix_of(program_url(latest, os, release_url)),
        ("/"@ + program_file(latest, os)).is_suffix_of(program_url(latest, os, release_url)),
{
    let url = program_url(latest, os, release_url);
    let end = "/"@ + program_file(latest, os);
    assert(end =~= url.subrange(url.len() - end.len(), url.len() as int));
}

/// What is downloaded to update the program, which lies in `program_dir` and runs on an
/// operating system, and is to lie next to it: nothing, if there is no newer release.
pub fn handle_self_update(
    latest: &Option<Tag>,
    os: &str,
    program_dir: &str,
    urls: &RepositoryUrls,
) -> (download: Option<Download>)
    ensures
        match *latest {
            Some(tag) => {
                &&& download is Some
                &&& download->0.directory@ == program_dir@
                &&& download->0.file_name@ == program_file(tag@, os@)
                &&& download->0.url@ == program_url(tag@, os@, urls.release@)
                &&& download->0.line@ == (LineView {
                    channel: Channel::Debug,
                    text: "Download URL: "@ + program_url(tag@, os@, urls.release@),
                })
            },
            None => download is None,
        },
{
    match latest {
        Some(tag) => {
            let is_windows: bool = os.to_owned() == "windows".to_owned();
            let suffix: &'static str = if is_windows {
                ".exe"
            } else {
                "-x86_64-unknown-linux-musl"
            };
            let mut file_name: String = "dfu-v".to_owned();
            file_name.append(tag.text.as_str());
            file_name.append(suffix);
            let mut url: String = urls.release.clone();
            url.append("/download/v");
            url.append(tag.text.as_str());
            url.append("/");
            url.append(file_name.as_str());
            let mut text: String = "Download URL: ".to_owned();
            text.append(url.as_str());
            let line: Line = Line { channel: Channel::Debug, text };
            Some(Download { directory: program_dir.to_owned(), file_name, url, line })
        },
        None => None,
    }
}

/// What is said of a download to `path` once it ended.
pub fn download_line(path: &str, result: Result<(), String>) -> (line: Line)
    ensures
        line@ == (match result {
            Ok(_) => LineView {
                channel: Channel::Info,
                text: "Successfully downloaded new version to: "@ + path@,
            },
            Err(message) => LineView {
                channel: Channel::Error,
                text: "Error while downloading new release: "@ + message@,
            },
        }),
{
    match result {
        Ok(_) => {
            let mut text: String = "Successfully downloaded new version to: ".to_owned();
            text.append(path);
            Line { channel: Channel::Info, text }
        },
        Err(message) => {
            let mut text: String = "Error while downloading new release: ".to_owned();
            text.append(message.as_str());
            Line { channel: Channel::Error, text }
        },
    }
}

/// The addresses of a repository: its own is that of the site, the author in lower case and
/// the repository as it is written; its tags and its releases lie below it.
pub proof fn repository_is_found_below_its_author(
    author: &str,
    repository: &str,
    lower: String,
    urls: RepositoryUrls,
)
    requires
        call_ensures(str::to_ascii_lowercase, (author,), lower),
        call_ensures(repository_urls, (author, repository), urls),
    ensures
        urls.base@ == "https://github.com/"@ + lower@ + "/"@ + repository@,
        urls.release_refs@ == urls.base@ + "/refs?type=tag"@,
        urls.release@ == urls.base@ + "/releases"@,
{
}

/// The version that a tag of the repository names is the whole tag, but for a `v` at its
/// beginning; no tag is left out, and their order stays.
pub proof fn versions_are_whole_tags(refs: Vec<String>, versions: Vec<String>, i: int)
    requires
        call_ensures(release_versions, (&refs,), versions),
        0 <= i < refs@.len(),
    ensures
        versions@.len() == refs@.len(),
        refs@[i]@.len() > 0 && refs@[i]@[0] == 'v' ==> seq!['v'] + versions@[i]@ == refs@[i]@,
        refs@[i]@.len() == 0 || refs@[i]@[0] != 'v' ==> versions@[i]@ == refs@[i]@,
{
    assert(versions.deep_view().len() == versions@.len());
    assert(refs.deep_view().len() == refs@.len());
    assert(versions.deep_view()[i] == versions@[i]@);
    assert(refs.deep_view()[i] == refs@[i]@);
    if refs@[i]@.len() > 0 && refs@[i]@[0] == 'v' {
        assert(seq!['v'] + refs@[i]@.skip(1) =~= refs@[i]@);
    }
}

/// Of the releases that are listed, one is found exactly if one is newer than the program. It
/// is listed, none is newer, and those that are listed behind it are older. Then nothing is
/// said; where all are as old as the program or older, that is said; where there are none,
/// nothing.
pub proof fn newest_listed_release_is_found(
    versions: Vec<Option<Tag>>,
    current: Tag,
    found: (Option<Tag>, Option<Line>),
)
    requires
        call_ensures(
            fetch_latest_version,
            (ReleaseReply::Listed { versions, current },),
            found,
        ),
    ensures
        found.0 is Some <==> exists|i: int|
            0 <= i < versions@.len() && (#[trigger] versions@[i]) is Some && versions@[i]->0.order
                > current.order,
        found.0 is Some ==> exists|i: int|
            {
                &&& 0 <= i < versions@.len()
                &&& (#[trigger] versions@[i]) is Some
                &&& versions@[i]->0.text@ == found.0->0.text@
                &&& versions@[i]->0.order == found.0->0.order
                &&& forall|j: int|
                    0 <= j < versions@.len() && (#[trigger] versions@[j]) is Some
                        ==> versions@[j]->0.order <= found.0->0.order
                &&& forall|j: int|
                    i < j < versions@.len() && (#[trigger] versions@[j]) is Some
                        ==> versions@[j]->0.order < found.0->0.order
            },
        found.1 is Some <==> found.0 is None && exists|i: int|
            0 <= i < versions@.len() && (#[trigger] versions@[i]) is Some,
        found.1 is Some ==> found.1->0.channel == Channel::Stdout && found.1->0.text@
            == "Already up to date."@,
{
    let listed = optional_tags(versions@);
    newest_is_the_last_greatest(listed);
    assert(listed.len() == versions@.len());
    assert(forall|i: int|
        0 <= i < versions@.len() ==> listed[i] == optional_tag(#[trigger] versions@[i]));
    if let Some(best) = newest(listed) {
        let i = choose|i: int|
            {
                &&& 0 <= i < listed.len()
                &&& #[trigger] listed[i] == Some(best)
                &&& forall|j: int|
                    0 <= j < listed.len() && (#[trigger] listed[j]) is Some ==> listed[j]->0.order
                        <= best.order
                &&& forall|j: int|
                    i < j < listed.len() && (#[trigger] listed[j]) is Some ==> listed[j]->0.order
                        < best.order
            };
        assert(versions@[i] is Some);
        assert(versions@[i]->0@ == best);
        assert forall|j: int| 0 <= j < versions@.len() && (#[trigger] versions@[j]) is Some implies
            versions@[j]->0.order <= best.order by {
            assert(listed[j] is Some);
        }
        assert forall|j: int| i < j < versions@.len() && (#[trigger] versions@[j]) is Some implies
            versions@[j]->0.order < best.order by {
            assert(listed[j] is Some);
        }
    } else {
        assert forall|i: int| 0 <= i < versions@.len() implies (#[trigger] versions@[i]) is None by {
            assert(listed[i] is None);
        }
    }
}

/// Where the releases cannot be asked for or read, none is found, and the reason is said.
pub proof fn failed_requests_find_nothing(
    message: String,
    unreachable: (Option<Tag>, Option<Line>),
    malformed: (Option<Tag>, Option<Line>),
)
    requires
        call_ensures(fetch_latest_version, (ReleaseReply::Unreachable(message),), unreachable),
        call_ensures(fetch_latest_version, (ReleaseReply::Malformed(message),), malformed),
    ensures
        unreachable.0 is None && malformed.0 is None,
        unreachable.1 is Some && malformed.1 is Some,
        unreachable.1->0.channel == Channel::Stderr && malformed.1->0.channel == Channel::Stderr,
        unreachable.1->0.text@ == "Failed to check for updates: "@ + message@,
        malformed.1->0.text@ == "Failed to parse update response from GitHub. Error: "@ + message@,
{
}

/// A newer release is told, with its version and where the releases are found, exactly if there
/// is one.
pub proof fn newer_releases_are_told(latest: Option<Tag>, urls: RepositoryUrls, line: Option<Line>)
    requires
        call_ensures(check_update, (&latest, &urls), line),
    ensures
        line is Some <==> latest is Some,
        line is Some ==> line->0.channel == Channel::Stdout && line->0.text@
            == "A newer version is available: v"@ + latest->0.text@ + "\nPlease check: "@
            + urls.release@,
{
}

/// The program of a release lies in the folder of that release, below the address of the
/// releases, under the name that it gets here: that of the program, with the version and the
/// end for the operating system. It is laid next to the running program, and its address is
/// told. Without a newer release nothing is fetched.
pub proof fn releases_are_fetched_from_their_own_folder(
    latest: Option<Tag>,
    os: &str,
    program_dir: &str,
    urls: RepositoryUrls,
    download: Option<Download>,
)
    requires
        call_ensures(handle_self_update, (&latest, os, program_dir, &urls), download),
    ensures
        download is Some <==> latest is Some,
        download is Some ==> {
            let version = latest->0.text@;
            let name = download->0.file_name@;
            let url = download->0.url@;
            let folder = url.take(url.len() - name.len() - 1);
            &&& url == folder + "/"@ + name
            &&& folder == urls.release@ + "/download/v"@ + version
            &&& os@ == "windows"@ ==> name == "dfu-v"@ + version + ".exe"@
            &&& os@ != "windows"@ ==> name == "dfu-v"@ + version + "-x86_64-unknown-linux-musl"@
            &&& download->0.directory@ == program_dir@
            &&& download->0.line.channel == Channel::Debug
            &&& download->0.line.text@ == "Download URL: "@ + url
        },
{
    if let Some(tag) = latest {
        reveal_strlit("/");
        let name = download->0.file_name@;
        let url = download->0.url@;
        let folder = urls.release@ + "/download/v"@ + tag.text@;
        assert(url =~= folder + "/"@ + name);
        assert(url.take(url.len() - name.len() - 1) =~= folder);
    }
}

/// Two releases are fetched from two folders, and get two names.
pub proof fn releases_do_not_share_a_folder(
    first: Tag,
    second: Tag,
    os: &str,
    program_dir: &str,
    urls: RepositoryUrls,
    downloads: (Option<Download>, Option<Download>),
)
    requires
        first.text@ != second.text@,
        call_ensures(handle_self_update, (&Some(first), os, program_dir, &urls), downloads.0),
        call_ensures(handle_self_update, (&Some(second), os, program_dir, &urls), downloads.1),
    ensures
        downloads.0 is Some && downloads.1 is Some,
        downloads.0->0.file_name@ != downloads.1->0.file_name@,
        ({
            let a = downloads.0->0;
            let b = downloads.1->0;
            a.url@.take(a.url@.len() - a.file_name@.len() - 1) != b.url@.take(
                b.url@.len() - b.file_name@.len() - 1,
            )
        }),
{
    releases_are_fetched_from_their_own_folder(
        Some(first),
        os,
        program_dir,
        urls,
        downloads.0,
    );
    releases_are_fetched_from_their_own_folder(
        Some(second),
        os,
        program_dir,
        urls,
        downloads.1,
    );
    let suffix = program_suffix(os@);
    let front = urls.release@ + "/download/v"@;
    assert(front + first.text@ + Seq::<char>::empty() =~= front + first.text@);
    assert(front + second.text@ + Seq::<char>::empty() =~= front + second.text@);
    if "dfu-v"@ + first.text@ + suffix == "dfu-v"@ + second.text@ + suffix {
        lemma_middle("dfu-v"@, first.text@, second.text@, suffix);
    }
    if front + first.text@ == front + second.text@ {
        lemma_middle(front, first.text@, second.text@, Seq::empty());
    }
}

/// Texts that differ only in the middle differ.
proof fn lemma_middle(front: Seq<char>, a: Seq<char>, b: Seq<char>, end: Seq<char>)
    requires
        front + a + end == front + b + end,
    ensures
        a == b,
{
    let whole = front + a + end;
    let other = front + b + end;
    assert(whole == other);
    assert(whole.len() == front.len() + a.len() + end.len());
    assert(other.len() == front.len() + b.len() + end.len());
    assert(a.len() == b.len());
    assert forall|i: int| 0 <= i < a.len() implies a[i] == b[i] by {
        assert(whole[front.len() + i] == a[i]);
        assert(other[front.len() + i] == b[i]);
    }
    assert(a =~= b);
}

/// How a download ended is told with where it went, or with why it failed.
pub proof fn ends_of_downloads_are_told(path: &str, message: String, done: Line, failed: Line)
    requires
        call_ensures(download_line, (path, Ok::<(), String>(())), done),
        call_ensures(download_line, (path, Err::<(), String>(message)), failed),
    ensures
        done.channel == Channel::Info,
        done.text@ == "Successfully downloaded new version to: "@ + path@,
        failed.channel == Channel::Error,
        failed.text@ == "Error while downloading new release: "@ + message@,
{
    assert(done@.text == done.text@);
    assert(failed@.text == failed.text@);
}

} // verus!
