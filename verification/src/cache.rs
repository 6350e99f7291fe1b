//! Tags that were fetched before: kept in memory, and read from a file that is not too old.

use vstd::hash_map::StringHashMap;
use vstd::prelude::*;

use crate::image::Tag;
use crate::line::{optional_line, Channel, Line, LineView};

verus! {

/// For how many seconds a cache file is good.
pub const DURATION_HOUR_AS_SECS: u64 = 3600;

/// The name of the directory of the cache files, below that for temporary files.
pub open spec fn cache_dir() -> Seq<char> {
    "dfu"@
}

/// The name of the directory of the cache files, below that for temporary files.
pub fn cache_dir_name() -> (name: &'static str)
    ensures
        name@ == cache_dir(),
{
    "dfu"
}

/// What is said of the attempt to create the directory of the cache files: nothing, if it
/// did not fail.
pub fn create_cache_dir(path: &str, failure: Option<&str>) -> (line: Option<Line>)
    ensures
        optional_line(line) == (match failure {
            Some(error) => Some(
                LineView {
                    channel: Channel::Stderr,
                    text: "Could not create temp dir: "@ + path@ + ". Error: "@ + error@,
                },
            ),
            None => None,
        }),
{
    match failure {
        Some(error) => {
            let mut text: String = "Could not create temp dir: ".to_owned();
            text.append(path);
            text.append(". Error: ");
            text.append(error);
            Some(Line { channel: Channel::Stderr, text })
        },
        None => None,
    }
}

/// The tags of images, by the full name of the image.
pub struct TagsCache {
    entries: StringHashMap<Vec<Tag>>,
}

impl View for TagsCache {
    type V = Map<Seq<char>, Seq<Tag>>;

    closed spec fn view(&self) -> Map<Seq<char>, Seq<Tag>> {
        self.entries@.map_values(|tags: Vec<Tag>| tags@)
    }
}

impl TagsCache {
    pub fn new() -> (cache: TagsCache)
        ensures
            cache@ == Map::<Seq<char>, Seq<Tag>>::empty(),
    {
        let cache: TagsCache = TagsCache { entries: StringHashMap::new() };
        assert(cache@ =~= Map::<Seq<char>, Seq<Tag>>::empty());
        cache
    }

    /// The tags that are kept for an image.
    pub fn get(&self, full_name: &str) -> (tags: Option<&Vec<Tag>>)
        ensures
            match tags {
                Some(tags) => self@.contains_key(full_name@) && tags@ == self@[full_name@],
                None => !self@.contains_key(full_name@),
            },
    {
        self.entries.get(full_name)
    }

    /// Keeps the tags of an image in place of any that were kept for it, and says whether
    /// there were none.
    pub fn keep(&mut self, full_name: &str, tags: Vec<Tag>) -> (is_new: bool)
        ensures
            final(self)@ == old(self)@.insert(full_name@, tags@),
            is_new == !old(self)@.contains_key(full_name@),
    {
        let is_new: bool = !self.entries.contains_key(full_name);
        self.entries.insert(full_name.to_owned(), tags);
        assert(self@ =~= old(self)@.insert(full_name@, tags@));
        is_new
    }
}

/// What has been done to get tags from a cache file.
#[derive(Debug)]
pub enum CacheEvent {
    /// Nothing yet.
    Started,
    /// The directory of the cache files was created, or could not be.
    DirTried,
    OpenFailed(String),
    Opened,
    /// Nothing could be learned of the file.
    MetadataFailed(String),
    MetadataRead,
    /// When the file was changed is not known here.
    ModificationUnknown,
    ModificationKnown,
    /// The file was changed in the future.
    AgeFailed(String),
    /// The file was changed so many full seconds ago.
    Aged(u64),
    ReadFailed(String),
    Read,
    /// The file does not hold tags.
    ParseFailed,
    /// The file holds these tags.
    Parsed(Vec<Tag>),
    /// The tags in memory cannot be changed.
    LockFailed(String),
    /// The tags were put in memory, where there were none for the image or were some.
    Kept { is_new: bool },
}

/// What is to be done next to get tags from a cache file.
#[derive(Debug)]
pub enum CacheStep {
    CreateDir,
    Open,
    ReadMetadata,
    AskModification,
    AskAge,
    Read,
    Parse,
    /// Put the tags of the image in memory.
    Keep { full_name: String, tags: Vec<Tag> },
    /// There is nothing more to be done; where there is a message, it failed.
    Finish(Result<(), String>),
}

/// What a `CacheStep` stands for.
#[verifier::ext_equal]
pub enum CacheStepView {
    CreateDir,
    Open,
    ReadMetadata,
    AskModification,
    AskAge,
    Read,
    Parse,
    Keep { full_name: Seq<char>, tags: Seq<Tag> },
    Finish(Result<(), Seq<char>>),
}

impl View for CacheStep {
    type V = CacheStepView;

    open spec fn view(&self) -> CacheStepView {
        match *self {
            CacheStep::CreateDir => CacheStepView::CreateDir,
            CacheStep::Open => CacheStepView::Open,
            CacheStep::ReadMetadata => CacheStepView::ReadMetadata,
            CacheStep::AskModification => CacheStepView::AskModification,
            CacheStep::AskAge => CacheStepView::AskAge,
            CacheStep::Read => CacheStepView::Read,
            CacheStep::Parse => CacheStepView::Parse,
            CacheStep::Keep { full_name, tags } => CacheStepView::Keep {
                full_name: full_name@,
                tags: tags@,
            },
            CacheStep::Finish(Ok(_)) => CacheStepView::Finish(Ok(())),
            CacheStep::Finish(Err(message)) => CacheStepView::Finish(Err(message@)),
        }
    }
}

/// What is done next after an event, for the image of a full name.
pub open spec fn next_step(event: CacheEvent, full_name: Seq<char>) -> CacheStepView {
    match event {
        CacheEvent::Started => CacheStepView::CreateDir,
        CacheEvent::DirTried => CacheStepView::Open,
        CacheEvent::OpenFailed(_) => CacheStepView::Finish(Ok(())),
        CacheEvent::Opened => CacheStepView::ReadMetadata,
        CacheEvent::MetadataFailed(message) => CacheStepView::Finish(Err(message@)),
        CacheEvent::MetadataRead => CacheStepView::AskModification,
        CacheEvent::ModificationUnknown => CacheStepView::Finish(Ok(())),
        CacheEvent::ModificationKnown => CacheStepView::AskAge,
        CacheEvent::AgeFailed(message) => CacheStepView::Finish(Err(message@)),
        CacheEvent::Aged(seconds) => if seconds < DURATION_HOUR_AS_SECS {
            CacheStepView::Read
        } else {
            CacheStepView::Finish(Ok(()))
        },
        CacheEvent::ReadFailed(message) => CacheStepView::Finish(Err(message@)),
        CacheEvent::Read => CacheStepView::Parse,
        CacheEvent::ParseFailed => CacheStepView::Finish(Ok(())),
        CacheEvent::Parsed(tags) => CacheStepView::Keep { full_name, tags: tags@ },
        CacheEvent::LockFailed(message) => CacheStepView::Finish(Err(message@)),
        CacheEvent::Kept { .. } => CacheStepView::Finish(Ok(())),
    }
}

/// What is said after an event.
pub open spec fn event_line(event: CacheEvent, cache_file_name: Seq<char>) -> Option<LineView> {
    match event {
        CacheEvent::OpenFailed(message) => Some(
            LineView {
                channel: Channel::Info,
                text: "No cache file exists under `"@ + cache_file_name + "`. Error: "@ + message@
                    + ". Fetching info from docker hub."@,
            },
        ),
        CacheEvent::Aged(seconds) => if seconds < DURATION_HOUR_AS_SECS {
            None
        } else {
            Some(
                LineView {
                    channel: Channel::Info,
                    text: "Cache file is older than 3600 seconds. Fetching new data instead."@,
                },
            )
        },
        CacheEvent::ParseFailed => Some(
            LineView { channel: Channel::Error, text: "Could not read tags from file"@ },
        ),
        CacheEvent::Kept { is_new } => if is_new {
            Some(LineView { channel: Channel::Debug, text: "Populated cache successfully."@ })
        } else {
            None
        },
        _ => None,
    }
}

/// The events that can follow a step.
pub open spec fn can_follow(step: CacheStepView, event: CacheEvent) -> bool {
    match step {
        CacheStepView::CreateDir => event is DirTried,
        CacheStepView::Open => event is OpenFailed || event is Opened,
        CacheStepView::ReadMetadata => event is MetadataFailed || event is MetadataRead,
        CacheStepView::AskModification => event is ModificationUnknown || event is ModificationKnown,
        CacheStepView::AskAge => event is AgeFailed || event is Aged,
        CacheStepView::Read => event is ReadFailed || event is Read,
        CacheStepView::Parse => event is ParseFailed || event is Parsed,
        CacheStepView::Keep { .. } => event is LockFailed || event is Kept,
        CacheStepView::Finish(_) => false,
    }
}

/// In the reading of a cache file for an image, `events` happen one after the other, from the
/// first on, each after the step that the one before it led to.
pub open spec fn is_course(events: Seq<CacheEvent>, full_name: Seq<char>) -> bool {
    &&& events.len() > 0
    &&& events[0] is Started
    &&& forall|i: int|
        0 < i < events.len() ==> can_follow(next_step(events[i - 1], full_name), #[trigger] events[i])
}

/// The place of an event in every course in which it happens.
pub open spec fn place_of(event: CacheEvent) -> int {
    match event {
        CacheEvent::Started => 0,
        CacheEvent::DirTried => 1,
        CacheEvent::OpenFailed(_) | CacheEvent::Opened => 2,
        CacheEvent::MetadataFailed(_) | CacheEvent::MetadataRead => 3,
        CacheEvent::ModificationUnknown | CacheEvent::ModificationKnown => 4,
        CacheEvent::AgeFailed(_) | CacheEvent::Aged(_) => 5,
        CacheEvent::ReadFailed(_) | CacheEvent::Read => 6,
        CacheEvent::ParseFailed | CacheEvent::Parsed(_) => 7,
        CacheEvent::LockFailed(_) | CacheEvent::Kept { .. } => 8,
    }
}

/// Every event has its place.
pub proof fn events_have_their_place(events: Seq<CacheEvent>, full_name: Seq<char>, i: int)
    requires
        is_course(events, full_name),
        0 <= i < events.len(),
    ensures
        place_of(events[i]) == i,
    decreases i,
{
    if i > 0 {
        events_have_their_place(events, full_name, i - 1);
        assert(can_follow(next_step(events[i - 1], full_name), events[i]));
    }
}

/// A cache file is dealt with in no more than nine events.
pub proof fn cache_file_is_soon_dealt_with(events: Seq<CacheEvent>, full_name: Seq<char>)
    requires
        is_course(events, full_name),
    ensures
        events.len() <= 9,
{
    events_have_their_place(events, full_name, events.len() - 1);
}

/// Tags are taken from a cache file only if it was changed less than the given time ago.
pub proof fn old_cache_files_are_not_used(events: Seq<CacheEvent>, full_name: Seq<char>, i: int)
    requires
        is_course(events, full_name),
        0 <= i < events.len(),
        events[i] is Parsed,
    ensures
        exists|k: int|
            0 <= k < i && (#[trigger] events[k]) is Aged && events[k]->Aged_0
                < DURATION_HOUR_AS_SECS,
{
    assert(events[0] is Started);
    assert(can_follow(next_step(events[i - 1], full_name), events[i]));
    assert(events[i - 1] is Read);
    assert(can_follow(next_step(events[i - 2], full_name), events[i - 1]));
    assert(events[i - 2] is Aged);
}

/// Tags that are put in memory are those that the cache file holds, under the name of the
/// image.
pub proof fn tags_of_the_file_are_kept(events: Seq<CacheEvent>, full_name: Seq<char>, i: int)
    requires
        is_course(events, full_name),
        0 <= i < events.len(),
        events[i] is Kept,
    ensures
        i > 0,
        events[i - 1] is Parsed,
        next_step(events[i - 1], full_name) == (CacheStepView::Keep {
            full_name,
            tags: events[i - 1]->Parsed_0@,
        }),
{
    assert(events[0] is Started);
    assert(can_follow(next_step(events[i - 1], full_name), events[i]));
}

/// The tags that are at hand after an event.
pub open spec fn tags_after_event(event: CacheEvent, tags: Seq<Tag>) -> Seq<Tag> {
    match event {
        CacheEvent::Parsed(read_tags) => read_tags@,
        _ => tags,
    }
}

/// The tags that are at hand after a course that began with `tags`.
pub open spec fn tags_after(events: Seq<CacheEvent>, tags: Seq<Tag>) -> Seq<Tag>
    decreases events.len(),
{
    if events.len() == 0 {
        tags
    } else {
        tags_after_event(events.last(), tags_after(events.drop_last(), tags))
    }
}

/// The tags in memory after a course that began with `memory`: where the step to keep tags was
/// done, they are kept.
pub open spec fn memory_after(
    events: Seq<CacheEvent>,
    full_name: Seq<char>,
    memory: Map<Seq<char>, Seq<Tag>>,
) -> Map<Seq<char>, Seq<Tag>>
    decreases events.len(),
{
    if events.len() == 0 {
        memory
    } else {
        let rest = events.drop_last();
        let before = memory_after(rest, full_name, memory);
        if events.last() is Kept && rest.len() > 0 {
            match next_step(rest.last(), full_name) {
                CacheStepView::Keep { full_name, tags } => before.insert(full_name, tags),
                _ => before,
            }
        } else {
            before
        }
    }
}

/// After the reading of a cache file, the tags at hand are exactly those that the file holds,
/// or those from before where none were read. Tags are then in memory for the image if they
/// were kept, and they are those at hand; all else in memory is as before.
pub proof fn cache_file_gives_its_tags_or_changes_nothing(
    events: Seq<CacheEvent>,
    full_name: Seq<char>,
    tags: Seq<Tag>,
    memory: Map<Seq<char>, Seq<Tag>>,
)
    requires
        is_course(events, full_name),
    ensures
        ({
            let tags_then = tags_after(events, tags);
            let memory_then = memory_after(events, full_name, memory);
            &&& (forall|i: int| 0 <= i < events.len() ==> !((#[trigger] events[i]) is Parsed))
                ==> tags_then == tags
            &&& forall|i: int|
                0 <= i < events.len() && (#[trigger] events[i]) is Parsed ==> tags_then
                    == events[i]->Parsed_0@
            &&& memory_then == (if events.last() is Kept {
                memory.insert(full_name, tags_then)
            } else {
                memory
            })
            &&& forall|other: Seq<char>|
                other != full_name ==> {
                    &&& #[trigger] memory_then.contains_key(other) == memory.contains_key(other)
                    &&& memory.contains_key(other) ==> memory_then[other] == memory[other]
                }
        }),
    decreases events.len(),
{
    let last = events.len() - 1;
    let rest = events.drop_last();
    if last == 0 {
        assert(tags_after(rest, tags) == tags);
        assert(memory_after(rest, full_name, memory) == memory);
    } else {
        assert(is_course(rest, full_name));
        cache_file_gives_its_tags_or_changes_nothing(rest, full_name, tags, memory);
        assert forall|i: int| 0 <= i < events.len() && (#[trigger] events[i]) is Parsed implies
            tags_after(events, tags) == events[i]->Parsed_0@ by {
            events_have_their_place(events, full_name, i);
            events_have_their_place(events, full_name, last);
        }
    }
}

/// A copy of some tags.
fn copy_tags(tags: &Vec<Tag>) -> (copy: Vec<Tag>)
    ensures
        copy@ == tags@,
{
    let mut copy: Vec<Tag> = Vec::new();
    let mut i: usize = 0;
    while i < tags.len()
        invariant
            i <= tags@.len(),
            copy@ == tags@.take(i as int),
        decreases tags.len() - i,
    {
        copy.push(tags[i].clone());
        i = i + 1;
    }
    copy
}

/// Takes the reading of a cache file one step on: what is to be done next, and what is said.
/// Only tags that the file holds replace `tags`, and only they are kept in memory, under the
/// full name of the image.
pub fn extract_cache_from_file(
    event: CacheEvent,
    full_name: &str,
    tags: &mut Vec<Tag>,
    cache_file_name: &str,
) -> (next: (CacheStep, Option<Line>))
    ensures
        next.0@ == next_step(event, full_name@),
        optional_line(next.1) == event_line(event, cache_file_name@),
        final(tags)@ == tags_after_event(event, old(tags)@),
{
    match event {
        CacheEvent::Started => (CacheStep::CreateDir, None),
        CacheEvent::DirTried => (CacheStep::Open, None),
        CacheEvent::OpenFailed(message) => {
            let mut text: String = "No cache file exists under `".to_owned();
            text.append(cache_file_name);
            text.append("`. Error: ");
            text.append(message.as_str());
            text.append(". Fetching info from docker hub.");
            (CacheStep::Finish(Ok(())), Some(Line { channel: Channel::Info, text }))
        },
        CacheEvent::Opened => (CacheStep::ReadMetadata, None),
        CacheEvent::MetadataFailed(message) => (CacheStep::Finish(Err(message)), None),
        CacheEvent::MetadataRead => (CacheStep::AskModification, None),
        CacheEvent::ModificationUnknown => (CacheStep::Finish(Ok(())), None),
        CacheEvent::ModificationKnown => (CacheStep::AskAge, None),
        CacheEvent::AgeFailed(message) => (CacheStep::Finish(Err(message)), None),
        CacheEvent::Aged(seconds) => {
            if seconds < DURATION_HOUR_AS_SECS {
                (CacheStep::Read, None)
            } else {
                let text: String =
                    "Cache file is older than 3600 seconds. Fetching new data instead.".to_owned();
                (CacheStep::Finish(Ok(())), Some(Line { channel: Channel::Info, text }))
            }
        },
        CacheEvent::ReadFailed(message) => (CacheStep::Finish(Err(message)), None),
        CacheEvent::Read => (CacheStep::Parse, None),
        CacheEvent::ParseFailed => {
            let text: String = "Could not read tags from file".to_owned();
            (CacheStep::Finish(Ok(())), Some(Line { channel: Channel::Error, text }))
        },
        CacheEvent::Parsed(read_tags) => {
            let kept: Vec<Tag> = copy_tags(&read_tags);
            *tags = read_tags;
            (CacheStep::Keep { full_name: full_name.to_owned(), tags: kept }, None)
        },
        CacheEvent::LockFailed(message) => (CacheStep::Finish(Err(message)), None),
        CacheEvent::Kept { is_new } => {
            if is_new {
                let text: String = "Populated cache successfully.".to_owned();
                (CacheStep::Finish(Ok(())), Some(Line { channel: Channel::Debug, text }))
            } else {
                (CacheStep::Finish(Ok(())), None)
            }
        },
    }
}

/// The directory of the cache files that cannot be created is told, with the reason; one that
/// can is not.
pub proof fn only_failures_to_create_the_directory_are_told(
    path: &str,
    error: &str,
    created: Option<Line>,
    failed: Option<Line>,
)
    requires
        call_ensures(create_cache_dir, (path, None::<&str>), created),
        call_ensures(create_cache_dir, (path, Some(error)), failed),
    ensures
        created is None,
        failed is Some,
        failed->0.channel == Channel::Stderr,
        failed->0.text@ == "Could not create temp dir: "@ + path@ + ". Error: "@ + error@,
{
}

/// An empty memory keeps no tags.
pub proof fn nothing_is_kept_at_first(cache: TagsCache, full_name: &str, found: Option<&Vec<Tag>>)
    requires
        call_ensures(TagsCache::new, (), cache),
        call_ensures(TagsCache::get, (&cache, full_name), found),
    ensures
        found is None,
{
}

/// Tags that are kept for an image are found for it, in place of any that were; for every
/// other image, the same is found as before. Whether there were none before is told.
pub proof fn kept_tags_are_found_again(
    cache: &mut TagsCache,
    full_name: &str,
    tags: Vec<Tag>,
    is_new: bool,
    other: &str,
    earlier: Option<&Vec<Tag>>,
    later: Option<&Vec<Tag>>,
)
    requires
        call_ensures(TagsCache::get, (&*old(cache), other), earlier),
        call_ensures(TagsCache::keep, (cache, full_name, tags), is_new),
        call_ensures(TagsCache::get, (&*final(cache), other), later),
    ensures
        other@ == full_name@ ==> {
            &&& later is Some
            &&& later->0@ == tags@
            &&& is_new <==> earlier is None
        },
        other@ != full_name@ ==> {
            &&& later is Some <==> earlier is Some
            &&& later is Some ==> later->0@ == earlier->0@
        },
{
}

/// A cache file is read exactly if it was changed less than an hour ago, and whether it is read
/// depends on nothing else; one that is older is told to be. Its tags at hand stay.
pub proof fn cache_files_are_good_for_an_hour(
    seconds: u64,
    full_name: &str,
    tags: &mut Vec<Tag>,
    cache_file_name: &str,
    next: (CacheStep, Option<Line>),
)
    requires
        call_ensures(
            extract_cache_from_file,
            (CacheEvent::Aged(seconds), full_name, tags, cache_file_name),
            next,
        ),
    ensures
        next.0 is Read <==> seconds < 60 * 60,
        seconds >= 60 * 60 ==> next.0 is Finish && next.0->Finish_0 is Ok,
        next.1 is Some <==> seconds >= 60 * 60,
        next.1 is Some ==> next.1->0.channel == Channel::Info && next.1->0.text@
            == "Cache file is older than 3600 seconds. Fetching new data instead."@,
        final(tags)@ == old(tags)@,
{
    let view = next.0@;
    assert(view == next_step(CacheEvent::Aged(seconds), full_name@));
    assert(next.0 is Read <==> view is Read);
    assert(next.0 is Finish <==> view is Finish);
    if next.0 is Finish {
        assert(view->Finish_0 is Ok <==> next.0->Finish_0 is Ok);
    }
}

/// The tags that a cache file holds replace those at hand, all of them, and are to be kept, all
/// of them, for the image that they were looked for. Nothing is said yet.
pub proof fn tags_of_a_cache_file_are_taken_whole(
    read: Vec<Tag>,
    full_name: &str,
    tags: &mut Vec<Tag>,
    cache_file_name: &str,
    next: (CacheStep, Option<Line>),
)
    requires
        call_ensures(
            extract_cache_from_file,
            (CacheEvent::Parsed(read), full_name, tags, cache_file_name),
            next,
        ),
    ensures
        final(tags)@ == read@,
        next.0 is Keep,
        next.0->full_name@ == full_name@,
        next.0->tags@ == read@,
        next.1 is None,
{
    let view = next.0@;
    assert(view == next_step(CacheEvent::Parsed(read), full_name@));
    assert(next.0 is Keep <==> view is Keep);
}

/// Whatever happens but that tags are read, the tags at hand stay, and none are to be kept.
pub proof fn tags_at_hand_stay_without_others(
    event: CacheEvent,
    full_name: &str,
    tags: &mut Vec<Tag>,
    cache_file_name: &str,
    next: (CacheStep, Option<Line>),
)
    requires
        call_ensures(
            extract_cache_from_file,
            (event, full_name, tags, cache_file_name),
            next,
        ),
        !(event is Parsed),
    ensures
        final(tags)@ == old(tags)@,
        !(next.0 is Keep),
{
    let view = next.0@;
    assert(view == next_step(event, full_name@));
    assert(next.0 is Keep <==> view is Keep);
}

/// A failure ends the reading of a cache file. Where the file is missing, its age is not known
/// or it holds no tags, the reading is no failure, for the tags can be fetched; where it
/// fails otherwise, it fails with the message that there was.
pub proof fn failures_end_the_reading(
    event: CacheEvent,
    full_name: &str,
    tags: &mut Vec<Tag>,
    cache_file_name: &str,
    next: (CacheStep, Option<Line>),
)
    requires
        call_ensures(
            extract_cache_from_file,
            (event, full_name, tags, cache_file_name),
            next,
        ),
    ensures
        event is OpenFailed || event is ModificationUnknown || event is ParseFailed || event is Kept
            ==> next.0 is Finish && next.0->Finish_0 is Ok,
        event is MetadataFailed ==> next.0 is Finish && next.0->Finish_0 is Err
            && next.0->Finish_0->Err_0@ == event->MetadataFailed_0@,
        event is AgeFailed ==> next.0 is Finish && next.0->Finish_0 is Err
            && next.0->Finish_0->Err_0@ == event->AgeFailed_0@,
        event is ReadFailed ==> next.0 is Finish && next.0->Finish_0 is Err
            && next.0->Finish_0->Err_0@ == event->ReadFailed_0@,
        event is LockFailed ==> next.0 is Finish && next.0->Finish_0 is Err
            && next.0->Finish_0->Err_0@ == event->LockFailed_0@,
        next.0 is Finish ==> event is OpenFailed || event is ModificationUnknown || event is Aged
            || event is ParseFailed || event is Kept || event is MetadataFailed
            || event is AgeFailed || event is ReadFailed || event is LockFailed,
{
    let view = next.0@;
    assert(view == next_step(event, full_name@));
    assert(next.0 is Finish <==> view is Finish);
    if next.0 is Finish {
        assert(view->Finish_0 is Ok <==> next.0->Finish_0 is Ok);
        if next.0->Finish_0 is Err {
            assert(view->Finish_0->Err_0 == next.0->Finish_0->Err_0@);
        }
    }
}

/// What succeeds is followed by the next step of the reading: the directory is tried, then the
/// file is opened, asked for what is known of it, for when it was changed and for its age, and
/// once it was read, its text is parsed.
pub proof fn successes_lead_on(
    event: CacheEvent,
    full_name: &str,
    tags: &mut Vec<Tag>,
    cache_file_name: &str,
    next: (CacheStep, Option<Line>),
)
    requires
        call_ensures(
            extract_cache_from_file,
            (event, full_name, tags, cache_file_name),
            next,
        ),
    ensures
        next.0 is CreateDir <==> event is Started,
        next.0 is Open <==> event is DirTried,
        next.0 is ReadMetadata <==> event is Opened,
        next.0 is AskModification <==> event is MetadataRead,
        next.0 is AskAge <==> event is ModificationKnown,
        next.0 is Read ==> event is Aged,
        next.0 is Parse <==> event is Read,
{
    let view = next.0@;
    assert(view == next_step(event, full_name@));
    assert(next.0 is CreateDir <==> view is CreateDir);
    assert(next.0 is Open <==> view is Open);
    assert(next.0 is ReadMetadata <==> view is ReadMetadata);
    assert(next.0 is AskModification <==> view is AskModification);
    assert(next.0 is AskAge <==> view is AskAge);
    assert(next.0 is Read <==> view is Read);
    assert(next.0 is Parse <==> view is Parse);
}

/// A cache file that is missing is told, with its name and the reason; so is one without tags,
/// one that is too old, and that tags were kept where there were none. Nothing else is told.
pub proof fn missing_cache_files_are_told(
    event: CacheEvent,
    full_name: &str,
    tags: &mut Vec<Tag>,
    cache_file_name: &str,
    next: (CacheStep, Option<Line>),
)
    requires
        call_ensures(
            extract_cache_from_file,
            (event, full_name, tags, cache_file_name),
            next,
        ),
    ensures
        event is OpenFailed ==> {
            &&& next.1 is Some
            &&& next.1->0.channel == Channel::Info
            &&& next.1->0.text@ == "No cache file exists under `"@ + cache_file_name@
                + "`. Error: "@ + event->OpenFailed_0@ + ". Fetching info from docker hub."@
        },
        event is ParseFailed ==> {
            &&& next.1 is Some
            &&& next.1->0.channel == Channel::Error
            &&& next.1->0.text@ == "Could not read tags from file"@
        },
        event is Kept ==> (next.1 is Some <==> event->is_new),
        event is Kept && event->is_new ==> {
            &&& next.1->0.channel == Channel::Debug
            &&& next.1->0.text@ == "Populated cache successfully."@
        },
        next.1 is Some ==> event is OpenFailed || event is Aged || event is ParseFailed
            || event is Kept,
{
}

} // verus!
