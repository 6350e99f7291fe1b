//! Looking up the tags of one image, and saying what was found.

use vstd::prelude::*;

use crate::cli::{CommonOptions, InputArguments, OverviewArguments};
use crate::image::{Tag, TagView};
use crate::line::{lines_on, Channel, Line, LineView};
use crate::strategy::{display_name, messages_tell_strategies_apart, Strategy};
use crate::tags::{
    at_place, is_sorting_of, optional_tag, optional_tags, sort_tags, sorting_is_unique,
    sorting_keeps_all_tags,
};
use crate::text::{trim_end, trim_end_stops, trimming_drops_only_the_end};

verus! {

/// The names under which an image is spoken of.
#[derive(Debug, PartialEq, Eq)]
pub struct ImageNames {
    /// The name with everything that it is made of, without the tag.
    pub full_name: String,
    /// The same, with the tag.
    pub full_tagged_name: String,
    /// The name as a dockerfile writes it, without the tag.
    pub dockerimage_name: String,
}

/// What `ImageNames` stand for.
#[verifier::ext_equal]
pub struct ImageNamesView {
    pub full_name: Seq<char>,
    pub full_tagged_name: Seq<char>,
    pub dockerimage_name: Seq<char>,
}

impl View for ImageNames {
    type V = ImageNamesView;

    open spec fn view(&self) -> ImageNamesView {
        ImageNamesView {
            full_name: self.full_name@,
            full_tagged_name: self.full_tagged_name@,
            dockerimage_name: self.dockerimage_name@,
        }
    }
}

/// What has been done of a look-up.
#[derive(Debug)]
pub enum LookUpEvent<Found> {
    /// Nothing yet.
    Started,
    /// The image was read.
    ImageParsed,
    /// The tags of the image were fetched.
    TagsFetched(Vec<Tag>),
    /// The tags were searched for what the strategies want.
    Searched { names: ImageNames, found: Found },
}

/// What is to be done next in a look-up.
#[derive(Debug)]
pub enum LookUpStep {
    /// Read the image.
    ParseImage(String),
    /// Fetch its tags, no more than a limit and only those for an architecture.
    FetchTags { tag_search_limit: Option<u16>, arch: Option<String> },
    /// Search the tags, which are in order, for what each strategy wants.
    Search { tags: Vec<Tag>, strategies: Vec<Strategy> },
    /// Say this. There is nothing more to be done.
    Say(Vec<Line>),
}

/// The request for the tags of an image that some options ask for.
pub open spec fn tag_request(common: CommonOptions) -> LookUpStep {
    LookUpStep::FetchTags { tag_search_limit: common.tag_search_limit, arch: common.arch }
}

/// The image with the tag that was found, to be used as it is: full stops that the tag ends
/// in are left out.
pub open spec fn tagged_image(names: ImageNamesView, found: TagView) -> Seq<char> {
    names.dockerimage_name + ":"@ + trim_end(found.text, '.')
}

/// What the log says of the look-up of one image.
pub open spec fn input_log_line(names: ImageNamesView, found: Option<TagView>) -> LineView {
    LineView {
        channel: Channel::Info,
        text: match found {
            Some(tag) => "===> Candidate tag: "@ + names.full_name + ":"@ + tag.text + " (from: "@
                + names.full_tagged_name + ")"@,
            None => "===> No candidate found."@,
        },
    }
}

/// The answer to a quiet look-up of one image: the image with its new tag, or an empty line.
pub open spec fn input_answer(names: ImageNamesView, found: Option<TagView>) -> LineView {
    LineView {
        channel: Channel::Stdout,
        text: match found {
            Some(tag) => tagged_image(names, tag),
            None => ""@,
        },
    }
}

/// All that is said of the look-up of one image.
pub open spec fn input_lines(
    quiet: bool,
    names: ImageNamesView,
    found: Option<TagView>,
) -> Seq<LineView> {
    if quiet {
        seq![input_log_line(names, found), input_answer(names, found)]
    } else {
        seq![input_log_line(names, found)]
    }
}

/// The strategies of an overview, in the order in which they are shown.
pub open spec fn overview_strategy(i: int) -> Strategy {
    if i == 0 {
        Strategy::NextPatch
    } else if i == 1 {
        Strategy::LatestPatch
    } else if i == 2 {
        Strategy::NextMinor
    } else if i == 3 {
        Strategy::LatestMinor
    } else if i == 4 {
        Strategy::NextMajor
    } else if i == 5 {
        Strategy::LatestMajor
    } else {
        Strategy::Latest
    }
}

/// The first line of an overview.
pub open spec fn overview_header(quiet: bool, names: ImageNamesView) -> LineView {
    LineView {
        channel: if quiet {
            Channel::Stdout
        } else {
            Channel::Info
        },
        text: "Results for:\t"@ + names.full_tagged_name,
    }
}

/// What an overview says of one strategy.
pub open spec fn overview_line(
    quiet: bool,
    names: ImageNamesView,
    strategy: Strategy,
    found: Option<TagView>,
) -> Option<LineView> {
    match found {
        Some(tag) => if quiet {
            Some(
                LineView {
                    channel: Channel::Stdout,
                    text: display_name(strategy) + ":\t"@ + tagged_image(names, tag),
                },
            )
        } else {
            Some(
                LineView {
                    channel: Channel::Info,
                    text: "===> "@ + display_name(strategy) + ":\t"@ + names.dockerimage_name
                        + ":"@ + tag.text,
                },
            )
        },
        None => if quiet {
            None
        } else {
            Some(
                LineView {
                    channel: Channel::Info,
                    text: "===> No candidate found for "@ + display_name(strategy) + "."@,
                },
            )
        },
    }
}

/// All that an overview says, when `found` holds what was found for its first strategies.
pub open spec fn overview_lines(
    quiet: bool,
    names: ImageNamesView,
    found: Seq<Option<TagView>>,
) -> Seq<LineView>
    decreases found.len(),
{
    if found.len() == 0 {
        seq![overview_header(quiet, names)]
    } else {
        let before = overview_lines(quiet, names, found.drop_last());
        match overview_line(quiet, names, overview_strategy(found.len() - 1), found.last()) {
            Some(line) => before.push(line),
            None => before,
        }
    }
}

/// A quiet look-up answers with one line on standard output; one that is not quiet says
/// nothing there.
pub proof fn quiet_look_up_answers_once(
    quiet: bool,
    names: ImageNamesView,
    found: Option<TagView>,
)
    ensures
        lines_on(input_lines(quiet, names, found), Channel::Stdout) == (if quiet {
            1nat
        } else {
            0nat
        }),
{
    reveal_with_fuel(Seq::filter, 3);
    let on = |line: LineView| line.channel == Channel::Stdout;
    let lines = input_lines(quiet, names, found);
    let log = seq![input_log_line(names, found)];
    assert(log.drop_last() == Seq::<LineView>::empty());
    assert(log.filter(on).len() == 0);
    if quiet {
        assert(lines.drop_last() == log);
    }
}

/// The answer to a quiet look-up is empty exactly if nothing was found.
pub proof fn answer_is_empty_without_candidate(names: ImageNamesView, found: Option<TagView>)
    ensures
        input_answer(names, found).text.len() == 0 <==> found is None,
{
    reveal_strlit("");
    reveal_strlit(":");
}

/// No answer ends in a full stop.
pub proof fn answer_ends_in_no_stop(names: ImageNamesView, found: Option<TagView>)
    ensures
        ({
            let text = input_answer(names, found).text;
            text.len() > 0 ==> text.last() != '.'
        }),
{
    reveal_strlit("");
    reveal_strlit(":");
    if let Some(tag) = found {
        lemma_trimmed_ends_otherwise(tag.text, '.');
        let trimmed = trim_end(tag.text, '.');
        let front = names.dockerimage_name + ":"@;
        assert(tagged_image(names, tag) == front + trimmed);
        if trimmed.len() == 0 {
            assert(tagged_image(names, tag).last() == ':');
        } else {
            assert(tagged_image(names, tag).last() == trimmed.last());
        }
    }
}

proof fn lemma_trimmed_ends_otherwise(text: Seq<char>, c: char)
    ensures
        trim_end(text, c).len() > 0 ==> trim_end(text, c).last() != c,
    decreases text.len(),
{
    if text.len() > 0 && text.last() == c {
        lemma_trimmed_ends_otherwise(text.drop_last(), c);
    }
}

/// An overview that is not quiet has a line for each strategy behind its first; a quiet one
/// has a line for each strategy for which something was found.
pub proof fn overview_has_a_line_for_each_strategy(
    quiet: bool,
    names: ImageNamesView,
    found: Seq<Option<TagView>>,
)
    ensures
        overview_lines(quiet, names, found).len() == 1 + (if quiet {
            found.filter(|tag: Option<TagView>| tag is Some).len()
        } else {
            found.len()
        }),
    decreases found.len(),
{
    reveal(Seq::filter);
    if found.len() > 0 {
        overview_has_a_line_for_each_strategy(quiet, names, found.drop_last());
    }
}

/// All lines of an overview go to the same place: standard output if it is quiet, and the
/// log if not.
pub proof fn overview_keeps_to_one_channel(
    quiet: bool,
    names: ImageNamesView,
    found: Seq<Option<TagView>>,
)
    ensures
        forall|i: int|
            0 <= i < overview_lines(quiet, names, found).len() ==> (#[trigger] overview_lines(
                quiet,
                names,
                found,
            )[i]).channel == (if quiet {
                Channel::Stdout
            } else {
                Channel::Info
            }),
    decreases found.len(),
{
    if found.len() > 0 {
        overview_keeps_to_one_channel(quiet, names, found.drop_last());
    }
}

/// Every strategy has its place in an overview.
pub proof fn overview_covers_every_strategy(strategy: Strategy)
    ensures
        exists|i: int| 0 <= i < 7 && #[trigger] overview_strategy(i) == strategy,
{
    let i: int = match strategy {
        Strategy::NextPatch => 0,
        Strategy::LatestPatch => 1,
        Strategy::NextMinor => 2,
        Strategy::LatestMinor => 3,
        Strategy::NextMajor => 4,
        Strategy::LatestMajor => 5,
        Strategy::Latest => 6,
    };
    assert(overview_strategy(i) == strategy);
}

/// No strategy has two places in an overview.
pub proof fn overview_shows_no_strategy_twice(i: int, j: int)
    requires
        0 <= i < j < 7,
    ensures
        overview_strategy(i) != overview_strategy(j),
{
}

/// What there is to say of a strategy, an overview says.
pub proof fn overview_reports_each_strategy(
    quiet: bool,
    names: ImageNamesView,
    found: Seq<Option<TagView>>,
    i: int,
)
    requires
        0 <= i < found.len(),
        overview_line(quiet, names, overview_strategy(i), found[i]) is Some,
    ensures
        overview_lines(quiet, names, found).contains(
            overview_line(quiet, names, overview_strategy(i), found[i])->0,
        ),
    decreases found.len(),
{
    let line = overview_line(quiet, names, overview_strategy(i), found[i])->0;
    let lines = overview_lines(quiet, names, found);
    let before = overview_lines(quiet, names, found.drop_last());
    if i == found.len() - 1 {
        assert(lines[before.len() as int] == line);
    } else {
        overview_reports_each_strategy(quiet, names, found.drop_last(), i);
        let k = choose|k: int| 0 <= k < before.len() && before[k] == line;
        assert(lines[k] == line);
    }
}

/// The image with a tag, as `tagged_image` says.
fn image_with_tag(names: &ImageNames, found: &Tag) -> (text: String)
    ensures
        text@ == tagged_image(names@, found@),
{
    let mut text: String = names.dockerimage_name.clone();
    text.append(":");
    text.append(trim_end_stops(found.text.as_str()));
    text
}

/// What is said of the tag that was found for an image, or of there being none.
fn input_report(quiet: bool, names: &ImageNames, found: &Option<Tag>) -> (lines: Vec<Line>)
    ensures
        lines.deep_view() == input_lines(quiet, names@, optional_tag(*found)),
{
    let mut lines: Vec<Line> = Vec::new();
    match found {
        Some(found_tag) => {
            let mut text: String = "===> Candidate tag: ".to_owned();
            text.append(names.full_name.as_str());
            text.append(":");
            text.append(found_tag.text.as_str());
            text.append(" (from: ");
            text.append(names.full_tagged_name.as_str());
            text.append(")");
            lines.push(Line { channel: Channel::Info, text });
            if quiet {
                let answer: String = image_with_tag(names, found_tag);
                lines.push(Line { channel: Channel::Stdout, text: answer });
            }
        },
        None => {
            let text: String = "===> No candidate found.".to_owned();
            lines.push(Line { channel: Channel::Info, text });
            if quiet {
                lines.push(Line { channel: Channel::Stdout, text: "".to_owned() });
            }
        },
    }
    assert(lines.deep_view() =~= input_lines(quiet, names@, optional_tag(*found)));
    lines
}

/// The strategies for which an overview wants a tag.
fn overview_strategies() -> (strategies: Vec<Strategy>)
    ensures
        strategies@ == Seq::new(7, |i: int| overview_strategy(i)),
{
    let strategies: Vec<Strategy> = vec![
        Strategy::NextPatch,
        Strategy::LatestPatch,
        Strategy::NextMinor,
        Strategy::LatestMinor,
        Strategy::NextMajor,
        Strategy::LatestMajor,
        Strategy::Latest,
    ];
    assert(strategies@ =~= Seq::new(7, |i: int| overview_strategy(i)));
    strategies
}

/// What is said of the tags that were found for an image, one for each strategy of an
/// overview.
fn overview_report(quiet: bool, names: &ImageNames, found: &[Option<Tag>; 7]) -> (lines: Vec<Line>)
    ensures
        lines.deep_view() == overview_lines(quiet, names@, optional_tags(found@)),
{
    let ghost tags = optional_tags(found@);
    let mut lines: Vec<Line> = Vec::new();
    let mut header: String = "Results for:\t".to_owned();
    header.append(names.full_tagged_name.as_str());
    let channel: Channel = if quiet {
        Channel::Stdout
    } else {
        Channel::Info
    };
    lines.push(Line { channel, text: header });
    let strategies: Vec<Strategy> = overview_strategies();
    let mut i: usize = 0;
    assert(lines.deep_view() =~= overview_lines(quiet, names@, tags.take(0)));
    while i < 7
        invariant
            i <= 7,
            tags == optional_tags(found@),
            tags.len() == 7,
            strategies@ == Seq::new(7, |j: int| overview_strategy(j)),
            lines.deep_view() == overview_lines(quiet, names@, tags.take(i as int)),
        decreases 7 - i,
    {
        let ghost before = lines.deep_view();
        let strategy: Strategy = strategies[i];
        assert(strategy == overview_strategy(i as int));
        assert(tags.take(i + 1).drop_last() == tags.take(i as int));
        assert(tags.take(i + 1).last() == optional_tag(found@[i as int]));
        match &found[i] {
            Some(found_tag) => {
                if quiet {
                    let mut text: String = strategy.to_string();
                    text.append(":\t");
                    text.append(image_with_tag(names, found_tag).as_str());
                    lines.push(Line { channel: Channel::Stdout, text });
                } else {
                    let mut text: String = "===> ".to_owned();
                    text.append(strategy.to_string().as_str());
                    text.append(":\t");
                    text.append(names.dockerimage_name.as_str());
                    text.append(":");
                    text.append(found_tag.text.as_str());
                    lines.push(Line { channel: Channel::Info, text });
                }
                assert(lines.deep_view() =~= before.push(lines@.last()@));
            },
            None => {
                if !quiet {
                    let mut text: String = "===> No candidate found for ".to_owned();
                    text.append(strategy.to_string().as_str());
                    text.append(".");
                    lines.push(Line { channel: Channel::Info, text });
                    assert(lines.deep_view() =~= before.push(lines@.last()@));
                }
            },
        }
        i = i + 1;
    }
    assert(tags.take(7) == tags);
    lines
}

/// Takes the look-up of the image of `input_mode` one step on.
pub fn handle_input(
    input_mode: &InputArguments,
    event: LookUpEvent<Option<Tag>>,
) -> (step: LookUpStep)
    ensures
        match event {
            LookUpEvent::Started => step is ParseImage && step->ParseImage_0@ == input_mode.input@,
            LookUpEvent::ImageParsed => step == tag_request(input_mode.common),
            LookUpEvent::TagsFetched(tags) => {
                &&& step is Search
                &&& is_sorting_of(step->tags.deep_view(), tags.deep_view())
                &&& step->strategies@ == seq![input_mode.strat]
            },
            LookUpEvent::Searched { names, found } => {
                &&& step is Say
                &&& step->Say_0.deep_view() == input_lines(
                    input_mode.common.quiet,
                    names@,
                    optional_tag(found),
                )
            },
        },
{
    match event {
        LookUpEvent::Started => LookUpStep::ParseImage(input_mode.input.clone()),
        LookUpEvent::ImageParsed => LookUpStep::FetchTags {
            tag_search_limit: input_mode.common.tag_search_limit,
            arch: input_mode.common.arch.clone(),
        },
        LookUpEvent::TagsFetched(tags) => {
            let mut tags: Vec<Tag> = tags;
            sort_tags(&mut tags);
            let strategies: Vec<Strategy> = vec![input_mode.strat];
            assert(strategies@ =~= seq![input_mode.strat]);
            LookUpStep::Search { tags, strategies }
        },
        LookUpEvent::Searched { names, found } => LookUpStep::Say(
            input_report(input_mode.common.quiet, &names, &found),
        ),
    }
}

/// Takes the overview of the image of `overview_mode` one step on. The tags that were found
/// are those for the strategies that the search was asked for, one for each.
pub fn handle_overview(
    overview_mode: &OverviewArguments,
    event: LookUpEvent<[Option<Tag>; 7]>,
) -> (step: LookUpStep)
    ensures
        match event {
            LookUpEvent::Started => step is ParseImage && step->ParseImage_0@
                == overview_mode.input@,
            LookUpEvent::ImageParsed => step == tag_request(overview_mode.common),
            LookUpEvent::TagsFetched(tags) => {
                &&& step is Search
                &&& is_sorting_of(step->tags.deep_view(), tags.deep_view())
                &&& step->strategies@ == Seq::new(7, |i: int| overview_strategy(i))
            },
            LookUpEvent::Searched { names, found } => {
                &&& step is Say
                &&& step->Say_0.deep_view() == overview_lines(
                    overview_mode.common.quiet,
                    names@,
                    optional_tags(found@),
                )
            },
        },
{
    match event {
        LookUpEvent::Started => LookUpStep::ParseImage(overview_mode.input.clone()),
        LookUpEvent::ImageParsed => LookUpStep::FetchTags {
            tag_search_limit: overview_mode.common.tag_search_limit,
            arch: overview_mode.common.arch.clone(),
        },
        LookUpEvent::TagsFetched(tags) => {
            let mut tags: Vec<Tag> = tags;
            sort_tags(&mut tags);
            LookUpStep::Search { tags, strategies: overview_strategies() }
        },
        LookUpEvent::Searched { names, found } => LookUpStep::Say(
            overview_report(overview_mode.common.quiet, &names, &found),
        ),
    }
}

/// A look-up and an overview read the image that they are given, fetch its tags within the
/// limit and for the architecture that they are given, and hand all tags that were fetched to
/// the search, the oldest first; tags that are as old as each other keep their order.
pub proof fn look_ups_search_what_was_asked_for(
    input_mode: InputArguments,
    overview_mode: OverviewArguments,
    tags: Vec<Tag>,
    input_steps: (LookUpStep, LookUpStep, LookUpStep),
    overview_steps: (LookUpStep, LookUpStep, LookUpStep),
    order: u64,
)
    requires
        call_ensures(handle_input, (&input_mode, LookUpEvent::Started), input_steps.0),
        call_ensures(handle_input, (&input_mode, LookUpEvent::ImageParsed), input_steps.1),
        call_ensures(handle_input, (&input_mode, LookUpEvent::TagsFetched(tags)), input_steps.2),
        call_ensures(handle_overview, (&overview_mode, LookUpEvent::Started), overview_steps.0),
        call_ensures(handle_overview, (&overview_mode, LookUpEvent::ImageParsed), overview_steps.1),
        call_ensures(
            handle_overview,
            (&overview_mode, LookUpEvent::TagsFetched(tags)),
            overview_steps.2,
        ),
    ensures
        input_steps.0 is ParseImage && input_steps.0->ParseImage_0@ == input_mode.input@,
        overview_steps.0 is ParseImage && overview_steps.0->ParseImage_0@ == overview_mode.input@,
        ({
            let step = input_steps.1;
            &&& step is FetchTags
            &&& step->tag_search_limit == input_mode.common.tag_search_limit
            &&& step->arch == input_mode.common.arch
        }),
        ({
            let step = overview_steps.1;
            &&& step is FetchTags
            &&& step->tag_search_limit == overview_mode.common.tag_search_limit
            &&& step->arch == overview_mode.common.arch
        }),
        input_steps.2 is Search && input_steps.2->strategies@ == seq![input_mode.strat],
        overview_steps.2 is Search && overview_steps.2->strategies@ == seq![
            Strategy::NextPatch,
            Strategy::LatestPatch,
            Strategy::NextMinor,
            Strategy::LatestMinor,
            Strategy::NextMajor,
            Strategy::LatestMajor,
            Strategy::Latest,
        ],
        forall|i: int, j: int|
            0 <= i < j < input_steps.2->tags@.len() ==> input_steps.2->tags@[i].order
                <= input_steps.2->tags@[j].order,
        input_steps.2->tags.deep_view().filter(|tag: TagView| tag.order == order)
            == tags.deep_view().filter(|tag: TagView| tag.order == order),
        input_steps.2->tags.deep_view().to_multiset() == tags.deep_view().to_multiset(),
        overview_steps.2->tags.deep_view() == input_steps.2->tags.deep_view(),
{
    let searched = input_steps.2->tags.deep_view();
    sorting_keeps_all_tags(searched, tags.deep_view());
    sorting_is_unique(overview_steps.2->tags.deep_view(), searched, tags.deep_view());
    assert(at_place(searched, order) == at_place(tags.deep_view(), order));
    assert(overview_steps.2->strategies@ =~= seq![
        Strategy::NextPatch,
        Strategy::LatestPatch,
        Strategy::NextMinor,
        Strategy::LatestMinor,
        Strategy::NextMajor,
        Strategy::LatestMajor,
        Strategy::Latest,
    ]);
    assert forall|i: int, j: int| 0 <= i < j < input_steps.2->tags@.len() implies input_steps.2->tags@[i].order
        <= input_steps.2->tags@[j].order by {
        assert(searched[i].order <= searched[j].order);
    }
}

/// A look-up tells the candidate in the log: the full name of the image, the whole text of the
/// tag that was found, and the name with the tag that the image had. Where none was found, it
/// tells that. It says nothing else there, quiet or not.
pub proof fn look_up_logs_the_candidate(
    input_mode: InputArguments,
    names: ImageNames,
    found: Option<Tag>,
    step: LookUpStep,
)
    requires
        call_ensures(handle_input, (&input_mode, LookUpEvent::Searched { names, found }), step),
    ensures
        step is Say,
        step->Say_0@.len() == (if input_mode.common.quiet {
            2nat
        } else {
            1nat
        }),
        step->Say_0@[0].channel == Channel::Info,
        found is None ==> step->Say_0@[0].text@ == "===> No candidate found."@,
        found is Some ==> step->Say_0@[0].text@ == "===> Candidate tag: "@ + names.full_name@
            + ":"@ + found->0.text@ + " (from: "@ + names.full_tagged_name@ + ")"@,
{
    let lines = step->Say_0.deep_view();
    assert(lines == input_lines(input_mode.common.quiet, names@, optional_tag(found)));
    assert(lines[0] == step->Say_0@[0]@);
}

/// The answer to a quiet look-up is the image, a colon and the text of the tag that was found,
/// up to the last character that is no full stop. So it is never cut but at full stops at the
/// end, and a tag that ends in none is told whole.
pub proof fn quiet_answer_is_the_image_with_the_whole_tag(
    input_mode: InputArguments,
    names: ImageNames,
    found: Option<Tag>,
    step: LookUpStep,
)
    requires
        call_ensures(handle_input, (&input_mode, LookUpEvent::Searched { names, found }), step),
        input_mode.common.quiet,
    ensures
        step is Say && step->Say_0@.len() == 2,
        step->Say_0@[1].channel == Channel::Stdout,
        found is None ==> step->Say_0@[1].text@.len() == 0,
        found is Some ==> {
            let answer = step->Say_0@[1].text@;
            let whole = names.dockerimage_name@ + seq![':'] + found->0.text@;
            &&& names.dockerimage_name@.len() < answer.len() <= whole.len()
            &&& forall|i: int| 0 <= i < answer.len() ==> answer[i] == #[trigger] whole[i]
            &&& forall|i: int| answer.len() <= i < whole.len() ==> #[trigger] whole[i] == '.'
            &&& answer[answer.len() - 1] != '.'
        },
        found is Some && found->0.text@.len() > 0 && found->0.text@[found->0.text@.len() - 1] != '.'
            ==> step->Say_0@[1].text@ == names.dockerimage_name@ + seq![':'] + found->0.text@,
{
    reveal_strlit("");
    reveal_strlit(":");
    let lines = step->Say_0.deep_view();
    assert(lines == input_lines(input_mode.common.quiet, names@, optional_tag(found)));
    assert(lines[1] == step->Say_0@[1]@);
    if let Some(tag) = found {
        lemma_tagged_image(names@, tag@);
    }
}

/// The image with a tag, by its characters.
proof fn lemma_tagged_image(names: ImageNamesView, found: TagView)
    ensures
        ({
            let text = tagged_image(names, found);
            let whole = names.dockerimage_name + seq![':'] + found.text;
            &&& names.dockerimage_name.len() < text.len() <= whole.len()
            &&& forall|i: int| 0 <= i < text.len() ==> text[i] == #[trigger] whole[i]
            &&& forall|i: int| text.len() <= i < whole.len() ==> #[trigger] whole[i] == '.'
            &&& text[text.len() - 1] != '.'
            &&& found.text.len() > 0 && found.text[found.text.len() - 1] != '.' ==> text =~= whole
        }),
{
    reveal_strlit(":");
    trimming_drops_only_the_end(found.text, '.');
    let text = tagged_image(names, found);
    let whole = names.dockerimage_name + seq![':'] + found.text;
    let start = names.dockerimage_name.len() + 1;
    assert(forall|i: int| start <= i < whole.len() ==> #[trigger] whole[i] == found.text[i - start]);
    assert(forall|i: int|
        start <= i < text.len() ==> #[trigger] text[i] == trim_end(found.text, '.')[i - start]);
}

/// The line of an overview for the strategy at a place comes behind the first line and those
/// for the strategies before it.
proof fn lemma_overview_line(
    quiet: bool,
    names: ImageNamesView,
    found: Seq<Option<TagView>>,
    i: int,
)
    requires
        0 <= i < found.len(),
        !quiet || found[i] is Some,
    ensures
        ({
            let lines = overview_lines(quiet, names, found);
            let before = if quiet {
                found.take(i).filter(|tag: Option<TagView>| tag is Some).len() as int
            } else {
                i
            };
            &&& 0 <= before
            &&& before + 1 < lines.len()
            &&& Some(lines[before + 1]) == overview_line(
                quiet,
                names,
                overview_strategy(i),
                found[i],
            )
        }),
    decreases found.len(),
{
    let rest = found.drop_last();
    if i == found.len() - 1 {
        overview_has_a_line_for_each_strategy(quiet, names, rest);
        assert(found.take(i) == rest);
    } else {
        lemma_overview_line(quiet, names, rest, i);
        assert(found.take(i) == rest.take(i));
    }
}

/// An overview begins with the name of the image with its tag, and then tells of the
/// strategies in the order in which they were searched for. A tag that was found is told
/// behind the name of the strategy that it was searched with: quietly, up to its last
/// character that is no full stop, and else whole. A strategy without a tag is named where it
/// is not quiet. Nothing else is said.
pub proof fn overview_names_the_strategy_of_every_tag(
    overview_mode: OverviewArguments,
    tags: Vec<Tag>,
    search: LookUpStep,
    names: ImageNames,
    found: [Option<Tag>; 7],
    step: LookUpStep,
    i: int,
    name: String,
)
    requires
        call_ensures(handle_overview, (&overview_mode, LookUpEvent::TagsFetched(tags)), search),
        call_ensures(handle_overview, (&overview_mode, LookUpEvent::Searched { names, found }), step),
        0 <= i < 7,
        call_ensures(Strategy::to_string, (&search->strategies@[i],), name),
    ensures
        step is Say,
        ({
            let quiet = overview_mode.common.quiet;
            let candidates = optional_tags(found@).filter(
                |tag: Option<TagView>| tag is Some,
            ).len() as int;
            let earlier = optional_tags(found@).take(i).filter(
                |tag: Option<TagView>| tag is Some,
            ).len() as int;
            let lines = step->Say_0@;
            let line = lines[if quiet {
                1 + earlier
            } else {
                1 + i
            }];
            &&& lines.len() == (if quiet {
                1 + candidates
            } else {
                8
            })
            &&& forall|k: int|
                0 <= k < lines.len() ==> (#[trigger] lines[k]).channel == (if quiet {
                    Channel::Stdout
                } else {
                    Channel::Info
                })
            &&& lines[0].text@ == "Results for:\t"@ + names.full_tagged_name@
            &&& !quiet && found@[i] is Some ==> line.text@ == "===> "@ + name@ + ":\t"@
                + names.dockerimage_name@ + ":"@ + found@[i]->0.text@
            &&& !quiet && found@[i] is None ==> line.text@ == "===> No candidate found for "@
                + name@ + "."@
            &&& quiet && found@[i] is Some ==> {
                let whole = name@ + ":\t"@ + names.dockerimage_name@ + ":"@ + found@[i]->0.text@;
                let shortest = name@.len() + 2 + names.dockerimage_name@.len();
                &&& 1 + earlier < lines.len()
                &&& shortest < line.text@.len() <= whole.len()
                &&& forall|k: int|
                    0 <= k < line.text@.len() ==> line.text@[k] == #[trigger] whole[k]
                &&& forall|k: int|
                    line.text@.len() <= k < whole.len() ==> #[trigger] whole[k] == '.'
                &&& line.text@[line.text@.len() - 1] != '.'
            }
        }),
{
    let quiet = overview_mode.common.quiet;
    let all = optional_tags(found@);
    let lines = step->Say_0.deep_view();
    overview_has_a_line_for_each_strategy(quiet, names@, all);
    overview_keeps_to_one_channel(quiet, names@, all);
    lemma_overview_begins(quiet, names@, all);
    assert(forall|k: int| 0 <= k < lines.len() ==> lines[k] == (#[trigger] step->Say_0@[k])@);
    assert(all.len() == 7);
    assert(all[i] == optional_tag(found@[i]));
    if !quiet || found@[i] is Some {
        lemma_overview_line(quiet, names@, all, i);
    }
    if quiet && found@[i] is Some {
        reveal_strlit(":");
        reveal_strlit(":\t");
        let tag = found@[i]->0@;
        lemma_tagged_image(names@, tag);
        let front = name@ + ":\t"@;
        let image = tagged_image(names@, tag);
        let whole = name@ + ":\t"@ + names.dockerimage_name@ + ":"@ + tag.text;
        assert(whole =~= front + (names.dockerimage_name@ + seq![':'] + tag.text));
        assert(forall|k: int|
            front.len() <= k < whole.len() ==> #[trigger] whole[k] == (names.dockerimage_name@
                + seq![':'] + tag.text)[k - front.len()]);
        assert(forall|k: int|
            front.len() <= k < (front + image).len() ==> #[trigger] (front + image)[k] == image[k
                - front.len()]);
    }
}

/// An overview begins with its first line.
proof fn lemma_overview_begins(quiet: bool, names: ImageNamesView, found: Seq<Option<TagView>>)
    ensures
        overview_lines(quiet, names, found).len() > 0,
        overview_lines(quiet, names, found)[0] == overview_header(quiet, names),
    decreases found.len(),
{
    if found.len() > 0 {
        lemma_overview_begins(quiet, names, found.drop_last());
    }
}

/// The lines of an overview for two strategies begin differently: what is told of one is not
/// told under the name of the other.
pub proof fn overview_tells_strategies_apart(
    overview_mode: OverviewArguments,
    tags: Vec<Tag>,
    search: LookUpStep,
    names: ImageNames,
    found: [Option<Tag>; 7],
    step: LookUpStep,
    i: int,
    j: int,
    other: String,
)
    requires
        call_ensures(handle_overview, (&overview_mode, LookUpEvent::TagsFetched(tags)), search),
        call_ensures(handle_overview, (&overview_mode, LookUpEvent::Searched { names, found }), step),
        !overview_mode.common.quiet,
        0 <= i < 7,
        0 <= j < 7,
        i != j,
        found@[i] is Some,
        call_ensures(Strategy::to_string, (&search->strategies@[j],), other),
    ensures
        step is Say && step->Say_0@.len() == 8,
        !("===> "@ + other@ + ":"@).is_prefix_of(step->Say_0@[i + 1].text@),
{
    let all = optional_tags(found@);
    let lines = step->Say_0.deep_view();
    let strategy = overview_strategy(i);
    overview_has_a_line_for_each_strategy(false, names@, all);
    lemma_overview_line(false, names@, all, i);
    assert(all[i] == optional_tag(found@[i]));
    assert(lines[i + 1] == step->Say_0@[i + 1]@);
    let text = lines[i + 1].text;
    let mark = "===> "@;
    if (mark + other@ + ":"@).is_prefix_of(text) {
        reveal_strlit(":");
        reveal_strlit(":\t");
        let behind = text.skip(mark.len() as int);
        let named = display_name(strategy) + ":"@;
        let misnamed = other@ + ":"@;
        assert(behind.take(named.len() as int) =~= named);
        assert(mark + other@ + ":"@ =~= mark + misnamed);
        assert forall|k: int| 0 <= k < misnamed.len() implies #[trigger] misnamed[k] == behind[k] by {
            assert((mark + misnamed)[mark.len() + k] == misnamed[k]);
            assert(text.take((mark + misnamed).len() as int)[mark.len() + k] == text[mark.len()
                + k]);
        }
        assert(behind.take(misnamed.len() as int) =~= misnamed);
        messages_tell_strategies_apart(strategy, overview_strategy(j), behind);
    }
}

} // verus!
