//! How far an update may go, and the names under which a user asks for it.

use vstd::prelude::*;

use crate::text::{ascii_lower, ascii_lowercase};

verus! {

/// Which newer tag of an image is wanted.
#[derive(Clone, Copy, Debug, PartialEq, Eq, Structural)]
pub enum Strategy {
    Latest,
    NextPatch,
    LatestPatch,
    NextMinor,
    LatestMinor,
    NextMajor,
    LatestMajor,
}

/// clap's string for a value of an argument.
#[verifier::external_type_specification]
#[verifier::external_body]
pub struct ExOsStr(clap::builder::OsStr);

/// The characters that a clap string holds.
pub uninterp spec fn os_str_text(value: clap::builder::OsStr) -> Seq<char>;

/// The name of a strategy on the command line.
pub open spec fn argument_name(strategy: Strategy) -> Seq<char> {
    match strategy {
        Strategy::Latest => "latest"@,
        Strategy::NextPatch => "next-patch"@,
        Strategy::LatestPatch => "latest-patch"@,
        Strategy::NextMinor => "next-minor"@,
        Strategy::LatestMinor => "latest-minor"@,
        Strategy::NextMajor => "next-major"@,
        Strategy::LatestMajor => "latest-major"@,
    }
}

/// The name of a strategy in a message.
pub open spec fn display_name(strategy: Strategy) -> Seq<char> {
    match strategy {
        Strategy::Latest => "latest"@,
        Strategy::NextPatch => "next patch"@,
        Strategy::LatestPatch => "latest patch"@,
        Strategy::NextMinor => "next minor"@,
        Strategy::LatestMinor => "latest minor"@,
        Strategy::NextMajor => "next major"@,
        Strategy::LatestMajor => "latest major"@,
    }
}

/// Whether a user who wrote `value` meant `name`.
pub open spec fn value_matches(name: Seq<char>, value: Seq<char>, ignore_case: bool) -> bool {
    if ignore_case {
        ascii_lowercase(name) == ascii_lowercase(value)
    } else {
        name == value
    }
}

/// `clap::builder::PossibleValue::matches` on a possible value that has `name` and no alias:
/// the value is taken if it is the name, or, where the case is ignored, if the two are equal
/// up to the case of ASCII letters. (So clap compares when it is built without its `unicode`
/// feature.)
#[verifier::external_body]
fn possible_value_matches(name: &'static str, value: &str, ignore_case: bool) -> (yes: bool)
    ensures
        yes == value_matches(name@, value@, ignore_case),
{
    clap::builder::PossibleValue::new(name).matches(value, ignore_case)
}

/// `From<&'static str>` of `clap::builder::OsStr`: the string holds the characters of `text`.
#[verifier::external_body]
fn os_str(text: &'static str) -> (value: clap::builder::OsStr)
    ensures
        os_str_text(value) == text@,
{
    clap::builder::OsStr::from(text)
}

/// No text names two strategies, whether or not the case of its letters counts.
pub proof fn names_tell_strategies_apart(a: Strategy, b: Strategy, value: Seq<char>, ignore_case: bool)
    requires
        value_matches(argument_name(a), value, ignore_case),
        value_matches(argument_name(b), value, ignore_case),
    ensures
        a == b,
{
    let lower_a = ascii_lowercase(argument_name(a));
    let lower_b = ascii_lowercase(argument_name(b));
    assert(lower_a == lower_b);
    reveal_strlit("latest");
    reveal_strlit("next-patch");
    reveal_strlit("latest-patch");
    reveal_strlit("next-minor");
    reveal_strlit("latest-minor");
    reveal_strlit("next-major");
    reveal_strlit("latest-major");
    assert(lower_a.len() == argument_name(a).len());
    assert(lower_b.len() == argument_name(b).len());
    assert(forall|i: int|
        0 <= i < lower_a.len() ==> lower_a[i] == #[trigger] argument_name(a)[i]);
    assert(forall|i: int|
        0 <= i < lower_b.len() ==> lower_b[i] == #[trigger] argument_name(b)[i]);
    if lower_a.len() == 10 {
        assert(argument_name(a)[5] == argument_name(b)[5]);
        assert(argument_name(a)[6] == argument_name(b)[6]);
    } else if lower_a.len() == 12 {
        assert(argument_name(a)[7] == argument_name(b)[7]);
        assert(argument_name(a)[8] == argument_name(b)[8]);
    }
}

/// A strategy is asked for by its own name, in any case where the case is ignored.
pub proof fn name_asks_for_its_strategy(strategy: Strategy, value: Seq<char>, ignore_case: bool)
    requires
        value == argument_name(strategy) || ignore_case && ascii_lowercase(value)
            == argument_name(strategy),
    ensures
        value_matches(argument_name(strategy), value, ignore_case),
{
    reveal_strlit("latest");
    reveal_strlit("next-patch");
    reveal_strlit("latest-patch");
    reveal_strlit("next-minor");
    reveal_strlit("latest-minor");
    reveal_strlit("next-major");
    reveal_strlit("latest-major");
    assert(ascii_lowercase(argument_name(strategy)) =~= argument_name(strategy));
}

impl Default for Strategy {
    fn default() -> (strategy: Self)
        ensures
            strategy == Strategy::Latest,
    {
        Strategy::Latest
    }
}

impl Strategy {
    /// The strategies in the order in which they are offered.
    pub fn value_variants() -> (variants: [Strategy; 7])
        ensures
            variants@ == seq![
                Strategy::Latest,
                Strategy::NextPatch,
                Strategy::LatestPatch,
                Strategy::NextMinor,
                Strategy::LatestMinor,
                Strategy::NextMajor,
                Strategy::LatestMajor,
            ],
    {
        let variants: [Strategy; 7] = [
            Strategy::Latest,
            Strategy::NextPatch,
            Strategy::LatestPatch,
            Strategy::NextMinor,
            Strategy::LatestMinor,
            Strategy::NextMajor,
            Strategy::LatestMajor,
        ];
        assert(variants@ =~= seq![
            Strategy::Latest,
            Strategy::NextPatch,
            Strategy::LatestPatch,
            Strategy::NextMinor,
            Strategy::LatestMinor,
            Strategy::NextMajor,
            Strategy::LatestMajor,
        ]);
        variants
    }

    /// The name under which a user asks for the strategy.
    pub fn value_name(&self) -> (name: &'static str)
        ensures
            name@ == argument_name(*self),
    {
        match self {
            Strategy::Latest => "latest",
            Strategy::NextPatch => "next-patch",
            Strategy::LatestPatch => "latest-patch",
            Strategy::NextMinor => "next-minor",
            Strategy::LatestMinor => "latest-minor",
            Strategy::NextMajor => "next-major",
            Strategy::LatestMajor => "latest-major",
        }
    }

    /// The strategy as the default value of an argument.
    pub fn into_os_str(self) -> (value: clap::builder::OsStr)
        ensures
            os_str_text(value) == argument_name(self),
    {
        os_str(self.value_name())
    }

    /// The strategy as a message names it.
    pub fn to_string(&self) -> (name: String)
        ensures
            name@ == display_name(*self),
    {
        let name: &'static str = match self {
            Strategy::NextPatch => "next patch",
            Strategy::LatestPatch => "latest patch",
            Strategy::NextMinor => "next minor",
            Strategy::LatestMinor => "latest minor",
            Strategy::NextMajor => "next major",
            Strategy::LatestMajor => "latest major",
            Strategy::Latest => "latest",
        };
        name.to_owned()
    }

    /// The strategy that a user asks for by `input`; a text that names none is refused with
    /// a message.
    pub fn from_str(input: &str, ignore_case: bool) -> (parsed: Result<Strategy, String>)
        ensures
            forall|strategy: Strategy|
                value_matches(#[trigger] argument_name(strategy), input@, ignore_case) ==> parsed
                    == Ok::<Strategy, String>(strategy),
            match parsed {
                Ok(strategy) => value_matches(argument_name(strategy), input@, ignore_case),
                Err(message) => {
                    &&& message@ == "invalid variant: "@ + input@
                    &&& forall|strategy: Strategy|
                        #![trigger argument_name(strategy)]
                        !value_matches(argument_name(strategy), input@, ignore_case)
                },
            },
    {
        let variants: [Strategy; 7] = Strategy::value_variants();
        let mut i: usize = 0;
        while i < 7
            invariant
                i <= 7,
                variants@.len() == 7,
                forall|j: int|
                    0 <= j < i ==> !value_matches(
                        argument_name(#[trigger] variants@[j]),
                        input@,
                        ignore_case,
                    ),
            decreases 7 - i,
        {
            if possible_value_matches(variants[i].value_name(), input, ignore_case) {
                assert forall|strategy: Strategy|
                    value_matches(
                        #[trigger] argument_name(strategy),
                        input@,
                        ignore_case,
                    ) implies strategy == variants@[i as int] by {
                    names_tell_strategies_apart(
                        strategy,
                        variants@[i as int],
                        input@,
                        ignore_case,
                    );
                }
                return Ok(variants[i]);
            }
            i = i + 1;
        }
        assert forall|strategy: Strategy| !value_matches(
            #[trigger] argument_name(strategy),
            input@,
            ignore_case,
        ) by {
            let position: int = match strategy {
                Strategy::Latest => 0,
                Strategy::NextPatch => 1,
                Strategy::LatestPatch => 2,
                Strategy::NextMinor => 3,
                Strategy::LatestMinor => 4,
                Strategy::NextMajor => 5,
                Strategy::LatestMajor => 6,
            };
            assert(variants@[position] == strategy);
        }
        let mut message: String = "invalid variant: ".to_owned();
        message.append(input);
        Err(message)
    }
}

/// A message names a strategy as the command line does, with a blank for the dash.
pub proof fn messages_write_a_blank_for_the_dash(
    strategy: Strategy,
    argument: &'static str,
    message: String,
)
    requires
        call_ensures(Strategy::value_name, (&strategy,), argument),
        call_ensures(Strategy::to_string, (&strategy,), message),
    ensures
        message@.len() == argument@.len(),
        forall|i: int|
            0 <= i < argument@.len() ==> message@[i] == (if #[trigger] argument@[i] == '-' {
                ' '
            } else {
                argument@[i]
            }),
{
    lemma_names_by_character();
}

/// The name of a strategy says whether the next or the latest tag is wanted, and, but for the
/// latest of all, which part of the version may change.
pub proof fn names_say_how_far_updates_go(strategy: Strategy, message: String)
    requires
        call_ensures(Strategy::to_string, (&strategy,), message),
    ensures
        ({
            let next = strategy is NextPatch || strategy is NextMinor || strategy is NextMajor;
            let which = if next {
                "next"@
            } else {
                "latest"@
            };
            let part = if strategy is NextPatch || strategy is LatestPatch {
                " patch"@
            } else if strategy is NextMinor || strategy is LatestMinor {
                " minor"@
            } else if strategy is NextMajor || strategy is LatestMajor {
                " major"@
            } else {
                ""@
            };
            message@ == which + part
        }),
{
    lemma_names_by_character();
    reveal_strlit("next");
    reveal_strlit(" patch");
    reveal_strlit(" minor");
    reveal_strlit(" major");
    reveal_strlit("");
    assert(display_name(Strategy::Latest) =~= "latest"@ + ""@);
    assert(display_name(Strategy::NextPatch) =~= "next"@ + " patch"@);
    assert(display_name(Strategy::LatestPatch) =~= "latest"@ + " patch"@);
    assert(display_name(Strategy::NextMinor) =~= "next"@ + " minor"@);
    assert(display_name(Strategy::LatestMinor) =~= "latest"@ + " minor"@);
    assert(display_name(Strategy::NextMajor) =~= "next"@ + " major"@);
    assert(display_name(Strategy::LatestMajor) =~= "latest"@ + " major"@);
}

/// The names of two strategies in messages differ, also at the beginning of longer texts: the
/// one with a colon behind it is no beginning of the other with a colon behind it.
pub proof fn messages_tell_strategies_apart(a: Strategy, b: Strategy, text: Seq<char>)
    requires
        a != b,
        (display_name(a) + ":"@).is_prefix_of(text),
    ensures
        !(display_name(b) + ":"@).is_prefix_of(text),
{
    lemma_names_by_character();
    reveal_strlit(":");
    let first = display_name(a) + ":"@;
    let second = display_name(b) + ":"@;
    if second.is_prefix_of(text) {
        assert(forall|i: int|
            0 <= i < first.len() && 0 <= i < second.len() ==> #[trigger] first[i] == second[i]);
        let end_a = display_name(a).len() as int;
        let end_b = display_name(b).len() as int;
        assert(first[end_a] == ':');
        assert(second[end_b] == ':');
        assert(first[0] == second[0]);
        if end_a < end_b {
            assert(second[end_a] == ':');
        } else if end_b < end_a {
            assert(first[end_b] == ':');
        } else if end_a == 10 {
            assert(first[5] == second[5]);
            assert(first[6] == second[6]);
        } else {
            assert(first[7] == second[7]);
            assert(first[8] == second[8]);
        }
    }
}

/// The characters of all names.
proof fn lemma_names_by_character()
    ensures
        "latest"@ =~= seq!['l', 'a', 't', 'e', 's', 't'],
        "next patch"@ =~= seq!['n', 'e', 'x', 't', ' ', 'p', 'a', 't', 'c', 'h'],
        "latest patch"@ =~= seq!['l', 'a', 't', 'e', 's', 't', ' ', 'p', 'a', 't', 'c', 'h'],
        "next minor"@ =~= seq!['n', 'e', 'x', 't', ' ', 'm', 'i', 'n', 'o', 'r'],
        "latest minor"@ =~= seq!['l', 'a', 't', 'e', 's', 't', ' ', 'm', 'i', 'n', 'o', 'r'],
        "next major"@ =~= seq!['n', 'e', 'x', 't', ' ', 'm', 'a', 'j', 'o', 'r'],
        "latest major"@ =~= seq!['l', 'a', 't', 'e', 's', 't', ' ', 'm', 'a', 'j', 'o', 'r'],
        "next-patch"@ =~= seq!['n', 'e', 'x', 't', '-', 'p', 'a', 't', 'c', 'h'],
        "latest-patch"@ =~= seq!['l', 'a', 't', 'e', 's', 't', '-', 'p', 'a', 't', 'c', 'h'],
        "next-minor"@ =~= seq!['n', 'e', 'x', 't', '-', 'm', 'i', 'n', 'o', 'r'],
        "latest-minor"@ =~= seq!['l', 'a', 't', 'e', 's', 't', '-', 'm', 'i', 'n', 'o', 'r'],
        "next-major"@ =~= seq!['n', 'e', 'x', 't', '-', 'm', 'a', 'j', 'o', 'r'],
        "latest-major"@ =~= seq!['l', 'a', 't', 'e', 's', 't', '-', 'm', 'a', 'j', 'o', 'r'],
{
    reveal_strlit("latest");
    reveal_strlit("next patch");
    reveal_strlit("latest patch");
    reveal_strlit("next minor");
    reveal_strlit("latest minor");
    reveal_strlit("next major");
    reveal_strlit("latest major");
    reveal_strlit("next-patch");
    reveal_strlit("latest-patch");
    reveal_strlit("next-minor");
    reveal_strlit("latest-minor");
    reveal_strlit("next-major");
    reveal_strlit("latest-major");
}

/// Every strategy is offered, none twice, and the default first.
pub proof fn every_strategy_is_offered_once(variants: [Strategy; 7], default: Strategy)
    requires
        call_ensures(Strategy::value_variants, (), variants),
        call_ensures(Strategy::default, (), default),
    ensures
        variants@[0] == default,
        default is Latest,
        forall|strategy: Strategy| variants@.contains(strategy),
        forall|i: int, j: int| 0 <= i < j < 7 ==> variants@[i] != variants@[j],
{
    assert forall|strategy: Strategy| variants@.contains(strategy) by {
        let i: int = match strategy {
            Strategy::Latest => 0,
            Strategy::NextPatch => 1,
            Strategy::LatestPatch => 2,
            Strategy::NextMinor => 3,
            Strategy::LatestMinor => 4,
            Strategy::NextMajor => 5,
            Strategy::LatestMajor => 6,
        };
        assert(variants@[i] == strategy);
    }
}

/// The default value of an argument is the name that asks for it.
pub proof fn defaults_are_written_as_asked_for(
    strategy: Strategy,
    name: &'static str,
    value: clap::builder::OsStr,
)
    requires
        call_ensures(Strategy::value_name, (&strategy,), name),
        call_ensures(Strategy::into_os_str, (strategy,), value),
    ensures
        os_str_text(value) == name@,
{
}

/// A user gets a strategy exactly by its name. Where the case is ignored, capitals of ASCII
/// may stand in it for small letters; where it counts, nothing may differ.
pub proof fn strategies_are_asked_for_by_name(
    strategy: Strategy,
    name: &'static str,
    input: &str,
    ignore_case: bool,
    parsed: Result<Strategy, String>,
)
    requires
        call_ensures(Strategy::value_name, (&strategy,), name),
        call_ensures(Strategy::from_str, (input, ignore_case), parsed),
    ensures
        !ignore_case ==> (parsed == Ok::<Strategy, String>(strategy) <==> input@ == name@),
        ignore_case ==> (parsed == Ok::<Strategy, String>(strategy) <==> input@.len() == name@.len()
            && forall|i: int|
            0 <= i < input@.len() ==> {
                ||| #[trigger] input@[i] == name@[i]
                ||| 'A' <= input@[i] && input@[i] <= 'Z' && input@[i] as int - 'A' as int
                    == name@[i] as int - 'a' as int
            }),
{
    let lower_name = ascii_lowercase(name@);
    let lower_input = ascii_lowercase(input@);
    lemma_names_by_character();
    assert(lower_name =~= name@);
    if parsed == Ok::<Strategy, String>(strategy) {
        if ignore_case {
            assert(lower_input.len() == input@.len());
            assert forall|i: int| 0 <= i < input@.len() implies {
                ||| #[trigger] input@[i] == name@[i]
                ||| 'A' <= input@[i] && input@[i] <= 'Z' && input@[i] as int - 'A' as int
                    == name@[i] as int - 'a' as int
            } by {
                assert(lower_input[i] == name@[i]);
            }
        }
    } else {
        assert(!value_matches(argument_name(strategy), input@, ignore_case));
        if ignore_case && input@.len() == name@.len() && forall|i: int|
            0 <= i < input@.len() ==> {
                ||| #[trigger] input@[i] == name@[i]
                ||| 'A' <= input@[i] && input@[i] <= 'Z' && input@[i] as int - 'A' as int
                    == name@[i] as int - 'a' as int
            } {
            assert forall|i: int| 0 <= i < input@.len() implies #[trigger] lower_input[i] == name@[i] by {
                assert(lower_name[i] == name@[i]);
                assert(lower_input[i] == ascii_lower(input@[i]));
            }
            assert(lower_input =~= name@);
        }
    }
}

/// A text that gives no strategy is told in the refusal, behind the same words for all.
pub proof fn refusals_tell_the_text(input: &str, ignore_case: bool, parsed: Result<Strategy, String>)
    requires
        call_ensures(Strategy::from_str, (input, ignore_case), parsed),
        parsed is Err,
    ensures
        parsed->Err_0@ == "invalid variant: "@ + input@,
{
}

} // verus!
