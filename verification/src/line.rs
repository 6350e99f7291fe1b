//! What the program says, and where.

use vstd::prelude::*;

verus! {

/// Where a line goes.
#[derive(Clone, Copy, Debug, PartialEq, Eq, Structural)]
pub enum Channel {
    /// The log, as a detail.
    Debug,
    /// The log, as information.
    Info,
    /// The log, as an error.
    Error,
    /// Standard output.
    Stdout,
    /// Standard error.
    Stderr,
}

/// Something that the program says. The line end that follows it is not part of the text.
#[derive(Debug, PartialEq, Eq)]
pub struct Line {
    pub channel: Channel,
    pub text: String,
}

/// What a `Line` stands for.
#[verifier::ext_equal]
pub struct LineView {
    pub channel: Channel,
    pub text: Seq<char>,
}

impl View for Line {
    type V = LineView;

    open spec fn view(&self) -> LineView {
        LineView { channel: self.channel, text: self.text@ }
    }
}

impl DeepView for Line {
    type V = LineView;

    open spec fn deep_view(&self) -> LineView {
        self@
    }
}

/// An optional line as its view.
pub open spec fn optional_line(line: Option<Line>) -> Option<LineView> {
    match line {
        Some(line) => Some(line@),
        None => None,
    }
}

/// How many of `lines` go to `channel`.
pub open spec fn lines_on(lines: Seq<LineView>, channel: Channel) -> nat {
    lines.filter(|line: LineView| line.channel == channel).len()
}

} // verus!
