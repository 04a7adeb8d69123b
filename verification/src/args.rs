//! The arguments of `promptforge run`.

use vstd::prelude::*;

use crate::mapping::FileMapping;
#[allow(unused_imports)]
use crate::mapping::{mappings, MappingView};
#[allow(unused_imports)]
use crate::text::optional_text;

verus! {

/// Arguments for `promptforge run`. The paths of the prompt file and of the
/// args file stand here as they are displayed.
#[derive(Debug, PartialEq, Eq)]
pub struct RunArgs {
    /// Path to the prompt file.
    pub file: String,
    /// The run's input, exposed to the prompt as `args`.
    pub args: Option<String>,
    /// The file whose contents become `args` verbatim instead.
    pub args_file: Option<String>,
    /// The files that seed the run's store, each under its store name.
    pub input: Vec<FileMapping>,
    /// The store files that are copied to disk after a successful run.
    pub output: Vec<FileMapping>,
    /// Whether the configuration and the progress go to standard error.
    pub verbose: bool,
}

/// The arguments as mathematics sees them.
#[verifier::ext_equal]
pub struct ArgsView {
    pub file: Seq<char>,
    pub args: Option<Seq<char>>,
    pub args_file: Option<Seq<char>>,
    pub input: Seq<MappingView>,
    pub output: Seq<MappingView>,
    pub verbose: bool,
}

impl View for RunArgs {
    type V = ArgsView;

    open spec fn view(&self) -> ArgsView {
        ArgsView {
            file: self.file@,
            args: optional_text(self.args),
            args_file: optional_text(self.args_file),
            input: mappings(self.input@),
            output: mappings(self.output@),
            verbose: self.verbose,
        }
    }
}

/// Where the run's `args` string comes from.
#[derive(Debug, PartialEq, Eq)]
pub enum InputSource<'a> {
    /// Text given on the command line.
    Text(&'a str),
    /// The verbatim contents of a file.
    File(&'a str),
    /// Nothing: `args` is the empty string.
    Empty,
}

/// A source as mathematics sees it.
#[verifier::ext_equal]
pub enum SourceView {
    Text(Seq<char>),
    File(Seq<char>),
    Empty,
}

impl<'a> View for InputSource<'a> {
    type V = SourceView;

    open spec fn view(&self) -> SourceView {
        match self {
            InputSource::Text(text) => SourceView::Text(text@),
            InputSource::File(path) => SourceView::File(path@),
            InputSource::Empty => SourceView::Empty,
        }
    }
}

impl ArgsView {
    /// Which input the flags selected.
    pub open spec fn source(self) -> SourceView {
        match (self.args, self.args_file) {
            (Some(text), _) => SourceView::Text(text),
            (None, Some(path)) => SourceView::File(path),
            (None, None) => SourceView::Empty,
        }
    }
}

impl RunArgs {
    /// Returns which input the flags selected.
    pub fn input_source(&self) -> (source: InputSource<'_>)
        ensures
            source@ == self@.source(),
    {
        match (&self.args, &self.args_file) {
            (Some(text), _) => InputSource::Text(text.as_str()),
            (None, Some(path)) => InputSource::File(path.as_str()),
            (None, None) => InputSource::Empty,
        }
    }
}

impl ArgsView {
    /// What parsing accepts: `--args` and `--args-file` exclude each other.
    pub open spec fn exclusive(self) -> bool {
        !(self.args is Some && self.args_file is Some)
    }
}

/// The source is the text exactly where `--args` gives it, the file exactly where
/// `--args-file` names it, and nothing exactly where neither flag is given.
pub proof fn law_source_follows_the_flags(args: ArgsView)
    requires
        args.exclusive(),
    ensures
        args.args matches Some(text) ==> args.source() == SourceView::Text(text),
        args.source() matches SourceView::Text(text) ==> args.args == Some(text),
        args.args_file matches Some(path) ==> args.source() == SourceView::File(path),
        args.source() matches SourceView::File(path) ==> args.args_file == Some(path),
        args.source() is Empty <==> args.args is None && args.args_file is None,
{
}

/// A text on the command line is taken as it is, also beside a file, and a file
/// where there is no such text; the other arguments have no say in it.
pub proof fn law_source_is_taken_whole(args: ArgsView, other: ArgsView)
    ensures
        args.args matches Some(text) ==> args.source() == SourceView::Text(text),
        args.args is None && args.args_file is Some ==> args.source() == SourceView::File(
            args.args_file->Some_0,
        ),
        args.args is None && args.args_file is None ==> args.source() is Empty,
        args.args == other.args && args.args_file == other.args_file ==> args.source()
            == other.source(),
{
}

/// The arguments are seen whole: every file in its place, with its name and its
/// path, and each text as it was given.
pub proof fn law_arguments_are_seen_whole(args: RunArgs)
    ensures
        args@.file == args.file@,
        args.args matches Some(text) ==> args@.args == Some(text@),
        args.args is None ==> args@.args is None,
        args.args_file matches Some(path) ==> args@.args_file == Some(path@),
        args.args_file is None ==> args@.args_file is None,
        args@.input.len() == args.input@.len(),
        forall|i: int| #![trigger args@.input[i]]
            0 <= i < args.input@.len() ==> args@.input[i].name == args.input@[i].name@
                && args@.input[i].path == args.input@[i].path@,
        args@.output.len() == args.output@.len(),
        forall|i: int| #![trigger args@.output[i]]
            0 <= i < args.output@.len() ==> args@.output[i].name == args.output@[i].name@
                && args@.output[i].path == args.output@[i].path@,
        args@.verbose == args.verbose,
{
}

} // verus!
