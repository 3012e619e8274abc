//! The command line of the simulator: four arguments after the program's
//! name, and the errors that a run can end with.

use crate::text::parse_usize;
use crate::text::parsed_usize;
use crate::text::same_text;
use crate::text::texts_of;
use vstd::prelude::*;

verus! {

/// `std::io::Error`, the error of a failed read. Nothing is claimed of what
/// it holds: the library only carries it inside `AppErr::Io`.
#[verifier::external_type_specification]
#[verifier::external_body]
pub struct ExIoError(std::io::Error);

/// Why a run could not be started or finished.
#[derive(Debug)]
pub enum AppErr {
    /// Reading the pattern failed.
    Io(std::io::Error),
    /// The command line holds this many arguments, not five.
    InvalidArgCount(usize),
    /// The size is no positive number.
    InvalidSize(String),
    /// The iteration count is no number.
    InvalidIterations(String),
    /// The print mode is none of `all`, `final`, `none`.
    InvalidPrintMode(String),
}

/// The model of an error: its kind and the text it carries.
pub enum AppErrView {
    Io,
    InvalidArgCount(nat),
    InvalidSize(Seq<char>),
    InvalidIterations(Seq<char>),
    InvalidPrintMode(Seq<char>),
}

impl View for AppErr {
    type V = AppErrView;

    open spec fn view(&self) -> AppErrView {
        match self {
            AppErr::Io(_) => AppErrView::Io,
            AppErr::InvalidArgCount(count) => AppErrView::InvalidArgCount(*count as nat),
            AppErr::InvalidSize(text) => AppErrView::InvalidSize(text@),
            AppErr::InvalidIterations(text) => AppErrView::InvalidIterations(text@),
            AppErr::InvalidPrintMode(text) => AppErrView::InvalidPrintMode(text@),
        }
    }
}

impl From<std::io::Error> for AppErr {
    fn from(err: std::io::Error) -> (e: AppErr)
        ensures
            e == AppErr::Io(err),
    {
        AppErr::Io(err)
    }
}

impl vstd::std_specs::convert::FromSpecImpl<std::io::Error> for AppErr {
    open spec fn obeys_from_spec() -> bool {
        true
    }

    open spec fn from_spec(err: std::io::Error) -> AppErr {
        AppErr::Io(err)
    }
}

/// What the command line asks for.
#[derive(Debug)]
pub struct Args {
    /// `all`, `final` or `none`.
    pub print_mode: String,
    /// The side of the grid, at least 1.
    pub size: usize,
    /// How many generations to compute.
    pub iterations: usize,
    /// Where the pattern is read from.
    pub pattern_file: String,
}

/// The model of the arguments.
pub struct ArgsView {
    pub print_mode: Seq<char>,
    pub size: usize,
    pub iterations: usize,
    pub pattern_file: Seq<char>,
}

impl View for Args {
    type V = ArgsView;

    open spec fn view(&self) -> ArgsView {
        ArgsView {
            print_mode: self.print_mode@,
            size: self.size,
            iterations: self.iterations,
            pattern_file: self.pattern_file@,
        }
    }
}

/// Whether `mode` is one of the three print modes.
pub open spec fn is_print_mode(mode: Seq<char>) -> bool {
    mode == "all"@ || mode == "final"@ || mode == "none"@
}

/// What a command line means. The first of these that applies decides: a
/// count of arguments other than five, the program's name included; an
/// unknown print mode; a size that is no number or is zero; an iteration
/// count that is no number.
pub open spec fn parsed_args(args: Seq<Seq<char>>) -> Result<ArgsView, AppErrView> {
    if args.len() != 5 {
        Err(AppErrView::InvalidArgCount(args.len()))
    } else if !is_print_mode(args[1]) {
        Err(AppErrView::InvalidPrintMode(args[1]))
    } else {
        match parsed_usize(args[2]) {
            None => Err(AppErrView::InvalidSize(args[2])),
            Some(size) => if size == 0 {
                Err(AppErrView::InvalidSize(seq!['0']))
            } else {
                match parsed_usize(args[3]) {
                    None => Err(AppErrView::InvalidIterations(args[3])),
                    Some(iterations) => Ok(
                        ArgsView { print_mode: args[1], size, iterations, pattern_file: args[4] },
                    ),
                }
            },
        }
    }
}

/// The model of what `parse_args` returns.
pub open spec fn outcome_view(outcome: Result<Args, AppErr>) -> Result<ArgsView, AppErrView> {
    match outcome {
        Ok(args) => Ok(args@),
        Err(err) => Err(err@),
    }
}

/// Whether `mode` is one of the three print modes.
pub fn known_print_mode(mode: &str) -> (known: bool)
    ensures
        known == is_print_mode(mode@),
{
    same_text(mode, "all") || same_text(mode, "final") || same_text(mode, "none")
}

/// Reads the command line, the program's name first.
pub fn parse_args(args: &[String]) -> (outcome: Result<Args, AppErr>)
    ensures
        outcome_view(outcome) == parsed_args(texts_of(args@)),
{
    if args.len() != 5 {
        return Err(AppErr::InvalidArgCount(args.len()));
    }
    let print_mode = args[1].clone();
    if !known_print_mode(print_mode.as_str()) {
        return Err(AppErr::InvalidPrintMode(print_mode));
    }
    let size = match parse_usize(args[2].as_str()) {
        Some(size) => size,
        None => {
            return Err(AppErr::InvalidSize(args[2].clone()));
        },
    };
    if size == 0 {
        proof {
            reveal_strlit("0");
            assert("0"@ =~= seq!['0']);
        }
        return Err(AppErr::InvalidSize(String::from_str("0")));
    }
    let iterations = match parse_usize(args[3].as_str()) {
        Some(iterations) => iterations,
        None => {
            return Err(AppErr::InvalidIterations(args[3].clone()));
        },
    };
    let pattern_file = args[4].clone();
    Ok(Args { print_mode, size, iterations, pattern_file })
}

} // verus!
