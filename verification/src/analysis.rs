//! The analysis as a whole: resolve the target, classify the declaration's scope, choose the
//! files to search, and search them.
//!
//! The analysis itself reads no file. It is a machine that says what it needs next (a file
//! parsed, or the project's compile set), takes the answer, and goes on. Whoever drives it
//! does the reading.

use vstd::prelude::*;
use crate::error::{CianaError, Failure};
use crate::location::{positions, Position, SourceLocation};
use crate::paths::names;
use crate::resolver::{get_reference_location, resolve};
use crate::scanner::{collect_references, references};
use crate::scope::{is_global_variable, is_wide_scope};
use crate::tree::{Node, TreeNode};

verus! {

/// The mathematical value of an [`Action`].
pub enum Request {
    Parse(Seq<char>),
    EnumerateCompileSet,
    Stop,
}

/// What the analysis needs next.
#[derive(Debug)]
pub enum Action {
    /// The tree of this file.
    Parse(String),
    /// The source files of the project, in the order of its compile set.
    EnumerateCompileSet,
    /// Nothing: the analysis has its result.
    Stop,
}

impl View for Action {
    type V = Request;

    open spec fn view(&self) -> Request {
        match self {
            Action::Parse(path) => Request::Parse(path@),
            Action::EnumerateCompileSet => Request::EnumerateCompileSet,
            Action::Stop => Request::Stop,
        }
    }
}

/// The mathematical value of an [`Event`].
pub enum Signal {
    Parsed(Result<Node, Failure>),
    CompileSet(Result<Seq<Seq<char>>, Failure>),
}

/// An answer to an [`Action`].
pub enum Event<'a> {
    /// The file asked for was parsed, or why it was not.
    Parsed(Result<&'a TreeNode, CianaError>),
    /// The source files of the project, or why they cannot be had.
    CompileSet(Result<Vec<String>, CianaError>),
}

impl<'a> View for Event<'a> {
    type V = Signal;

    open spec fn view(&self) -> Signal {
        match self {
            Event::Parsed(Ok(tree)) => Signal::Parsed(Ok(tree@)),
            Event::Parsed(Err(error)) => Signal::Parsed(Err(error@)),
            Event::CompileSet(Ok(files)) => Signal::CompileSet(Ok(names(files@))),
            Event::CompileSet(Err(error)) => Signal::CompileSet(Err(error@)),
        }
    }
}

/// How far an analysis has come: the mathematical value of an [`Analysis`].
pub enum Progress {
    /// The target is to be resolved in its file.
    Resolving { target: Position },
    /// The scope of the declaration is to be classified in the declaration's file.
    Classifying { declaration: Position },
    /// The declaration has file scope: the compile set is to be had.
    Enumerating { declaration: Position },
    /// The files in `pending` are still to be searched; `found` holds what the files before
    /// them gave. With nothing pending the analysis has ended, and `found` is its result.
    Scanning { declaration: Position, pending: Seq<Seq<char>>, found: Seq<Position> },
    /// The analysis has ended without a result.
    Failed(Failure),
}

/// What an analysis needs next.
pub open spec fn pending_action(progress: Progress) -> Request {
    match progress {
        Progress::Resolving { target } => Request::Parse(target.filename),
        Progress::Classifying { declaration } => Request::Parse(declaration.filename),
        Progress::Enumerating { .. } => Request::EnumerateCompileSet,
        Progress::Scanning { pending, .. } => if pending.len() > 0 {
            Request::Parse(pending[0])
        } else {
            Request::Stop
        },
        Progress::Failed(_) => Request::Stop,
    }
}

/// The result of an analysis that has ended.
pub open spec fn outcome(progress: Progress) -> Option<Result<Seq<Position>, Failure>> {
    match progress {
        Progress::Scanning { pending, found, .. } => if pending.len() == 0 {
            Some(Ok(found))
        } else {
            None
        },
        Progress::Failed(failure) => Some(Err(failure)),
        _ => None,
    }
}

/// Where an analysis stands after an answer. Any failure ends it. An answer to something
/// that was not asked leaves it where it was.
pub open spec fn advance(progress: Progress, signal: Signal) -> Progress {
    match (progress, signal) {
        (Progress::Resolving { target }, Signal::Parsed(Ok(tree))) => match resolve(tree, target) {
            Some(declaration) => Progress::Classifying { declaration },
            None => Progress::Failed(Failure::NoTarget),
        },
        (Progress::Classifying { declaration }, Signal::Parsed(Ok(tree))) => if is_wide_scope(
            tree,
            declaration,
        ) {
            Progress::Enumerating { declaration }
        } else {
            Progress::Scanning {
                declaration,
                pending: seq![declaration.filename],
                found: Seq::empty(),
            }
        },
        (Progress::Enumerating { declaration }, Signal::CompileSet(Ok(files))) => {
            Progress::Scanning { declaration, pending: files, found: Seq::empty() }
        },
        (Progress::Scanning { declaration, pending, found }, Signal::Parsed(Ok(tree))) => {
            if pending.len() > 0 {
                Progress::Scanning {
                    declaration,
                    pending: pending.drop_first(),
                    found: found + references(tree, declaration),
                }
            } else {
                progress
            }
        },
        (Progress::Resolving { .. }, Signal::Parsed(Err(failure))) => Progress::Failed(failure),
        (Progress::Classifying { .. }, Signal::Parsed(Err(failure))) => Progress::Failed(failure),
        (Progress::Enumerating { .. }, Signal::CompileSet(Err(failure))) => {
            Progress::Failed(failure)
        },
        (Progress::Scanning { pending, .. }, Signal::Parsed(Err(failure))) => if pending.len() > 0 {
            Progress::Failed(failure)
        } else {
            progress
        },
        _ => progress,
    }
}

/// The names of the files of a row from the one at `next` on.
pub open spec fn remaining(files: Seq<String>, next: int) -> Seq<Seq<char>> {
    if 0 <= next < files.len() {
        names(files).skip(next)
    } else {
        Seq::empty()
    }
}

enum Phase {
    Resolving { target: SourceLocation },
    Classifying { declaration: SourceLocation },
    Enumerating { declaration: SourceLocation },
    Scanning {
        declaration: SourceLocation,
        files: Vec<String>,
        next: usize,
        found: Vec<SourceLocation>,
    },
    Failed(CianaError),
}

/// An analysis under way.
pub struct Analysis {
    phase: Phase,
}

impl View for Analysis {
    type V = Progress;

    closed spec fn view(&self) -> Progress {
        match self.phase {
            Phase::Resolving { target } => Progress::Resolving { target: target@ },
            Phase::Classifying { declaration } => Progress::Classifying {
                declaration: declaration@,
            },
            Phase::Enumerating { declaration } => Progress::Enumerating {
                declaration: declaration@,
            },
            Phase::Scanning { declaration, files, next, found } => Progress::Scanning {
                declaration: declaration@,
                pending: remaining(files@, next as int),
                found: positions(found@),
            },
            Phase::Failed(error) => Progress::Failed(error@),
        }
    }
}

/// The mathematical value of a result.
pub open spec fn result_view(result: Result<Vec<SourceLocation>, CianaError>) -> Result<
    Seq<Position>,
    Failure,
> {
    match result {
        Ok(found) => Ok(positions(found@)),
        Err(error) => Err(error@),
    }
}

impl Analysis {
    /// Begins the analysis of the identifier at `target`.
    pub fn new(target: SourceLocation) -> (analysis: Analysis)
        ensures
            analysis@ == (Progress::Resolving { target: target@ }),
    {
        Analysis { phase: Phase::Resolving { target } }
    }

    /// Begins the search for the uses of the declaration at `declaration`.
    pub fn of_declaration(declaration: SourceLocation) -> (analysis: Analysis)
        ensures
            analysis@ == (Progress::Classifying { declaration: declaration@ }),
    {
        Analysis { phase: Phase::Classifying { declaration } }
    }

    /// What the analysis needs next.
    pub fn action(&self) -> (action: Action)
        ensures
            action@ == pending_action(self@),
    {
        match &self.phase {
            Phase::Resolving { target } => Action::Parse(target.filename.clone()),
            Phase::Classifying { declaration } => Action::Parse(declaration.filename.clone()),
            Phase::Enumerating { .. } => Action::EnumerateCompileSet,
            Phase::Scanning { files, next, .. } => {
                if *next < files.len() {
                    assert(remaining(files@, *next as int)[0] == files[*next as int]@);
                    Action::Parse(files[*next].clone())
                } else {
                    Action::Stop
                }
            },
            Phase::Failed(_) => Action::Stop,
        }
    }

    /// Takes an answer and goes on.
    pub fn step(self, event: Event<'_>) -> (next: Analysis)
        ensures
            next@ == advance(self@, event@),
    {
        match (self.phase, event) {
            (Phase::Resolving { target }, Event::Parsed(Ok(tree))) => {
                match get_reference_location(tree, &target) {
                    Ok(declaration) => Analysis { phase: Phase::Classifying { declaration } },
                    Err(error) => Analysis { phase: Phase::Failed(error) },
                }
            },
            (Phase::Classifying { declaration }, Event::Parsed(Ok(tree))) => {
                if is_global_variable(tree, &declaration) {
                    Analysis { phase: Phase::Enumerating { declaration } }
                } else {
                    let mut files: Vec<String> = Vec::new();
                    files.push(declaration.filename.clone());
                    assert(remaining(files@, 0) =~= seq![declaration@.filename]);
                    assert(positions(Seq::<SourceLocation>::empty()) =~= Seq::<Position>::empty());
                    Analysis {
                        phase: Phase::Scanning { declaration, files, next: 0, found: Vec::new() },
                    }
                }
            },
            (Phase::Enumerating { declaration }, Event::CompileSet(Ok(files))) => {
                assert(remaining(files@, 0) =~= names(files@));
                assert(positions(Seq::<SourceLocation>::empty()) =~= Seq::<Position>::empty());
                Analysis {
                    phase: Phase::Scanning { declaration, files, next: 0, found: Vec::new() },
                }
            },
            (Phase::Scanning { declaration, files, next, found }, Event::Parsed(Ok(tree))) => {
                if next < files.len() {
                    let mut found = found;
                    collect_references(tree, &declaration, &mut found);
                    assert(remaining(files@, next + 1) =~= remaining(
                        files@,
                        next as int,
                    ).drop_first());
                    Analysis {
                        phase: Phase::Scanning { declaration, files, next: next + 1, found },
                    }
                } else {
                    Analysis { phase: Phase::Scanning { declaration, files, next, found } }
                }
            },
            (Phase::Scanning { declaration, files, next, found }, Event::Parsed(Err(error))) => {
                if next < files.len() {
                    Analysis { phase: Phase::Failed(error) }
                } else {
                    Analysis { phase: Phase::Scanning { declaration, files, next, found } }
                }
            },
            (Phase::Resolving { .. }, Event::Parsed(Err(error))) => Analysis {
                phase: Phase::Failed(error),
            },
            (Phase::Classifying { .. }, Event::Parsed(Err(error))) => Analysis {
                phase: Phase::Failed(error),
            },
            (Phase::Enumerating { .. }, Event::CompileSet(Err(error))) => Analysis {
                phase: Phase::Failed(error),
            },
            (phase, _) => Analysis { phase },
        }
    }

    /// The result, once the analysis has ended.
    pub fn result(self) -> (result: Option<Result<Vec<SourceLocation>, CianaError>>)
        ensures
            match result {
                Some(r) => outcome(self@) == Some(result_view(r)),
                None => outcome(self@) is None,
            },
    {
        match self.phase {
            Phase::Scanning { files, next, found, .. } => {
                if next < files.len() {
                    None
                } else {
                    Some(Ok(found))
                }
            },
            Phase::Failed(error) => Some(Err(error)),
            _ => None,
        }
    }
}

} // verus!
