//! A project held in memory: the trees of its files and its compile set. The analysis can
//! be run on it from beginning to end.

use vstd::prelude::*;
use crate::analysis::{result_view, Action, Analysis, Event};
use crate::error::{CianaError, Failure};
use crate::location::SourceLocation;
use crate::paths::{compile_set_sources, get_all_compile_source_file, names};
use crate::tree::{Node, TreeNode};
use crate::world::{
    analysis, expected, lemma_outcome_is_expected, lemma_step_decreases,
    lemma_step_keeps_expected, steps_left, uses_of, World,
};

verus! {

/// One file of a project: its name, and its tree or why it cannot be parsed.
#[derive(Debug)]
pub struct SourceFile {
    pub path: String,
    pub tree: Result<TreeNode, clang::SourceError>,
}

/// A project held in memory.
#[derive(Debug)]
pub struct Project {
    /// The files that can be asked for. Where two have the same name, the first counts.
    pub files: Vec<SourceFile>,
    /// The files of the compile set as the compilation database names them, in its order;
    /// `None` where there is no database.
    pub compile_set: Option<Vec<String>>,
    /// The directory that the names of the search are relative to.
    pub working_directory: String,
}

/// What asking a row of files for `path` gives: the tree of the first file of that name, or
/// the reason why it cannot be parsed. A file that the row does not hold cannot be read.
pub open spec fn parsed(files: Seq<SourceFile>, path: Seq<char>) -> Result<Node, Failure>
    decreases files.len(),
{
    if files.len() == 0 {
        Err(Failure::IoError)
    } else if files[0].path@ == path {
        match files[0].tree {
            Ok(tree) => Ok(tree@),
            Err(error) => Err(Failure::Source(error)),
        }
    } else {
        parsed(files.drop_first(), path)
    }
}

impl View for Project {
    type V = World;

    open spec fn view(&self) -> World {
        World {
            parse: |path: Seq<char>| parsed(self.files@, path),
            compile_set: compile_set_sources(
                match self.compile_set {
                    Some(listed) => Some(listed@),
                    None => None,
                },
                Some(self.working_directory@),
            ),
        }
    }
}

/// The mathematical value of a tree that was asked for.
pub open spec fn parse_view(tree: Result<&TreeNode, CianaError>) -> Result<Node, Failure> {
    match tree {
        Ok(t) => Ok(t@),
        Err(error) => Err(error@),
    }
}

impl Project {
    /// The tree of the file `path`.
    pub fn parse(&self, path: &String) -> (tree: Result<&TreeNode, CianaError>)
        ensures
            parse_view(tree) == (self@.parse)(path@),
    {
        let mut i: usize = 0;
        assert(self.files@.skip(0) =~= self.files@);
        while i < self.files.len()
            invariant
                0 <= i <= self.files.len(),
                parsed(self.files@, path@) == parsed(self.files@.skip(i as int), path@),
            decreases self.files.len() - i,
        {
            if self.files[i].path == *path {
                return match &self.files[i].tree {
                    Ok(tree) => Ok(tree),
                    Err(error) => Err(CianaError::Source(*error)),
                };
            }
            assert(self.files@.skip(i as int).drop_first() =~= self.files@.skip(i + 1));
            i += 1;
        }
        Err(CianaError::IoError)
    }

    /// The source files of the compile set, under the names by which they are searched.
    pub fn compile_set(&self) -> (sources: Result<Vec<String>, CianaError>)
        ensures
            match sources {
                Ok(files) => self@.compile_set == Ok::<Seq<Seq<char>>, Failure>(names(files@)),
                Err(error) => self@.compile_set == Err::<Seq<Seq<char>>, Failure>(error@),
            },
    {
        get_all_compile_source_file(self.compile_set.as_ref(), Ok(self.working_directory.clone()))
    }
}

/// Runs an analysis to its end, with `project` answering what it asks.
pub fn drive(project: &Project, analysis: Analysis) -> (result: Result<
    Vec<SourceLocation>,
    CianaError,
>)
    ensures
        result_view(result) == expected(project@, analysis@),
{
    let mut machine = analysis;
    loop
        invariant
            expected(project@, machine@) == expected(project@, analysis@),
        decreases steps_left(project@, machine@),
    {
        proof {
            lemma_step_decreases(project@, machine@);
            lemma_step_keeps_expected(project@, machine@);
        }
        match machine.action() {
            Action::Parse(path) => {
                let tree = project.parse(&path);
                machine = machine.step(Event::Parsed(tree));
            },
            Action::EnumerateCompileSet => {
                let sources = project.compile_set();
                machine = machine.step(Event::CompileSet(sources));
            },
            Action::Stop => {
                proof {
                    lemma_outcome_is_expected(project@, machine@);
                }
                match machine.result() {
                    Some(result) => {
                        return result;
                    },
                    None => {
                        return vstd::pervasive::unreached();
                    },
                }
            },
        }
    }
}

/// The uses of the declaration at `declaration`, in every file of the compile set where it
/// has file scope, in its own file where it is local.
pub fn get_same_variables_location(
    project: &Project,
    declaration: &SourceLocation,
) -> (result: Result<Vec<SourceLocation>, CianaError>)
    ensures
        result_view(result) == uses_of(project@, declaration@),
{
    drive(project, Analysis::of_declaration(declaration.clone()))
}

/// The analysis of the identifier at `target`: the uses of the declaration it refers to.
pub fn analyze_variables(project: &Project, target: &SourceLocation) -> (result: Result<
    Vec<SourceLocation>,
    CianaError,
>)
    ensures
        result_view(result) == analysis(project@, target@),
{
    drive(project, Analysis::new(target.clone()))
}

} // verus!
