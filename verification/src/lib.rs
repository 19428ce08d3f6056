//! Change-impact analysis over C/C++ syntax trees: from a place in a source file to the
//! declaration that the identifier there refers to, and on to every use of that declaration.

use vstd::prelude::*;

pub mod analysis;
pub mod config;
pub mod error;
pub mod location;
pub mod parse_args;
pub mod paths;
pub mod project;
pub mod resolver;
pub mod scanner;
pub mod scope;
pub mod tree;
pub mod world;

pub use crate::error::CianaError;
pub use crate::location::SourceLocation;

use crate::analysis::result_view;
use crate::project::{analyze_variables, Project};

verus! {

/// Analyses the impact of a change to the identifier at `target` in `project`: the places of
/// all uses of the declaration that the identifier refers to, file by file in the order of
/// the search, each file's in the order of its tree.
pub fn run(target: SourceLocation, project: &Project) -> (result: Result<
    Vec<SourceLocation>,
    CianaError,
>)
    ensures
        result_view(result) == world::analysis(project@, target@),
{
    analyze_variables(project, &target)
}

} // verus!
