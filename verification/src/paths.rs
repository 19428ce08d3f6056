//! File names of a compile set, made relative to the working directory.

use vstd::prelude::*;
use crate::error::{CianaError, Failure};

verus! {

/// The names of a row of files.
pub open spec fn names(files: Seq<String>) -> Seq<Seq<char>> {
    files.map_values(|f: String| f@)
}

/// What is left of the path `path` once the leading path `base` is taken off, as
/// `std::path::Path::strip_prefix` gives it; `None` where `base` is no prefix of `path`.
pub uninterp spec fn path_after_prefix(path: Seq<char>, base: Seq<char>) -> Option<Seq<char>>;

/// Calls `std::path::Path::strip_prefix` on `path` with `base`. Nothing is proved of it: the
/// contract only gives the result its name.
#[verifier::external_body]
fn strip_prefix(path: &str, base: &str) -> (rest: Option<String>)
    ensures
        match rest {
            Some(r) => path_after_prefix(path@, base@) == Some(r@),
            None => path_after_prefix(path@, base@) is None,
        },
{
    match std::path::Path::new(path).strip_prefix(base) {
        Ok(rest) => Some(rest.to_string_lossy().into_owned()),
        Err(_) => None,
    }
}

/// The name under which a file is searched: relative to the working directory where the
/// file lies below it, else as the compile set gives it.
pub open spec fn relative_path(absolute: Seq<char>, working_directory: Seq<char>) -> Seq<char> {
    match path_after_prefix(absolute, working_directory) {
        Some(relative) => relative,
        None => absolute,
    }
}

/// The names under which the files of a compile set are searched.
pub open spec fn relative_paths(files: Seq<String>, working_directory: Seq<char>) -> Seq<
    Seq<char>,
> {
    files.map_values(|f: String| relative_path(f@, working_directory))
}

/// Chooses between a path and what was left of it below the working directory.
pub fn relative_or_absolute(relative: Option<String>, absolute: &String) -> (path: String)
    ensures
        path@ == match relative {
            Some(r) => r@,
            None => absolute@,
        },
{
    match relative {
        Some(r) => r,
        None => absolute.clone(),
    }
}

/// Makes `absolute` relative to `working_directory` where it lies below it, and leaves it as
/// it is where it does not.
pub fn absolute_to_relative(absolute: &String, working_directory: &str) -> (path: String)
    ensures
        path@ == relative_path(absolute@, working_directory@),
{
    relative_or_absolute(strip_prefix(absolute.as_str(), working_directory), absolute)
}

/// What a compile set that cannot be had is reported as.
pub open spec fn no_compile_set() -> Failure {
    Failure::Message("CompilationDatabase Open Error"@)
}

/// The directory that a request for the working directory gave, if it gave one.
pub open spec fn directory_view(working_directory: Result<String, std::io::Error>) -> Option<
    Seq<char>,
> {
    match working_directory {
        Ok(directory) => Some(directory@),
        Err(_) => None,
    }
}

/// The source files of a compile set under the names by which they are searched, in the
/// compile set's order. Without a compilation database there is no compile set. The working
/// directory is needed as soon as the compile set holds a file.
pub open spec fn compile_set_sources(
    files: Option<Seq<String>>,
    working_directory: Option<Seq<char>>,
) -> Result<Seq<Seq<char>>, Failure> {
    match files {
        None => Err(no_compile_set()),
        Some(listed) => if listed.len() == 0 {
            Ok(Seq::empty())
        } else {
            match working_directory {
                Some(directory) => Ok(relative_paths(listed, directory)),
                None => Err(Failure::IoError),
            }
        },
    }
}

/// The files that a compilation database lists, if there is one.
pub open spec fn listed_view(files: Option<&Vec<String>>) -> Option<Seq<String>> {
    match files {
        Some(listed) => Some(listed@),
        None => None,
    }
}

/// The source files of a compile set under the names by which they are searched. `files`
/// holds the files that the compilation database has commands for, in its order, and is
/// `None` where no database could be opened; `working_directory` is what asking for the
/// working directory gave.
pub fn get_all_compile_source_file(
    files: Option<&Vec<String>>,
    working_directory: Result<String, std::io::Error>,
) -> (sources: Result<Vec<String>, CianaError>)
    ensures
        match sources {
            Ok(found) => compile_set_sources(
                listed_view(files),
                directory_view(working_directory),
            ) == Ok::<Seq<Seq<char>>, Failure>(names(found@)),
            Err(error) => compile_set_sources(
                listed_view(files),
                directory_view(working_directory),
            ) == Err::<Seq<Seq<char>>, Failure>(error@),
        },
{
    let listed = match files {
        Some(listed) => listed,
        None => {
            return Err(CianaError::Message("CompilationDatabase Open Error".to_owned()));
        },
    };
    if listed.len() == 0 {
        assert(names(Seq::<String>::empty()) =~= Seq::<Seq<char>>::empty());
        return Ok(Vec::new());
    }
    let directory = match working_directory {
        Ok(directory) => directory,
        Err(error) => {
            return Err(CianaError::from(error));
        },
    };
    let mut results: Vec<String> = Vec::new();
    let mut i: usize = 0;
    assert(names(results@) =~= relative_paths(listed@.take(0), directory@));
    while i < listed.len()
        invariant
            0 <= i <= listed.len(),
            results.len() == i,
            names(results@) == relative_paths(listed@.take(i as int), directory@),
        decreases listed.len() - i,
    {
        let ghost before = results@;
        let path = absolute_to_relative(&listed[i], directory.as_str());
        results.push(path);
        proof {
            let after = relative_paths(listed@.take(i + 1), directory@);
            assert forall|j: int| 0 <= j < after.len() implies names(results@)[j] == after[j] by {
                if j < i {
                    assert(results@[j] == before[j]);
                    assert(names(before)[j] == before[j]@);
                    assert(listed@.take(i as int)[j] == listed@.take(i + 1)[j]);
                    assert(relative_paths(listed@.take(i as int), directory@)[j] == after[j]);
                }
            }
            assert(names(results@) =~= after);
        }
        i += 1;
    }
    assert(listed@.take(i as int) =~= listed@);
    Ok(results)
}

} // verus!
