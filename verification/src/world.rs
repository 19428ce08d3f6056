//! What an analysis comes to, stated over everything its surroundings can answer, and the
//! proof that the machine of [`crate::analysis`] comes to exactly that.

use vstd::prelude::*;
use crate::analysis::{advance, outcome, pending_action, Progress, Request, Signal};
use crate::error::Failure;
use crate::location::Position;
use crate::resolver::resolve;
use crate::scanner::references;
use crate::scope::is_wide_scope;
use crate::tree::Node;

verus! {

/// The surroundings of an analysis: what parsing each file gives, and the compile set of the
/// project.
pub struct World {
    pub parse: spec_fn(Seq<char>) -> Result<Node, Failure>,
    pub compile_set: Result<Seq<Seq<char>>, Failure>,
}

/// The uses of the declaration at `declaration` in the files `files`: those of the first
/// file in the order of its tree, then those of the second, and so on. One file that cannot
/// be parsed fails the whole search, with the failure of the first such file.
pub open spec fn scan_files(world: World, files: Seq<Seq<char>>, declaration: Position) -> Result<
    Seq<Position>,
    Failure,
>
    decreases files.len(),
{
    if files.len() == 0 {
        Ok(Seq::empty())
    } else {
        match (world.parse)(files[0]) {
            Err(failure) => Err(failure),
            Ok(tree) => match scan_files(world, files.drop_first(), declaration) {
                Err(failure) => Err(failure),
                Ok(later) => Ok(references(tree, declaration) + later),
            },
        }
    }
}

/// The files that are searched for the uses of a declaration, whose scope was classified in
/// `tree`: the whole compile set where it has file scope, its own file where it is local.
pub open spec fn search_set(world: World, tree: Node, declaration: Position) -> Result<
    Seq<Seq<char>>,
    Failure,
> {
    if is_wide_scope(tree, declaration) {
        world.compile_set
    } else {
        Ok(seq![declaration.filename])
    }
}

/// The uses of the declaration at `declaration`: its scope is classified in the tree of its
/// own file, and the search set is searched.
pub open spec fn uses_of(world: World, declaration: Position) -> Result<Seq<Position>, Failure> {
    match (world.parse)(declaration.filename) {
        Err(failure) => Err(failure),
        Ok(tree) => match search_set(world, tree, declaration) {
            Err(failure) => Err(failure),
            Ok(files) => scan_files(world, files, declaration),
        },
    }
}

/// The analysis of the identifier at `target`: it is resolved in the tree of its file to a
/// declaration, and the uses of that declaration are searched. `NoTarget` where it does not
/// resolve.
pub open spec fn analysis(world: World, target: Position) -> Result<Seq<Position>, Failure> {
    match (world.parse)(target.filename) {
        Err(failure) => Err(failure),
        Ok(tree) => match resolve(tree, target) {
            None => Err(Failure::NoTarget),
            Some(declaration) => uses_of(world, declaration),
        },
    }
}

/// An analysis is the search for the uses of what its target resolves to: begun at any use
/// of a declaration, it gives what the search begun at the declaration gives.
pub proof fn lemma_analysis_of_resolved(
    world: World,
    target: Position,
    tree: Node,
    declaration: Position,
)
    requires
        (world.parse)(target.filename) == Ok::<Node, Failure>(tree),
        resolve(tree, target) == Some(declaration),
    ensures
        analysis(world, target) == uses_of(world, declaration),
{
}

/// How the surroundings answer a request.
pub open spec fn answer(world: World, request: Request) -> Signal {
    match request {
        Request::Parse(path) => Signal::Parsed((world.parse)(path)),
        _ => Signal::CompileSet(world.compile_set),
    }
}

/// Where an analysis stands once its request is answered.
pub open spec fn next(world: World, progress: Progress) -> Progress {
    advance(progress, answer(world, pending_action(progress)))
}

/// Where an analysis stands after `steps` requests were answered.
pub open spec fn run_for(world: World, progress: Progress, steps: nat) -> Progress
    decreases steps,
{
    if steps == 0 {
        progress
    } else {
        run_for(world, next(world, progress), (steps - 1) as nat)
    }
}

/// What an analysis that has come as far as `progress` will end with.
pub open spec fn expected(world: World, progress: Progress) -> Result<Seq<Position>, Failure> {
    match progress {
        Progress::Resolving { target } => analysis(world, target),
        Progress::Classifying { declaration } => uses_of(world, declaration),
        Progress::Enumerating { declaration } => match world.compile_set {
            Err(failure) => Err(failure),
            Ok(files) => scan_files(world, files, declaration),
        },
        Progress::Scanning { declaration, pending, found } => match scan_files(
            world,
            pending,
            declaration,
        ) {
            Err(failure) => Err(failure),
            Ok(later) => Ok(found + later),
        },
        Progress::Failed(failure) => Err(failure),
    }
}

/// A bound on the requests that an analysis still makes.
pub open spec fn steps_left(world: World, progress: Progress) -> nat {
    let listed: nat = match world.compile_set {
        Ok(files) => files.len(),
        Err(_) => 0,
    };
    match progress {
        Progress::Resolving { .. } => listed + 4,
        Progress::Classifying { .. } => listed + 3,
        Progress::Enumerating { .. } => listed + 1,
        Progress::Scanning { pending, .. } => pending.len(),
        Progress::Failed(_) => 0,
    }
}

/// An answer does not change what the analysis will end with.
pub proof fn lemma_step_keeps_expected(world: World, progress: Progress)
    ensures
        expected(world, next(world, progress)) == expected(world, progress),
{
    match progress {
        Progress::Classifying { declaration } => {
            match (world.parse)(declaration.filename) {
                Ok(tree) => {
                    if !is_wide_scope(tree, declaration) {
                        let files = seq![declaration.filename];
                        match scan_files(world, files, declaration) {
                            Ok(later) => {
                                assert(Seq::<Position>::empty() + later =~= later);
                            },
                            Err(_) => {},
                        }
                    }
                },
                Err(_) => {},
            }
        },
        Progress::Enumerating { declaration } => {
            match world.compile_set {
                Ok(files) => {
                    match scan_files(world, files, declaration) {
                        Ok(later) => {
                            assert(Seq::<Position>::empty() + later =~= later);
                        },
                        Err(_) => {},
                    }
                },
                Err(_) => {},
            }
        },
        Progress::Scanning { declaration, pending, found } => {
            if pending.len() > 0 {
                match (world.parse)(pending[0]) {
                    Ok(tree) => {
                        match scan_files(world, pending.drop_first(), declaration) {
                            Ok(later) => {
                                assert((found + references(tree, declaration)) + later =~= found + (
                                references(tree, declaration) + later));
                            },
                            Err(_) => {},
                        }
                    },
                    Err(_) => {},
                }
            }
        },
        _ => {},
    }
}

/// An analysis that has ended has ended with what was expected of it.
pub proof fn lemma_outcome_is_expected(world: World, progress: Progress)
    requires
        outcome(progress) is Some,
    ensures
        outcome(progress) == Some(expected(world, progress)),
{
    match progress {
        Progress::Scanning { found, .. } => {
            assert(found + Seq::<Position>::empty() =~= found);
        },
        _ => {},
    }
}

/// An analysis has ended exactly when it has no request left, and every answer brings one
/// that has not ended nearer to its end.
pub proof fn lemma_step_decreases(world: World, progress: Progress)
    ensures
        outcome(progress) is Some <==> steps_left(world, progress) == 0,
        outcome(progress) is Some <==> pending_action(progress) == Request::Stop,
        outcome(progress) is Some ==> next(world, progress) == progress,
        outcome(progress) is None ==> steps_left(world, next(world, progress)) < steps_left(
            world,
            progress,
        ),
{
}

/// Answers do not change what the analysis will end with, however many there are.
pub proof fn lemma_run_keeps_expected(world: World, progress: Progress, steps: nat)
    ensures
        expected(world, run_for(world, progress, steps)) == expected(world, progress),
    decreases steps,
{
    if steps > 0 {
        lemma_step_keeps_expected(world, progress);
        lemma_run_keeps_expected(world, next(world, progress), (steps - 1) as nat);
    }
}

/// Every analysis ends: after as many answers as `steps_left` allows it has a result.
pub proof fn lemma_run_ends(world: World, progress: Progress, steps: nat)
    requires
        steps >= steps_left(world, progress),
    ensures
        outcome(run_for(world, progress, steps)) is Some,
    decreases steps,
{
    lemma_step_decreases(world, progress);
    if steps > 0 {
        lemma_run_ends(world, next(world, progress), (steps - 1) as nat);
    }
}

/// Every analysis ends with what was expected of it, wherever it stands.
pub proof fn lemma_run_ends_as_expected(world: World, progress: Progress)
    ensures
        outcome(run_for(world, progress, steps_left(world, progress))) == Some(
            expected(world, progress),
        ),
{
    let steps = steps_left(world, progress);
    lemma_run_ends(world, progress, steps);
    lemma_run_keeps_expected(world, progress, steps);
    lemma_outcome_is_expected(world, run_for(world, progress, steps));
}

/// The machine is right: driven by the answers of `world`, the analysis of `target` ends,
/// and it ends with `analysis(world, target)`.
pub proof fn lemma_machine_computes_analysis(world: World, target: Position)
    ensures
        outcome(
            run_for(
                world,
                Progress::Resolving { target },
                steps_left(world, Progress::Resolving { target }),
            ),
        ) == Some(analysis(world, target)),
{
    lemma_run_ends_as_expected(world, Progress::Resolving { target });
}

/// Begun at a declaration, the machine ends with `uses_of(world, declaration)`.
pub proof fn lemma_machine_computes_uses(world: World, declaration: Position)
    ensures
        outcome(
            run_for(
                world,
                Progress::Classifying { declaration },
                steps_left(world, Progress::Classifying { declaration }),
            ),
        ) == Some(uses_of(world, declaration)),
{
    lemma_run_ends_as_expected(world, Progress::Classifying { declaration });
}

/// The analysis is repeatable: two runs over the same surroundings that have both ended,
/// after however many answers each, have ended with the same result, the same places in the
/// same order.
pub proof fn lemma_analysis_is_repeatable(world: World, target: Position, first: nat, second: nat)
    requires
        outcome(run_for(world, Progress::Resolving { target }, first)) is Some,
        outcome(run_for(world, Progress::Resolving { target }, second)) is Some,
    ensures
        outcome(run_for(world, Progress::Resolving { target }, first)) == outcome(
            run_for(world, Progress::Resolving { target }, second),
        ),
        outcome(run_for(world, Progress::Resolving { target }, first)) == Some(
            analysis(world, target),
        ),
{
    let start = Progress::Resolving { target };
    lemma_run_keeps_expected(world, start, first);
    lemma_run_keeps_expected(world, start, second);
    lemma_outcome_is_expected(world, run_for(world, start, first));
    lemma_outcome_is_expected(world, run_for(world, start, second));
}

/// Searching one file gives the uses in its tree, or fails as its parsing does.
pub proof fn lemma_scan_one_file(world: World, file: Seq<char>, declaration: Position)
    ensures
        scan_files(world, seq![file], declaration) == match (world.parse)(file) {
            Err(failure) => Err::<Seq<Position>, Failure>(failure),
            Ok(tree) => Ok(references(tree, declaration)),
        },
{
    assert(seq![file].drop_first() =~= Seq::<Seq<char>>::empty());
    assert(scan_files(world, Seq::<Seq<char>>::empty(), declaration) == Ok::<
        Seq<Position>,
        Failure,
    >(Seq::empty()));
    match (world.parse)(file) {
        Ok(tree) => {
            assert(references(tree, declaration) + Seq::<Position>::empty() =~= references(
                tree,
                declaration,
            ));
        },
        Err(_) => {},
    }
}

/// A local declaration is searched for in its own file alone: whatever the compile set
/// holds, the uses are those in the tree of the declaration's file.
pub proof fn lemma_local_scope_confined(world: World, declaration: Position, tree: Node)
    requires
        (world.parse)(declaration.filename) == Ok::<Node, Failure>(tree),
        !is_wide_scope(tree, declaration),
    ensures
        uses_of(world, declaration) == Ok::<Seq<Position>, Failure>(references(tree, declaration)),
{
    lemma_scan_one_file(world, declaration.filename, declaration);
}

/// A declaration with file scope is searched for in every file of the compile set, in the
/// compile set's order.
pub proof fn lemma_wide_scope_searches_compile_set(
    world: World,
    declaration: Position,
    tree: Node,
    files: Seq<Seq<char>>,
)
    requires
        (world.parse)(declaration.filename) == Ok::<Node, Failure>(tree),
        is_wide_scope(tree, declaration),
        world.compile_set == Ok::<Seq<Seq<char>>, Failure>(files),
    ensures
        uses_of(world, declaration) == scan_files(world, files, declaration),
{
}

/// Searching two rows of files, one after the other, gives what the first row gives, then
/// what the second gives; it fails where either fails, with the failure that comes first.
pub proof fn lemma_scan_files_concat(
    world: World,
    first: Seq<Seq<char>>,
    second: Seq<Seq<char>>,
    declaration: Position,
)
    ensures
        scan_files(world, first + second, declaration) == match scan_files(
            world,
            first,
            declaration,
        ) {
            Err(failure) => Err(failure),
            Ok(before) => match scan_files(world, second, declaration) {
                Err(failure) => Err(failure),
                Ok(after) => Ok(before + after),
            },
        },
    decreases first.len(),
{
    if first.len() == 0 {
        assert(first + second =~= second);
        match scan_files(world, second, declaration) {
            Ok(after) => {
                assert(Seq::<Position>::empty() + after =~= after);
            },
            Err(_) => {},
        }
    } else {
        assert((first + second)[0] == first[0]);
        assert((first + second).drop_first() =~= first.drop_first() + second);
        lemma_scan_files_concat(world, first.drop_first(), second, declaration);
        match (world.parse)(first[0]) {
            Ok(tree) => {
                match scan_files(world, first.drop_first(), declaration) {
                    Ok(before) => {
                        match scan_files(world, second, declaration) {
                            Ok(after) => {
                                assert(references(tree, declaration) + (before + after) =~= (
                                references(tree, declaration) + before) + after);
                            },
                            Err(_) => {},
                        }
                    },
                    Err(_) => {},
                }
            },
            Err(_) => {},
        }
    }
}

/// No file of the search set is left out: where a search succeeds, every file of the row
/// was parsed, and its uses stand together, in their order, in the result.
pub proof fn lemma_scan_files_covers(
    world: World,
    files: Seq<Seq<char>>,
    declaration: Position,
    index: int,
)
    requires
        0 <= index < files.len(),
        scan_files(world, files, declaration) is Ok,
    ensures
        (world.parse)(files[index]) is Ok,
        exists|start: int|
            0 <= start && start + references(
                (world.parse)(files[index])->Ok_0,
                declaration,
            ).len() <= scan_files(world, files, declaration)->Ok_0.len() && #[trigger] scan_files(
                world,
                files,
                declaration,
            )->Ok_0.subrange(
                start,
                start + references((world.parse)(files[index])->Ok_0, declaration).len(),
            ) == references((world.parse)(files[index])->Ok_0, declaration),
{
    let before = files.take(index);
    let here = seq![files[index]];
    let after = files.skip(index + 1);
    assert(files =~= before + (here + after));
    lemma_scan_files_concat(world, before, here + after, declaration);
    lemma_scan_files_concat(world, here, after, declaration);
    lemma_scan_one_file(world, files[index], declaration);
    let tree = (world.parse)(files[index])->Ok_0;
    let found_before = scan_files(world, before, declaration)->Ok_0;
    let found_here = references(tree, declaration);
    let found_after = scan_files(world, after, declaration)->Ok_0;
    let all = scan_files(world, files, declaration)->Ok_0;
    assert(all == found_before + (found_here + found_after));
    let start = found_before.len() as int;
    assert(all.subrange(start, start + found_here.len()) =~= found_here);
}

/// A declaration with file scope that two files of the compile set use: the search gives
/// the uses in the first file, then those in the second.
pub proof fn lemma_scan_two_files(
    world: World,
    first: Seq<char>,
    second: Seq<char>,
    declaration: Position,
    first_tree: Node,
    second_tree: Node,
)
    requires
        (world.parse)(first) == Ok::<Node, Failure>(first_tree),
        (world.parse)(second) == Ok::<Node, Failure>(second_tree),
    ensures
        scan_files(world, seq![first, second], declaration) == Ok::<Seq<Position>, Failure>(
            references(first_tree, declaration) + references(second_tree, declaration),
        ),
{
    assert(seq![first, second] =~= seq![first] + seq![second]);
    lemma_scan_files_concat(world, seq![first], seq![second], declaration);
    lemma_scan_one_file(world, first, declaration);
    lemma_scan_one_file(world, second, declaration);
}

} // verus!
