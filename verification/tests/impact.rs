use ciana::analysis::{Action, Analysis, Event};
use ciana::project::{analyze_variables, drive, get_same_variables_location, Project, SourceFile};
use ciana::tree::{NodeKind, Reference, TreeNode};
use ciana::{run, CianaError, SourceLocation};

fn at(file: &str, line: u32, column: u32) -> SourceLocation {
    SourceLocation::new(String::from(file), line, column)
}

fn node(
    kind: NodeKind,
    location: Option<SourceLocation>,
    reference: Option<Reference>,
    children: Vec<TreeNode>,
) -> TreeNode {
    TreeNode { kind, location, reference, children }
}

fn variable(place: SourceLocation) -> TreeNode {
    let edge = Some(Reference { to_self: true, location: Some(place.clone()) });
    node(NodeKind::Declaration, Some(place), edge, Vec::new())
}

fn use_of(place: SourceLocation, declaration: SourceLocation) -> TreeNode {
    let edge = Some(Reference { to_self: false, location: Some(declaration) });
    node(NodeKind::Reference, Some(place), edge, Vec::new())
}

fn function(place: SourceLocation, children: Vec<TreeNode>) -> TreeNode {
    let edge = Some(Reference { to_self: true, location: Some(place.clone()) });
    node(NodeKind::Function, Some(place), edge, children)
}

fn unit(children: Vec<TreeNode>) -> TreeNode {
    node(NodeKind::Other, None, None, children)
}

fn file(path: &str, tree: TreeNode) -> SourceFile {
    SourceFile { path: String::from(path), tree: Ok(tree) }
}

fn broken(path: &str, error: clang::SourceError) -> SourceFile {
    SourceFile { path: String::from(path), tree: Err(error) }
}

fn project(files: Vec<SourceFile>, compile_set: Option<&[&str]>) -> Project {
    Project {
        files,
        compile_set: compile_set.map(|names| names.iter().map(|n| String::from(*n)).collect()),
        working_directory: String::from("/work"),
    }
}

// file.c:   int x;            the variable stands at 4:14, before any function
//           int f(void) { return x; }          use at 6:13
// other.c:  extern int x;     at 2:12
//           void g(void) { x = 1; }            use at 10:3
fn file_c() -> TreeNode {
    unit(vec![
        variable(at("file.c", 4, 14)),
        function(at("file.c", 5, 5), vec![use_of(at("file.c", 6, 13), at("file.c", 4, 14))]),
    ])
}

fn other_c() -> TreeNode {
    unit(vec![
        variable(at("other.c", 2, 12)),
        function(at("other.c", 9, 6), vec![use_of(at("other.c", 10, 3), at("file.c", 4, 14))]),
    ])
}

fn two_units(compile_set: &[&str]) -> Project {
    project(vec![file("file.c", file_c()), file("other.c", other_c())], Some(compile_set))
}

// main.c:   int main(void) {
//               int a = 0;              the variable stands at 7:8
//               int b = a + 1;          use at 8:12
//               return helper(a);       use at 10:19
fn main_c() -> TreeNode {
    let file = "test_project/c_variable/src/main.c";
    unit(vec![function(
        at(file, 5, 5),
        vec![
            variable(at(file, 7, 8)),
            use_of(at(file, 8, 12), at(file, 7, 8)),
            use_of(at(file, 10, 19), at(file, 7, 8)),
        ],
    )])
}

fn c_variable() -> Project {
    let func = "test_project/c_variable/src/func.c";
    let sub = "test_project/c_variable/src/subfunc.c";
    let header = "test_project/c_variable/src/subfunc.h";
    let main = "test_project/c_variable/src/main.c";
    let func_c = unit(vec![
        variable(at(header, 2, 5)),
        function(
            at(func, 3, 5),
            vec![
                variable(at(func, 4, 14)),
                use_of(at(func, 6, 13), at(func, 4, 14)),
                use_of(at(func, 6, 28), at(func, 4, 14)),
                use_of(at(func, 8, 3), at(header, 2, 5)),
            ],
        ),
    ]);
    let subfunc_c = unit(vec![
        variable(at(header, 2, 5)),
        function(at(sub, 8, 6), vec![use_of(at(sub, 10, 3), at(header, 2, 5))]),
    ]);
    let subfunc_h = unit(vec![variable(at(header, 2, 5))]);
    project(
        vec![
            file(func, func_c),
            file(sub, subfunc_c),
            file(header, subfunc_h),
            file(main, main_c()),
        ],
        Some(&[
            "/work/test_project/c_variable/src/func.c",
            "/work/test_project/c_variable/src/subfunc.c",
        ]),
    )
}

#[test]
fn test_analyze_variables_from_global_variable() {
    let target = at("test_project/c_variable/src/func.c", 8, 3);
    let result = analyze_variables(&c_variable(), &target);
    let expect = vec![
        at("test_project/c_variable/src/func.c", 8, 3),
        at("test_project/c_variable/src/subfunc.c", 10, 3),
    ];
    assert_eq!(result, Ok(expect));
}

#[test]
fn uses_of_a_local_variable_from_its_declaration() {
    let declaration = at("test_project/c_variable/src/main.c", 7, 8);
    let result = get_same_variables_location(&c_variable(), &declaration);
    let expect = vec![
        at("test_project/c_variable/src/main.c", 8, 12),
        at("test_project/c_variable/src/main.c", 10, 19),
    ];
    assert_eq!(result.unwrap(), expect);
}

#[test]
fn analysis_at_a_declaration_has_no_target() {
    let declaration = at("test_project/c_variable/src/main.c", 7, 8);
    assert_eq!(analyze_variables(&c_variable(), &declaration), Err(CianaError::NoTarget));
    let units = two_units(&["file.c", "other.c"]);
    assert_eq!(run(at("file.c", 4, 14), &units), Err(CianaError::NoTarget));
}

#[test]
fn test_get_same_variable_location() {
    let target = at("test_project/c_variable/src/func.c", 4, 14);
    let result = get_same_variables_location(&c_variable(), &target);
    let expect = vec![
        at("test_project/c_variable/src/func.c", 6, 13),
        at("test_project/c_variable/src/func.c", 6, 28),
    ];
    assert_eq!(result, Ok(expect));
}

#[test]
fn uses_of_a_local_variable_from_a_use() {
    let target = at("test_project/c_variable/src/main.c", 10, 19);
    let result = run(target, &c_variable());
    let expect = vec![
        at("test_project/c_variable/src/main.c", 8, 12),
        at("test_project/c_variable/src/main.c", 10, 19),
    ];
    assert_eq!(result.unwrap(), expect);
}

#[test]
fn global_variable_of_two_units() {
    let expect = vec![at("file.c", 6, 13), at("other.c", 10, 3)];
    let units = two_units(&["file.c", "other.c"]);
    assert_eq!(run(at("file.c", 6, 13), &units).unwrap(), expect);
    assert_eq!(run(at("other.c", 10, 3), &units).unwrap(), expect);
    assert_eq!(get_same_variables_location(&units, &at("file.c", 4, 14)).unwrap(), expect);
}

#[test]
fn results_come_in_the_order_of_the_compile_set() {
    let units = two_units(&["other.c", "file.c"]);
    let expect = vec![at("other.c", 10, 3), at("file.c", 6, 13)];
    assert_eq!(run(at("file.c", 6, 13), &units).unwrap(), expect);
}

#[test]
fn only_the_compile_set_is_searched_for_a_global_variable() {
    let units = two_units(&["other.c"]);
    assert_eq!(run(at("file.c", 6, 13), &units).unwrap(), vec![at("other.c", 10, 3)]);
    let units = two_units(&[]);
    assert_eq!(run(at("file.c", 6, 13), &units).unwrap(), Vec::new());
}

#[test]
fn a_file_listed_twice_is_searched_twice() {
    let units = two_units(&["file.c", "file.c"]);
    let expect = vec![at("file.c", 6, 13), at("file.c", 6, 13)];
    assert_eq!(run(at("file.c", 6, 13), &units).unwrap(), expect);
}

#[test]
fn compile_set_names_are_made_relative_to_the_working_directory() {
    let units = two_units(&["/work/file.c", "/work/other.c"]);
    let expect = vec![at("file.c", 6, 13), at("other.c", 10, 3)];
    assert_eq!(run(at("file.c", 6, 13), &units).unwrap(), expect);
}

#[test]
fn local_variable_stays_in_its_file() {
    let local = unit(vec![function(
        at("file.c", 1, 5),
        vec![
            variable(at("file.c", 2, 9)),
            use_of(at("file.c", 3, 5), at("file.c", 2, 9)),
            use_of(at("file.c", 4, 12), at("file.c", 2, 9)),
        ],
    )]);
    let stray = unit(vec![use_of(at("other.c", 7, 7), at("file.c", 2, 9))]);
    let units = project(
        vec![file("file.c", local), file("other.c", stray)],
        Some(&["file.c", "other.c"]),
    );
    let expect = vec![at("file.c", 3, 5), at("file.c", 4, 12)];
    assert_eq!(run(at("file.c", 4, 12), &units).unwrap(), expect);
    assert_eq!(get_same_variables_location(&units, &at("file.c", 2, 9)).unwrap(), expect);
}

#[test]
fn local_variable_needs_no_compile_set() {
    let units = project(vec![file("test_project/c_variable/src/main.c", main_c())], None);
    let expect = vec![
        at("test_project/c_variable/src/main.c", 8, 12),
        at("test_project/c_variable/src/main.c", 10, 19),
    ];
    assert_eq!(run(at("test_project/c_variable/src/main.c", 8, 12), &units).unwrap(), expect);
}

#[test]
fn declaration_without_uses_gives_an_empty_result() {
    let lonely = unit(vec![variable(at("file.c", 1, 5))]);
    let units = project(vec![file("file.c", lonely)], Some(&["file.c"]));
    let result = get_same_variables_location(&units, &at("file.c", 1, 5));
    assert_eq!(result.unwrap(), Vec::new());
}

#[test]
fn analysis_twice_gives_the_same() {
    let units = two_units(&["file.c", "other.c"]);
    let first = run(at("file.c", 6, 13), &units).unwrap();
    let second = run(at("file.c", 6, 13), &units).unwrap();
    assert_eq!(first, second);
    assert_eq!(first, vec![at("file.c", 6, 13), at("other.c", 10, 3)]);
}

#[test]
fn no_target_ends_the_analysis() {
    let units = two_units(&["file.c", "other.c"]);
    assert!(matches!(run(at("file.c", 1, 1), &units), Err(CianaError::NoTarget)));
    assert!(matches!(run(at("file.c", 99, 99), &units), Err(CianaError::NoTarget)));
    let bare = node(NodeKind::Declaration, Some(at("bare.c", 1, 5)), None, Vec::new());
    let units = project(vec![file("bare.c", unit(vec![bare]))], Some(&["bare.c"]));
    assert!(matches!(run(at("bare.c", 1, 5), &units), Err(CianaError::NoTarget)));
}

#[test]
fn a_file_that_is_not_there_cannot_be_read() {
    let units = two_units(&["file.c", "other.c"]);
    assert!(matches!(run(at("missing.c", 1, 1), &units), Err(CianaError::IoError)));
    let units = two_units(&["file.c", "missing.c"]);
    assert!(matches!(run(at("file.c", 6, 13), &units), Err(CianaError::IoError)));
}

#[test]
fn a_file_that_does_not_parse_fails_the_whole_analysis() {
    let units = project(
        vec![file("file.c", file_c()), broken("other.c", clang::SourceError::Crash)],
        Some(&["file.c", "other.c"]),
    );
    let result = run(at("file.c", 6, 13), &units);
    assert!(matches!(result, Err(CianaError::Source(clang::SourceError::Crash))));
    let result = run(at("other.c", 10, 3), &units);
    assert!(matches!(result, Err(CianaError::Source(clang::SourceError::Crash))));
}

#[test]
fn the_first_failure_is_the_one_reported() {
    let units = project(
        vec![
            file("file.c", file_c()),
            broken("b.c", clang::SourceError::AstDeserialization),
            broken("c.c", clang::SourceError::Unknown),
        ],
        Some(&["file.c", "b.c", "c.c"]),
    );
    let result = run(at("file.c", 6, 13), &units);
    assert!(matches!(result, Err(CianaError::Source(clang::SourceError::AstDeserialization))));
}

#[test]
fn global_variable_without_compile_set_is_an_error() {
    let units = project(vec![file("file.c", file_c())], None);
    match run(at("file.c", 6, 13), &units) {
        Err(CianaError::Message(text)) => assert_eq!(text, "CompilationDatabase Open Error"),
        other => panic!("{:?}", other),
    }
}

#[test]
fn the_first_file_of_a_name_counts() {
    let units = project(
        vec![file("file.c", file_c()), file("file.c", unit(Vec::new()))],
        Some(&["file.c"]),
    );
    assert_eq!(run(at("file.c", 6, 13), &units).unwrap(), vec![at("file.c", 6, 13)]);
}

#[test]
fn project_hands_out_trees_and_compile_set() {
    let units = two_units(&["/work/file.c", "/elsewhere/other.c"]);
    assert!(units.parse(&String::from("file.c")).is_ok());
    assert!(matches!(units.parse(&String::from("nothing.c")), Err(CianaError::IoError)));
    let names = units.compile_set().unwrap();
    assert_eq!(names, vec![String::from("file.c"), String::from("/elsewhere/other.c")]);
}

#[test]
fn machine_step_by_step() {
    let first = file_c();
    let second = other_c();
    let machine = Analysis::new(at("file.c", 6, 13));
    assert!(matches!(machine.action(), Action::Parse(path) if path == "file.c"));
    let machine = machine.step(Event::Parsed(Ok(&first)));
    assert!(matches!(machine.action(), Action::Parse(path) if path == "file.c"));
    let machine = machine.step(Event::Parsed(Ok(&first)));
    assert!(matches!(machine.action(), Action::EnumerateCompileSet));
    let names = vec![String::from("other.c"), String::from("file.c")];
    let machine = machine.step(Event::CompileSet(Ok(names)));
    assert!(matches!(machine.action(), Action::Parse(path) if path == "other.c"));
    let machine = machine.step(Event::Parsed(Ok(&second)));
    assert!(matches!(machine.action(), Action::Parse(path) if path == "file.c"));
    let machine = machine.step(Event::Parsed(Ok(&first)));
    assert!(matches!(machine.action(), Action::Stop));
    let result = machine.result().unwrap().unwrap();
    assert_eq!(result, vec![at("other.c", 10, 3), at("file.c", 6, 13)]);
}

#[test]
fn machine_has_no_result_before_its_end() {
    assert!(Analysis::new(at("file.c", 6, 13)).result().is_none());
    assert!(Analysis::of_declaration(at("file.c", 4, 14)).result().is_none());
    let tree = file_c();
    let machine = Analysis::of_declaration(at("file.c", 4, 14)).step(Event::Parsed(Ok(&tree)));
    assert!(matches!(machine.action(), Action::EnumerateCompileSet));
    assert!(machine.result().is_none());
}

#[test]
fn machine_leaves_aside_what_it_did_not_ask_for() {
    let tree = file_c();
    let machine = Analysis::new(at("file.c", 6, 13));
    let machine = machine.step(Event::CompileSet(Ok(vec![String::from("other.c")])));
    assert!(matches!(machine.action(), Action::Parse(path) if path == "file.c"));
    let machine = machine.step(Event::CompileSet(Err(CianaError::IoError)));
    assert!(matches!(machine.action(), Action::Parse(path) if path == "file.c"));
    let machine = machine.step(Event::Parsed(Ok(&tree))).step(Event::Parsed(Ok(&tree)));
    assert!(matches!(machine.action(), Action::EnumerateCompileSet));
    let machine = machine.step(Event::Parsed(Ok(&tree)));
    assert!(matches!(machine.action(), Action::EnumerateCompileSet));
    let machine = machine.step(Event::CompileSet(Ok(Vec::new())));
    assert!(matches!(machine.action(), Action::Stop));
    let machine = machine.step(Event::Parsed(Ok(&tree)));
    let machine = machine.step(Event::Parsed(Err(CianaError::IoError)));
    assert_eq!(machine.result().unwrap().unwrap(), Vec::new());
}

#[test]
fn machine_ends_with_the_failure_it_is_given() {
    let tree = file_c();
    let machine = Analysis::new(at("file.c", 6, 13));
    let machine = machine.step(Event::Parsed(Err(CianaError::Message(String::from("no parser")))));
    assert!(matches!(machine.action(), Action::Stop));
    let machine = machine.step(Event::Parsed(Ok(&tree)));
    match machine.result() {
        Some(Err(CianaError::Message(text))) => assert_eq!(text, "no parser"),
        other => panic!("{:?}", other),
    }
    let machine = Analysis::of_declaration(at("file.c", 4, 14)).step(Event::Parsed(Ok(&tree)));
    let machine = machine.step(Event::CompileSet(Err(CianaError::IoError)));
    assert!(matches!(machine.result(), Some(Err(CianaError::IoError))));
    let machine = Analysis::of_declaration(at("file.c", 4, 14));
    let machine = machine.step(Event::Parsed(Err(CianaError::Source(clang::SourceError::Unknown))));
    assert!(matches!(
        machine.result(),
        Some(Err(CianaError::Source(clang::SourceError::Unknown)))
    ));
}

#[test]
fn driving_a_machine_that_is_under_way() {
    let units = two_units(&["file.c", "other.c"]);
    let tree = file_c();
    let machine = Analysis::new(at("file.c", 6, 13)).step(Event::Parsed(Ok(&tree)));
    let expect = vec![at("file.c", 6, 13), at("other.c", 10, 3)];
    assert_eq!(drive(&units, machine).unwrap(), expect);
}
