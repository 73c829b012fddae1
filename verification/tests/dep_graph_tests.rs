use sourceror::dep_graph::{BuildAction, DepSite, Graph, GraphBuilder, GraphNode};
use sourceror::error::{DepError, FetcherError, ImportsParseError};
use sourceror::log::{CompileMessage, Position, Severity, SourceLocation};

fn site(line: i32, candidates: &[&str]) -> DepSite {
    DepSite {
        candidates: candidates.iter().map(|s| s.to_string()).collect(),
        location: SourceLocation {
            file: Some("root.js".to_string()),
            start: Position { line, column: 0 },
            end: Position { line, column: 9 },
        },
    }
}

fn fetch_error(message: FetcherError) -> CompileMessage<FetcherError> {
    CompileMessage {
        location: SourceLocation {
            file: None,
            start: Position { line: 0, column: 0 },
            end: Position { line: 0, column: 0 },
        },
        severity: Severity::Error,
        message,
    }
}

/// Runs the builder against a table of modules: each module has a name and
/// the names that it imports.
fn build(root_deps: &[&str], modules: &[(&str, &[&str])]) -> Result<Graph<String>, CompileMessage<DepError>> {
    let sites = |deps: &[&str]| deps.iter().enumerate().map(|(i, d)| site(i as i32 + 1, &[d])).collect();
    let mut builder = GraphBuilder::new("root".to_string(), sites(root_deps));
    loop {
        match builder.next_action() {
            BuildAction::Done => return Ok(builder.into_graph()),
            BuildAction::Failed(e) => return Err(e),
            BuildAction::Proceed => {}
            BuildAction::Fetch { name, .. } => match modules.iter().find(|(n, _)| *n == name) {
                Some((n, deps)) => builder.fetched(n.to_string(), sites(deps)),
                None => {
                    if let Some(e) = builder.fetch_failed(fetch_error(FetcherError::FetchError(name))) {
                        return Err(e);
                    }
                }
            },
        }
    }
}

fn assert_topological(graph: &Graph<String>) {
    for (i, node) in graph.nodes.iter().enumerate() {
        for d in &node.deps {
            assert!(*d < i);
        }
    }
}

#[test]
fn root_without_imports_is_the_only_module() {
    let graph = build(&[], &[]).unwrap();
    assert_eq!(graph.nodes.len(), 1);
    assert_eq!(graph.nodes[0].content, "root");
    assert_eq!(graph.nodes[0].name, None);
    assert!(graph.nodes[0].deps.is_empty());
}

#[test]
fn imported_module_comes_before_the_module_that_imports_it() {
    // B imports A, the root imports B
    let graph = build(&["B"], &[("A", &[]), ("B", &["A"])]).unwrap();
    let names: Vec<Option<&str>> = graph.nodes.iter().map(|n| n.name.as_deref()).collect();
    assert_eq!(names, vec![Some("A"), Some("B"), None]);
    assert_eq!(graph.nodes[1].deps, vec![0]);
    assert_eq!(graph.nodes[2].deps, vec![1]);
    assert_topological(&graph);
}

#[test]
fn module_imported_twice_is_fetched_once() {
    // a diamond: the root imports B and C, which both import A
    let graph = build(&["B", "C"], &[("A", &[]), ("B", &["A"]), ("C", &["A"])]).unwrap();
    let names: Vec<Option<&str>> = graph.nodes.iter().map(|n| n.name.as_deref()).collect();
    assert_eq!(names, vec![Some("A"), Some("B"), Some("C"), None]);
    assert_eq!(graph.nodes[2].deps, vec![0]);
    assert_eq!(graph.nodes[3].deps, vec![1, 2]);
    assert_topological(&graph);
}

#[test]
fn cycle_fails_with_a_graph_error_at_the_import() {
    // A imports B, B imports A
    let mut builder = GraphBuilder::new(
        "root".to_string(),
        vec![site(1, &["A"])],
    );
    assert!(matches!(builder.next_action(), BuildAction::Fetch { name, .. } if name == "A"));
    builder.fetched("A".to_string(), vec![site(10, &["B"])]);
    assert!(matches!(builder.next_action(), BuildAction::Fetch { name, .. } if name == "B"));
    builder.fetched("B".to_string(), vec![site(20, &["A"])]);
    match builder.next_action() {
        BuildAction::Failed(e) => {
            assert!(matches!(e.message, DepError::Graph(_)));
            assert_eq!(e.location.start.line, 20);
        }
        _ => panic!("the cycle was not found"),
    }
    // the cache knows both names as being built
    assert_eq!(builder.cache, vec![("A".to_string(), None), ("B".to_string(), None)]);
    assert_eq!(builder.node_count(), 0);
}

#[test]
fn module_that_imports_itself_is_a_cycle() {
    let err = build(&["A"], &[("A", &["A"])]).unwrap_err();
    assert!(matches!(err.message, DepError::Graph(_)));
}

#[test]
fn next_candidate_is_tried_after_a_fetch_error() {
    let mut builder = GraphBuilder::new(
        "root".to_string(),
        vec![site(1, &["./x", "./x.js", "./x/index.js"])],
    );
    assert!(matches!(builder.next_action(), BuildAction::Fetch { name, .. } if name == "./x"));
    assert!(builder.fetch_failed(fetch_error(FetcherError::FetchError("404".to_string()))).is_none());
    assert!(matches!(builder.next_action(), BuildAction::Fetch { name, .. } if name == "./x.js"));
    assert!(builder
        .fetch_failed(fetch_error(FetcherError::ESTreeParseError("not a tree".to_string())))
        .is_none());
    assert!(matches!(builder.next_action(), BuildAction::Fetch { name, .. } if name == "./x/index.js"));
    builder.fetched("x".to_string(), vec![]);
    assert!(matches!(builder.next_action(), BuildAction::Proceed));
    assert!(matches!(builder.next_action(), BuildAction::Proceed));
    assert!(matches!(builder.next_action(), BuildAction::Done));
    let graph = builder.into_graph();
    assert_eq!(graph.nodes[0].name.as_deref(), Some("./x/index.js"));
    assert_eq!(graph.nodes[1].deps, vec![0]);
}

#[test]
fn last_error_is_reported_when_every_candidate_fails() {
    let mut builder = GraphBuilder::new("root".to_string(), vec![site(1, &["./x", "./x.js"])]);
    assert!(matches!(builder.next_action(), BuildAction::Fetch { .. }));
    assert!(builder.fetch_failed(fetch_error(FetcherError::FetchError("first".to_string()))).is_none());
    assert!(matches!(builder.next_action(), BuildAction::Fetch { .. }));
    assert!(builder.fetch_failed(fetch_error(FetcherError::FetchError("second".to_string()))).is_none());
    match builder.next_action() {
        BuildAction::Failed(e) => match e.message {
            DepError::Fetcher(FetcherError::FetchError(m)) => assert_eq!(m, "second"),
            _ => panic!("not the error of the fetcher"),
        },
        _ => panic!("the build went on"),
    }
}

#[test]
fn other_fetcher_errors_fail_the_build_at_once() {
    let mut builder = GraphBuilder::new("root".to_string(), vec![site(1, &["./x", "./x.js"])]);
    assert!(matches!(builder.next_action(), BuildAction::Fetch { .. }));
    let failure = builder
        .fetch_failed(fetch_error(FetcherError::ImportsParseError(ImportsParseError::InvalidHeader)))
        .unwrap();
    assert!(matches!(
        failure.message,
        DepError::Fetcher(FetcherError::ImportsParseError(ImportsParseError::InvalidHeader))
    ));
}

#[test]
fn traversal_goes_in_the_order_of_the_graph() {
    let graph = build(&["B"], &[("A", &[]), ("B", &["A"])]).unwrap();
    let order = graph.topological_traverse();
    let seen: Vec<(&str, Option<&str>)> = order.iter().map(|(t, n)| (t.as_str(), *n)).collect();
    assert_eq!(seen, vec![("A", Some("A")), ("B", Some("B")), ("root", None)]);
}

#[test]
fn folding_traversal_hands_on_the_states_of_the_imports() {
    // the state of a module is the number of modules that it needs, itself
    // and those that are needed twice counted
    let graph = build(&["B", "C"], &[("A", &[]), ("B", &["A"]), ("C", &["A"])]).unwrap();
    let log = std::cell::RefCell::new(Vec::new());
    let result: Result<(), String> = graph.topological_traverse_state_into(
        |i: usize, deps: Vec<&usize>, content: String, name: Option<String>| {
            let state = 1 + deps.iter().map(|d| **d).sum::<usize>();
            log.borrow_mut().push((i, content, name, state));
            Ok(state)
        },
    );
    assert_eq!(result, Ok(()));
    assert_eq!(
        log.into_inner(),
        vec![
            (0, "A".to_string(), Some("A".to_string()), 1),
            (1, "B".to_string(), Some("B".to_string()), 2),
            (2, "C".to_string(), Some("C".to_string()), 2),
            (3, "root".to_string(), None, 5),
        ]
    );
}

#[test]
fn folding_traversal_stops_at_the_first_error() {
    let graph = Graph {
        nodes: vec![
            GraphNode { deps: vec![], content: 1u32, name: Some("a".to_string()) },
            GraphNode { deps: vec![0], content: 2u32, name: Some("b".to_string()) },
            GraphNode { deps: vec![1], content: 3u32, name: None },
        ],
    };
    let visited = std::cell::Cell::new(0);
    let result = graph.topological_traverse_state_into(
        |i: usize, _deps: Vec<&u32>, content: u32, _name: Option<String>| {
            visited.set(visited.get() + 1);
            if i == 1 {
                Err(content)
            } else {
                Ok(content)
            }
        },
    );
    assert_eq!(result, Err(2));
    assert_eq!(visited.get(), 2);
}

#[test]
fn failed_build_says_the_same_when_it_is_asked_again() {
    let mut builder = GraphBuilder::new("root".to_string(), vec![site(4, &["./x"])]);
    assert!(matches!(builder.next_action(), BuildAction::Fetch { .. }));
    let mut error = fetch_error(FetcherError::ESTreeParseError("no tree".to_string()));
    error.location.start.line = 17;
    assert!(builder.fetch_failed(error).is_none());
    for _ in 0..2 {
        match builder.next_action() {
            BuildAction::Failed(e) => {
                assert_eq!(e.location.start.line, 17);
                match e.message {
                    DepError::Fetcher(FetcherError::ESTreeParseError(m)) => assert_eq!(m, "no tree"),
                    _ => panic!("not the error that was remembered"),
                }
            }
            _ => panic!("the build went on"),
        }
        assert_eq!(builder.node_count(), 0);
        assert!(!builder.done());
    }
}

#[test]
fn import_without_candidates_fails_at_its_place() {
    let mut builder = GraphBuilder::new("root".to_string(), vec![site(6, &[])]);
    match builder.next_action() {
        BuildAction::Failed(e) => {
            assert_eq!(e.location.start.line, 6);
            assert_eq!(e.location.file.as_deref(), Some("root.js"));
            match e.message {
                DepError::Fetcher(FetcherError::FetchError(m)) => assert_eq!(m, ""),
                _ => panic!("not a fetch error"),
            }
        }
        _ => panic!("the build went on"),
    }
}

#[test]
fn error_of_an_earlier_import_is_forgotten_at_the_next() {
    // the first import is found under its second name; the second import
    // has no module at all
    let mut builder =
        GraphBuilder::new("root".to_string(), vec![site(1, &["./x", "./x.js"]), site(2, &["./y"])]);
    assert!(matches!(builder.next_action(), BuildAction::Fetch { name, .. } if name == "./x"));
    assert!(builder.fetch_failed(fetch_error(FetcherError::FetchError("x".to_string()))).is_none());
    assert!(matches!(builder.next_action(), BuildAction::Fetch { name, .. } if name == "./x.js"));
    builder.fetched("x".to_string(), vec![]);
    assert!(matches!(builder.next_action(), BuildAction::Proceed));
    assert_eq!(builder.node_count(), 1);
    assert!(matches!(builder.next_action(), BuildAction::Fetch { name, .. } if name == "./y"));
    assert!(builder.fetch_failed(fetch_error(FetcherError::FetchError("y".to_string()))).is_none());
    match builder.next_action() {
        BuildAction::Failed(e) => match e.message {
            DepError::Fetcher(FetcherError::FetchError(m)) => assert_eq!(m, "y"),
            _ => panic!("not the error of the fetcher"),
        },
        _ => panic!("the build went on"),
    }
}

#[test]
fn cycle_is_found_while_the_repeated_module_is_at_work() {
    // A imports B, B imports A
    let mut builder = GraphBuilder::new("root".to_string(), vec![site(1, &["A"])]);
    assert!(matches!(builder.next_action(), BuildAction::Fetch { name, .. } if name == "A"));
    builder.fetched("a".to_string(), vec![site(2, &["B"])]);
    assert!(matches!(builder.next_action(), BuildAction::Fetch { name, .. } if name == "B"));
    builder.fetched("b".to_string(), vec![site(3, &["A"])]);
    match builder.next_action() {
        BuildAction::Failed(e) => {
            assert!(matches!(e.message, DepError::Graph(_)));
            assert_eq!(e.location.start.line, 3);
        }
        _ => panic!("the cycle was not found"),
    }
    // the cache knows both modules as being built
    let a = builder.cache.iter().find(|(n, _)| n == "A").unwrap();
    assert_eq!(a.1, None);
    let b = builder.cache.iter().find(|(n, _)| n == "B").unwrap();
    assert_eq!(b.1, None);
    assert_eq!(builder.node_count(), 0);
}

#[test]
fn walk_carries_a_value_from_module_to_module() {
    // each module takes as many globals as its name is long; the value
    // that is carried along is the number of globals so far
    let graph = build(&["B", "CC"], &[("A", &[]), ("B", &["A"]), ("CC", &["A"])]).unwrap();
    let result: Result<usize, String> = graph.topological_traverse_state_into_with(
        10usize,
        |globals: usize, i: usize, deps: Vec<&(usize, usize)>, content: String, _name: Option<String>| {
            // the state of a module: where its globals start, and its position
            for d in deps.iter() {
                assert!(d.1 < i);
                assert!(d.0 < globals);
            }
            Ok((globals + content.len(), (globals, i)))
        },
    );
    assert_eq!(result, Ok(10 + 1 + 1 + 2 + 4));
}

#[test]
fn walk_that_carries_a_value_stops_at_the_first_error() {
    let graph = build(&["B"], &[("A", &[]), ("B", &["A"])]).unwrap();
    let seen = std::cell::RefCell::new(Vec::new());
    let result: Result<u32, String> = graph.topological_traverse_state_into_with(
        0u32,
        |count: u32, i: usize, _deps: Vec<&()>, content: String, _name: Option<String>| {
            seen.borrow_mut().push((count, i));
            if content == "B" {
                Err(content)
            } else {
                Ok((count + 1, ()))
            }
        },
    );
    assert_eq!(result, Err("B".to_string()));
    assert_eq!(seen.into_inner(), vec![(0, 0), (1, 1)]);
}
