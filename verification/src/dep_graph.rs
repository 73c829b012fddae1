//! The graph of the modules of a program: each module with the modules that
//! it imports, in an order in which every module comes after those that it
//! imports.

use vstd::prelude::*;
use crate::error::{DepError, FetcherError, GraphError, ImportsParseError};
use crate::log::{CompileMessage, Severity, SourceLocation, SourceLocationView};
use crate::text::str_eq;

verus! {

/// A module of the graph: what was fetched for it, under which name, and
/// the positions in the graph of the modules that it imports.
#[derive(Debug)]
pub struct GraphNode<T> {
    pub deps: Vec<usize>,
    pub content: T,
    pub name: Option<String>,
}

/// The modules of a program. The module that the others were fetched for,
/// the root, comes last, and has no name.
#[derive(Debug)]
pub struct Graph<T> {
    pub nodes: Vec<GraphNode<T>>,
}

impl<T> Graph<T> {
    /// The invariant of a graph: every module imports modules that come
    /// before it only.
    pub open spec fn wf(&self) -> bool {
        forall|i: int, k: int|
            0 <= i < self.nodes@.len() && 0 <= k < self.nodes@[i].deps@.len() ==> (
            #[trigger] self.nodes@[i].deps@[k]) < i
    }

    /// The number of modules.
    pub fn len(&self) -> (n: usize)
        ensures
            n == self.nodes@.len(),
    {
        self.nodes.len()
    }

    /// The modules in the order of the graph, each with its name: an order
    /// in which every module comes after those that it imports.
    pub fn topological_traverse(&self) -> (order: Vec<(&T, Option<&str>)>)
        ensures
            order@.len() == self.nodes@.len(),
            forall|i: int|
                0 <= i < order@.len() ==> {
                    &&& *(#[trigger] order@[i]).0 == self.nodes@[i].content
                    &&& crate::log::opt_str_view(order@[i].1) == crate::log::opt_string_view(
                        self.nodes@[i].name,
                    )
                },
    {
        let mut order: Vec<(&T, Option<&str>)> = Vec::new();
        let mut i: usize = 0;
        while i < self.nodes.len()
            invariant
                i <= self.nodes@.len(),
                order@.len() == i,
                forall|j: int|
                    0 <= j < i ==> {
                        &&& *(#[trigger] order@[j]).0 == self.nodes@[j].content
                        &&& crate::log::opt_str_view(order@[j].1) == crate::log::opt_string_view(
                            self.nodes@[j].name,
                        )
                    },
            decreases self.nodes@.len() - i,
        {
            let node = &self.nodes[i];
            let name: Option<&str> = match &node.name {
                Some(s) => Some(s.as_str()),
                None => None,
            };
            order.push((&node.content, name));
            i = i + 1;
        }
        order
    }

    /// Goes through the modules in the order of the graph, consuming them.
    /// For each module `f` gets its position, the states that it gave for
    /// the modules that this one imports, the module and its name, and
    /// gives the state of the module. The first error of `f` ends the walk.
    pub fn topological_traverse_state_into<
        S,
        E,
        F: Fn(usize, Vec<&S>, T, Option<String>) -> Result<S, E>,
    >(self, f: F) -> (result: Result<(), E>)
        requires
            self.wf(),
            forall|i: usize, deps: Vec<&S>, t: T, name: Option<String>|
                handed(f, self.nodes@, i, deps, t, name) ==> #[trigger] call_requires(
                    f,
                    (i, deps, t, name),
                ),
        ensures
            match result {
                Ok(_) => exists|states: Seq<S>|
                    states.len() == self.nodes@.len() && forall|i: int|
                        0 <= i < states.len() ==> #[trigger] visited(
                            f,
                            self.nodes@,
                            states,
                            i,
                            Ok(states[i]),
                        ),
                Err(e) => exists|states: Seq<S>|
                    states.len() < self.nodes@.len() && visited(
                        f,
                        self.nodes@,
                        states,
                        states.len() as int,
                        Err(e),
                    ) && forall|i: int|
                        0 <= i < states.len() ==> #[trigger] visited(
                            f,
                            self.nodes@,
                            states,
                            i,
                            Ok(states[i]),
                        ),
            },
    {
        let ghost nodes = self.nodes@;
        let count = self.nodes.len();
        let mut states: Vec<S> = Vec::new();
        let mut i: usize = 0;
        for node in it: self.nodes
            invariant
                count == nodes.len(),
                i == it.index,
                it.seq() == nodes,
                self.wf(),
                nodes == self.nodes@,
                states@.len() == i,
                forall|i: usize, deps: Vec<&S>, t: T, name: Option<String>|
                    handed(f, nodes, i, deps, t, name) ==> #[trigger] call_requires(
                        f,
                        (i, deps, t, name),
                    ),
                forall|j: int|
                    0 <= j < i ==> #[trigger] visited(f, nodes, states@, j, Ok(states@[j])),
        {
            assert(node == nodes[i as int]);
            assert(i < count);
            let mut depstates: Vec<&S> = Vec::new();
            let mut k: usize = 0;
            while k < node.deps.len()
                invariant
                    k <= node.deps@.len(),
                    node == nodes[i as int],
                    0 <= i < nodes.len(),
                    self.wf(),
                    nodes == self.nodes@,
                    states@.len() == i,
                    depstates@.len() == k,
                    forall|j: int|
                        0 <= j < k ==> node.deps@[j] < states@.len() && *(#[trigger] depstates@[j])
                            == states@[node.deps@[j] as int],
                    forall|j: int|
                        0 <= j < i ==> #[trigger] visited(f, nodes, states@, j, Ok(states@[j])),
                decreases node.deps@.len() - k,
            {
                let d = node.deps[k];
                assert(self.nodes@[i as int].deps@[k as int] < i);
                depstates.push(&states[d]);
                k = k + 1;
            }
            let ghost before = states@;
            let ghost given = depstates;
            proof {
                assert forall|j: int| 0 <= j < given@.len() implies (#[trigger] nodes[i as int].deps@[j])
                    < i && gave(f, nodes, nodes[i as int].deps@[j] as int, *given@[j]) by {
                    let d = nodes[i as int].deps@[j] as int;
                    assert(*given@[j] == before[d]);
                    assert(visited(f, nodes, before, d, Ok(before[d])));
                }
            }
            let r = f(i, depstates, node.content, node.name);
            assert(deps_match(given@, nodes[i as int].deps@, before));
            assert(visited(f, nodes, before, i as int, r));
            match r {
                Ok(s) => {
                    states.push(s);
                    proof {
                        assert forall|j: int| 0 <= j <= i implies #[trigger] visited(
                            f,
                            nodes,
                            states@,
                            j,
                            Ok(states@[j]),
                        ) by {
                            lemma_visited_extends(f, nodes, before, s, j, Ok(states@[j]));
                        }
                    }
                },
                Err(e) => {
                    return Err(e);
                },
            }
            i = i + 1;
        }
        assert(states@.len() == nodes.len());
        Ok(())
    }

    /// Like `topological_traverse_state_into`, for a walk that carries a
    /// value along: `f` gets the value first, beside what it gets in the
    /// other walk, and gives it back beside the state of the module. The
    /// first call gets `start`, every later call what the call before it
    /// gave back, and the walk gives what the last call gave back.
    pub fn topological_traverse_state_into_with<
        A,
        S,
        E,
        F: Fn(A, usize, Vec<&S>, T, Option<String>) -> Result<(A, S), E>,
    >(self, start: A, f: F) -> (result: Result<A, E>)
        requires
            self.wf(),
            forall|carried: A, i: usize, deps: Vec<&S>, t: T, name: Option<String>|
                handed_with(f, self.nodes@, start, carried, i, deps, t, name)
                    ==> #[trigger] call_requires(f, (carried, i, deps, t, name)),
        ensures
            match result {
                Ok(last) => exists|states: Seq<S>, carried: Seq<A>|
                    {
                        &&& states.len() == self.nodes@.len()
                        &&& #[trigger] walked(f, self.nodes@, start, states, carried)
                        &&& carried.last() == last
                    },
                Err(e) => exists|states: Seq<S>, carried: Seq<A>|
                    {
                        &&& states.len() < self.nodes@.len()
                        &&& #[trigger] walked(f, self.nodes@, start, states, carried)
                        &&& visited_with(
                            f,
                            self.nodes@,
                            states,
                            states.len() as int,
                            carried.last(),
                            Err(e),
                        )
                    },
            },
    {
        let ghost nodes = self.nodes@;
        let count = self.nodes.len();
        let mut states: Vec<S> = Vec::new();
        let mut current = start;
        let ghost mut carried: Seq<A> = seq![start];
        let mut i: usize = 0;
        for node in it: self.nodes
            invariant
                count == nodes.len(),
                i == it.index,
                it.seq() == nodes,
                self.wf(),
                nodes == self.nodes@,
                states@.len() == i,
                carried.last() == current,
                walked(f, nodes, start, states@, carried),
                forall|carried: A, i: usize, deps: Vec<&S>, t: T, name: Option<String>|
                    handed_with(f, nodes, start, carried, i, deps, t, name)
                        ==> #[trigger] call_requires(f, (carried, i, deps, t, name)),
        {
            assert(node == nodes[i as int]);
            assert(i < count);
            let mut depstates: Vec<&S> = Vec::new();
            let mut k: usize = 0;
            while k < node.deps.len()
                invariant
                    k <= node.deps@.len(),
                    node == nodes[i as int],
                    0 <= i < nodes.len(),
                    self.wf(),
                    nodes == self.nodes@,
                    states@.len() == i,
                    depstates@.len() == k,
                    forall|j: int|
                        0 <= j < k ==> node.deps@[j] < states@.len() && *(#[trigger] depstates@[j])
                            == states@[node.deps@[j] as int],
                decreases node.deps@.len() - k,
            {
                let d = node.deps[k];
                assert(self.nodes@[i as int].deps@[k as int] < i);
                depstates.push(&states[d]);
                k = k + 1;
            }
            let ghost before = states@;
            let ghost given = depstates;
            let ghost had = current;
            proof {
                assert forall|j: int| 0 <= j < given@.len() implies (#[trigger] nodes[i as int].deps@[j])
                    < i && gave_with(f, nodes, nodes[i as int].deps@[j] as int, *given@[j]) by {
                    let d = nodes[i as int].deps@[j] as int;
                    assert(*given@[j] == before[d]);
                    assert(visited_with(
                        f,
                        nodes,
                        before,
                        d,
                        carried[d],
                        Ok((carried[d + 1], before[d])),
                    ));
                }
                if i > 0 {
                    let p = i - 1;
                    assert(visited_with(f, nodes, before, p, carried[p], Ok((carried[p + 1], before[p]))));
                }
            }
            let r = f(current, i, depstates, node.content, node.name);
            assert(deps_match(given@, nodes[i as int].deps@, before));
            assert(visited_with(f, nodes, before, i as int, had, r));
            match r {
                Ok((next, s)) => {
                    states.push(s);
                    current = next;
                    proof {
                        let earlier = carried;
                        carried = carried.push(next);
                        assert forall|j: int| 0 <= j < states@.len() implies #[trigger] visited_with(
                            f,
                            nodes,
                            states@,
                            j,
                            carried[j],
                            Ok((carried[j + 1], states@[j])),
                        ) by {
                            if j < i {
                                assert(visited_with(
                                    f,
                                    nodes,
                                    before,
                                    j,
                                    earlier[j],
                                    Ok((earlier[j + 1], before[j])),
                                ));
                            }
                            lemma_visited_with_extends(
                                f,
                                nodes,
                                before,
                                s,
                                j,
                                carried[j],
                                Ok((carried[j + 1], states@[j])),
                            );
                        }
                    }
                },
                Err(e) => {
                    return Err(e);
                },
            }
            i = i + 1;
        }
        assert(states@.len() == nodes.len());
        Ok(current)
    }
}

/// Whether `deps` are the states of the modules at the positions
/// `positions`.
pub open spec fn deps_match<S>(deps: Seq<&S>, positions: Seq<usize>, states: Seq<S>) -> bool {
    &&& deps.len() == positions.len()
    &&& forall|j: int|
        0 <= j < deps.len() ==> (#[trigger] positions[j]) < states.len() && *deps[j]
            == states[positions[j] as int]
}

/// Whether `f` gave the state `s` for the module at position `k`.
pub open spec fn gave<T, S, E, F: Fn(usize, Vec<&S>, T, Option<String>) -> Result<S, E>>(
    f: F,
    nodes: Seq<GraphNode<T>>,
    k: int,
    s: S,
) -> bool {
    exists|deps: Vec<&S>|
        #[trigger] call_ensures(f, (k as usize, deps, nodes[k].content, nodes[k].name), Ok::<S, E>(s))
}

/// Whether the arguments are such as the walk hands to `f`: a position of
/// the graph, the module at that position and its name, and for each module
/// that this one imports a state that `f` gave for it.
pub open spec fn handed<T, S, E, F: Fn(usize, Vec<&S>, T, Option<String>) -> Result<S, E>>(
    f: F,
    nodes: Seq<GraphNode<T>>,
    i: usize,
    deps: Vec<&S>,
    t: T,
    name: Option<String>,
) -> bool {
    &&& i < nodes.len()
    &&& t == nodes[i as int].content
    &&& name == nodes[i as int].name
    &&& deps@.len() == nodes[i as int].deps@.len()
    &&& forall|j: int|
        0 <= j < deps@.len() ==> (#[trigger] nodes[i as int].deps@[j]) < i && gave(
            f,
            nodes,
            nodes[i as int].deps@[j] as int,
            *deps@[j],
        )
}

/// Whether `f` can have given `out` for the module at position `i` of a
/// walk in which it gave `states` for the modules before.
pub open spec fn visited<T, S, E, F: Fn(usize, Vec<&S>, T, Option<String>) -> Result<S, E>>(
    f: F,
    nodes: Seq<GraphNode<T>>,
    states: Seq<S>,
    i: int,
    out: Result<S, E>,
) -> bool {
    exists|deps: Vec<&S>|
        deps_match(deps@, nodes[i].deps@, states) && #[trigger] call_ensures(
            f,
            (i as usize, deps, nodes[i].content, nodes[i].name),
            out,
        )
}

/// What `f` gave for a module stays what it gave when the walk goes on.
pub proof fn lemma_visited_extends<
    T,
    S,
    E,
    F: Fn(usize, Vec<&S>, T, Option<String>) -> Result<S, E>,
>(f: F, nodes: Seq<GraphNode<T>>, states: Seq<S>, next: S, i: int, out: Result<S, E>)
    requires
        visited(f, nodes, states, i, out),
    ensures
        visited(f, nodes, states.push(next), i, out),
{
    let deps = choose|deps: Vec<&S>|
        deps_match(deps@, nodes[i].deps@, states) && #[trigger] call_ensures(
            f,
            (i as usize, deps, nodes[i].content, nodes[i].name),
            out,
        );
    let d = deps@;
    let p = nodes[i].deps@;
    let st = states.push(next);
    assert(deps_match(d, p, states));
    assert(d.len() == p.len());
    assert forall|j: int| 0 <= j < d.len() implies (#[trigger] p[j]) < st.len() && *d[j] == st[p[j] as int] by {
        assert(p[j] < states.len() && *d[j] == states[p[j] as int]);
        assert(st[p[j] as int] == states[p[j] as int]);
    }
    assert(deps_match(d, p, st));
    assert(call_ensures(f, (i as usize, deps, nodes[i].content, nodes[i].name), out));
}

/// Whether `f` can have given `out` for the module at position `i` of a
/// walk in which it gave `states` for the modules before, when it got the
/// value `had` that the walk carries along.
pub open spec fn visited_with<
    T,
    A,
    S,
    E,
    F: Fn(A, usize, Vec<&S>, T, Option<String>) -> Result<(A, S), E>,
>(f: F, nodes: Seq<GraphNode<T>>, states: Seq<S>, i: int, had: A, out: Result<(A, S), E>) -> bool {
    exists|deps: Vec<&S>|
        deps_match(deps@, nodes[i].deps@, states) && #[trigger] call_ensures(
            f,
            (had, i as usize, deps, nodes[i].content, nodes[i].name),
            out,
        )
}

/// Whether a walk that starts with the value `start` can have given the
/// states `states` for the first modules of the graph: `carried` holds the
/// value before each of these modules and the value after the last, and
/// each call of `f` got one of them and gave the next.
pub open spec fn walked<
    T,
    A,
    S,
    E,
    F: Fn(A, usize, Vec<&S>, T, Option<String>) -> Result<(A, S), E>,
>(f: F, nodes: Seq<GraphNode<T>>, start: A, states: Seq<S>, carried: Seq<A>) -> bool {
    &&& carried.len() == states.len() + 1
    &&& carried[0] == start
    &&& forall|i: int|
        0 <= i < states.len() ==> #[trigger] visited_with(
            f,
            nodes,
            states,
            i,
            carried[i],
            Ok((carried[i + 1], states[i])),
        )
}

/// Whether `f` gave the state `s` for the module at position `k` in a walk
/// that carries a value along.
pub open spec fn gave_with<
    T,
    A,
    S,
    E,
    F: Fn(A, usize, Vec<&S>, T, Option<String>) -> Result<(A, S), E>,
>(f: F, nodes: Seq<GraphNode<T>>, k: int, s: S) -> bool {
    exists|had: A, deps: Vec<&S>, next: A|
        #[trigger] call_ensures(
            f,
            (had, k as usize, deps, nodes[k].content, nodes[k].name),
            Ok::<(A, S), E>((next, s)),
        )
}

/// Whether the arguments are such as a walk that carries a value along
/// hands to `f`: a position of the graph, the module at that position and
/// its name, for each module that this one imports a state that `f` gave
/// for it, and as the value carried along `start` at the first module and
/// what `f` gave back for the module before at every other.
pub open spec fn handed_with<
    T,
    A,
    S,
    E,
    F: Fn(A, usize, Vec<&S>, T, Option<String>) -> Result<(A, S), E>,
>(
    f: F,
    nodes: Seq<GraphNode<T>>,
    start: A,
    carried: A,
    i: usize,
    deps: Vec<&S>,
    t: T,
    name: Option<String>,
) -> bool {
    &&& i < nodes.len()
    &&& t == nodes[i as int].content
    &&& name == nodes[i as int].name
    &&& deps@.len() == nodes[i as int].deps@.len()
    &&& forall|j: int|
        0 <= j < deps@.len() ==> (#[trigger] nodes[i as int].deps@[j]) < i && gave_with(
            f,
            nodes,
            nodes[i as int].deps@[j] as int,
            *deps@[j],
        )
    &&& if i == 0 {
        carried == start
    } else {
        exists|had: A, earlier: Vec<&S>, s: S|
            #[trigger] call_ensures(
                f,
                (had, (i - 1) as usize, earlier, nodes[i - 1].content, nodes[i - 1].name),
                Ok::<(A, S), E>((carried, s)),
            )
    }
}

/// What `f` gave for a module stays what it gave when the walk goes on.
pub proof fn lemma_visited_with_extends<
    T,
    A,
    S,
    E,
    F: Fn(A, usize, Vec<&S>, T, Option<String>) -> Result<(A, S), E>,
>(f: F, nodes: Seq<GraphNode<T>>, states: Seq<S>, next: S, i: int, had: A, out: Result<(A, S), E>)
    requires
        visited_with(f, nodes, states, i, had, out),
    ensures
        visited_with(f, nodes, states.push(next), i, had, out),
{
    let deps = choose|deps: Vec<&S>|
        deps_match(deps@, nodes[i].deps@, states) && #[trigger] call_ensures(
            f,
            (had, i as usize, deps, nodes[i].content, nodes[i].name),
            out,
        );
    let d = deps@;
    let p = nodes[i].deps@;
    let st = states.push(next);
    assert forall|j: int| 0 <= j < d.len() implies (#[trigger] p[j]) < st.len() && *d[j] == st[p[j] as int] by {
        assert(p[j] < states.len() && *d[j] == states[p[j] as int]);
        assert(st[p[j] as int] == states[p[j] as int]);
    }
    assert(deps_match(d, p, st));
}

/// A place of a module that imports another module: the names under which
/// that module may be found, in the order in which they are to be tried,
/// and the place in the source.
#[derive(Debug)]
pub struct DepSite {
    pub candidates: Vec<String>,
    pub location: SourceLocation,
}

/// What is known of a name while the graph is built: nothing where the name
/// has no entry, that the module is being built (it is an ancestor of the
/// module at work) where the entry holds no position, and the position of
/// the module in the graph where it holds one.
pub type Cache = Vec<(String, Option<usize>)>;

/// The mathematical value of a `Cache`.
pub type CacheView = Seq<(Seq<char>, Option<usize>)>;

/// The mathematical value of a `Cache`.
pub open spec fn cache_view(cache: Seq<(String, Option<usize>)>) -> CacheView {
    Seq::new(cache.len(), |i: int| (cache[i].0@, cache[i].1))
}

/// What the cache knows of the name: the entry of the first pair with the
/// name.
pub open spec fn cache_get(cache: CacheView, name: Seq<char>) -> Option<Option<usize>>
    decreases cache.len(),
{
    if cache.len() == 0 {
        None
    } else if cache[0].0 == name {
        Some(cache[0].1)
    } else {
        cache_get(cache.drop_first(), name)
    }
}

/// A module whose imports are being resolved.
#[derive(Debug)]
pub struct Frame<T> {
    pub content: T,
    pub name: Option<String>,
    pub sites: Vec<DepSite>,
    pub site: usize,
    pub candidate: usize,
    pub deps: Vec<usize>,
    pub last_error: Option<CompileMessage<FetcherError>>,
}

/// What the builder of a graph needs from outside next.
#[derive(Debug)]
pub enum BuildAction {
    /// The module of this name is to be fetched for the place at the given
    /// location, and `fetched` or `fetch_failed` is to be told how it went.
    Fetch { name: String, location: SourceLocation },
    /// Nothing: `next_action` is to be called again.
    Proceed,
    /// Nothing: the graph is complete, and `into_graph` gives it.
    Done,
    /// Nothing: the graph cannot be built, for the given reason.
    Failed(CompileMessage<DepError>),
}

/// The state of the building of a graph from its root.
///
/// The modules are fetched in depth-first order. The builder does not fetch
/// itself: it says which module it needs next, and is told what was fetched.
/// A module is added to the graph when all that it imports is in the graph,
/// so every module comes after those that it imports, and the root last.
#[derive(Debug)]
pub struct GraphBuilder<T> {
    pub nodes: Vec<GraphNode<T>>,
    pub cache: Cache,
    pub stack: Vec<Frame<T>>,
}

/// The error that the dependencies form a cycle, at the given place.
pub fn cycle_error(location: &SourceLocation) -> (e: CompileMessage<DepError>)
    ensures
        e.message == DepError::Graph(GraphError {  }),
        e.location@ == location@,
        e.severity == Severity::Error,
{
    CompileMessage {
        location: copy_location(location),
        severity: Severity::Error,
        message: DepError::Graph(GraphError {  }),
    }
}

/// A copy of a location.
pub fn copy_location(location: &SourceLocation) -> (copy: SourceLocation)
    ensures
        copy == *location,
{
    SourceLocation {
        file: match &location.file {
            Some(f) => Some(f.clone()),
            None => None,
        },
        start: location.start,
        end: location.end,
    }
}

/// A copy of an error of a fetcher.
pub fn copy_fetcher_error(e: &CompileMessage<FetcherError>) -> (copy: CompileMessage<FetcherError>)
    ensures
        copy == *e,
{
    CompileMessage {
        location: copy_location(&e.location),
        severity: e.severity,
        message: match &e.message {
            FetcherError::FetchError(text) => FetcherError::FetchError(text.clone()),
            FetcherError::ESTreeParseError(text) => FetcherError::ESTreeParseError(text.clone()),
            FetcherError::ImportsParseError(inner) => FetcherError::ImportsParseError(
                match inner {
                    ImportsParseError::InvalidHeader => ImportsParseError::InvalidHeader,
                    ImportsParseError::MissingHostModuleName => ImportsParseError::MissingHostModuleName,
                    ImportsParseError::MissingHostEntityName => ImportsParseError::MissingHostEntityName,
                    ImportsParseError::MissingReturnType => ImportsParseError::MissingReturnType,
                    ImportsParseError::InvalidVarType(token) => ImportsParseError::InvalidVarType(
                        token.clone(),
                    ),
                },
            ),
        },
    }
}

/// The error of a fetcher as an error of the building of the graph.
pub fn fetch_error(e: CompileMessage<FetcherError>) -> (r: CompileMessage<DepError>)
    ensures
        r.message == DepError::Fetcher(e.message),
        r.location == e.location,
        r.severity == e.severity,
{
    CompileMessage {
        location: e.location,
        severity: e.severity,
        message: DepError::Fetcher(e.message),
    }
}

/// What the cache knows of the name.
pub fn cache_lookup(cache: &Cache, name: &str) -> (entry: Option<Option<usize>>)
    ensures
        entry == cache_get(cache_view(cache@), name@),
{
    let ghost view = cache_view(cache@);
    let mut i: usize = 0;
    assert(view.skip(0) =~= view);
    while i < cache.len()
        invariant
            i <= cache@.len(),
            view == cache_view(cache@),
            cache_get(view, name@) == cache_get(view.skip(i as int), name@),
        decreases cache@.len() - i,
    {
        proof {
            assert(view.skip(i as int)[0] == view[i as int]);
            assert(view.skip(i as int).drop_first() =~= view.skip(i + 1));
        }
        if str_eq(cache[i].0.as_str(), name) {
            return Some(cache[i].1);
        }
        i = i + 1;
    }
    None
}

/// The names of the modules at work, the root of the build first.
pub open spec fn stack_names<T>(stack: Seq<Frame<T>>) -> Seq<Option<Seq<char>>> {
    Seq::new(stack.len(), |k: int| crate::log::opt_string_view(stack[k].name))
}

/// Whether the cache has an entry with the name.
pub open spec fn cache_has(cache: CacheView, name: Seq<char>) -> bool {
    exists|i: int| 0 <= i < cache.len() && (#[trigger] cache[i]).0 == name
}

/// What the cache knows of a name that it has an entry for is what an entry
/// with that name holds, and the cache knows nothing of a name that it has
/// no entry for.
pub proof fn lemma_cache_get(cache: CacheView, name: Seq<char>)
    ensures
        cache_get(cache, name) is Some <==> cache_has(cache, name),
        cache_get(cache, name) matches Some(v) ==> exists|i: int|
            0 <= i < cache.len() && (#[trigger] cache[i]).0 == name && cache[i].1 == v,
    decreases cache.len(),
{
    if cache.len() == 0 {
    } else if cache[0].0 == name {
        assert(cache_has(cache, name));
    } else {
        let rest = cache.drop_first();
        lemma_cache_get(rest, name);
        if cache_has(rest, name) {
            let i = choose|i: int| 0 <= i < rest.len() && (#[trigger] rest[i]).0 == name;
            assert(cache[i + 1] == rest[i]);
        }
        if cache_has(cache, name) {
            let i = choose|i: int| 0 <= i < cache.len() && (#[trigger] cache[i]).0 == name;
            assert(rest[i - 1] == cache[i]);
        }
        if cache_get(cache, name) is Some {
            let v = cache_get(cache, name)->0;
            let i = choose|i: int|
                0 <= i < rest.len() && (#[trigger] rest[i]).0 == name && rest[i].1 == v;
            assert(cache[i + 1] == rest[i]);
        }
    }
}

/// Whether no two entries of the cache have one name.
pub open spec fn cache_unique(cache: CacheView) -> bool {
    forall|i: int, j: int| 0 <= i < j < cache.len() ==> cache[i].0 != cache[j].0
}

/// In a cache without repeated names, what the cache knows of a name is
/// what the entry with that name holds.
pub proof fn lemma_cache_get_unique(cache: CacheView, i: int)
    requires
        cache_unique(cache),
        0 <= i < cache.len(),
    ensures
        cache_get(cache, cache[i].0) == Some(cache[i].1),
    decreases cache.len(),
{
    if i > 0 {
        let rest = cache.drop_first();
        assert(cache[0].0 != cache[i].0);
        assert forall|a: int, b: int| 0 <= a < b < rest.len() implies rest[a].0 != rest[b].0 by {
            assert(rest[a] == cache[a + 1]);
            assert(rest[b] == cache[b + 1]);
        }
        assert(rest[i - 1] == cache[i]);
        lemma_cache_get_unique(rest, i - 1);
    }
}

impl<T> GraphBuilder<T> {
    /// The name that is to be tried next: the candidate at work of the
    /// import at work of the module at work, if there is one.
    pub open spec fn current(&self) -> Option<Seq<char>> {
        if self.stack@.len() == 0 {
            None
        } else {
            let top = self.stack@.last();
            if top.site < top.sites@.len() && top.candidate < top.sites@[top.site as int].candidates@.len() {
                Some(top.sites@[top.site as int].candidates@[top.candidate as int]@)
            } else {
                None
            }
        }
    }

    /// The place of the import at work.
    pub open spec fn current_location(&self) -> SourceLocationView {
        self.stack@.last().sites@[self.stack@.last().site as int].location@
    }

    /// Whether the module at work has all its imports resolved.
    pub open spec fn top_finished(&self) -> bool {
        self.stack@.len() > 0 && self.stack@.last().site >= self.stack@.last().sites@.len()
    }

    /// Whether the builder waits to be told how a fetch went: the name to
    /// be tried next is not known to the cache.
    pub open spec fn is_waiting(&self) -> bool {
        self.current() matches Some(name) && cache_get(cache_view(self.cache@), name) is None
    }

    /// Whether the graph is complete.
    pub open spec fn is_done(&self) -> bool {
        self.stack@.len() == 0
    }

    /// Whether the name is that of a module that is being built: the module
    /// at work or one of its ancestors.
    pub open spec fn on_ancestor_chain(&self, name: Seq<char>) -> bool {
        stack_names(self.stack@).contains(Some(name))
    }

    /// The invariant of the builder. Every module of the graph imports
    /// modules that come before it only, and every position that a module
    /// at work or the cache holds is a position of the graph. The cache has
    /// one entry for a name at most, and it says of a name that the module
    /// is being built exactly where the name is that of a module at work;
    /// no two modules at work have one name. A module at work that has
    /// tried a candidate of its import in vain remembers the error.
    pub open spec fn wf(&self) -> bool {
        let names = stack_names(self.stack@);
        let cache = cache_view(self.cache@);
        &&& (Graph { nodes: self.nodes }).wf()
        &&& forall|k: int, j: int|
            0 <= k < self.stack@.len() && 0 <= j < self.stack@[k].deps@.len() ==> (
            #[trigger] self.stack@[k].deps@[j]) < self.nodes@.len()
        &&& forall|k: int|
            0 <= k < self.stack@.len() ==> (#[trigger] self.stack@[k]).site <= self.stack@[k].sites@.len()
        &&& forall|k: int|
            0 <= k < self.stack@.len() - 1 ==> (#[trigger] self.stack@[k]).site
                < self.stack@[k].sites@.len()
        &&& cache_unique(cache)
        &&& forall|i: int|
            0 <= i < cache.len() ==> ((#[trigger] cache[i]).1 matches Some(pos) ==> pos
                < self.nodes@.len())
        &&& forall|i: int|
            0 <= i < cache.len() ==> ((#[trigger] cache[i]).1 is None <==> names.contains(
                Some(cache[i].0),
            ))
        &&& forall|k: int|
            0 <= k < names.len() ==> ((#[trigger] names[k]) matches Some(name) ==> cache_has(
                cache,
                name,
            ))
        &&& forall|k: int, l: int|
            0 <= k < l < names.len() && names[k] is Some ==> names[k] != names[l]
        &&& forall|k: int|
            0 <= k < self.stack@.len() && (#[trigger] self.stack@[k]).candidate > 0
                ==> self.stack@[k].last_error is Some
    }

    /// The builder of the graph of the given root, which imports at the
    /// given places.
    pub fn new(root: T, sites: Vec<DepSite>) -> (builder: GraphBuilder<T>)
        ensures
            builder.wf(),
            builder.nodes@.len() == 0,
            builder.stack@.len() == 1,
            builder.cache@.len() == 0,
            builder.stack@[0].content == root,
            builder.stack@[0].sites == sites,
    {
        let mut stack: Vec<Frame<T>> = Vec::new();
        stack.push(
            Frame {
                content: root,
                name: None,
                sites,
                site: 0,
                candidate: 0,
                deps: Vec::new(),
                last_error: None,
            },
        );
        let builder = GraphBuilder { nodes: Vec::new(), cache: Vec::new(), stack };
        proof {
            let names = stack_names(builder.stack@);
            assert(names[0] == None::<Seq<char>>);
            assert(cache_view(builder.cache@).len() == 0);
        }
        builder
    }

    /// The number of modules in the graph so far.
    pub fn node_count(&self) -> (n: usize)
        ensures
            n == self.nodes@.len(),
    {
        self.nodes.len()
    }

    /// Whether the graph is complete.
    pub fn done(&self) -> (d: bool)
        ensures
            d == self.is_done(),
    {
        self.stack.len() == 0
    }

    /// The graph, once it is complete.
    pub fn into_graph(self) -> (graph: Graph<T>)
        requires
            self.wf(),
            self.is_done(),
        ensures
            graph.wf(),
            graph.nodes == self.nodes,
    {
        Graph { nodes: self.nodes }
    }

    /// Resolves the import at work of the module at work to the position.
    fn advance_top(&mut self, idx: usize)
        requires
            old(self).stack@.len() > 0,
            old(self).stack@.last().site < usize::MAX,
        ensures
            final(self).nodes == old(self).nodes,
            final(self).cache == old(self).cache,
            final(self).stack@.len() == old(self).stack@.len(),
            final(self).stack@.drop_last() == old(self).stack@.drop_last(),
            final(self).stack@.last().name == old(self).stack@.last().name,
            final(self).stack@.last().content == old(self).stack@.last().content,
            final(self).stack@.last().sites == old(self).stack@.last().sites,
            final(self).stack@.last().deps@ == old(self).stack@.last().deps@.push(idx),
            final(self).stack@.last().site == old(self).stack@.last().site + 1,
            final(self).stack@.last().candidate == 0,
            stack_names(final(self).stack@) == stack_names(old(self).stack@),
    {
        let mut top = self.stack.pop().unwrap();
        top.deps.push(idx);
        top.site = top.site + 1;
        top.candidate = 0;
        top.last_error = None;
        self.stack.push(top);
        proof {
            assert(self.stack@.drop_last() =~= old(self).stack@.drop_last());
            assert forall|k: int| 0 <= k < self.stack@.len() implies stack_names(self.stack@)[k]
                == stack_names(old(self).stack@)[k] by {
                if k < self.stack@.len() - 1 {
                    assert(self.stack@[k] == self.stack@.drop_last()[k]);
                    assert(old(self).stack@[k] == old(self).stack@.drop_last()[k]);
                }
            }
            assert(stack_names(self.stack@) =~= stack_names(old(self).stack@));
        }
    }

    /// Takes one step and says what is needed from outside next.
    ///
    /// - The graph is complete where no module is at work.
    /// - A module at work whose imports are all resolved goes into the graph,
    ///   at the next position, and its parent has one more import resolved.
    /// - A name that the cache knows with a position resolves the import at
    ///   work to that position.
    /// - A name that the cache knows as being built closes a cycle: the
    ///   build fails with a graph error at the place of the import.
    /// - A name that the cache does not know is to be fetched.
    /// - An import whose candidates have all failed fails the build with the
    ///   error of the last candidate.
    pub fn next_action(&mut self) -> (action: BuildAction)
        requires
            old(self).wf(),
        ensures
            final(self).wf(),
            old(self).is_done() <==> action is Done,
            action is Done ==> *final(self) == *old(self),
            old(self).top_finished() ==> {
                &&& action is Proceed
                &&& final(self).nodes@.len() == old(self).nodes@.len() + 1
                &&& final(self).stack@.len() == old(self).stack@.len() - 1
                &&& final(self).nodes@.last().deps == old(self).stack@.last().deps
                &&& final(self).nodes@.last().content == old(self).stack@.last().content
                &&& final(self).nodes@.last().name == old(self).stack@.last().name
                &&& final(self).nodes@.take(old(self).nodes@.len() as int) == old(self).nodes@
                &&& old(self).stack@.len() > 1 ==> {
                    let parent = old(self).stack@[old(self).stack@.len() - 2];
                    &&& final(self).stack@.last().deps@ == parent.deps@.push(
                        old(self).nodes@.len() as usize,
                    )
                    &&& final(self).stack@.last().site == parent.site + 1
                    &&& final(self).stack@.last().candidate == 0
                }
                &&& old(self).stack@.last().name matches Some(name) ==> cache_get(
                    cache_view(final(self).cache@),
                    name@,
                ) == Some(Some(old(self).nodes@.len() as usize))
            },
            !old(self).top_finished() ==> final(self).nodes == old(self).nodes,
            old(self).current() matches Some(name) ==> match cache_get(
                cache_view(old(self).cache@),
                name,
            ) {
                None => {
                    &&& action matches BuildAction::Fetch { name: fetch, location }
                    &&& fetch@ == name
                    &&& location@ == old(self).current_location()
                    &&& *final(self) == *old(self)
                },
                Some(None) => {
                    &&& action matches BuildAction::Failed(e)
                    &&& e.message == DepError::Graph(GraphError {  })
                    &&& e.location@ == old(self).current_location()
                    &&& old(self).on_ancestor_chain(name)
                },
                Some(Some(pos)) => {
                    &&& action is Proceed
                    &&& final(self).stack@.len() == old(self).stack@.len()
                    &&& final(self).stack@.last().deps@ == old(self).stack@.last().deps@.push(pos)
                    &&& final(self).stack@.last().site == old(self).stack@.last().site + 1
                },
            },
            action is Failed ==> *final(self) == *old(self),
            (!old(self).is_done() && !old(self).top_finished() && old(self).current() is None) ==> {
                &&& action matches BuildAction::Failed(e)
                &&& match old(self).stack@.last().last_error {
                    Some(last) => e.message == DepError::Fetcher(last.message) && e.location
                        == last.location,
                    None => {
                        &&& old(self).stack@.last().candidate == 0
                        &&& e.message matches DepError::Fetcher(FetcherError::FetchError(text))
                        &&& text@.len() == 0
                        &&& e.location@ == old(self).current_location()
                    },
                }
            },
            (action matches BuildAction::Failed(e) && e.message is Graph) ==> (old(self).current()
                matches Some(name) && old(self).on_ancestor_chain(name)),
    {
        if self.stack.len() == 0 {
            return BuildAction::Done;
        }
        let last = self.stack.len() - 1;
        let ghost before = *self;
        let ghost names = stack_names(before.stack@);
        let ghost cache = cache_view(before.cache@);
        if self.stack[last].site >= self.stack[last].sites.len() {
            // all that the module imports is in the graph: the module follows
            let frame = self.stack.pop().unwrap();
            let idx = self.nodes.len();
            match &frame.name {
                Some(name) => {
                    self.resolve_name(name.as_str(), idx);
                },
                None => {},
            }
            let ghost resolved = cache_view(self.cache@);
            self.nodes.push(GraphNode { deps: frame.deps, content: frame.content, name: frame.name });
            assert(self.nodes@.take(before.nodes@.len() as int) =~= before.nodes@);
            if self.stack.len() > 0 {
                proof {
                    assert(self.stack@ =~= before.stack@.drop_last());
                    assert(self.stack@.last() == before.stack@[last - 1]);
                    assert(before.stack@[last - 1].site < before.stack@[last - 1].sites@.len());
                }
                let count: usize = self.stack[last - 1].sites.len();
                assert(self.stack@.last().site < count);
                self.advance_top(idx);
            }
            proof {
                assert forall|k: int| 0 <= k < self.stack@.len() - 1 implies (
                #[trigger] self.stack@[k]).site < self.stack@[k].sites@.len() by {
                    assert(self.stack@[k] == self.stack@.drop_last()[k]);
                    assert(self.stack@[k] == before.stack@[k]);
                }
                assert forall|k: int|
                    0 <= k < self.stack@.len() && (#[trigger] self.stack@[k]).candidate > 0 implies self.stack@[k].last_error is Some by {
                    if k < self.stack@.len() - 1 {
                        assert(self.stack@[k] == self.stack@.drop_last()[k]);
                        assert(self.stack@[k] == before.stack@[k]);
                    }
                }
                let rest = stack_names(self.stack@);
                assert(rest =~= names.drop_last()) by {
                    assert forall|k: int| 0 <= k < rest.len() implies rest[k] == names[k] by {
                        if self.stack@.len() > 0 {
                            assert(stack_names(before.stack@.drop_last())[k] == names[k]);
                        }
                    }
                }
                assert forall|i: int, k: int|
                    0 <= i < self.nodes@.len() && 0 <= k < self.nodes@[i].deps@.len() implies (
                #[trigger] self.nodes@[i].deps@[k]) < i by {
                    if i < before.nodes@.len() {
                        assert(self.nodes@[i] == before.nodes@[i]);
                    } else {
                        assert(self.nodes@[i].deps@ == before.stack@[last as int].deps@);
                    }
                }
                assert forall|k: int, j: int|
                    0 <= k < self.stack@.len() && 0 <= j < self.stack@[k].deps@.len() implies (
                #[trigger] self.stack@[k].deps@[j]) < self.nodes@.len() by {
                    if k < self.stack@.len() - 1 {
                        assert(self.stack@[k] == self.stack@.drop_last()[k]);
                        assert(self.stack@[k] == before.stack@[k]);
                    } else {
                        if j < before.stack@[k].deps@.len() {
                            assert(self.stack@[k].deps@[j] == before.stack@[k].deps@[j]);
                        }
                    }
                }
                assert forall|k: int| 0 <= k < self.stack@.len() implies (
                #[trigger] self.stack@[k]).site <= self.stack@[k].sites@.len() by {
                    if k < self.stack@.len() - 1 {
                        assert(self.stack@[k] == self.stack@.drop_last()[k]);
                        assert(self.stack@[k] == before.stack@[k]);
                    } else {
                        assert(before.stack@[k].site < before.stack@[k].sites@.len());
                    }
                }
                assert(cache_unique(cache_view(self.cache@))) by {
                    let now = cache_view(self.cache@);
                    assert forall|i: int, j: int| 0 <= i < j < now.len() implies now[i].0 != now[j].0 by {
                        assert(now[i].0 == cache[i].0);
                        assert(now[j].0 == cache[j].0);
                    }
                }
                assert forall|i: int| 0 <= i < cache_view(self.cache@).len() implies ((
                #[trigger] cache_view(self.cache@)[i]).1 matches Some(pos) ==> pos < self.nodes@.len()) by {
                    assert(cache[i].1 matches Some(pos) ==> pos < before.nodes@.len());
                }
                let now = cache_view(self.cache@);
                assert(now == resolved);
                assert(now.len() == cache.len());
                assert forall|i: int| 0 <= i < now.len() implies (#[trigger] now[i]).0 == cache[i].0 by {}
                assert forall|i: int| 0 <= i < now.len() implies ((#[trigger] now[i]).1 is None
                    <==> rest.contains(Some(now[i].0))) by {
                    let gone = names.last();
                    if cache[i].1 is None {
                        let k = choose|k: int| 0 <= k < names.len() && names[k] == Some(cache[i].0);
                        if k == names.len() - 1 {
                            assert(now[i].1 is Some);
                            if rest.contains(Some(now[i].0)) {
                                let l = choose|l: int| 0 <= l < rest.len() && rest[l] == Some(now[i].0);
                                assert(names[l] == names[k]);
                            }
                        } else {
                            assert(rest[k] == Some(now[i].0));
                            assert(names[k] != gone);
                            assert(now[i].1 is None);
                        }
                    } else {
                        assert(now[i].1 is Some);
                        if rest.contains(Some(now[i].0)) {
                            let l = choose|l: int| 0 <= l < rest.len() && rest[l] == Some(now[i].0);
                            assert(names[l] == Some(cache[i].0));
                            assert(names.contains(Some(cache[i].0)));
                        }
                    }
                }
                assert forall|k: int| 0 <= k < rest.len() implies ((#[trigger] rest[k]) matches Some(
                    name,
                ) ==> cache_has(now, name)) by {
                    if rest[k] is Some {
                        let name = rest[k]->0;
                        assert(names[k] == Some(name));
                        let i = choose|i: int| 0 <= i < cache.len() && (#[trigger] cache[i]).0 == name;
                        assert(now[i].0 == name);
                    }
                }
                assert forall|k: int, l: int|
                    0 <= k < l < rest.len() && rest[k] is Some implies rest[k] != rest[l] by {
                    assert(names[k] != names[l]);
                }
                if before.stack@.last().name is Some {
                    let name = before.stack@.last().name->0@;
                    assert(names[last as int] == Some(name));
                    assert(cache_has(cache, name));
                    let i = choose|i: int| 0 <= i < cache.len() && (#[trigger] cache[i]).0 == name;
                    assert(now[i].0 == name);
                    lemma_cache_get_unique(now, i);
                }
            }
            return BuildAction::Proceed;
        }
        let site = self.stack[last].site;
        let candidate = self.stack[last].candidate;
        if candidate >= self.stack[last].sites[site].candidates.len() {
            // every candidate has failed: the last error stands
            return match &self.stack[last].last_error {
                Some(e) => BuildAction::Failed(fetch_error(copy_fetcher_error(e))),
                None => BuildAction::Failed(
                    CompileMessage {
                        location: copy_location(&self.stack[last].sites[site].location),
                        severity: Severity::Error,
                        message: DepError::Fetcher(FetcherError::FetchError(String::new())),
                    },
                ),
            };
        }
        let entry = cache_lookup(&self.cache, self.stack[last].sites[site].candidates[candidate].as_str());
        proof {
            lemma_cache_get(cache, before.current()->0);
        }
        match entry {
            Some(Some(idx)) => {
                let count: usize = self.stack[last].sites.len();
                assert(self.stack@.last().site < count);
                self.advance_top(idx);
                proof {
                    assert forall|k: int, j: int|
                        0 <= k < self.stack@.len() && 0 <= j < self.stack@[k].deps@.len() implies (
                    #[trigger] self.stack@[k].deps@[j]) < self.nodes@.len() by {
                        if k < self.stack@.len() - 1 {
                            assert(self.stack@[k] == self.stack@.drop_last()[k]);
                            assert(self.stack@[k] == before.stack@[k]);
                        } else {
                            if j < before.stack@[k].deps@.len() {
                                assert(self.stack@[k].deps@[j] == before.stack@[k].deps@[j]);
                            }
                        }
                    }
                    assert forall|k: int| 0 <= k < self.stack@.len() implies (
                    #[trigger] self.stack@[k]).site <= self.stack@[k].sites@.len() by {
                        if k < self.stack@.len() - 1 {
                            assert(self.stack@[k] == self.stack@.drop_last()[k]);
                            assert(self.stack@[k] == before.stack@[k]);
                        }
                    }
                    assert forall|k: int| 0 <= k < self.stack@.len() - 1 implies (
                    #[trigger] self.stack@[k]).site < self.stack@[k].sites@.len() by {
                        assert(self.stack@[k] == self.stack@.drop_last()[k]);
                        assert(self.stack@[k] == before.stack@[k]);
                    }
                    assert forall|k: int|
                        0 <= k < self.stack@.len() && (#[trigger] self.stack@[k]).candidate > 0 implies self.stack@[k].last_error is Some by {
                        if k < self.stack@.len() - 1 {
                            assert(self.stack@[k] == self.stack@.drop_last()[k]);
                            assert(self.stack@[k] == before.stack@[k]);
                        }
                    }
                }
                BuildAction::Proceed
            },
            Some(None) => {
                BuildAction::Failed(cycle_error(&self.stack[last].sites[site].location))
            },
            None => BuildAction::Fetch {
                name: self.stack[last].sites[site].candidates[candidate].clone(),
                location: copy_location(&self.stack[last].sites[site].location),
            },
        }
    }

    /// Takes note that the module which `next_action` asked for was
    /// fetched: the module is at work now, with the places at which it
    /// imports, and the cache knows its name as being built.
    pub fn fetched(&mut self, content: T, sites: Vec<DepSite>)
        requires
            old(self).wf(),
            old(self).is_waiting(),
        ensures
            final(self).wf(),
            final(self).nodes == old(self).nodes,
            final(self).stack@.len() == old(self).stack@.len() + 1,
            final(self).stack@.drop_last() == old(self).stack@,
            final(self).stack@.last().content == content,
            final(self).stack@.last().sites == sites,
            final(self).stack@.last().site == 0,
            final(self).stack@.last().deps@.len() == 0,
            crate::log::opt_string_view(final(self).stack@.last().name) == old(self).current(),
            cache_get(cache_view(final(self).cache@), old(self).current()->0) == Some(
                None::<usize>,
            ),
            final(self).on_ancestor_chain(old(self).current()->0),
    {
        let ghost before = *self;
        let ghost names = stack_names(before.stack@);
        let ghost cache = cache_view(before.cache@);
        let ghost fetched_name = before.current()->0;
        let last = self.stack.len() - 1;
        let site = self.stack[last].site;
        let candidate = self.stack[last].candidate;
        let name = self.stack[last].sites[site].candidates[candidate].clone();
        let name2 = name.clone();
        self.cache.push((name, None));
        self.stack.push(
            Frame {
                content,
                name: Some(name2),
                sites,
                site: 0,
                candidate: 0,
                deps: Vec::new(),
                last_error: None,
            },
        );
        proof {
            let now = cache_view(self.cache@);
            let rest = stack_names(self.stack@);
            lemma_cache_get(cache, fetched_name);
            assert(now =~= cache.push((fetched_name, None::<usize>)));
            assert(rest =~= names.push(Some(fetched_name)));
            assert(self.stack@.drop_last() =~= before.stack@);
            assert(cache_unique(now)) by {
                assert forall|i: int, j: int| 0 <= i < j < now.len() implies now[i].0 != now[j].0 by {
                    if j == cache.len() {
                        assert(cache[i].0 != fetched_name);
                    } else {
                        assert(now[i] == cache[i]);
                        assert(now[j] == cache[j]);
                    }
                }
            }
            lemma_cache_get_unique(now, cache.len() as int);
            assert(rest[names.len() as int] == Some(fetched_name));
            assert forall|k: int, j: int|
                0 <= k < self.stack@.len() && 0 <= j < self.stack@[k].deps@.len() implies (
            #[trigger] self.stack@[k].deps@[j]) < self.nodes@.len() by {
                if k < before.stack@.len() {
                    assert(self.stack@[k] == before.stack@[k]);
                }
            }
            assert forall|k: int| 0 <= k < self.stack@.len() implies (#[trigger] self.stack@[k]).site
                <= self.stack@[k].sites@.len() by {
                if k < before.stack@.len() {
                    assert(self.stack@[k] == before.stack@[k]);
                }
            }
            assert forall|k: int| 0 <= k < self.stack@.len() - 1 implies (
            #[trigger] self.stack@[k]).site < self.stack@[k].sites@.len() by {
                assert(self.stack@[k] == before.stack@[k]);
            }
            assert forall|i: int| 0 <= i < now.len() implies ((#[trigger] now[i]).1 matches Some(
                pos,
            ) ==> pos < self.nodes@.len()) by {
                if i < cache.len() {
                    assert(now[i] == cache[i]);
                }
            }
            assert forall|i: int| 0 <= i < now.len() implies ((#[trigger] now[i]).1 is None
                <==> rest.contains(Some(now[i].0))) by {
                if i < cache.len() {
                    assert(now[i] == cache[i]);
                    if cache[i].1 is None {
                        let k = choose|k: int| 0 <= k < names.len() && names[k] == Some(cache[i].0);
                        assert(rest[k] == Some(now[i].0));
                    }
                    if rest.contains(Some(now[i].0)) {
                        let l = choose|l: int| 0 <= l < rest.len() && rest[l] == Some(now[i].0);
                        if l == names.len() {
                            assert(cache[i].0 == fetched_name);
                        } else {
                            assert(names[l] == Some(cache[i].0));
                            assert(names.contains(Some(cache[i].0)));
                        }
                    }
                }
            }
            assert forall|k: int| 0 <= k < rest.len() implies ((#[trigger] rest[k]) matches Some(
                name,
            ) ==> cache_has(now, name)) by {
                if rest[k] is Some {
                    let name = rest[k]->0;
                    if k < names.len() {
                        assert(names[k] == Some(name));
                        let i = choose|i: int| 0 <= i < cache.len() && (#[trigger] cache[i]).0 == name;
                        assert(now[i].0 == name);
                    } else {
                        assert(now[cache.len() as int].0 == name);
                    }
                }
            }
            assert forall|k: int, l: int|
                0 <= k < l < rest.len() && rest[k] is Some implies rest[k] != rest[l] by {
                if l == names.len() {
                    assert(names[k] is Some);
                    let name = names[k]->0;
                    assert(cache_has(cache, name));
                } else {
                    assert(names[k] != names[l]);
                }
            }
        }
    }

    /// Takes note that the module which `next_action` asked for could not
    /// be had. Where the error is that nothing was fetched, or that what was
    /// fetched is no syntax tree, the next candidate of the import will be
    /// tried, and nothing is given; any other error fails the build, and is
    /// given as the error of the build.
    pub fn fetch_failed(&mut self, error: CompileMessage<FetcherError>) -> (failure: Option<
        CompileMessage<DepError>,
    >)
        requires
            old(self).wf(),
            old(self).is_waiting(),
        ensures
            final(self).wf(),
            final(self).nodes == old(self).nodes,
            final(self).cache == old(self).cache,
            failure is None <==> error.message.spec_is_retryable(),
            failure matches Some(e) ==> e.message == DepError::Fetcher(error.message) && e.location
                == error.location && *final(self) == *old(self),
            failure is None ==> {
                &&& final(self).stack@.len() == old(self).stack@.len()
                &&& final(self).stack@.drop_last() == old(self).stack@.drop_last()
                &&& final(self).stack@.last().candidate == old(self).stack@.last().candidate + 1
                &&& final(self).stack@.last().site == old(self).stack@.last().site
                &&& final(self).stack@.last().sites == old(self).stack@.last().sites
                &&& final(self).stack@.last().deps == old(self).stack@.last().deps
                &&& final(self).stack@.last().last_error == Some(error)
            },
    {
        if !error.message.is_retryable() {
            return Some(fetch_error(error));
        }
        let ghost before = *self;
        let ghost names = stack_names(before.stack@);
        let last = self.stack.len() - 1;
        let site = self.stack[last].site;
        let count: usize = self.stack[last].sites[site].candidates.len();
        let mut top = self.stack.pop().unwrap();
        assert(top.candidate < count);
        top.candidate = top.candidate + 1;
        top.last_error = Some(error);
        self.stack.push(top);
        proof {
            assert(self.stack@.drop_last() =~= before.stack@.drop_last());
            assert forall|k: int| 0 <= k < self.stack@.len() implies stack_names(self.stack@)[k]
                == names[k] by {
                if k < self.stack@.len() - 1 {
                    assert(self.stack@[k] == self.stack@.drop_last()[k]);
                    assert(before.stack@[k] == before.stack@.drop_last()[k]);
                }
            }
            assert(stack_names(self.stack@) =~= names);
            assert forall|k: int, j: int|
                0 <= k < self.stack@.len() && 0 <= j < self.stack@[k].deps@.len() implies (
            #[trigger] self.stack@[k].deps@[j]) < self.nodes@.len() by {
                if k < self.stack@.len() - 1 {
                    assert(self.stack@[k] == self.stack@.drop_last()[k]);
                    assert(self.stack@[k] == before.stack@[k]);
                } else {
                    assert(self.stack@[k].deps@[j] == before.stack@[k].deps@[j]);
                }
            }
            assert forall|k: int| 0 <= k < self.stack@.len() implies (#[trigger] self.stack@[k]).site
                <= self.stack@[k].sites@.len() by {
                if k < self.stack@.len() - 1 {
                    assert(self.stack@[k] == self.stack@.drop_last()[k]);
                    assert(self.stack@[k] == before.stack@[k]);
                }
            }
            assert forall|k: int| 0 <= k < self.stack@.len() - 1 implies (
            #[trigger] self.stack@[k]).site < self.stack@[k].sites@.len() by {
                assert(self.stack@[k] == self.stack@.drop_last()[k]);
                assert(self.stack@[k] == before.stack@[k]);
            }
        }
        None
    }

    /// Notes in the cache that the module of the name has the position.
    fn resolve_name(&mut self, name: &str, idx: usize)
        ensures
            final(self).nodes == old(self).nodes,
            final(self).stack == old(self).stack,
            final(self).cache@.len() == old(self).cache@.len(),
            forall|i: int|
                0 <= i < final(self).cache@.len() ==> {
                    &&& (#[trigger] final(self).cache@[i]).0@ == old(self).cache@[i].0@
                    &&& old(self).cache@[i].0@ == name@ ==> final(self).cache@[i].1 == Some(idx)
                    &&& old(self).cache@[i].0@ != name@ ==> final(self).cache@[i].1 == old(
                        self,
                    ).cache@[i].1
                },
    {
        let mut i: usize = 0;
        while i < self.cache.len()
            invariant
                i <= self.cache@.len(),
                self.nodes == old(self).nodes,
                self.stack == old(self).stack,
                self.cache@.len() == old(self).cache@.len(),
                forall|k: int|
                    0 <= k < self.cache@.len() ==> {
                        &&& (#[trigger] self.cache@[k]).0@ == old(self).cache@[k].0@
                        &&& (k < i && old(self).cache@[k].0@ == name@) ==> self.cache@[k].1 == Some(
                            idx,
                        )
                        &&& (k >= i || old(self).cache@[k].0@ != name@) ==> self.cache@[k].1 == old(
                            self,
                        ).cache@[k].1
                    },
            decreases self.cache@.len() - i,
        {
            if str_eq(self.cache[i].0.as_str(), name) {
                let (kept, _) = self.cache.remove(i);
                self.cache.insert(i, (kept, Some(idx)));
            }
            i = i + 1;
        }
    }
}

} // verus!
