use axiom_determinist::PipelineError;
use axiom_determinist::dag::ClassSignature;
use axiom_determinist::dag::DependencyGraph;
use axiom_determinist::dag::DependencyNode;
use axiom_determinist::dag::FunctionSignature;
use axiom_determinist::dag::InterfaceSpec;
use axiom_determinist::dag::ModuleType;

fn iface(fn_name: &str) -> InterfaceSpec {
    InterfaceSpec {
        classes: Vec::<ClassSignature>::new(),
        functions: vec![FunctionSignature {
            name: fn_name.to_string(),
            parameters: Vec::new(),
            return_type: Some("int".to_string()),
            docstring: None,
        }],
        constants: Vec::new(),
    }
}

fn unit(id: &str, deps: &[&str]) -> DependencyNode {
    DependencyNode {
        id: id.to_string(),
        file_path: format!("src/{}.py", id),
        module_type: ModuleType::Python,
        public_interface: iface(&format!("make_{}", id)),
        dependencies: deps.iter().map(|d| d.to_string()).collect(),
        test_plan: None,
    }
}

#[test]
fn test_topological_order_diamond() {
    let mut g = DependencyGraph::new();
    g.add_node(unit("a", &[])).unwrap();
    g.add_node(unit("b", &["a"])).unwrap();
    g.add_node(unit("c", &["a"])).unwrap();
    g.add_node(unit("d", &["b", "c"])).unwrap();
    let order = g.topological_sort().unwrap();
    assert_eq!(order.len(), 4);
    assert_eq!(order[0], "a");
    assert_eq!(order[3], "d");
    // every dependency stands before each unit that declares it
    for (i, id) in order.iter().enumerate() {
        for dep in &g.get_node(id).unwrap().dependencies {
            let pos = order.iter().position(|x| x == dep).unwrap();
            assert!(pos < i);
        }
    }
    // the tie-break is insertion order, so the order is fully pinned
    assert_eq!(order, vec!["a", "b", "c", "d"]);
}

#[test]
fn test_topological_order_empty_graph() {
    let g = DependencyGraph::new();
    let order = g.topological_sort().unwrap();
    assert!(order.is_empty());
}

#[test]
fn test_insert_direct_self_dependency_fails() {
    let mut g = DependencyGraph::new();
    let r = g.add_node(unit("x", &["x"]));
    assert_eq!(r, Err(PipelineError::CycleDetected));
    assert_eq!(g.get_all_nodes().len(), 0);
}

#[test]
fn test_insert_transitive_cycle_fails() {
    let mut g = DependencyGraph::new();
    // "a" declares a dependency on the not-yet-inserted "b"
    g.add_node(unit("a", &["b"])).unwrap();
    g.add_node(unit("c", &["a"])).unwrap();
    // closing the loop through two recorded edges is rejected
    let r = g.add_node(unit("b", &["c"]));
    assert_eq!(r, Err(PipelineError::CycleDetected));
    assert_eq!(g.get_all_nodes().len(), 2);
    // without the closing edge the same identifier is fine
    assert_eq!(g.add_node(unit("b", &[])), Ok(()));
    assert_eq!(g.get_all_nodes().len(), 3);
}

#[test]
fn test_insert_duplicate_identifier_fails() {
    let mut g = DependencyGraph::new();
    g.add_node(unit("a", &[])).unwrap();
    let r = g.add_node(unit("a", &[]));
    assert_eq!(r, Err(PipelineError::DuplicateUnit));
    assert_eq!(g.get_all_nodes().len(), 1);
}

#[test]
fn test_direct_dependency_interfaces_exact() {
    let mut g = DependencyGraph::new();
    g.add_node(unit("a", &[])).unwrap();
    g.add_node(unit("b", &["a"])).unwrap();
    g.add_node(unit("c", &["b"])).unwrap();
    // exactly one entry per declared dependency, none transitive
    let ctx = g.get_reachable_context("c");
    assert_eq!(ctx.len(), 1);
    assert_eq!(ctx[0].functions.len(), 1);
    assert_eq!(ctx[0].functions[0].name, "make_b");
    // two direct dependencies give two entries, in declared order
    g.add_node(unit("d", &["b", "a"])).unwrap();
    let ctx = g.get_reachable_context("d");
    assert_eq!(ctx.len(), 2);
    assert_eq!(ctx[0].functions[0].name, "make_b");
    assert_eq!(ctx[1].functions[0].name, "make_a");
}

#[test]
fn test_context_of_unknown_unit_is_empty() {
    let mut g = DependencyGraph::new();
    g.add_node(unit("a", &[])).unwrap();
    assert!(g.get_reachable_context("nope").is_empty());
}

#[test]
fn test_dangling_dependency_is_ignored() {
    let mut g = DependencyGraph::new();
    // "a" names a unit that is never inserted
    g.add_node(unit("a", &["ghost"])).unwrap();
    g.add_node(unit("b", &["a"])).unwrap();
    let order = g.topological_sort().unwrap();
    assert_eq!(order, vec!["a", "b"]);
    // the absent dependency contributes no context entry
    assert!(g.get_reachable_context("a").is_empty());
}

#[test]
fn test_tie_break_is_insertion_order() {
    let mut g = DependencyGraph::new();
    g.add_node(unit("c", &[])).unwrap();
    g.add_node(unit("a", &[])).unwrap();
    g.add_node(unit("b", &[])).unwrap();
    // all three are ready at once; the earliest inserted goes first
    let order = g.topological_sort().unwrap();
    assert_eq!(order, vec!["c", "a", "b"]);
}

#[test]
fn test_get_node() {
    let mut g = DependencyGraph::new();
    g.add_node(unit("a", &[])).unwrap();
    assert_eq!(g.get_node("a").unwrap().file_path, "src/a.py");
    assert!(g.get_node("b").is_none());
}
