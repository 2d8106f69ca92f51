//! The dependency graph of work units: cycle-safe insertion, a
//! deterministic topological order, and direct-dependency context
//! lookup.  A graph value is always cycle-free: insertion rejects any
//! unit whose dependency edges would lead back to the unit itself, so
//! an execution order exists for every graph this module ever builds.

use vstd::prelude::*;
use vstd::string::*;

use crate::PipelineError;

verus! {

/// What kind of artifact a work unit produces.
#[derive(Debug, Clone, Copy, PartialEq, Eq, Structural)]
pub enum ModuleType {
    Python,
    Rust,
    JavaScript,
    TypeScript,
    Config,
    Test,
}

/// One parameter of an exported function signature.
#[derive(Debug)]
pub struct Parameter {
    pub name: String,
    pub param_type: Option<String>,
    pub default: Option<String>,
}

/// One exported function signature.
#[derive(Debug)]
pub struct FunctionSignature {
    pub name: String,
    pub parameters: Vec<Parameter>,
    pub return_type: Option<String>,
    pub docstring: Option<String>,
}

/// One exported class signature.
#[derive(Debug)]
pub struct ClassSignature {
    pub name: String,
    pub methods: Vec<FunctionSignature>,
    pub docstring: Option<String>,
}

/// One exported constant signature.
#[derive(Debug)]
pub struct ConstantSignature {
    pub name: String,
    pub value_type: String,
}

/// The signatures a unit exposes to the units that depend on it.
#[derive(Debug)]
pub struct InterfaceSpec {
    pub classes: Vec<ClassSignature>,
    pub functions: Vec<FunctionSignature>,
    pub constants: Vec<ConstantSignature>,
}

/// One planned test of a unit's test plan.
#[derive(Debug)]
pub struct TestCase {
    pub name: String,
    pub description: String,
    pub expected_behavior: String,
}

/// The planned tests of one unit.
#[derive(Debug)]
pub struct TestPlan {
    pub unit_tests: Vec<TestCase>,
    pub integration_tests: Vec<TestCase>,
}

/// One work unit: an identifier, a target path, a language, an
/// exported interface, and the identifiers it depends on.
#[derive(Debug)]
pub struct DependencyNode {
    pub id: String,
    pub file_path: String,
    pub module_type: ModuleType,
    pub public_interface: InterfaceSpec,
    pub dependencies: Vec<String>,
    pub test_plan: Option<TestPlan>,
}

/// The mathematical image of a `Parameter`.
pub ghost struct SpecParam {
    pub name: Seq<char>,
    pub param_type: Option<Seq<char>>,
    pub default: Option<Seq<char>>,
}

/// The mathematical image of a `FunctionSignature`.
pub ghost struct SpecFun {
    pub name: Seq<char>,
    pub parameters: Seq<SpecParam>,
    pub return_type: Option<Seq<char>>,
    pub docstring: Option<Seq<char>>,
}

/// The mathematical image of a `ClassSignature`.
pub ghost struct SpecClass {
    pub name: Seq<char>,
    pub methods: Seq<SpecFun>,
    pub docstring: Option<Seq<char>>,
}

/// The mathematical image of a `ConstantSignature`.
pub ghost struct SpecConst {
    pub name: Seq<char>,
    pub value_type: Seq<char>,
}

/// The mathematical image of an `InterfaceSpec`.
pub ghost struct SpecInterface {
    pub classes: Seq<SpecClass>,
    pub functions: Seq<SpecFun>,
    pub constants: Seq<SpecConst>,
}

pub open spec fn abs_opt_string(o: Option<String>) -> Option<Seq<char>> {
    match o {
        Some(s) => Some(s@),
        None => None,
    }
}

pub open spec fn abs_param(p: Parameter) -> SpecParam {
    SpecParam {
        name: p.name@,
        param_type: abs_opt_string(p.param_type),
        default: abs_opt_string(p.default),
    }
}

pub open spec fn abs_params(v: Seq<Parameter>) -> Seq<SpecParam> {
    v.map_values(|p: Parameter| abs_param(p))
}

pub open spec fn abs_fun(f: FunctionSignature) -> SpecFun {
    SpecFun {
        name: f.name@,
        parameters: abs_params(f.parameters@),
        return_type: abs_opt_string(f.return_type),
        docstring: abs_opt_string(f.docstring),
    }
}

pub open spec fn abs_funs(v: Seq<FunctionSignature>) -> Seq<SpecFun> {
    v.map_values(|f: FunctionSignature| abs_fun(f))
}

pub open spec fn abs_class(c: ClassSignature) -> SpecClass {
    SpecClass { name: c.name@, methods: abs_funs(c.methods@), docstring: abs_opt_string(c.docstring) }
}

pub open spec fn abs_classes(v: Seq<ClassSignature>) -> Seq<SpecClass> {
    v.map_values(|c: ClassSignature| abs_class(c))
}

pub open spec fn abs_const(c: ConstantSignature) -> SpecConst {
    SpecConst { name: c.name@, value_type: c.value_type@ }
}

pub open spec fn abs_consts(v: Seq<ConstantSignature>) -> Seq<SpecConst> {
    v.map_values(|c: ConstantSignature| abs_const(c))
}

/// The mathematical content of an interface: what context lookups are
/// promised to hand back.
pub open spec fn abs_interface(i: InterfaceSpec) -> SpecInterface {
    SpecInterface {
        classes: abs_classes(i.classes@),
        functions: abs_funs(i.functions@),
        constants: abs_consts(i.constants@),
    }
}

fn clone_opt_string(v: &Option<String>) -> (r: Option<String>)
    ensures
        r == *v,
{
    match v {
        Some(s) => Some(s.clone()),
        None => None,
    }
}

fn clone_string_vec(v: &Vec<String>) -> (r: Vec<String>)
    ensures
        r@ == v@,
{
    let n: usize = v.len();
    let mut r: Vec<String> = Vec::new();
    let mut i: usize = 0;
    while i < n
        invariant
            i <= n,
            n == v@.len(),
            r@ == v@.subrange(0, i as int),
        decreases n - i,
    {
        r.push(v[i].clone());
        i = i + 1;
        proof {
            assert(r@ =~= v@.subrange(0, i as int));
        }
    }
    proof {
        assert(v@.subrange(0, n as int) =~= v@);
    }
    r
}

impl Clone for Parameter {
    fn clone(&self) -> (r: Self)
        ensures
            r == *self,
    {
        Parameter {
            name: self.name.clone(),
            param_type: clone_opt_string(&self.param_type),
            default: clone_opt_string(&self.default),
        }
    }
}

impl Clone for FunctionSignature {
    fn clone(&self) -> (r: Self)
        ensures
            abs_fun(r) == abs_fun(*self),
    {
        let n: usize = self.parameters.len();
        let mut ps: Vec<Parameter> = Vec::new();
        let mut i: usize = 0;
        while i < n
            invariant
                i <= n,
                n == self.parameters@.len(),
                ps@ == self.parameters@.subrange(0, i as int),
            decreases n - i,
        {
            ps.push(self.parameters[i].clone());
            i = i + 1;
            proof {
                assert(ps@ =~= self.parameters@.subrange(0, i as int));
            }
        }
        proof {
            assert(self.parameters@.subrange(0, n as int) =~= self.parameters@);
        }
        FunctionSignature {
            name: self.name.clone(),
            parameters: ps,
            return_type: clone_opt_string(&self.return_type),
            docstring: clone_opt_string(&self.docstring),
        }
    }
}

fn clone_function_vec(v: &Vec<FunctionSignature>) -> (r: Vec<FunctionSignature>)
    ensures
        abs_funs(r@) == abs_funs(v@),
{
    let n: usize = v.len();
    let mut r: Vec<FunctionSignature> = Vec::new();
    let mut i: usize = 0;
    while i < n
        invariant
            i <= n,
            n == v@.len(),
            r@.len() == i,
            forall|k: int| 0 <= k < i ==> abs_fun(r@[k]) == abs_fun(v@[k]),
        decreases n - i,
    {
        r.push(v[i].clone());
        i = i + 1;
    }
    proof {
        assert(abs_funs(r@) =~= abs_funs(v@));
    }
    r
}

impl Clone for ClassSignature {
    fn clone(&self) -> (r: Self)
        ensures
            abs_class(r) == abs_class(*self),
    {
        ClassSignature {
            name: self.name.clone(),
            methods: clone_function_vec(&self.methods),
            docstring: clone_opt_string(&self.docstring),
        }
    }
}

impl Clone for ConstantSignature {
    fn clone(&self) -> (r: Self)
        ensures
            r == *self,
    {
        ConstantSignature { name: self.name.clone(), value_type: self.value_type.clone() }
    }
}

impl Clone for InterfaceSpec {
    fn clone(&self) -> (r: Self)
        ensures
            abs_interface(r) == abs_interface(*self),
    {
        let nc: usize = self.classes.len();
        let mut cs: Vec<ClassSignature> = Vec::new();
        let mut i: usize = 0;
        while i < nc
            invariant
                i <= nc,
                nc == self.classes@.len(),
                cs@.len() == i,
                forall|k: int| 0 <= k < i ==> abs_class(cs@[k]) == abs_class(self.classes@[k]),
            decreases nc - i,
        {
            cs.push(self.classes[i].clone());
            i = i + 1;
        }
        proof {
            assert(abs_classes(cs@) =~= abs_classes(self.classes@));
        }
        let nk: usize = self.constants.len();
        let mut ks: Vec<ConstantSignature> = Vec::new();
        let mut j: usize = 0;
        while j < nk
            invariant
                j <= nk,
                nk == self.constants@.len(),
                ks@ == self.constants@.subrange(0, j as int),
            decreases nk - j,
        {
            ks.push(self.constants[j].clone());
            j = j + 1;
            proof {
                assert(ks@ =~= self.constants@.subrange(0, j as int));
            }
        }
        proof {
            assert(self.constants@.subrange(0, nk as int) =~= self.constants@);
        }
        InterfaceSpec {
            classes: cs,
            functions: clone_function_vec(&self.functions),
            constants: ks,
        }
    }
}

impl Clone for TestCase {
    fn clone(&self) -> (r: Self)
        ensures
            r == *self,
    {
        TestCase {
            name: self.name.clone(),
            description: self.description.clone(),
            expected_behavior: self.expected_behavior.clone(),
        }
    }
}

fn clone_case_vec(v: &Vec<TestCase>) -> (r: Vec<TestCase>)
    ensures
        r@ == v@,
{
    let n: usize = v.len();
    let mut r: Vec<TestCase> = Vec::new();
    let mut i: usize = 0;
    while i < n
        invariant
            i <= n,
            n == v@.len(),
            r@ == v@.subrange(0, i as int),
        decreases n - i,
    {
        r.push(v[i].clone());
        i = i + 1;
        proof {
            assert(r@ =~= v@.subrange(0, i as int));
        }
    }
    proof {
        assert(v@.subrange(0, n as int) =~= v@);
    }
    r
}

impl Clone for TestPlan {
    fn clone(&self) -> (r: Self)
        ensures
            r.unit_tests@ == self.unit_tests@,
            r.integration_tests@ == self.integration_tests@,
    {
        TestPlan {
            unit_tests: clone_case_vec(&self.unit_tests),
            integration_tests: clone_case_vec(&self.integration_tests),
        }
    }
}

impl Clone for DependencyNode {
    fn clone(&self) -> (r: Self)
        ensures
            r.id == self.id,
            r.file_path == self.file_path,
            r.module_type == self.module_type,
            abs_interface(r.public_interface) == abs_interface(self.public_interface),
            r.dependencies@ == self.dependencies@,
            (r.test_plan is Some) == (self.test_plan is Some),
            r.test_plan is Some ==> (r.test_plan->0).unit_tests@ == (
            self.test_plan->0).unit_tests@ && (r.test_plan->0).integration_tests@ == (
            self.test_plan->0).integration_tests@,
    {
        DependencyNode {
            id: self.id.clone(),
            file_path: self.file_path.clone(),
            module_type: self.module_type,
            public_interface: self.public_interface.clone(),
            dependencies: clone_string_vec(&self.dependencies),
            test_plan: match &self.test_plan {
                Some(p) => Some(p.clone()),
                None => None,
            },
        }
    }
}

/// The views of a sequence of identifier strings.
pub open spec fn str_views(v: Seq<String>) -> Seq<Seq<char>> {
    v.map_values(|s: String| s@)
}

/// The dependency identifiers of a unit, as character sequences.
pub open spec fn dep_ids(n: DependencyNode) -> Seq<Seq<char>> {
    str_views(n.dependencies@)
}

/// Some unit of `nodes` carries the identifier `id`.
pub open spec fn has_id(nodes: Seq<DependencyNode>, id: Seq<char>) -> bool {
    exists|i: int| 0 <= i < nodes.len() && nodes[i].id@ == id
}

/// The position of the unit carrying `id`; meaningful when `has_id`.
pub open spec fn idx_of(nodes: Seq<DependencyNode>, id: Seq<char>) -> int {
    choose|i: int| 0 <= i < nodes.len() && nodes[i].id@ == id
}

/// The unit carrying `id`; meaningful when `has_id`.
pub open spec fn node_at(nodes: Seq<DependencyNode>, id: Seq<char>) -> DependencyNode {
    nodes[idx_of(nodes, id)]
}

/// No two units carry the same identifier.
pub open spec fn ids_unique(nodes: Seq<DependencyNode>) -> bool {
    forall|i: int, j: int|
        0 <= i < j < nodes.len() ==> nodes[i].id@ != nodes[j].id@
}

/// A dependency edge: the unit named `a` declares a dependency on the
/// identifier `b` (which need not name a unit of the graph).
pub open spec fn edge(nodes: Seq<DependencyNode>, a: Seq<char>, b: Seq<char>) -> bool {
    exists|i: int| 0 <= i < nodes.len() && nodes[i].id@ == a && dep_ids(nodes[i]).contains(b)
}

/// Consecutive elements of `p` are joined by dependency edges.
pub open spec fn is_chain(nodes: Seq<DependencyNode>, p: Seq<Seq<char>>) -> bool {
    forall|k: int| #![trigger p[k]] 0 <= k < p.len() - 1 ==> edge(nodes, p[k], p[k + 1])
}

/// A chain of at least one edge leads from an identifier back to
/// itself.
pub open spec fn has_cycle(nodes: Seq<DependencyNode>) -> bool {
    exists|p: Seq<Seq<char>>|
        is_chain(nodes, p) && p.len() >= 2 && p[0] == p[p.len() - 1]
}

/// No dependency chain leads from any identifier back to itself.
pub open spec fn acyclic(nodes: Seq<DependencyNode>) -> bool {
    !has_cycle(nodes)
}

/// A chain leads from `a` to `b`; a chain of one element makes every
/// identifier reach itself.
pub open spec fn reaches(nodes: Seq<DependencyNode>, a: Seq<char>, b: Seq<char>) -> bool {
    exists|p: Seq<Seq<char>>|
        is_chain(nodes, p) && p.len() >= 1 && p[0] == a && p[p.len() - 1] == b
}

/// Inserting a unit `id` with dependencies `deps` would close a cycle:
/// some declared dependency reaches back to `id`.  A direct
/// self-dependency is the one-element chain.
pub open spec fn creates_cycle(nodes: Seq<DependencyNode>, id: Seq<char>, deps: Seq<Seq<char>>)
    -> bool {
    exists|d: Seq<char>| deps.contains(d) && reaches(nodes, d, id)
}

/// The dependency graph: work units in insertion order, identifiers
/// unique, dependency edges free of cycles.
#[derive(Debug)]
pub struct DependencyGraph {
    nodes: Vec<DependencyNode>,
}

impl View for DependencyGraph {
    type V = Seq<DependencyNode>;

    closed spec fn view(&self) -> Seq<DependencyNode> {
        self.nodes@
    }
}

/// Look up the position of the unit carrying `id`.
fn find_index(nodes: &Vec<DependencyNode>, id: &str) -> (r: Option<usize>)
    ensures
        match r {
            Some(i) => i < nodes@.len() && nodes@[i as int].id@ == id@,
            None => !has_id(nodes@, id@),
        },
{
    let n: usize = nodes.len();
    let mut i: usize = 0;
    while i < n
        invariant
            i <= n,
            n == nodes@.len(),
            forall|k: int| 0 <= k < i ==> nodes@[k].id@ != id@,
        decreases n - i,
    {
        if crate::strutil::str_eq(nodes[i].id.as_str(), id) {
            return Some(i);
        }
        i = i + 1;
    }
    None
}

impl DependencyGraph {
    #[verifier::type_invariant]
    spec fn wf(self) -> bool {
        ids_unique(self.nodes@) && acyclic(self.nodes@)
    }

    /// The empty graph.
    pub fn new() -> (r: Self)
        ensures
            r@.len() == 0,
    {
        let g = DependencyGraph { nodes: Vec::new() };
        proof {
            lemma_empty_acyclic(g.nodes@);
        }
        g
    }

    /// Insert a work unit.  Fails with `CycleDetected`, and leaves
    /// the graph unchanged, when the unit's declared dependencies —
    /// its own identifier among them, directly or through any chain
    /// of recorded edges — would lead back to the unit itself; fails
    /// with `DuplicateUnit` when the identifier is already taken.
    pub fn add_node(&mut self, node: DependencyNode) -> (r: Result<(), PipelineError>)
        ensures
            creates_cycle(old(self)@, node.id@, dep_ids(node)) ==> r == Err::<
                (),
                PipelineError,
            >(PipelineError::CycleDetected) && final(self)@ == old(self)@,
            !creates_cycle(old(self)@, node.id@, dep_ids(node)) && has_id(old(self)@, node.id@)
                ==> r == Err::<(), PipelineError>(PipelineError::DuplicateUnit) && final(self)@
                == old(self)@,
            !creates_cycle(old(self)@, node.id@, dep_ids(node)) && !has_id(old(self)@, node.id@)
                ==> r == Ok::<(), PipelineError>(()) && final(self)@ == old(self)@.push(node),
    {
        proof {
            use_type_invariant(&*self);
        }
        if self.would_create_cycle(node.id.as_str(), &node.dependencies) {
            return Err(PipelineError::CycleDetected);
        }
        match find_index(&self.nodes, node.id.as_str()) {
            Some(_) => Err(PipelineError::DuplicateUnit),
            None => {
                proof {
                    lemma_push_preserves_acyclic(self.nodes@, node);
                }
                let mut nodes: Vec<DependencyNode> = Vec::new();
                proof {
                    lemma_empty_acyclic(nodes@);
                }
                core::mem::swap(&mut nodes, &mut self.nodes);
                nodes.push(node);
                core::mem::swap(&mut nodes, &mut self.nodes);
                Ok(())
            },
        }
    }

    /// The unit carrying `node_id`, if the graph holds one.
    pub fn get_node(&self, node_id: &str) -> (r: Option<&DependencyNode>)
        ensures
            match r {
                Some(n) => has_id(self@, node_id@) && *n == node_at(self@, node_id@),
                None => !has_id(self@, node_id@),
            },
    {
        proof {
            use_type_invariant(self);
        }
        match find_index(&self.nodes, node_id) {
            Some(i) => {
                proof {
                    assert(self@[idx_of(self@, node_id@)].id@ == node_id@);
                    assert(idx_of(self@, node_id@) == i as int);
                }
                Some(&self.nodes[i])
            },
            None => None,
        }
    }

    /// Whether inserting a unit `new_node_id` with dependency list
    /// `new_deps` would close a dependency cycle: a declared
    /// dependency equals the new identifier, or reaches it through
    /// recorded edges.
    fn would_create_cycle(&self, new_node_id: &str, new_deps: &Vec<String>) -> (r: bool)
        requires
            ids_unique(self.nodes@),
        ensures
            r == creates_cycle(self.nodes@, new_node_id@, str_views(new_deps@)),
    {
        let ghost ns = self.nodes@;
        let ghost ds = str_views(new_deps@);
        let ghost target = new_node_id@;
        let n: usize = self.nodes.len();
        let mut visited: Vec<bool> = Vec::new();
        let mut t: usize = 0;
        while t < n
            invariant
                t <= n,
                visited@.len() == t,
                forall|k: int| 0 <= k < t ==> !visited@[k],
            decreases n - t,
        {
            visited.push(false);
            t = t + 1;
        }
        let mut stack: Vec<usize> = Vec::new();
        let nd: usize = new_deps.len();
        let mut k: usize = 0;
        while k < nd
            invariant
                k <= nd,
                nd == new_deps@.len(),
                ds == str_views(new_deps@),
                ns == self.nodes@,
                n == ns.len(),
                ids_unique(ns),
                target == new_node_id@,
                visited@.len() == n,
                forall|i: int| 0 <= i < n ==> !visited@[i],
                forall|x: int| 0 <= x < k ==> ds[x] != target,
                forall|m: int|
                    0 <= m < stack@.len() ==> (stack@[m] as int) < n && reach_from_deps(
                        ns,
                        ds,
                        ns[stack@[m] as int].id@,
                    ),
                forall|x: int, j: int|
                    0 <= x < k && 0 <= j < n && ds[x] == ns[j].id@ ==> on_stack(stack@, j),
            decreases nd - k,
        {
            proof {
                assert(ds[k as int] == new_deps@[k as int]@);
            }
            if crate::strutil::str_eq(new_deps[k].as_str(), new_node_id) {
                proof {
                    lemma_reaches_self(ns, target);
                    assert(ds[k as int] == target);
                    assert(ds.contains(target));
                }
                return true;
            }
            match find_index(&self.nodes, new_deps[k].as_str()) {
                Some(j) => {
                    proof {
                        lemma_reaches_self(ns, ns[j as int].id@);
                        assert(ds[k as int] == ns[j as int].id@);
                        assert(ds.contains(ds[k as int]));
                        assert(reach_from_deps(ns, ds, ns[j as int].id@));
                    }
                    let ghost pre = stack@;
                    stack.push(j);
                    proof {
                        assert forall|x: int, j2: int|
                            0 <= x < k + 1 && 0 <= j2 < n && ds[x] == ns[j2].id@ implies on_stack(
                            stack@,
                            j2,
                        ) by {
                            if x < k {
                                assert(on_stack(pre, j2));
                                let m = choose|m: int| 0 <= m < pre.len() && pre[m] == j2;
                                assert(stack@[m] == j2);
                            } else {
                                assert(ns[j2].id@ == ns[j as int].id@);
                                assert(j2 == j as int) by {
                                    if j2 < j as int {
                                        assert(ns[j2].id@ != ns[j as int].id@);
                                    } else if (j as int) < j2 {
                                        assert(ns[j as int].id@ != ns[j2].id@);
                                    }
                                }
                                assert(stack@[stack@.len() - 1] == j);
                            }
                        }
                    }
                },
                None => {
                    proof {
                        assert forall|x: int, j2: int|
                            0 <= x < k + 1 && 0 <= j2 < n && ds[x] == ns[j2].id@ implies on_stack(
                            stack@,
                            j2,
                        ) by {
                            assert(x < k || ns[j2].id@ == ds[k as int]);
                            assert(has_id(ns, ds[k as int]) == false);
                        }
                    }
                },
            }
            k = k + 1;
        }
        while stack.len() > 0
            invariant
                ds == str_views(new_deps@),
                ns == self.nodes@,
                n == ns.len(),
                ids_unique(ns),
                target == new_node_id@,
                visited@.len() == n,
                forall|x: int| 0 <= x < ds.len() ==> ds[x] != target,
                forall|m: int|
                    0 <= m < stack@.len() ==> (stack@[m] as int) < n && reach_from_deps(
                        ns,
                        ds,
                        ns[stack@[m] as int].id@,
                    ),
                forall|i: int| 0 <= i < n && visited@[i] ==> reach_from_deps(ns, ds, ns[i].id@),
                forall|i: int| 0 <= i < n && visited@[i] ==> !dep_ids(ns[i]).contains(target),
                forall|i: int, j: int|
                    0 <= i < n && 0 <= j < n && visited@[i] && dep_ids(ns[i]).contains(ns[j].id@)
                        ==> visited@[j] || on_stack(stack@, j),
                forall|x: int, j: int|
                    0 <= x < ds.len() && 0 <= j < n && ds[x] == ns[j].id@ ==> visited@[j]
                        || on_stack(stack@, j),
            decreases count_false(visited@), stack@.len(),
        {
            let ghost old_stack = stack@;
            let iopt: Option<usize> = stack.pop();
            let i: usize = match iopt {
                Some(x) => x,
                None => {
                    proof {
                        assert(false);
                    }
                    0
                },
            };
            proof {
                assert(stack@ =~= old_stack.drop_last());
                assert forall|j: int|
                    on_stack(old_stack, j) && j != i as int implies on_stack(stack@, j) by {
                    let m = choose|m: int| 0 <= m < old_stack.len() && old_stack[m] == j;
                    assert(m < old_stack.len() - 1);
                    assert(stack@[m] == j);
                }
            }
            if !visited[i] {
                let ghost old_visited = visited@;
                visited[i] = true;
                proof {
                    lemma_count_false_update(old_visited, i as int);
                    lemma_count_false_bounds(visited@);
                }
                let m: usize = self.nodes[i].dependencies.len();
                let mut x: usize = 0;
                while x < m
                    invariant
                        ds == str_views(new_deps@),
                        ns == self.nodes@,
                        n == ns.len(),
                        ids_unique(ns),
                        target == new_node_id@,
                        visited@.len() == n,
                        i < n,
                        visited@[i as int],
                        count_false(visited@) == count_false(old_visited) - 1,
                        x <= m,
                        m == ns[i as int].dependencies@.len(),
                        forall|y: int| 0 <= y < ds.len() ==> ds[y] != target,
                        forall|y: int| 0 <= y < x ==> dep_ids(ns[i as int])[y] != target,
                        forall|m2: int|
                            0 <= m2 < stack@.len() ==> (stack@[m2] as int) < n && reach_from_deps(
                                ns,
                                ds,
                                ns[stack@[m2] as int].id@,
                            ),
                        forall|i2: int|
                            0 <= i2 < n && visited@[i2] ==> reach_from_deps(ns, ds, ns[i2].id@),
                        forall|i2: int|
                            0 <= i2 < n && visited@[i2] && i2 != i as int ==> !dep_ids(
                                ns[i2],
                            ).contains(target),
                        forall|i2: int, j: int|
                            0 <= i2 < n && 0 <= j < n && visited@[i2] && i2 != i as int && dep_ids(
                                ns[i2],
                            ).contains(ns[j].id@) ==> visited@[j] || on_stack(stack@, j),
                        forall|y: int, j: int|
                            0 <= y < x && 0 <= j < n && dep_ids(ns[i as int])[y] == ns[j].id@
                                ==> visited@[j] || on_stack(stack@, j),
                        forall|y: int, j: int|
                            0 <= y < ds.len() && 0 <= j < n && ds[y] == ns[j].id@ ==> visited@[j]
                                || on_stack(stack@, j),
                    decreases m - x,
                {
                    let dep: &String = &self.nodes[i].dependencies[x];
                    proof {
                        assert(dep_ids(ns[i as int])[x as int] == dep@);
                    }
                    if crate::strutil::str_eq(dep.as_str(), new_node_id) {
                        proof {
                            assert(dep_ids(ns[i as int]).contains(target));
                            assert(edge(ns, ns[i as int].id@, target));
                            lemma_reach_step(ns, ds, ns[i as int].id@, target);
                        }
                        return true;
                    }
                    match find_index(&self.nodes, dep.as_str()) {
                        Some(j) => {
                            proof {
                                assert(dep_ids(ns[i as int]).contains(ns[j as int].id@));
                                assert(edge(ns, ns[i as int].id@, ns[j as int].id@));
                                lemma_reach_step(ns, ds, ns[i as int].id@, ns[j as int].id@);
                            }
                            if !visited[j] {
                                let ghost pre = stack@;
                                stack.push(j);
                                proof {
                                    assert forall|j2: int|
                                        on_stack(pre, j2) implies on_stack(stack@, j2) by {
                                        let m2 = choose|m2: int|
                                            0 <= m2 < pre.len() && pre[m2] == j2;
                                        assert(stack@[m2] == j2);
                                    }
                                    assert(stack@[stack@.len() - 1] == j);
                                    assert forall|y: int, j2: int|
                                        0 <= y < x + 1 && 0 <= j2 < n && dep_ids(ns[i as int])[y]
                                            == ns[j2].id@ implies visited@[j2] || on_stack(
                                        stack@,
                                        j2,
                                    ) by {
                                        if y == x as int {
                                            assert(ns[j2].id@ == ns[j as int].id@);
                                            assert(j2 == j as int) by {
                                                if j2 < j as int {
                                                    assert(ns[j2].id@ != ns[j as int].id@);
                                                } else if (j as int) < j2 {
                                                    assert(ns[j as int].id@ != ns[j2].id@);
                                                }
                                            }
                                        }
                                    }
                                }
                            } else {
                                proof {
                                    assert forall|y: int, j2: int|
                                        0 <= y < x + 1 && 0 <= j2 < n && dep_ids(ns[i as int])[y]
                                            == ns[j2].id@ implies visited@[j2] || on_stack(
                                        stack@,
                                        j2,
                                    ) by {
                                        if y == x as int {
                                            assert(ns[j2].id@ == ns[j as int].id@);
                                            assert(j2 == j as int) by {
                                                if j2 < j as int {
                                                    assert(ns[j2].id@ != ns[j as int].id@);
                                                } else if (j as int) < j2 {
                                                    assert(ns[j as int].id@ != ns[j2].id@);
                                                }
                                            }
                                        }
                                    }
                                }
                            }
                        },
                        None => {
                            proof {
                                assert forall|y: int, j2: int|
                                    0 <= y < x + 1 && 0 <= j2 < n && dep_ids(ns[i as int])[y]
                                        == ns[j2].id@ implies visited@[j2] || on_stack(
                                    stack@,
                                    j2,
                                ) by {
                                    assert(y < x || ns[j2].id@ == dep@);
                                    assert(has_id(ns, dep@) == false);
                                }
                            }
                        },
                    }
                    x = x + 1;
                }
                proof {
                    assert forall|j: int|
                        0 <= j < n && dep_ids(ns[i as int]).contains(ns[j].id@)
                            implies visited@[j] || on_stack(stack@, j) by {
                        let y = choose|y: int|
                            0 <= y < dep_ids(ns[i as int]).len() && dep_ids(ns[i as int])[y]
                                == ns[j].id@;
                        assert(0 <= y < m && dep_ids(ns[i as int])[y] == ns[j].id@);
                    }
                    assert(!dep_ids(ns[i as int]).contains(target)) by {
                        if dep_ids(ns[i as int]).contains(target) {
                            let y = choose|y: int|
                                0 <= y < dep_ids(ns[i as int]).len() && dep_ids(ns[i as int])[y]
                                    == target;
                        }
                    }
                }
            } else {
                proof {
                    lemma_count_false_bounds(visited@);
                }
            }
        }
        proof {
            if creates_cycle(ns, target, ds) {
                let d = choose|d: Seq<char>| ds.contains(d) && reaches(ns, d, target);
                let p = choose|p: Seq<Seq<char>>|
                    is_chain(ns, p) && p.len() >= 1 && p[0] == d && p[p.len() - 1] == target;
                if p.len() == 1 {
                    assert(d == target);
                    let y = choose|y: int| 0 <= y < ds.len() && ds[y] == d;
                    assert(false);
                } else {
                    assert(edge(ns, p[0], p[1]));
                    let i0 = choose|i0: int|
                        0 <= i0 < ns.len() && ns[i0].id@ == p[0] && dep_ids(ns[i0]).contains(p[1]);
                    assert(ds.contains(ns[i0].id@));
                    let x0 = choose|x0: int| 0 <= x0 < ds.len() && ds[x0] == ns[i0].id@;
                    assert(visited@[i0]);
                    lemma_no_escape(ns, target, visited@, p);
                    assert(false);
                }
            }
        }
        false
    }

    /// A deterministic execution order: repeatedly emit the earliest
    /// inserted unit whose graph-resident dependencies are all
    /// emitted.  Every graph value is cycle-free, so an order always
    /// exists: the result is a permutation of the unit identifiers in
    /// which every dependency stands before each unit that declares
    /// it.  The cycle branch remains as a defensive double-check only.
    pub fn topological_sort(&self) -> (r: Result<Vec<String>, PipelineError>)
        ensures
            r is Ok,
            ({
                let order = str_views((r->Ok_0)@);
                &&& order.len() == self@.len()
                &&& (forall|k: int| 0 <= k < order.len() ==> has_id(self@, #[trigger] order[k]))
                &&& (forall|k1: int, k2: int|
                    0 <= k1 < k2 < order.len() ==> order[k1] != order[k2])
                &&& (forall|k: int, d: Seq<char>|
                    0 <= k < order.len() && #[trigger] edge(self@, order[k], d) && has_id(
                        self@,
                        d,
                    ) ==> exists|m: int| 0 <= m < k && order[m] == d)
                &&& order == spec_topo(self@, none_emitted(self@.len() as int), self@.len())
            }),
    {
        proof {
            use_type_invariant(self);
        }
        let ghost ns = self.nodes@;
        let n: usize = self.nodes.len();
        let ghost em0 = none_emitted(n as int);
        let mut emitted: Vec<bool> = Vec::new();
        let mut t: usize = 0;
        while t < n
            invariant
                t <= n,
                emitted@.len() == t,
                forall|k: int| 0 <= k < t ==> !emitted@[k],
            decreases n - t,
        {
            emitted.push(false);
            t = t + 1;
        }
        proof {
            lemma_count_false_all(emitted@);
            assert(emitted@ =~= em0);
        }
        let mut order: Vec<String> = Vec::new();
        let ghost mut done: Seq<int> = Seq::empty();
        while order.len() < n
            invariant
                ns == self.nodes@,
                n == ns.len(),
                ids_unique(ns),
                acyclic(ns),
                emitted@.len() == n,
                done.len() == order@.len(),
                order@.len() <= n,
                count_false(emitted@) == n - order@.len(),
                forall|k: int|
                    #![trigger done[k]]
                    0 <= k < done.len() ==> 0 <= done[k] < n && emitted@[done[k]] && order@[k]@
                        == ns[done[k]].id@,
                forall|k1: int, k2: int| 0 <= k1 < k2 < done.len() ==> done[k1] != done[k2],
                forall|i: int|
                    0 <= i < n && emitted@[i] ==> exists|k: int| 0 <= k < done.len() && done[k]
                        == i,
                forall|k: int, j: int|
                    0 <= k < done.len() && 0 <= j < n && #[trigger] dep_ids(ns[done[k]]).contains(
                        ns[j].id@,
                    ) ==> exists|m: int| 0 <= m < k && done[m] == j,
                em0 == none_emitted(n as int),
                spec_topo(ns, em0, n as nat) == str_views(order@) + spec_topo(
                    ns,
                    emitted@,
                    (n - order@.len()) as nat,
                ),
            decreases n - order@.len(),
        {
            let mut i: usize = 0;
            let mut pick: usize = n;
            while i < n && pick == n
                invariant
                    i <= n,
                    n == ns.len(),
                    ns == self.nodes@,
                    emitted@.len() == n,
                    ids_unique(ns),
                    pick == n || (pick < n && !emitted@[pick as int] && ready_spec(
                        ns,
                        emitted@,
                        pick as int,
                    )),
                    pick == n ==> forall|k: int|
                        0 <= k < i ==> emitted@[k] || !ready_spec(ns, emitted@, k),
                    pick < n ==> forall|k: int|
                        0 <= k < pick ==> emitted@[k] || !ready_spec(ns, emitted@, k),
                decreases (if pick == n { 1int } else { 0int }), n - i,
            {
                if !emitted[i] && deps_ready(&self.nodes, &emitted, i) {
                    pick = i;
                } else {
                    i = i + 1;
                }
            }
            if pick < n {
                let ghost old_emitted = emitted@;
                let ghost old_done = done;
                let ghost old_order = order@;
                emitted[pick] = true;
                order.push(self.nodes[pick].id.clone());
                proof {
                    done = done.push(pick as int);
                    lemma_count_false_update(old_emitted, pick as int);
                    lemma_first_ready_at(ns, old_emitted, 0, pick as int);
                    let rem = (n - old_order.len()) as nat;
                    assert(spec_topo(ns, old_emitted, rem) == seq![ns[pick as int].id@]
                        + spec_topo(ns, old_emitted.update(pick as int, true), (rem - 1) as nat));
                    assert(old_emitted.update(pick as int, true) =~= emitted@);
                    assert(str_views(order@) =~= str_views(old_order).push(ns[pick as int].id@));
                    assert(str_views(order@) + spec_topo(ns, emitted@, (n - order@.len()) as nat)
                        =~= str_views(old_order) + spec_topo(ns, old_emitted, rem));
                    assert forall|k: int| #![trigger done[k]] 0 <= k < done.len() implies 0 <= done[k]
                        < n && emitted@[done[k]] && order@[k]@ == ns[done[k]].id@ by {
                        if k < done.len() - 1 {
                            assert(done[k] == old_done[k]);
                            assert(order@[k] == old_order[k]);
                        } else {
                            assert(done[k] == pick as int);
                        }
                    }
                    assert forall|k1: int, k2: int|
                        0 <= k1 < k2 < done.len() implies done[k1] != done[k2] by {
                        if k2 == done.len() - 1 {
                            assert(old_emitted[old_done[k1]]);
                            assert(!old_emitted[pick as int]);
                        }
                    }
                    assert forall|i2: int|
                        0 <= i2 < n && emitted@[i2] implies exists|k: int|
                        0 <= k < done.len() && done[k] == i2 by {
                        if i2 == pick as int {
                            assert(done[done.len() - 1] == i2);
                        } else {
                            assert(old_emitted[i2]);
                            let k = choose|k: int| 0 <= k < old_done.len() && old_done[k] == i2;
                            assert(done[k] == i2);
                        }
                    }
                    assert forall|k: int, j: int|
                        0 <= k < done.len() && 0 <= j < n && #[trigger] dep_ids(
                            ns[done[k]],
                        ).contains(ns[j].id@) implies exists|m: int|
                        0 <= m < k && done[m] == j by {
                        if k < done.len() - 1 {
                            let m = choose|m: int| 0 <= m < k && old_done[m] == j;
                            assert(done[m] == j);
                        } else {
                            assert(done[k] == pick as int);
                            assert(ready_spec(ns, old_emitted, pick as int));
                            assert(old_emitted[j]);
                            let m = choose|m: int| 0 <= m < old_done.len() && old_done[m] == j;
                            assert(done[m] == j);
                        }
                    }
                }
            } else {
                proof {
                    lemma_count_false_pos(emitted@);
                    lemma_stuck_has_cycle(ns, emitted@);
                    assert(false);
                }
                return Err(PipelineError::CycleDetected);
            }
        }
        proof {
            assert(spec_topo(ns, emitted@, (n - order@.len()) as nat) =~= Seq::<
                Seq<char>,
            >::empty());
            assert(str_views(order@) =~= str_views(order@) + spec_topo(
                ns,
                emitted@,
                (n - order@.len()) as nat,
            ));
            let order_v = str_views(order@);
            assert forall|k: int| 0 <= k < order_v.len() implies has_id(ns, #[trigger] order_v[k]) by {
                assert(order_v[k] == order@[k]@);
                assert(ns[done[k]].id@ == order_v[k]);
            }
            assert forall|k1: int, k2: int|
                0 <= k1 < k2 < order_v.len() implies order_v[k1] != order_v[k2] by {
                assert(order_v[k1] == ns[done[k1]].id@);
                assert(order_v[k2] == ns[done[k2]].id@);
                assert(done[k1] != done[k2]);
                if done[k1] < done[k2] {
                    assert(ns[done[k1]].id@ != ns[done[k2]].id@);
                } else {
                    assert(ns[done[k2]].id@ != ns[done[k1]].id@);
                }
            }
            assert forall|k: int, d: Seq<char>|
                0 <= k < order_v.len() && #[trigger] edge(ns, order_v[k], d) && has_id(ns, d)
                implies exists|m: int| 0 <= m < k && order_v[m] == d by {
                let i2 = choose|i2: int|
                    0 <= i2 < ns.len() && ns[i2].id@ == order_v[k] && dep_ids(ns[i2]).contains(d);
                assert(ns[done[k]].id@ == order_v[k]);
                assert(i2 == done[k]) by {
                    if i2 < done[k] {
                        assert(ns[i2].id@ != ns[done[k]].id@);
                    } else if done[k] < i2 {
                        assert(ns[done[k]].id@ != ns[i2].id@);
                    }
                }
                let j = choose|j: int| 0 <= j < ns.len() && ns[j].id@ == d;
                assert(dep_ids(ns[done[k]]).contains(ns[j].id@));
                let m = choose|m: int| 0 <= m < k && done[m] == j;
                assert(order_v[m] == ns[j].id@);
            }
        }
        Ok(order)
    }

    /// The interfaces of the unit's direct dependencies, in declared
    /// order; empty when the unit is unknown.  Dependencies of
    /// dependencies are deliberately invisible.
    pub fn get_reachable_context(&self, node_id: &str) -> (r: Vec<InterfaceSpec>)
        ensures
            !has_id(self@, node_id@) ==> r@.len() == 0,
            has_id(self@, node_id@) ==> abs_interfaces(r@) == spec_context_from(
                self@,
                dep_ids(node_at(self@, node_id@)),
                0,
            ),
    {
        proof {
            use_type_invariant(self);
        }
        let ghost ns = self.nodes@;
        let mut out: Vec<InterfaceSpec> = Vec::new();
        let iopt: Option<usize> = find_index(&self.nodes, node_id);
        match iopt {
            None => out,
            Some(i) => {
                proof {
                    assert(ns[idx_of(ns, node_id@)].id@ == node_id@);
                    assert(idx_of(ns, node_id@) == i as int) by {
                        let i2 = idx_of(ns, node_id@);
                        if i2 < i as int {
                            assert(ns[i2].id@ != ns[i as int].id@);
                        } else if (i as int) < i2 {
                            assert(ns[i as int].id@ != ns[i2].id@);
                        }
                    }
                }
                let ghost ds = dep_ids(ns[i as int]);
                let m: usize = self.nodes[i].dependencies.len();
                let mut x: usize = 0;
                while x < m
                    invariant
                        x <= m,
                        ns == self.nodes@,
                        i < ns.len(),
                        m == ns[i as int].dependencies@.len(),
                        ds == dep_ids(ns[i as int]),
                        ids_unique(ns),
                        abs_interfaces(out@) + spec_context_from(ns, ds, x as int)
                            == spec_context_from(ns, ds, 0),
                    decreases m - x,
                {
                    proof {
                        assert(spec_context_from(ns, ds, x as int) == (if has_id(
                            ns,
                            ds[x as int],
                        ) {
                            seq![abs_interface(node_at(ns, ds[x as int]).public_interface)]
                        } else {
                            Seq::empty()
                        }) + spec_context_from(ns, ds, x as int + 1));
                    }
                    let dep: &String = &self.nodes[i].dependencies[x];
                    proof {
                        assert(ds[x as int] == dep@);
                    }
                    match find_index(&self.nodes, dep.as_str()) {
                        Some(j) => {
                            proof {
                                assert(has_id(ns, dep@));
                                assert(ns[idx_of(ns, dep@)].id@ == dep@);
                                assert(idx_of(ns, dep@) == j as int) by {
                                    let j2 = idx_of(ns, dep@);
                                    if j2 < j as int {
                                        assert(ns[j2].id@ != ns[j as int].id@);
                                    } else if (j as int) < j2 {
                                        assert(ns[j as int].id@ != ns[j2].id@);
                                    }
                                }
                            }
                            let iface: InterfaceSpec = self.nodes[j].public_interface.clone();
                            out.push(iface);
                            proof {
                                assert(abs_interfaces(out@) + spec_context_from(
                                    ns,
                                    ds,
                                    x as int + 1,
                                ) =~= spec_context_from(ns, ds, 0));
                            }
                        },
                        None => {
                            proof {
                                assert(!has_id(ns, dep@));
                            }
                        },
                    }
                    x = x + 1;
                }
                proof {
                    assert(spec_context_from(ns, ds, m as int) =~= Seq::<SpecInterface>::empty());
                    assert(abs_interfaces(out@) =~= spec_context_from(ns, ds, 0));
                    assert(node_at(ns, node_id@) == ns[i as int]);
                }
                out
            },
        }
    }

    /// Every unit of the graph, in insertion order.
    pub fn get_all_nodes(&self) -> (r: &Vec<DependencyNode>)
        ensures
            r@ == self@,
    {
        &self.nodes
    }
}

/// Some declared dependency reaches the identifier `t`.
pub open spec fn reach_from_deps(
    nodes: Seq<DependencyNode>,
    deps: Seq<Seq<char>>,
    t: Seq<char>,
) -> bool {
    exists|d: Seq<char>| deps.contains(d) && reaches(nodes, d, t)
}

/// Index `j` is an element of the stack.
pub open spec fn on_stack(st: Seq<usize>, j: int) -> bool {
    exists|m: int| 0 <= m < st.len() && st[m] == j
}

/// How many entries of `s` are still false.
pub open spec fn count_false(s: Seq<bool>) -> int
    decreases s.len(),
{
    if s.len() == 0 {
        0
    } else {
        count_false(s.drop_last()) + if s.last() {
            0int
        } else {
            1int
        }
    }
}

proof fn lemma_count_false_bounds(s: Seq<bool>)
    ensures
        0 <= count_false(s) <= s.len(),
    decreases s.len(),
{
    if s.len() > 0 {
        lemma_count_false_bounds(s.drop_last());
    }
}

proof fn lemma_count_false_update(s: Seq<bool>, i: int)
    requires
        0 <= i < s.len(),
        !s[i],
    ensures
        count_false(s.update(i, true)) == count_false(s) - 1,
    decreases s.len(),
{
    let t = s.update(i, true);
    if i == s.len() - 1 {
        assert(t.drop_last() =~= s.drop_last());
    } else {
        assert(t.drop_last() =~= s.drop_last().update(i, true));
        lemma_count_false_update(s.drop_last(), i);
    }
}

/// An identifier reaches itself by the one-element chain.
proof fn lemma_reaches_self(nodes: Seq<DependencyNode>, a: Seq<char>)
    ensures
        reaches(nodes, a, a),
{
    let p = seq![a];
    assert(is_chain(nodes, p));
    assert(p[0] == a && p[p.len() - 1] == a);
}

/// A chain extends along one more edge.
proof fn lemma_extend_chain(nodes: Seq<DependencyNode>, p: Seq<Seq<char>>, b: Seq<char>)
    requires
        is_chain(nodes, p),
        p.len() >= 1,
        edge(nodes, p[p.len() - 1], b),
    ensures
        is_chain(nodes, p.push(b)),
        reaches(nodes, p[0], b),
{
    let q = p.push(b);
    assert forall|k: int| #![trigger q[k]] 0 <= k < q.len() - 1 implies edge(nodes, q[k], q[k + 1]) by {
        if k < p.len() - 1 {
            assert(q[k] == p[k]);
            assert(q[k + 1] == p[k + 1]);
        } else {
            assert(q[k] == p[p.len() - 1]);
            assert(q[k + 1] == b);
        }
    }
    assert(q[0] == p[0] && q[q.len() - 1] == b);
}

/// One reach composed with one more edge reaches the edge's target.
proof fn lemma_reach_step(
    nodes: Seq<DependencyNode>,
    deps: Seq<Seq<char>>,
    a: Seq<char>,
    b: Seq<char>,
)
    requires
        reach_from_deps(nodes, deps, a),
        edge(nodes, a, b),
    ensures
        reach_from_deps(nodes, deps, b),
{
    let d = choose|d: Seq<char>| deps.contains(d) && reaches(nodes, d, a);
    let p = choose|p: Seq<Seq<char>>|
        is_chain(nodes, p) && p.len() >= 1 && p[0] == d && p[p.len() - 1] == a;
    lemma_extend_chain(nodes, p, b);
}

/// A visited set closed under dependency edges, none of whose units
/// names `target` as a dependency, leaves no chain from a visited
/// unit's identifier to `target`.
proof fn lemma_no_escape(
    ns: Seq<DependencyNode>,
    target: Seq<char>,
    visited: Seq<bool>,
    p: Seq<Seq<char>>,
)
    requires
        visited.len() == ns.len(),
        ids_unique(ns),
        forall|i: int| 0 <= i < ns.len() && visited[i] ==> !dep_ids(ns[i]).contains(target),
        forall|i: int, j: int|
            0 <= i < ns.len() && 0 <= j < ns.len() && visited[i] && dep_ids(ns[i]).contains(
                ns[j].id@,
            ) ==> visited[j],
        is_chain(ns, p),
        p.len() >= 2,
        p[p.len() - 1] == target,
    ensures
        !(exists|i: int| 0 <= i < ns.len() && visited[i] && ns[i].id@ == p[0]),
    decreases p.len(),
{
    if exists|i: int| 0 <= i < ns.len() && visited[i] && ns[i].id@ == p[0] {
        let i = choose|i: int| 0 <= i < ns.len() && visited[i] && ns[i].id@ == p[0];
        assert(edge(ns, p[0], p[1]));
        let i2 = choose|i2: int|
            0 <= i2 < ns.len() && ns[i2].id@ == p[0] && dep_ids(ns[i2]).contains(p[1]);
        assert(i == i2) by {
            if i < i2 {
                assert(ns[i].id@ != ns[i2].id@);
            } else if i2 < i {
                assert(ns[i2].id@ != ns[i].id@);
            }
        }
        assert(dep_ids(ns[i]).contains(p[1]));
        if p[1] == target {
            assert(false);
        } else {
            assert(p.len() >= 3);
            assert(edge(ns, p[1], p[2]));
            let j = choose|j: int|
                0 <= j < ns.len() && ns[j].id@ == p[1] && dep_ids(ns[j]).contains(p[2]);
            assert(visited[j]);
            let q = p.drop_first();
            assert forall|k: int| #![trigger q[k]] 0 <= k < q.len() - 1 implies edge(ns, q[k], q[k + 1]) by {
                assert(q[k] == p[k + 1]);
                assert(q[k + 1] == p[k + 2]);
            }
            assert(q[q.len() - 1] == p[p.len() - 1]);
            assert(ns[j].id@ == q[0]);
            lemma_no_escape(ns, target, visited, q);
            assert(false);
        }
    }
}

/// Old edges persist when a fresh unit is appended, and every new
/// edge leaves the new unit's identifier.
proof fn lemma_edge_push(
    ns: Seq<DependencyNode>,
    node: DependencyNode,
    a: Seq<char>,
    b: Seq<char>,
)
    requires
        !has_id(ns, node.id@),
    ensures
        edge(ns, a, b) ==> edge(ns.push(node), a, b),
        edge(ns.push(node), a, b) ==> edge(ns, a, b) || (a == node.id@ && dep_ids(node).contains(
            b,
        )),
        a == node.id@ ==> !edge(ns, a, b),
{
    let ns2 = ns.push(node);
    if edge(ns, a, b) {
        let i = choose|i: int| 0 <= i < ns.len() && ns[i].id@ == a && dep_ids(ns[i]).contains(b);
        assert(ns2[i] == ns[i]);
    }
    if edge(ns2, a, b) {
        let i = choose|i: int|
            0 <= i < ns2.len() && ns2[i].id@ == a && dep_ids(ns2[i]).contains(b);
        if i < ns.len() {
            assert(ns[i] == ns2[i]);
        } else {
            assert(ns2[i] == node);
        }
    }
}

/// In the extended graph, a chain from an old identifier to the new
/// one exists already in the old graph.
proof fn lemma_new_chain_to_id(ns: Seq<DependencyNode>, node: DependencyNode, q: Seq<Seq<char>>)
    requires
        !has_id(ns, node.id@),
        is_chain(ns.push(node), q),
        q.len() >= 2,
        q[0] != node.id@,
        q[q.len() - 1] == node.id@,
    ensures
        reaches(ns, q[0], node.id@),
    decreases q.len(),
{
    assert(edge(ns.push(node), q[0], q[1]));
    lemma_edge_push(ns, node, q[0], q[1]);
    assert(edge(ns, q[0], q[1]));
    if q[1] == node.id@ {
        let p = seq![q[0], q[1]];
        assert forall|k: int| #![trigger p[k]] 0 <= k < p.len() - 1 implies edge(
            ns,
            p[k],
            p[k + 1],
        ) by {
            assert(p[0] == q[0] && p[1] == q[1]);
        }
        assert(p[0] == q[0] && p[p.len() - 1] == node.id@);
    } else {
        let q2 = q.drop_first();
        assert forall|k: int| #![trigger q2[k]] 0 <= k < q2.len() - 1 implies edge(
            ns.push(node),
            q2[k],
            q2[k + 1],
        ) by {
            assert(q2[k] == q[k + 1]);
            assert(q2[k + 1] == q[k + 2]);
        }
        assert(q2[q2.len() - 1] == q[q.len() - 1]);
        lemma_new_chain_to_id(ns, node, q2);
        let p2 = choose|p2: Seq<Seq<char>>|
            is_chain(ns, p2) && p2.len() >= 1 && p2[0] == q[1] && p2[p2.len() - 1] == node.id@;
        let p = seq![q[0]] + p2;
        assert forall|k: int| #![trigger p[k]] 0 <= k < p.len() - 1 implies edge(
            ns,
            p[k],
            p[k + 1],
        ) by {
            if k == 0 {
                assert(p[0] == q[0] && p[1] == p2[0]);
            } else {
                assert(p[k] == p2[k - 1]);
                assert(p[k + 1] == p2[k]);
            }
        }
        assert(p[0] == q[0] && p[p.len() - 1] == node.id@);
    }
}

/// A cycle can be rotated to start at any of its positions.
proof fn lemma_rotate_cycle(ns2: Seq<DependencyNode>, p: Seq<Seq<char>>, i: int) -> (p2: Seq<
    Seq<char>,
>)
    requires
        is_chain(ns2, p),
        p.len() >= 2,
        p[0] == p[p.len() - 1],
        0 <= i < p.len(),
    ensures
        is_chain(ns2, p2),
        p2.len() == p.len(),
        p2[0] == p[i],
        p2[p2.len() - 1] == p[i],
{
    let n = p.len() as int;
    let p2 = p.subrange(i, n) + p.subrange(1, i + 1);
    assert(p2.len() == n);
    assert forall|k: int| #![trigger p2[k]] 0 <= k < p2.len() - 1 implies edge(
        ns2,
        p2[k],
        p2[k + 1],
    ) by {
        if k < n - i - 1 {
            assert(p2[k] == p[i + k]);
            assert(p2[k + 1] == p[i + k + 1]);
        } else if k == n - i - 1 {
            assert(p2[k] == p[n - 1]);
            assert(p2[k + 1] == p[1]);
            assert(p[n - 1] == p[0]);
        } else {
            assert(p2[k] == p[k - (n - i) + 1]);
            assert(p2[k + 1] == p[k - (n - i) + 2]);
        }
    }
    assert(p2[0] == p[i]);
    assert(p2[p2.len() - 1] == p[i]) by {
        if i == 0 {
            assert(p2[p2.len() - 1] == p[n - 1]);
        } else {
            assert(p2[p2.len() - 1] == p.subrange(1, i + 1)[i - 1]);
        }
    }
    p2
}

/// Appending a fresh unit whose dependencies do not reach back to its
/// identifier keeps the graph cycle-free.
proof fn lemma_push_preserves_acyclic(ns: Seq<DependencyNode>, node: DependencyNode)
    requires
        acyclic(ns),
        ids_unique(ns),
        !has_id(ns, node.id@),
        !creates_cycle(ns, node.id@, dep_ids(node)),
    ensures
        acyclic(ns.push(node)),
{
    let ns2 = ns.push(node);
    if has_cycle(ns2) {
        let p = choose|p: Seq<Seq<char>>|
            is_chain(ns2, p) && p.len() >= 2 && p[0] == p[p.len() - 1];
        if exists|i: int| 0 <= i < p.len() && p[i] == node.id@ {
            let i = choose|i: int| 0 <= i < p.len() && p[i] == node.id@;
            let p2 = lemma_rotate_cycle(ns2, p, i);
            assert(edge(ns2, p2[0], p2[1]));
            lemma_edge_push(ns, node, p2[0], p2[1]);
            assert(dep_ids(node).contains(p2[1]));
            if p2[1] == node.id@ {
                lemma_reaches_self(ns, node.id@);
                assert(creates_cycle(ns, node.id@, dep_ids(node)));
                assert(false);
            } else {
                let q = p2.drop_first();
                assert forall|k: int| #![trigger q[k]] 0 <= k < q.len() - 1 implies edge(
                    ns2,
                    q[k],
                    q[k + 1],
                ) by {
                    assert(q[k] == p2[k + 1]);
                    assert(q[k + 1] == p2[k + 2]);
                }
                assert(q[q.len() - 1] == p2[p2.len() - 1]);
                assert(q.len() >= 2) by {
                    if q.len() == 1 {
                        assert(q[0] == p2[1]);
                        assert(q[q.len() - 1] == node.id@);
                        assert(false);
                    }
                }
                lemma_new_chain_to_id(ns, node, q);
                assert(creates_cycle(ns, node.id@, dep_ids(node)));
                assert(false);
            }
        } else {
            assert forall|k: int| #![trigger p[k]] 0 <= k < p.len() - 1 implies edge(
                ns,
                p[k],
                p[k + 1],
            ) by {
                assert(edge(ns2, p[k], p[k + 1]));
                lemma_edge_push(ns, node, p[k], p[k + 1]);
                assert(p[k] != node.id@);
            }
            assert(has_cycle(ns));
            assert(false);
        }
    }
}

/// Unit `i` is ready to be emitted: every dependency that names a
/// unit of the graph names one already emitted.
pub open spec fn ready_spec(ns: Seq<DependencyNode>, em: Seq<bool>, i: int) -> bool {
    forall|j: int| 0 <= j < ns.len() && dep_ids(ns[i]).contains(ns[j].id@) ==> em[j]
}

/// The earliest-inserted unit at or after `i` that is unemitted and
/// ready, or the unit count if none is.
pub open spec fn first_ready(ns: Seq<DependencyNode>, em: Seq<bool>, i: int) -> int
    decreases ns.len() - i,
{
    if i < 0 || i >= ns.len() {
        ns.len() as int
    } else if !em[i] && ready_spec(ns, em, i) {
        i
    } else {
        first_ready(ns, em, i + 1)
    }
}

proof fn lemma_first_ready_at(ns: Seq<DependencyNode>, em: Seq<bool>, a: int, i: int)
    requires
        0 <= a <= i <= ns.len(),
        forall|k: int| a <= k < i ==> em[k] || !ready_spec(ns, em, k),
        i < ns.len() ==> !em[i] && ready_spec(ns, em, i),
    ensures
        first_ready(ns, em, a) == i,
    decreases i - a,
{
    if a < i {
        lemma_first_ready_at(ns, em, a + 1, i);
    }
}

/// All-false emission flags for `n` units.
pub open spec fn none_emitted(n: int) -> Seq<bool> {
    Seq::new(n as nat, |i: int| false)
}

/// The canonical execution order: as long as units remain, emit the
/// earliest-inserted unemitted unit whose graph-resident dependencies
/// are all emitted.
pub open spec fn spec_topo(ns: Seq<DependencyNode>, em: Seq<bool>, remaining: nat) -> Seq<
    Seq<char>,
>
    decreases remaining,
{
    if remaining == 0 {
        Seq::empty()
    } else {
        let i = first_ready(ns, em, 0);
        if 0 <= i < ns.len() {
            seq![ns[i].id@] + spec_topo(ns, em.update(i, true), (remaining - 1) as nat)
        } else {
            Seq::empty()
        }
    }
}

proof fn lemma_count_false_all(s: Seq<bool>)
    requires
        forall|i: int| 0 <= i < s.len() ==> !s[i],
    ensures
        count_false(s) == s.len(),
    decreases s.len(),
{
    if s.len() > 0 {
        lemma_count_false_all(s.drop_last());
    }
}

proof fn lemma_count_false_pos(s: Seq<bool>)
    requires
        count_false(s) > 0,
    ensures
        exists|i: int| 0 <= i < s.len() && !s[i],
    decreases s.len(),
{
    if s.len() > 0 {
        if !s.last() {
            assert(!s[s.len() - 1]);
        } else {
            lemma_count_false_pos(s.drop_last());
            let i = choose|i: int| 0 <= i < s.len() - 1 && !s.drop_last()[i];
            assert(!s[i]);
        }
    }
}

/// When every unemitted unit waits on an unemitted dependency, a walk
/// of `steps` edges through unemitted units exists from `start`.
proof fn build_stuck_chain(ns: Seq<DependencyNode>, em: Seq<bool>, start: int, steps: nat) -> (p:
    Seq<Seq<char>>)
    requires
        em.len() == ns.len(),
        0 <= start < ns.len(),
        !em[start],
        forall|i: int| 0 <= i < ns.len() && !em[i] ==> !ready_spec(ns, em, i),
    ensures
        p.len() == steps + 1,
        is_chain(ns, p),
        forall|k: int|
            #![trigger p[k]]
            0 <= k < p.len() ==> exists|i: int| 0 <= i < ns.len() && !em[i] && ns[i].id@ == p[k],
        p[0] == ns[start].id@,
    decreases steps,
{
    if steps == 0 {
        let p = seq![ns[start].id@];
        assert(is_chain(ns, p));
        assert(ns[start].id@ == p[0] && !em[start]);
        p
    } else {
        assert(!ready_spec(ns, em, start));
        let j = choose|j: int|
            0 <= j < ns.len() && dep_ids(ns[start]).contains(ns[j].id@) && !em[j];
        let rest = build_stuck_chain(ns, em, j, (steps - 1) as nat);
        let p = seq![ns[start].id@] + rest;
        assert forall|k: int| #![trigger p[k]] 0 <= k < p.len() - 1 implies edge(
            ns,
            p[k],
            p[k + 1],
        ) by {
            if k == 0 {
                assert(p[0] == ns[start].id@ && p[1] == rest[0]);
                assert(rest[0] == ns[j].id@);
                assert(edge(ns, ns[start].id@, ns[j].id@));
            } else {
                assert(p[k] == rest[k - 1]);
                assert(p[k + 1] == rest[k]);
            }
        }
        assert forall|k: int| #![trigger p[k]] 0 <= k < p.len() implies exists|i: int|
            0 <= i < ns.len() && !em[i] && ns[i].id@ == p[k] by {
            if k == 0 {
                assert(!em[start] && ns[start].id@ == p[0]);
            } else {
                assert(p[k] == rest[k - 1]);
            }
        }
        assert(p[0] == ns[start].id@);
        p
    }
}

/// If some unit is unemitted and no unemitted unit is ready, the
/// graph has a cycle: a walk longer than the unit count must repeat
/// an identifier, and the stretch between the repetitions closes.
/// A walk of identifiers longer than the unit count, every element
/// naming a unit, repeats some identifier.
#[verifier::spinoff_prover]
proof fn lemma_long_walk_repeats(ns: Seq<DependencyNode>, p: Seq<Seq<char>>)
    requires
        forall|k: int|
            #![trigger p[k]]
            0 <= k < p.len() ==> exists|i: int| 0 <= i < ns.len() && ns[i].id@ == p[k],
        p.len() > ns.len(),
    ensures
        exists|a: int, b: int| 0 <= a < b < p.len() && p[a] == p[b],
{
    broadcast use vstd::seq_lib::seq_to_set_is_finite;

    let ids = ns.map_values(|nd: DependencyNode| nd.id@);
    assert(p.to_set().subset_of(ids.to_set())) by {
        assert forall|x: Seq<char>| p.to_set().contains(x) implies ids.to_set().contains(x) by {
            let k = choose|k: int| 0 <= k < p.len() && p[k] == x;
            let i = choose|i: int| 0 <= i < ns.len() && ns[i].id@ == p[k];
            assert(ids[i] == x);
            assert(ids.contains(x));
        }
    }
    ids.lemma_cardinality_of_set();
    vstd::set_lib::lemma_len_subset(p.to_set(), ids.to_set());
    if p.no_duplicates() {
        p.unique_seq_to_set();
        assert(false);
    }
}

#[verifier::rlimit(100)]
#[verifier::spinoff_prover]
proof fn lemma_stuck_has_cycle(ns: Seq<DependencyNode>, em: Seq<bool>)
    requires
        ids_unique(ns),
        em.len() == ns.len(),
        exists|i: int| 0 <= i < ns.len() && !em[i],
        forall|i: int| 0 <= i < ns.len() && !em[i] ==> !ready_spec(ns, em, i),
    ensures
        has_cycle(ns),
{
    let start = choose|i: int| 0 <= i < ns.len() && !em[i];
    let n = ns.len() as int;
    let p = build_stuck_chain(ns, em, start, n as nat);
    assert forall|k: int| #![trigger p[k]] 0 <= k < p.len() implies exists|i: int|
        0 <= i < ns.len() && ns[i].id@ == p[k] by {
        let i = choose|i: int| 0 <= i < ns.len() && !em[i] && ns[i].id@ == p[k];
        assert(0 <= i < ns.len() && ns[i].id@ == p[k]);
    }
    lemma_long_walk_repeats(ns, p);
    let (a, b) = choose|a: int, b: int| 0 <= a < b < p.len() && p[a] == p[b];
    let cyc = p.subrange(a, b + 1);
    assert forall|k: int| #![trigger cyc[k]] 0 <= k < cyc.len() - 1 implies edge(
        ns,
        cyc[k],
        cyc[k + 1],
    ) by {
        assert(cyc[k] == p[a + k]);
        assert(cyc[k + 1] == p[a + k + 1]);
    }
    assert(cyc.len() >= 2);
    assert(cyc[0] == p[a] && cyc[cyc.len() - 1] == p[b]);
}

/// Whether every graph-resident dependency of unit `i` is emitted.
fn deps_ready(nodes: &Vec<DependencyNode>, emitted: &Vec<bool>, i: usize) -> (r: bool)
    requires
        i < nodes@.len(),
        emitted@.len() == nodes@.len(),
        ids_unique(nodes@),
    ensures
        r == ready_spec(nodes@, emitted@, i as int),
{
    let ghost ns = nodes@;
    let m: usize = nodes[i].dependencies.len();
    let mut x: usize = 0;
    while x < m
        invariant
            x <= m,
            ns == nodes@,
            i < ns.len(),
            m == ns[i as int].dependencies@.len(),
            emitted@.len() == ns.len(),
            ids_unique(ns),
            forall|y: int, j: int|
                0 <= y < x && 0 <= j < ns.len() && dep_ids(ns[i as int])[y] == ns[j].id@
                    ==> emitted@[j],
        decreases m - x,
    {
        let dep: &String = &nodes[i].dependencies[x];
        proof {
            assert(dep_ids(ns[i as int])[x as int] == dep@);
        }
        match find_index(nodes, dep.as_str()) {
            Some(j) => {
                if !emitted[j] {
                    proof {
                        assert(dep_ids(ns[i as int]).contains(ns[j as int].id@));
                    }
                    return false;
                }
                proof {
                    assert forall|y: int, j2: int|
                        0 <= y < x + 1 && 0 <= j2 < ns.len() && dep_ids(ns[i as int])[y]
                            == ns[j2].id@ implies emitted@[j2] by {
                        if y == x as int {
                            assert(ns[j2].id@ == ns[j as int].id@);
                            assert(j2 == j as int) by {
                                if j2 < j as int {
                                    assert(ns[j2].id@ != ns[j as int].id@);
                                } else if (j as int) < j2 {
                                    assert(ns[j as int].id@ != ns[j2].id@);
                                }
                            }
                        }
                    }
                }
            },
            None => {
                proof {
                    assert forall|y: int, j2: int|
                        0 <= y < x + 1 && 0 <= j2 < ns.len() && dep_ids(ns[i as int])[y]
                            == ns[j2].id@ implies emitted@[j2] by {
                        assert(y < x || ns[j2].id@ == dep@);
                        assert(has_id(ns, dep@) == false);
                    }
                }
            },
        }
        x = x + 1;
    }
    proof {
        assert forall|j: int|
            0 <= j < ns.len() && dep_ids(ns[i as int]).contains(ns[j].id@)
            implies emitted@[j] by {
            let y = choose|y: int|
                0 <= y < dep_ids(ns[i as int]).len() && dep_ids(ns[i as int])[y] == ns[j].id@;
            assert(0 <= y < m && dep_ids(ns[i as int])[y] == ns[j].id@);
        }
    }
    true
}

/// The images of a list of interfaces.
pub open spec fn abs_interfaces(v: Seq<InterfaceSpec>) -> Seq<SpecInterface> {
    v.map_values(|i: InterfaceSpec| abs_interface(i))
}

/// The interfaces of the graph-resident units among the dependencies
/// from position `k` on, in declared order.  A dependency naming no
/// unit of the graph contributes nothing.
pub open spec fn spec_context_from(ns: Seq<DependencyNode>, deps: Seq<Seq<char>>, k: int) -> Seq<
    SpecInterface,
>
    decreases deps.len() - k,
{
    if k < 0 || k >= deps.len() {
        Seq::empty()
    } else {
        (if has_id(ns, deps[k]) {
            seq![abs_interface(node_at(ns, deps[k]).public_interface)]
        } else {
            Seq::empty()
        }) + spec_context_from(ns, deps, k + 1)
    }
}

/// Exactly one context entry stands for each declared dependency that
/// names a unit of the graph — and when all of them do, the context
/// has exactly as many entries as the dependency list, each the
/// interface of the corresponding direct dependency.  Dependencies of
/// dependencies contribute no entry.
pub proof fn lemma_context_exact(ns: Seq<DependencyNode>, deps: Seq<Seq<char>>, k: int)
    requires
        0 <= k <= deps.len(),
        forall|y: int| #![trigger deps[y]] k <= y < deps.len() ==> has_id(ns, deps[y]),
    ensures
        spec_context_from(ns, deps, k).len() == deps.len() - k,
        forall|y: int|
            #![trigger deps[y]]
            k <= y < deps.len() ==> spec_context_from(ns, deps, k)[y - k] == abs_interface(
                node_at(ns, deps[y]).public_interface,
            ),
    decreases deps.len() - k,
{
    if k < deps.len() {
        lemma_context_exact(ns, deps, k + 1);
        let rest = spec_context_from(ns, deps, k + 1);
        assert forall|y: int| #![trigger deps[y]] k <= y < deps.len() implies spec_context_from(
            ns,
            deps,
            k,
        )[y - k] == abs_interface(node_at(ns, deps[y]).public_interface) by {
            if y > k {
                assert(spec_context_from(ns, deps, k)[y - k] == rest[y - (k + 1)]);
            }
        }
    }
}

/// The direct-dependency context of a unit whose dependencies all
/// name units of the graph: one entry per declared dependency, in
/// order, each matching that dependency's interface.
pub proof fn lemma_direct_dependency_interfaces(ns: Seq<DependencyNode>, id: Seq<char>)
    requires
        has_id(ns, id),
        forall|y: int|
            #![trigger dep_ids(node_at(ns, id))[y]]
            0 <= y < dep_ids(node_at(ns, id)).len() ==> has_id(ns, dep_ids(node_at(ns, id))[y]),
    ensures
        spec_context_from(ns, dep_ids(node_at(ns, id)), 0).len() == dep_ids(
            node_at(ns, id),
        ).len(),
        forall|y: int|
            #![trigger dep_ids(node_at(ns, id))[y]]
            0 <= y < dep_ids(node_at(ns, id)).len() ==> spec_context_from(
                ns,
                dep_ids(node_at(ns, id)),
                0,
            )[y] == abs_interface(node_at(ns, dep_ids(node_at(ns, id))[y]).public_interface),
{
    lemma_context_exact(ns, dep_ids(node_at(ns, id)), 0);
}

/// A dependency list naming the unit's own identifier closes a cycle.
pub proof fn lemma_self_dependency_creates_cycle(
    ns: Seq<DependencyNode>,
    id: Seq<char>,
    deps: Seq<Seq<char>>,
)
    requires
        deps.contains(id),
    ensures
        creates_cycle(ns, id, deps),
{
    lemma_reaches_self(ns, id);
}

/// A graph with no units has no cycle.
proof fn lemma_empty_acyclic(nodes: Seq<DependencyNode>)
    requires
        nodes.len() == 0,
    ensures
        acyclic(nodes),
{
    assert forall|p: Seq<Seq<char>>|
        is_chain(nodes, p) && p.len() >= 2 implies !(p[0] == p[p.len() - 1] && true) by {
        assert(!edge(nodes, p[0], p[1]));
        assert(false);
    }
}

} // verus!
