//! The orchestrator: one full pipeline run.  A planning collaborator
//! proposes the unit graph; the graph yields a deterministic
//! execution order; each unit in order gets its direct-dependency
//! context, an initial candidate from the generation collaborator,
//! and a bounded repair loop judged by the static validator.  One
//! unit's exhausted budget is recorded and the run continues.

use vstd::prelude::*;
use vstd::string::*;

use crate::PipelineError;
use crate::dag::DependencyGraph;
use crate::dag::DependencyNode;
use crate::dag::InterfaceSpec;
use crate::dag::ModuleType;
use crate::dag::has_id;
use crate::reflexion::ReflexionLoop;
use crate::reflexion::Repairer;
use crate::reflexion::Validator;
use crate::sandbox::HermeticSandbox;
use crate::sandbox::ValidationResult;
use crate::sandbox::spec_passed;

verus! {

/// The planning capability: decompose a requirement into a unit
/// graph.  Any graph value is cycle-free by construction, so the
/// orchestrator always obtains an execution order from it.
pub trait Planner {
    fn plan(&mut self, requirement: &str) -> DependencyGraph;
}

/// The generation capability: propose an initial candidate for a
/// unit, seeing only the unit and its direct dependencies'
/// interfaces.
pub trait Generator {
    fn generate(&mut self, unit: &DependencyNode, context: &Vec<InterfaceSpec>) -> String;
}

/// One produced artifact with its final validation verdict.
#[derive(Debug)]
pub struct GeneratedFile {
    pub path: String,
    pub content: String,
    pub language: String,
    pub validation_passed: bool,
}

/// The outcome of one full run.
#[derive(Debug)]
pub struct OrchestrationResult {
    pub success: bool,
    pub generated_files: Vec<GeneratedFile>,
    pub total_iterations: u32,
    pub validation_passed: bool,
    pub errors: Vec<String>,
}

/// Judges candidates for one unit: the static validator fixed to the
/// unit's language.
struct SandboxValidator {
    sandbox: HermeticSandbox,
    language: String,
}

impl Validator for SandboxValidator {
    fn validate(&mut self, code: &str) -> ValidationResult {
        self.sandbox.validate(code, self.language.as_str())
    }
}

/// The sum of the iteration counts, capped at the counter's range.
fn sat_add_u32(a: u32, b: u32) -> (r: u32)
    ensures
        a + b <= u32::MAX ==> r == a + b,
        a + b > u32::MAX ==> r == u32::MAX,
{
    if a > u32::MAX - b {
        u32::MAX
    } else {
        a + b
    }
}

/// Whether every produced artifact passed its final validation.
fn all_files_passed(files: &Vec<GeneratedFile>) -> (r: bool)
    ensures
        r == (forall|k: int| 0 <= k < files@.len() ==> (#[trigger] files@[k]).validation_passed),
{
    let n: usize = files.len();
    let mut i: usize = 0;
    while i < n
        invariant
            i <= n,
            n == files@.len(),
            forall|k: int| 0 <= k < i ==> (#[trigger] files@[k]).validation_passed,
        decreases n - i,
    {
        if !files[i].validation_passed {
            return false;
        }
        i = i + 1;
    }
    true
}

/// Drives one requirement through planning, ordering, generation,
/// validation and repair.
pub struct Orchestrator {
    max_retries: u32,
    auditor: HermeticSandbox,
    reflexion_loop: ReflexionLoop,
}

impl Orchestrator {
    #[verifier::type_invariant]
    spec fn wf(self) -> bool {
        self.max_retries < u32::MAX && self.reflexion_loop.max_retries == self.max_retries
    }

    /// An orchestrator with the given per-unit retry budget.
    pub fn new(max_retries: u32) -> (r: Self)
        requires
            max_retries < u32::MAX,
    {
        Orchestrator {
            max_retries,
            auditor: HermeticSandbox::new(),
            reflexion_loop: ReflexionLoop::new(max_retries),
        }
    }

    /// Run the full pipeline for one requirement.  Every produced
    /// artifact carries the exact verdict of the static validator on
    /// its final content; the run as a whole counts as validated when
    /// every artifact passed, and as a success when additionally no
    /// unit exhausted its retry budget.
    pub fn execute<P: Planner, G: Generator, R: Repairer>(
        &mut self,
        user_requirement: &str,
        planner: &mut P,
        generator: &mut G,
        repairer: &mut R,
    ) -> (r: Result<OrchestrationResult, PipelineError>)
        ensures
            r is Ok,
            ({
                let res = r->Ok_0;
                &&& (forall|k: int|
                    0 <= k < res.generated_files@.len() ==> (#[trigger] res.generated_files@[
                    k]).validation_passed == spec_passed(
                        res.generated_files@[k].content@,
                        res.generated_files@[k].language@,
                    ))
                &&& res.validation_passed == (forall|k: int|
                    0 <= k < res.generated_files@.len() ==> (#[trigger] res.generated_files@[
                    k]).validation_passed)
                &&& res.success == (res.validation_passed && res.errors@.len() == 0)
            }),
    {
        let mut dag: DependencyGraph = planner.plan(user_requirement);
        let execution_order: Vec<String> = match dag.topological_sort() {
            Ok(order) => order,
            Err(e) => {
                proof {
                    assert(false);
                }
                return Err(e);
            },
        };
        proof {
            assert forall|k: int|
                0 <= k < execution_order@.len() implies has_id(
                dag@,
                (#[trigger] execution_order@[k])@,
            ) by {
                assert(crate::dag::str_views(execution_order@)[k] == execution_order@[k]@);
            }
        }
        let mut generated_files: Vec<GeneratedFile> = Vec::new();
        let mut total_iterations: u32 = 0;
        let mut all_errors: Vec<String> = Vec::new();
        let n: usize = execution_order.len();
        let mut idx: usize = 0;
        while idx < n
            invariant
                n == execution_order@.len(),
                forall|k: int|
                    0 <= k < n ==> has_id(dag@, (#[trigger] execution_order@[k])@),
                forall|k: int|
                    0 <= k < generated_files@.len() ==> (#[trigger] generated_files@[
                    k]).validation_passed == spec_passed(
                        generated_files@[k].content@,
                        generated_files@[k].language@,
                    ),
            decreases n - idx,
        {
            proof {
                use_type_invariant(&*self);
            }
            let node_id: &String = &execution_order[idx];
            proof {
                assert(crate::dag::str_views(execution_order@)[idx as int] == node_id@);
            }
            let node: &DependencyNode = match dag.get_node(node_id.as_str()) {
                Some(nd) => nd,
                None => {
                    proof {
                        assert(false);
                    }
                    return Err(PipelineError::UnitNotFound);
                },
            };
            let context: Vec<InterfaceSpec> = dag.get_reachable_context(node_id.as_str());
            let initial_code: String = generator.generate(node, &context);
            let language: &'static str = match node.module_type {
                ModuleType::Python => "python",
                ModuleType::Rust => "rust",
                ModuleType::JavaScript => "javascript",
                ModuleType::TypeScript => "typescript",
                ModuleType::Config => "unknown",
                ModuleType::Test => "unknown",
            };
            let mut validator = SandboxValidator {
                sandbox: HermeticSandbox::new(),
                language: String::from_str(language),
            };
            let mut rl: ReflexionLoop = ReflexionLoop::new(self.max_retries);
            core::mem::swap(&mut rl, &mut self.reflexion_loop);
            let loop_result: Result<String, PipelineError> = rl.execute(
                initial_code,
                &mut validator,
                repairer,
            );
            let iterations: u32 = rl.get_current_iteration();
            core::mem::swap(&mut rl, &mut self.reflexion_loop);
            match loop_result {
                Ok(final_code) => {
                    // the loop's last verdict came through the
                    // Validator capability; judge the final content
                    // once more against the validator's full contract
                    let final_validation: ValidationResult = self.auditor.validate(
                        final_code.as_str(),
                        language,
                    );
                    generated_files.push(
                        GeneratedFile {
                            path: node.file_path.clone(),
                            content: final_code,
                            language: String::from_str(language),
                            validation_passed: final_validation.passed,
                        },
                    );
                    total_iterations = sat_add_u32(total_iterations, iterations);
                },
                Err(_) => {
                    let mut msg: String = String::from_str("Failed to repair ");
                    msg.append(node_id.as_str());
                    msg.append(": Max retries (");
                    let d: String = crate::strutil::dec_string(self.max_retries as u64);
                    msg.append(d.as_str());
                    msg.append(") exceeded. Failed to repair code.");
                    all_errors.push(msg);
                },
            }
            idx = idx + 1;
        }
        let validation_passed: bool = all_files_passed(&generated_files);
        let success: bool = validation_passed && all_errors.len() == 0;
        let res = OrchestrationResult {
            success,
            generated_files,
            total_iterations,
            validation_passed,
            errors: all_errors,
        };
        proof {
            let files = res.generated_files@;
            if res.validation_passed {
                assert forall|k: int|
                    0 <= k < files.len() implies (#[trigger] files[k]).validation_passed by {}
            } else {
                let k0 = choose|k: int|
                    !(0 <= k < files.len() ==> (#[trigger] files[k]).validation_passed);
                assert(!(files[k0].validation_passed && true) && 0 <= k0 < files.len());
            }
        }
        Ok(res)
    }
}

} // verus!
