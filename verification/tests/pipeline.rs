use axiom_determinist::MAX_RETRIES;
use axiom_determinist::STERILIZATION_PROTOCOL;
use axiom_determinist::banned_phrases;
use axiom_determinist::constraints::EnforcementLevel;
use axiom_determinist::constraints::GrammarConstraint;
use axiom_determinist::constraints::MockTokenizer;
use axiom_determinist::constraints::ProgrammingLanguage;
use axiom_determinist::constraints::SterilizationConfig;
use axiom_determinist::constraints::Tokenizer;
use axiom_determinist::dag::DependencyGraph;
use axiom_determinist::dag::DependencyNode;
use axiom_determinist::dag::InterfaceSpec;
use axiom_determinist::dag::ModuleType;
use axiom_determinist::orchestrator::Generator;
use axiom_determinist::orchestrator::Orchestrator;
use axiom_determinist::orchestrator::Planner;
use axiom_determinist::reflexion::Repairer;
use axiom_determinist::sandbox::ValidationResult;

fn unit(id: &str, deps: &[&str]) -> DependencyNode {
    DependencyNode {
        id: id.to_string(),
        file_path: format!("src/{}.py", id),
        module_type: ModuleType::Python,
        public_interface: InterfaceSpec {
            classes: Vec::new(),
            functions: Vec::new(),
            constants: Vec::new(),
        },
        dependencies: deps.iter().map(|d| d.to_string()).collect(),
        test_plan: None,
    }
}

/// Decomposes every requirement into the diamond a, b, c, d.
struct DiamondPlanner;

impl Planner for DiamondPlanner {
    fn plan(&mut self, _requirement: &str) -> DependencyGraph {
        let mut g = DependencyGraph::new();
        g.add_node(unit("a", &[])).unwrap();
        g.add_node(unit("b", &["a"])).unwrap();
        g.add_node(unit("c", &["a"])).unwrap();
        g.add_node(unit("d", &["b", "c"])).unwrap();
        g
    }
}

/// Proposes clean code for every unit but "b", which gets a stub.
struct SelectiveGenerator;

impl Generator for SelectiveGenerator {
    fn generate(&mut self, node: &DependencyNode, context: &Vec<InterfaceSpec>) -> String {
        // direct dependencies only: the diamond's widest context is 2
        assert!(context.len() <= 2);
        if node.id == "b" {
            "def f():\n    pass\n".to_string()
        } else {
            format!("def make_{}():\n    return 1\n", node.id)
        }
    }
}

/// Hands every failing candidate back unchanged.
struct StubbornRepairer {
    calls: u32,
}

impl Repairer for StubbornRepairer {
    fn repair(&mut self, code: &str, _outcome: &ValidationResult) -> String {
        self.calls += 1;
        code.to_string()
    }
}

#[test]
fn test_partial_failure_run() {
    let mut orchestrator = Orchestrator::new(1);
    let mut planner = DiamondPlanner;
    let mut generator = SelectiveGenerator;
    let mut repairer = StubbornRepairer { calls: 0 };
    let result = orchestrator
        .execute("build the diamond", &mut planner, &mut generator, &mut repairer)
        .unwrap();
    // the one exhausted unit fails the run but not the rest of it
    assert!(!result.success);
    assert_eq!(result.errors.len(), 1);
    assert_eq!(
        result.errors[0],
        "Failed to repair b: Max retries (1) exceeded. Failed to repair code."
    );
    // every other unit was still attempted, in dependency order
    assert_eq!(result.generated_files.len(), 3);
    assert_eq!(result.generated_files[0].path, "src/a.py");
    assert_eq!(result.generated_files[1].path, "src/c.py");
    assert_eq!(result.generated_files[2].path, "src/d.py");
    assert!(result.generated_files.iter().all(|f| f.validation_passed));
    assert!(result.validation_passed);
    // one immediate pass per produced unit
    assert_eq!(result.total_iterations, 3);
    // the stubborn repairer was asked once per retry of the stub
    assert_eq!(repairer.calls, 1);
}

/// Proposes clean code for every unit.
struct CleanGenerator;

impl Generator for CleanGenerator {
    fn generate(&mut self, node: &DependencyNode, _context: &Vec<InterfaceSpec>) -> String {
        format!("def make_{}():\n    return 1\n", node.id)
    }
}

#[test]
fn test_fully_passing_run() {
    let mut orchestrator = Orchestrator::new(2);
    let mut planner = DiamondPlanner;
    let mut generator = CleanGenerator;
    let mut repairer = StubbornRepairer { calls: 0 };
    let result = orchestrator
        .execute("build the diamond", &mut planner, &mut generator, &mut repairer)
        .unwrap();
    assert!(result.success);
    assert!(result.validation_passed);
    assert!(result.errors.is_empty());
    assert_eq!(result.generated_files.len(), 4);
    assert_eq!(result.generated_files[0].path, "src/a.py");
    assert_eq!(result.generated_files[3].path, "src/d.py");
    assert_eq!(result.generated_files[0].language, "python");
    assert_eq!(result.total_iterations, 4);
    assert_eq!(repairer.calls, 0);
}

/// Plans a single configuration unit, which no structural check covers.
struct ConfigPlanner;

impl Planner for ConfigPlanner {
    fn plan(&mut self, _requirement: &str) -> DependencyGraph {
        let mut g = DependencyGraph::new();
        let mut node = unit("settings", &[]);
        node.module_type = ModuleType::Config;
        node.file_path = "settings.toml".to_string();
        g.add_node(node).unwrap();
        g
    }
}

struct VerbatimGenerator;

impl Generator for VerbatimGenerator {
    fn generate(&mut self, _node: &DependencyNode, _context: &Vec<InterfaceSpec>) -> String {
        "key = value\n".to_string()
    }
}

#[test]
fn test_config_unit_gets_warning_only() {
    let mut orchestrator = Orchestrator::new(1);
    let mut planner = ConfigPlanner;
    let mut generator = VerbatimGenerator;
    let mut repairer = StubbornRepairer { calls: 0 };
    let result = orchestrator
        .execute("just settings", &mut planner, &mut generator, &mut repairer)
        .unwrap();
    // an unrecognized language yields a warning finding, never a failure
    assert!(result.success);
    assert_eq!(result.generated_files.len(), 1);
    assert_eq!(result.generated_files[0].language, "unknown");
    assert!(result.generated_files[0].validation_passed);
}

#[test]
fn test_prompt_suffix_text() {
    let config = SterilizationConfig::default();
    let suffix = config.generate_prompt_suffix();
    let expected = format!(
        "{}\n\n{}\n\nProtocol Check: Ensure no TODOs or placeholders are present in the following output.",
        config.cryptographic_delimiter, config.positive_guidance
    );
    assert_eq!(suffix, expected);
    assert!(suffix.starts_with(STERILIZATION_PROTOCOL));
}

#[test]
fn test_default_config_uses_the_shared_table() {
    let config = SterilizationConfig::default();
    let table: Vec<String> = banned_phrases().iter().map(|p| p.to_string()).collect();
    assert_eq!(config.banned_phrases, table);
    assert!(config.prompt_fencing);
    assert_eq!(config.cryptographic_delimiter, STERILIZATION_PROTOCOL);
    let grammar = config.grammar_constraint.unwrap();
    assert!(matches!(grammar.language, ProgrammingLanguage::Python));
}

#[test]
fn test_banned_phrase_table() {
    let table = banned_phrases();
    assert_eq!(
        table,
        vec![
            "TODO",
            "FIXME",
            "XXX",
            "HACK",
            "NotImplementedError",
            "NotImplemented",
            "omitted for brevity",
            "rest of code",
            "left as an exercise",
            "implementation omitted",
        ]
    );
}

#[test]
fn test_grammar_constraints() {
    let py = GrammarConstraint::for_python();
    assert!(matches!(py.language, ProgrammingLanguage::Python));
    assert_eq!(py.grammar_rules.len(), 1);
    assert_eq!(py.grammar_rules[0].rule_name, "func_body_no_pass");
    assert_eq!(py.grammar_rules[0].enforcement, EnforcementLevel::Fatal);
    assert_eq!(py.forbidden_constructs, vec!["pass", "...", "raise NotImplementedError()"]);
    let rs = GrammarConstraint::for_rust();
    assert!(matches!(rs.language, ProgrammingLanguage::Rust));
    assert_eq!(rs.grammar_rules[0].rule_name, "fn_body_no_unimplemented");
    assert_eq!(
        rs.forbidden_constructs,
        vec!["unimplemented!()", "todo!()", "panic!(\"TODO\")"]
    );
}

#[test]
fn test_mock_tokenizer() {
    let tokenizer = MockTokenizer;
    assert!(tokenizer.encode("TODO").is_empty());
    assert_eq!(tokenizer.decode(&[1, 2, 3]), "");
}

#[test]
fn test_default_retry_budget() {
    assert_eq!(MAX_RETRIES, 10);
    let mut orchestrator = Orchestrator::new(MAX_RETRIES);
    let mut planner = DiamondPlanner;
    let mut generator = CleanGenerator;
    let mut repairer = StubbornRepairer { calls: 0 };
    let result = orchestrator
        .execute("again", &mut planner, &mut generator, &mut repairer)
        .unwrap();
    assert!(result.success);
}
