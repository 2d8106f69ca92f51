use axiom_determinist::PipelineError;
use axiom_determinist::reflexion::ReflexionLoop;
use axiom_determinist::reflexion::Repairer;
use axiom_determinist::reflexion::Validator;
use axiom_determinist::reflexion::detect_language;
use axiom_determinist::sandbox::ErrorSeverity;
use axiom_determinist::sandbox::ErrorType;
use axiom_determinist::sandbox::HermeticSandbox;
use axiom_determinist::sandbox::ValidationError;
use axiom_determinist::sandbox::ValidationResult;

fn clean_outcome(passed: bool) -> ValidationResult {
    ValidationResult {
        passed,
        errors: Vec::new(),
        warnings: Vec::new(),
        build_output: None,
        test_results: None,
    }
}

struct AlwaysPass {
    calls: u32,
}

impl Validator for AlwaysPass {
    fn validate(&mut self, _code: &str) -> ValidationResult {
        self.calls += 1;
        clean_outcome(true)
    }
}

struct NeverPass {
    calls: u32,
}

impl Validator for NeverPass {
    fn validate(&mut self, _code: &str) -> ValidationResult {
        self.calls += 1;
        clean_outcome(false)
    }
}

struct CountingRepairer {
    calls: u32,
}

impl Repairer for CountingRepairer {
    fn repair(&mut self, code: &str, _outcome: &ValidationResult) -> String {
        self.calls += 1;
        format!("{}!", code)
    }
}

struct ForbiddenRepairer;

impl Repairer for ForbiddenRepairer {
    fn repair(&mut self, _code: &str, _outcome: &ValidationResult) -> String {
        panic!("the repairer must not be called when the first validation passes");
    }
}

#[test]
fn test_first_pass_returns_original_code() {
    let mut looper = ReflexionLoop::new(5);
    let mut validator = AlwaysPass { calls: 0 };
    let mut repairer = ForbiddenRepairer;
    let r = looper.execute("original".to_string(), &mut validator, &mut repairer);
    assert_eq!(r, Ok("original".to_string()));
    assert_eq!(looper.get_current_iteration(), 1);
    assert_eq!(validator.calls, 1);
    let history = looper.get_history();
    assert_eq!(history.len(), 1);
    assert!(history[0].success);
    assert_eq!(history[0].iteration, 1);
    assert_eq!(history[0].original_code, "original");
    assert_eq!(history[0].repaired_code, Some("original".to_string()));
}

#[test]
fn test_exhausted_budget_counts_calls_exactly() {
    let max_retries: u32 = 3;
    let mut looper = ReflexionLoop::new(max_retries);
    let mut validator = NeverPass { calls: 0 };
    let mut repairer = CountingRepairer { calls: 0 };
    let r = looper.execute("seed".to_string(), &mut validator, &mut repairer);
    assert_eq!(r, Err(PipelineError::RetriesExceeded(max_retries)));
    // one validation past the budget, never more
    assert_eq!(validator.calls, max_retries + 1);
    // one repair per failed try within the budget, never more
    assert_eq!(repairer.calls, max_retries);
    let history = looper.get_history();
    assert_eq!(history.len(), (max_retries + 1) as usize);
    for (k, rec) in history.iter().enumerate() {
        assert_eq!(rec.iteration, (k + 1) as u32);
        assert!(!rec.success);
    }
    // the candidates chain through the repairs
    assert_eq!(history[0].original_code, "seed");
    assert_eq!(history[1].original_code, "seed!");
    assert_eq!(history[2].original_code, "seed!!");
    assert_eq!(history[3].original_code, "seed!!!");
    assert!(history[3].repaired_code.is_none());
}

#[test]
fn test_zero_budget_validates_once() {
    let mut looper = ReflexionLoop::new(0);
    let mut validator = NeverPass { calls: 0 };
    let mut repairer = CountingRepairer { calls: 0 };
    let r = looper.execute("x".to_string(), &mut validator, &mut repairer);
    assert_eq!(r, Err(PipelineError::RetriesExceeded(0)));
    assert_eq!(validator.calls, 1);
    assert_eq!(repairer.calls, 0);
}

#[test]
fn test_history_is_per_invocation() {
    let mut looper = ReflexionLoop::new(2);
    let mut validator = AlwaysPass { calls: 0 };
    let mut repairer = ForbiddenRepairer;
    looper.execute("one".to_string(), &mut validator, &mut repairer).unwrap();
    looper.execute("two".to_string(), &mut validator, &mut repairer).unwrap();
    assert_eq!(looper.get_history().len(), 1);
    assert_eq!(looper.get_current_iteration(), 1);
    assert_eq!(looper.get_history()[0].original_code, "two");
}

struct SandboxPython {
    sandbox: HermeticSandbox,
}

impl Validator for SandboxPython {
    fn validate(&mut self, code: &str) -> ValidationResult {
        self.sandbox.validate(code, "python")
    }
}

struct FixedRepair {
    replacement: String,
}

impl Repairer for FixedRepair {
    fn repair(&mut self, _code: &str, _outcome: &ValidationResult) -> String {
        self.replacement.clone()
    }
}

#[test]
fn test_repair_converges_through_real_validator() {
    let mut looper = ReflexionLoop::new(3);
    let mut validator = SandboxPython { sandbox: HermeticSandbox::new() };
    let good = "def f():\n    return 1\n".to_string();
    let mut repairer = FixedRepair { replacement: good.clone() };
    let bad = "def f():\n    pass\n".to_string();
    let r = looper.execute(bad, &mut validator, &mut repairer);
    assert_eq!(r, Ok(good));
    assert_eq!(looper.get_current_iteration(), 2);
    let history = looper.get_history();
    assert!(!history[0].success);
    assert!(history[1].success);
}

#[test]
fn test_analyze_errors_digest() {
    let looper = ReflexionLoop::new(1);
    let outcome = ValidationResult {
        passed: false,
        errors: vec![
            ValidationError {
                severity: ErrorSeverity::Fatal,
                message: "Sterilization violation: Found 'TODO'".to_string(),
                file: None,
                line: Some(3),
                column: None,
                error_type: ErrorType::SterilizationViolation,
            },
            ValidationError {
                severity: ErrorSeverity::Error,
                message: "Unmatched parentheses detected".to_string(),
                file: None,
                line: None,
                column: None,
                error_type: ErrorType::SyntaxError,
            },
        ],
        warnings: Vec::new(),
        build_output: None,
        test_results: None,
    };
    let digest = looper.analyze_errors(&outcome);
    let expected = "Validation Errors:\n\
        [FATAL] SterilizationViolation: Sterilization violation: Found 'TODO'\n\
        \x20 Location: Line 3\n\
        [ERROR] SyntaxError: Unmatched parentheses detected\n";
    assert_eq!(digest, expected);
}

#[test]
fn test_analyze_errors_empty() {
    let looper = ReflexionLoop::new(1);
    let digest = looper.analyze_errors(&clean_outcome(false));
    assert_eq!(digest, "No errors found");
}

#[test]
fn test_detect_language_keywords() {
    assert_eq!(detect_language("fn main() {}"), "rust");
    assert_eq!(detect_language("def f():"), "python");
    assert_eq!(detect_language("const x = 1;"), "javascript");
    assert_eq!(detect_language("hello there"), "unknown");
}

#[test]
fn test_repair_prompt_text() {
    let looper = ReflexionLoop::new(1);
    let code = "let x = 1;";
    let digest_source = clean_outcome(false);
    let prompt = looper.generate_repair_prompt(code, &digest_source);
    let expected = format!(
        "\n###_STERILIZATION_PROTOCOL_v1_###\n\nThe following code failed the sterilization check:\n\n```{}\n{}\n```\n\nError Details:\n{}\n\nYou must fix ALL errors. Do not remove comments or TODOs - implement the missing logic.\nEvery function must contain complete, executable code.\nCode containing placeholders will trigger a fatal build error.\n\nGenerate the complete, fixed code:\n",
        "javascript", code, "No errors found"
    );
    assert_eq!(prompt, expected);
}
