use axiom_determinist::banned_phrases;
use axiom_determinist::sandbox::ErrorSeverity;
use axiom_determinist::sandbox::ErrorType;
use axiom_determinist::sandbox::HermeticSandbox;

#[test]
fn test_todo_on_line_three_is_fatal() {
    let sandbox = HermeticSandbox::new();
    let code = "x = 1\ny = 2\n# TODO finish this\nz = 3\n";
    let result = sandbox.validate(code, "python");
    assert!(!result.passed);
    let hit = result
        .errors
        .iter()
        .find(|e| e.error_type == ErrorType::SterilizationViolation)
        .unwrap();
    assert_eq!(hit.severity, ErrorSeverity::Fatal);
    assert_eq!(hit.line, Some(3));
    assert_eq!(hit.message, "Sterilization violation: Found 'TODO'");
}

#[test]
fn test_clean_python_passes() {
    let sandbox = HermeticSandbox::new();
    let code = "def add(a, b):\n    return a + b\n";
    let result = sandbox.validate(code, "python");
    assert!(result.passed);
    assert!(result.errors.is_empty());
    assert!(result.warnings.is_empty());
    assert!(result.build_output.is_none());
    assert!(result.test_results.is_none());
}

#[test]
fn test_empty_input_passes() {
    let sandbox = HermeticSandbox::new();
    let result = sandbox.validate("", "python");
    assert!(result.passed);
    assert!(result.errors.is_empty());
}

#[test]
fn test_unbalanced_parentheses() {
    let sandbox = HermeticSandbox::new();
    let result = sandbox.validate("x = (1 + 2\n", "python");
    assert!(!result.passed);
    assert_eq!(result.errors.len(), 1);
    assert_eq!(result.errors[0].severity, ErrorSeverity::Error);
    assert_eq!(result.errors[0].error_type, ErrorType::SyntaxError);
    assert_eq!(result.errors[0].message, "Unmatched parentheses detected");
}

#[test]
fn test_unbalanced_brackets_and_braces() {
    let sandbox = HermeticSandbox::new();
    let result = sandbox.validate("a = [1, 2\nb = {3: 4\n", "python");
    assert!(!result.passed);
    let msgs: Vec<&str> = result.errors.iter().map(|e| e.message.as_str()).collect();
    assert_eq!(
        msgs,
        vec![
            "Unmatched square brackets detected",
            "Unmatched curly braces detected"
        ]
    );
}

#[test]
fn test_missing_indent_after_colon() {
    let sandbox = HermeticSandbox::new();
    let code = "if x:\nprint(x)\n";
    let result = sandbox.validate(code, "python");
    assert!(!result.passed);
    assert_eq!(result.errors.len(), 1);
    assert_eq!(result.errors[0].message, "Expected indented block after colon");
    assert_eq!(result.errors[0].line, Some(2));
}

#[test]
fn test_indent_check_skips_blank_and_comment_lines() {
    let sandbox = HermeticSandbox::new();
    // the blank line and the comment do not count as the block
    let code = "if x:\n\n# note\nprint(x)\n";
    let result = sandbox.validate(code, "python");
    assert!(!result.passed);
    assert_eq!(result.errors[0].message, "Expected indented block after colon");
    assert_eq!(result.errors[0].line, Some(4));
    // an indented statement after the noise satisfies the check
    let good = "if x:\n\n# note\n    print(x)\n";
    assert!(sandbox.validate(good, "python").passed);
}

#[test]
fn test_empty_function_body_is_fatal() {
    let sandbox = HermeticSandbox::new();
    let code = "def f():\n    pass\n";
    let result = sandbox.validate(code, "python");
    assert!(!result.passed);
    let hit = result
        .errors
        .iter()
        .find(|e| e.error_type == ErrorType::EmptyBlock)
        .unwrap();
    assert_eq!(hit.severity, ErrorSeverity::Fatal);
    assert_eq!(hit.line, Some(1));
    assert_eq!(hit.message, "Function contains only 'pass' statement");
}

#[test]
fn test_body_with_real_statement_is_not_empty() {
    let sandbox = HermeticSandbox::new();
    let code = "def f():\n    pass\n    x = 1\n";
    let result = sandbox.validate(code, "python");
    assert!(result
        .errors
        .iter()
        .all(|e| e.error_type != ErrorType::EmptyBlock));
}

#[test]
fn test_empty_body_before_next_definition() {
    let sandbox = HermeticSandbox::new();
    let code = "def f():\n    pass\ndef g():\n    return 1\n";
    let result = sandbox.validate(code, "python");
    let hits: Vec<_> = result
        .errors
        .iter()
        .filter(|e| e.error_type == ErrorType::EmptyBlock)
        .collect();
    assert_eq!(hits.len(), 1);
    assert_eq!(hits[0].line, Some(1));
}

#[test]
fn test_rust_todo_macro_is_fatal() {
    let sandbox = HermeticSandbox::new();
    let result = sandbox.validate("fn main() { todo!() }", "rust");
    assert!(!result.passed);
    assert_eq!(result.errors.len(), 1);
    assert_eq!(result.errors[0].severity, ErrorSeverity::Fatal);
    assert_eq!(result.errors[0].message, "Found unimplemented!() or todo!() macro");
}

#[test]
fn test_clean_rust_passes() {
    let sandbox = HermeticSandbox::new();
    let result = sandbox.validate("fn main() { println!(\"ok\") }", "rust");
    assert!(result.passed);
}

#[test]
fn test_javascript_todo_comment() {
    let sandbox = HermeticSandbox::new();
    let result = sandbox.validate("// TODO: later\nlet x = 1;\n", "javascript");
    assert!(!result.passed);
    // the banned-phrase scan and the comment check both report it
    assert_eq!(result.errors.len(), 2);
    assert_eq!(result.errors[0].message, "Sterilization violation: Found 'TODO'");
    assert_eq!(result.errors[0].line, Some(1));
    assert_eq!(result.errors[1].message, "Found TODO or FIXME comment");
}

#[test]
fn test_typescript_uses_comment_check() {
    let sandbox = HermeticSandbox::new();
    let result = sandbox.validate("// FIXME soon\n", "typescript");
    assert!(!result.passed);
}

#[test]
fn test_unknown_language_is_warning_only() {
    let sandbox = HermeticSandbox::new();
    let result = sandbox.validate("MOVE 1 TO X", "cobol");
    assert!(result.passed);
    assert_eq!(result.errors.len(), 1);
    assert_eq!(result.errors[0].severity, ErrorSeverity::Warning);
    assert_eq!(result.errors[0].error_type, ErrorType::LintError);
    assert_eq!(result.errors[0].message, "Unknown language: cobol");
}

#[test]
fn test_every_banned_phrase_is_reported() {
    let sandbox = HermeticSandbox::new();
    for phrase in banned_phrases() {
        let code = format!("x = 1\nthis line holds {} somewhere\n", phrase);
        let result = sandbox.validate(&code, "rust");
        let hit = result
            .errors
            .iter()
            .find(|e| e.error_type == ErrorType::SterilizationViolation)
            .unwrap_or_else(|| panic!("phrase not reported: {}", phrase));
        assert_eq!(hit.severity, ErrorSeverity::Fatal);
        assert_eq!(hit.line, Some(2));
        assert_eq!(hit.message, format!("Sterilization violation: Found '{}'", phrase));
    }
}

#[test]
fn test_carriage_return_line_endings() {
    let sandbox = HermeticSandbox::new();
    let code = "x = 1\r\n# TODO later\r\nz = 3\r\n";
    let result = sandbox.validate(code, "rust");
    assert!(!result.passed);
    assert_eq!(result.errors.len(), 1);
    assert_eq!(result.errors[0].line, Some(2));
}

#[test]
fn test_multiple_phrases_on_one_line() {
    let sandbox = HermeticSandbox::new();
    let result = sandbox.validate("# TODO and FIXME and XXX\n", "rust");
    assert!(!result.passed);
    // one finding per phrase, in the order of the policy table
    let msgs: Vec<&str> = result.errors.iter().map(|e| e.message.as_str()).collect();
    assert_eq!(
        msgs,
        vec![
            "Sterilization violation: Found 'TODO'",
            "Sterilization violation: Found 'FIXME'",
            "Sterilization violation: Found 'XXX'",
        ]
    );
    assert!(result.errors.iter().all(|e| e.line == Some(1)));
}

#[test]
fn test_line_numbers_past_ten() {
    let sandbox = HermeticSandbox::new();
    let mut code = String::new();
    for _ in 0..11 {
        code.push_str("x = 1\n");
    }
    code.push_str("y = 2  # HACK\n");
    let result = sandbox.validate(&code, "rust");
    assert_eq!(result.errors.len(), 1);
    assert_eq!(result.errors[0].line, Some(12));
}

#[test]
fn test_run_linter() {
    let sandbox = HermeticSandbox::new();
    let ok = sandbox.run_linter("a.py", "python").unwrap();
    assert!(ok.passed);
    assert!(ok.errors.is_empty());
    let err = sandbox.run_linter("a.go", "go").unwrap_err();
    assert_eq!(err, "No linter configured for language: go");
}

#[test]
fn test_sandbox_defaults() {
    let sandbox = HermeticSandbox::new();
    assert!(sandbox.container_id.is_none());
    assert!(!sandbox.network_enabled);
    assert!(sandbox.filesystem_mounts.is_empty());
    assert_eq!(sandbox.timeout_seconds, 300);
}
