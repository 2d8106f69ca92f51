//! The static validator: a purely in-process scan of a candidate
//! artifact.  It runs no code, touches no file and opens no connection;
//! every finding is a function of the artifact's text and its declared
//! language, stated exactly by the spec functions in this module.

use vstd::prelude::*;
use vstd::string::*;

use crate::policy::banned_count;
use crate::policy::banned_phrases;
use crate::policy::spec_banned_phrase;
use crate::strutil::contains_seq;
use crate::strutil::contains_str;
use crate::strutil::lines_view;
use crate::strutil::spec_lines;
use crate::strutil::spec_trim;
use crate::strutil::split_lines;
use crate::strutil::starts_with;

verus! {

/// How strongly a finding counts against an artifact.
#[derive(Debug, Clone, Copy, PartialEq, Eq, Structural)]
pub enum ErrorSeverity {
    Fatal,
    Error,
    Warning,
}

/// What kind of defect a finding reports.
#[derive(Debug, Clone, Copy, PartialEq, Eq, Structural)]
pub enum ErrorType {
    SterilizationViolation,
    SyntaxError,
    TypeError,
    LintError,
    TestFailure,
    CompilationError,
    EmptyBlock,
    ComplexityThreshold,
}

/// One finding about an artifact.
#[derive(Debug)]
pub struct ValidationError {
    pub severity: ErrorSeverity,
    pub message: String,
    pub file: Option<String>,
    pub line: Option<usize>,
    pub column: Option<usize>,
    pub error_type: ErrorType,
}

/// A remark that never counts against an artifact.
#[derive(Debug)]
pub struct ValidationWarning {
    pub message: String,
    pub file: Option<String>,
    pub line: Option<usize>,
}

/// Summary of test sub-results, when a validation carries any.
#[derive(Debug)]
pub struct TestResults {
    pub total_tests: u32,
    pub passed: u32,
    pub failed: u32,
    pub failures: Vec<TestFailure>,
}

/// One failed test inside `TestResults`.
#[derive(Debug)]
pub struct TestFailure {
    pub test_name: String,
    pub error_message: String,
}

/// The outcome of validating one artifact.
#[derive(Debug)]
pub struct ValidationResult {
    pub passed: bool,
    pub errors: Vec<ValidationError>,
    pub warnings: Vec<ValidationWarning>,
    pub build_output: Option<String>,
    pub test_results: Option<TestResults>,
}

/// The mathematical image of one finding: what it says, free of the
/// `String` representation.
pub ghost struct SpecFinding {
    pub severity: ErrorSeverity,
    pub category: ErrorType,
    pub line: Option<int>,
    pub message: Seq<char>,
}

/// The image of an exec finding.
pub open spec fn abs_finding(e: ValidationError) -> SpecFinding {
    SpecFinding {
        severity: e.severity,
        category: e.error_type,
        line: match e.line {
            Some(n) => Some(n as int),
            None => None,
        },
        message: e.message@,
    }
}

/// The images of a list of exec findings.
pub open spec fn abs_errors(es: Seq<ValidationError>) -> Seq<SpecFinding> {
    es.map_values(|e: ValidationError| abs_finding(e))
}

pub proof fn lemma_abs_push(es: Seq<ValidationError>, e: ValidationError)
    ensures
        abs_errors(es.push(e)) == abs_errors(es).push(abs_finding(e)),
{
    assert(abs_errors(es.push(e)) =~= abs_errors(es).push(abs_finding(e)));
}

/// A finding blocks an artifact when it is fatal or an error.
pub open spec fn is_blocking(f: SpecFinding) -> bool {
    f.severity == ErrorSeverity::Fatal || f.severity == ErrorSeverity::Error
}

/// The message reported for a hit of banned phrase `j`.
pub open spec fn steril_msg(j: int) -> Seq<char> {
    "Sterilization violation: Found '"@ + spec_banned_phrase(j) + "'"@
}

/// The finding reported when banned phrase `j` occurs on line `lineno`.
pub open spec fn steril_finding(lineno: int, j: int) -> SpecFinding {
    SpecFinding {
        severity: ErrorSeverity::Fatal,
        category: ErrorType::SterilizationViolation,
        line: Some(lineno),
        message: steril_msg(j),
    }
}

/// The placeholder findings of one line, for phrases from `j` on.
pub open spec fn steril_pats_from(line: Seq<char>, lineno: int, j: int) -> Seq<SpecFinding>
    decreases banned_count() - j,
{
    if j < 0 || j >= banned_count() {
        Seq::empty()
    } else {
        let rest = steril_pats_from(line, lineno, j + 1);
        if contains_seq(line, spec_banned_phrase(j)) {
            seq![steril_finding(lineno, j)] + rest
        } else {
            rest
        }
    }
}

/// The placeholder findings of all lines from `i` on; line numbers are
/// one-based.
pub open spec fn steril_from(lines: Seq<Seq<char>>, i: int) -> Seq<SpecFinding>
    decreases lines.len() - i,
{
    if i < 0 || i >= lines.len() {
        Seq::empty()
    } else {
        steril_pats_from(lines[i], i + 1, 0) + steril_from(lines, i + 1)
    }
}

/// Every placeholder finding of the artifact, line by line, phrase by
/// phrase within a line.
pub open spec fn spec_steril(lines: Seq<Seq<char>>) -> Seq<SpecFinding> {
    steril_from(lines, 0)
}

/// How often `c` occurs in `s`.
pub open spec fn count_char(s: Seq<char>, c: char) -> int
    decreases s.len(),
{
    if s.len() == 0 {
        0
    } else {
        count_char(s.drop_last(), c) + if s.last() == c {
            1int
        } else {
            0int
        }
    }
}

/// The finding for one kind of unbalanced delimiter.
pub open spec fn balance_finding(msg: Seq<char>) -> SpecFinding {
    SpecFinding {
        severity: ErrorSeverity::Error,
        category: ErrorType::SyntaxError,
        line: None,
        message: msg,
    }
}

/// The delimiter findings: one per delimiter kind whose opening and
/// closing counts over the whole text differ.
pub open spec fn balance_findings(code: Seq<char>) -> Seq<SpecFinding> {
    (if count_char(code, '(') != count_char(code, ')') {
        seq![balance_finding("Unmatched parentheses detected"@)]
    } else {
        Seq::empty()
    }) + (if count_char(code, '[') != count_char(code, ']') {
        seq![balance_finding("Unmatched square brackets detected"@)]
    } else {
        Seq::empty()
    }) + (if count_char(code, '{') != count_char(code, '}') {
        seq![balance_finding("Unmatched curly braces detected"@)]
    } else {
        Seq::empty()
    })
}

/// A line that carries a statement: neither blank nor a comment.
pub open spec fn significant(l: Seq<char>) -> bool {
    spec_trim(l).len() > 0 && spec_trim(l)[0] != '#'
}

/// A line whose trimmed text ends in a colon.
pub open spec fn colon_line(l: Seq<char>) -> bool {
    spec_trim(l).len() > 0 && spec_trim(l).last() == ':'
}

/// A line that is indented: four spaces or a tab.
pub open spec fn indented(l: Seq<char>) -> bool {
    (l.len() >= 4 && l[0] == ' ' && l[1] == ' ' && l[2] == ' ' && l[3] == ' ') || (l.len() >= 1
        && l[0] == '\t')
}

/// The first significant line at or after `j`, or the line count.
pub open spec fn next_sig(lines: Seq<Seq<char>>, j: int) -> int
    decreases lines.len() - j,
{
    if j < 0 || j >= lines.len() {
        lines.len() as int
    } else if significant(lines[j]) {
        j
    } else {
        next_sig(lines, j + 1)
    }
}

pub proof fn lemma_next_sig_at(lines: Seq<Seq<char>>, a: int, j: int)
    requires
        0 <= a <= j <= lines.len(),
        forall|k: int| a <= k < j ==> !significant(lines[k]),
        j < lines.len() ==> significant(lines[j]),
    ensures
        next_sig(lines, a) == j,
    decreases j - a,
{
    if a < j {
        lemma_next_sig_at(lines, a + 1, j)
    }
}

/// The finding for a colon line whose next significant line is not
/// indented; `lineno` is the one-based number of that line.
pub open spec fn indent_finding(lineno: int) -> SpecFinding {
    SpecFinding {
        severity: ErrorSeverity::Error,
        category: ErrorType::SyntaxError,
        line: Some(lineno),
        message: "Expected indented block after colon"@,
    }
}

/// The indentation findings for lines from `i` on.
pub open spec fn indent_from(lines: Seq<Seq<char>>, i: int) -> Seq<SpecFinding>
    decreases lines.len() - i,
{
    if i < 0 || i >= lines.len() {
        Seq::empty()
    } else {
        (if colon_line(lines[i]) && next_sig(lines, i + 1) < lines.len() && !indented(
            lines[next_sig(lines, i + 1)],
        ) {
            seq![indent_finding(next_sig(lines, i + 1) + 1)]
        } else {
            Seq::empty()
        }) + indent_from(lines, i + 1)
    }
}

/// Every finding of the Python-like structural check: delimiter
/// balance over the whole text, then indentation after colon lines.
pub open spec fn spec_python(code: Seq<char>, lines: Seq<Seq<char>>) -> Seq<SpecFinding> {
    balance_findings(code) + indent_from(lines, 0)
}

/// The Rust-like check: explicit not-yet-implemented macros.
pub open spec fn spec_rust(code: Seq<char>) -> Seq<SpecFinding> {
    if contains_seq(code, "unimplemented!()"@) || contains_seq(code, "todo!()"@) {
        seq![
            SpecFinding {
                severity: ErrorSeverity::Fatal,
                category: ErrorType::SterilizationViolation,
                line: None,
                message: "Found unimplemented!() or todo!() macro"@,
            },
        ]
    } else {
        Seq::empty()
    }
}

/// The JS/TS-like check: TODO- or FIXME-style line comments.
pub open spec fn spec_js(code: Seq<char>) -> Seq<SpecFinding> {
    if contains_seq(code, "// TODO"@) || contains_seq(code, "// FIXME"@) {
        seq![
            SpecFinding {
                severity: ErrorSeverity::Fatal,
                category: ErrorType::SterilizationViolation,
                line: None,
                message: "Found TODO or FIXME comment"@,
            },
        ]
    } else {
        Seq::empty()
    }
}

/// The single warning-severity finding for an unrecognized language.
pub open spec fn spec_unknown(language: Seq<char>) -> Seq<SpecFinding> {
    seq![
        SpecFinding {
            severity: ErrorSeverity::Warning,
            category: ErrorType::LintError,
            line: None,
            message: "Unknown language: "@ + language,
        },
    ]
}

/// A line that opens a function definition.
pub open spec fn is_def_line(l: Seq<char>) -> bool {
    starts_with(spec_trim(l), "def "@)
}

/// A line that opens a function or class definition, ending the body
/// of the definition above it.
pub open spec fn is_defclass(l: Seq<char>) -> bool {
    starts_with(spec_trim(l), "def "@) || starts_with(spec_trim(l), "class "@)
}

/// A no-op statement line.
pub open spec fn is_noop(l: Seq<char>) -> bool {
    spec_trim(l) == "pass"@ || spec_trim(l) == "..."@
}

/// From line `j` until the next definition or the end, every
/// significant line is a no-op.
pub open spec fn body_all_noop(lines: Seq<Seq<char>>, j: int) -> bool
    decreases lines.len() - j,
{
    if j < 0 || j >= lines.len() || is_defclass(lines[j]) {
        true
    } else if is_noop(lines[j]) || !significant(lines[j]) {
        body_all_noop(lines, j + 1)
    } else {
        false
    }
}

/// From line `j` until the next definition or the end, at least one
/// no-op line stands before any other statement.
pub open spec fn body_has_noop(lines: Seq<Seq<char>>, j: int) -> bool
    decreases lines.len() - j,
{
    if j < 0 || j >= lines.len() || is_defclass(lines[j]) {
        false
    } else if is_noop(lines[j]) {
        true
    } else if !significant(lines[j]) {
        body_has_noop(lines, j + 1)
    } else {
        false
    }
}

/// The definition on line `i` has a body of no-op statements alone.
pub open spec fn empty_body_at(lines: Seq<Seq<char>>, i: int) -> bool {
    is_def_line(lines[i]) && body_all_noop(lines, i + 1) && body_has_noop(lines, i + 1)
}

/// The finding for an empty function body on one-based line `lineno`.
pub open spec fn ast_finding(lineno: int) -> SpecFinding {
    SpecFinding {
        severity: ErrorSeverity::Fatal,
        category: ErrorType::EmptyBlock,
        line: Some(lineno),
        message: "Function contains only 'pass' statement"@,
    }
}

/// The empty-body findings for definitions from line `i` on.
pub open spec fn ast_from(lines: Seq<Seq<char>>, i: int) -> Seq<SpecFinding>
    decreases lines.len() - i,
{
    if i < 0 || i >= lines.len() {
        Seq::empty()
    } else {
        (if empty_body_at(lines, i) {
            seq![ast_finding(i + 1)]
        } else {
            Seq::empty()
        }) + ast_from(lines, i + 1)
    }
}

/// The structural findings: empty bodies for a Python-like artifact,
/// nothing for any other language.
pub open spec fn spec_ast(lines: Seq<Seq<char>>, language: Seq<char>) -> Seq<SpecFinding> {
    if language == "python"@ {
        ast_from(lines, 0)
    } else {
        Seq::empty()
    }
}

/// Whether no finding of the list blocks the artifact.
fn no_blocking_errors(errors: &Vec<ValidationError>) -> (r: bool)
    ensures
        r == all_pass(abs_errors(errors@)),
{
    let n: usize = errors.len();
    let mut i: usize = 0;
    while i < n
        invariant
            i <= n,
            n == errors@.len(),
            forall|k: int| 0 <= k < i ==> !is_blocking(abs_errors(errors@)[k]),
        decreases n - i,
    {
        let blocking: bool = match errors[i].severity {
            ErrorSeverity::Fatal => true,
            ErrorSeverity::Error => true,
            ErrorSeverity::Warning => false,
        };
        if blocking {
            proof {
                assert(is_blocking(abs_errors(errors@)[i as int]));
            }
            return false;
        }
        i = i + 1;
    }
    true
}

/// Count how often `c` occurs in `v`.
fn count_occurrences(v: &Vec<char>, c: char) -> (r: usize)
    ensures
        r == count_char(v@, c),
{
    let n: usize = v.len();
    let mut r: usize = 0;
    let mut i: usize = 0;
    proof {
        assert(v@.subrange(0, 0) =~= Seq::<char>::empty());
    }
    while i < n
        invariant
            i <= n,
            n == v@.len(),
            r <= i,
            r == count_char(v@.subrange(0, i as int), c),
        decreases n - i,
    {
        proof {
            assert(v@.subrange(0, i as int + 1).drop_last() =~= v@.subrange(0, i as int));
            assert(v@.subrange(0, i as int + 1).last() == v@[i as int]);
        }
        if v[i] == c {
            r = r + 1;
        }
        i = i + 1;
    }
    proof {
        assert(v@.subrange(0, n as int) =~= v@);
    }
    r
}

/// Whether the line carries a statement: neither blank nor a comment.
fn is_significant(l: &Vec<char>) -> (r: bool)
    ensures
        r == significant(l@),
{
    let t: Vec<char> = crate::strutil::trimmed(l);
    t.len() > 0 && t[0] != '#'
}

/// Whether the line is indented by four spaces or a tab.
fn is_indented(l: &Vec<char>) -> (r: bool)
    ensures
        r == indented(l@),
{
    (l.len() >= 4 && l[0] == ' ' && l[1] == ' ' && l[2] == ' ' && l[3] == ' ') || (l.len() >= 1
        && l[0] == '\t')
}

/// The language-specific findings of the validation pipeline.
pub open spec fn lang_findings(code: Seq<char>, lines: Seq<Seq<char>>, language: Seq<char>)
    -> Seq<SpecFinding> {
    if language == "python"@ {
        spec_python(code, lines)
    } else if language == "rust"@ {
        spec_rust(code)
    } else if language == "javascript"@ || language == "typescript"@ {
        spec_js(code)
    } else {
        spec_unknown(language)
    }
}

/// Every finding of validating `code` as `language`: the placeholder
/// scan, then the language-specific checks, then the structural scan.
pub open spec fn spec_validate_errors(code: Seq<char>, language: Seq<char>) -> Seq<SpecFinding> {
    let lines = spec_lines(code);
    spec_steril(lines) + lang_findings(code, lines, language) + spec_ast(lines, language)
}

/// No finding of the list blocks the artifact.
pub open spec fn all_pass(fs: Seq<SpecFinding>) -> bool {
    forall|k: int| 0 <= k < fs.len() ==> !is_blocking(fs[k])
}

/// The artifact passes: no fatal and no error-severity finding.
pub open spec fn spec_passed(code: Seq<char>, language: Seq<char>) -> bool {
    all_pass(spec_validate_errors(code, language))
}

pub proof fn lemma_abs_append(a: Seq<ValidationError>, b: Seq<ValidationError>)
    ensures
        abs_errors(a + b) == abs_errors(a) + abs_errors(b),
{
    assert(abs_errors(a + b) =~= abs_errors(a) + abs_errors(b));
}

pub proof fn lemma_steril_pats_contains(line: Seq<char>, lineno: int, j0: int, j: int)
    requires
        0 <= j0 <= j < banned_count(),
        contains_seq(line, spec_banned_phrase(j)),
    ensures
        steril_pats_from(line, lineno, j0).contains(steril_finding(lineno, j)),
    decreases j - j0,
{
    if j0 == j {
        assert(steril_pats_from(line, lineno, j0)[0] == steril_finding(lineno, j));
    } else {
        lemma_steril_pats_contains(line, lineno, j0 + 1, j);
        let rest = steril_pats_from(line, lineno, j0 + 1);
        let idx = choose|k: int| 0 <= k < rest.len() && rest[k] == steril_finding(lineno, j);
        if contains_seq(line, spec_banned_phrase(j0)) {
            assert(steril_pats_from(line, lineno, j0)[idx + 1] == steril_finding(lineno, j));
        } else {
            assert(steril_pats_from(line, lineno, j0)[idx] == steril_finding(lineno, j));
        }
    }
}

pub proof fn lemma_steril_from_contains(lines: Seq<Seq<char>>, i0: int, i: int, f: SpecFinding)
    requires
        0 <= i0 <= i < lines.len(),
        steril_pats_from(lines[i], i + 1, 0).contains(f),
    ensures
        steril_from(lines, i0).contains(f),
    decreases i - i0,
{
    if i0 == i {
        let here = steril_pats_from(lines[i], i + 1, 0);
        let idx = choose|k: int| 0 <= k < here.len() && here[k] == f;
        assert(steril_from(lines, i0)[idx] == f);
    } else {
        lemma_steril_from_contains(lines, i0 + 1, i, f);
        let rest = steril_from(lines, i0 + 1);
        let idx = choose|k: int| 0 <= k < rest.len() && rest[k] == f;
        let here = steril_pats_from(lines[i0], i0 + 1, 0);
        assert(steril_from(lines, i0)[here.len() + idx] == f);
    }
}

/// An artifact whose third line holds the phrase `TODO` is reported
/// with a fatal placeholder finding at line 3, whatever the declared
/// language, and never passes.
pub proof fn lemma_todo_line_flagged(code: Seq<char>, language: Seq<char>)
    requires
        spec_lines(code).len() >= 3,
        contains_seq(spec_lines(code)[2], "TODO"@),
    ensures
        spec_validate_errors(code, language).contains(steril_finding(3, 0)),
        steril_finding(3, 0).severity == ErrorSeverity::Fatal,
        steril_finding(3, 0).category == ErrorType::SterilizationViolation,
        steril_finding(3, 0).line == Some(3int),
        !spec_passed(code, language),
{
    let lines = spec_lines(code);
    lemma_steril_pats_contains(lines[2], 3, 0, 0);
    lemma_steril_from_contains(lines, 0, 2, steril_finding(3, 0));
    let s = spec_steril(lines);
    let idx = choose|k: int| 0 <= k < s.len() && s[k] == steril_finding(3, 0);
    assert(spec_validate_errors(code, language)[idx] == steril_finding(3, 0));
    assert(is_blocking(spec_validate_errors(code, language)[idx]));
}

/// The purely in-process validation sandbox.
pub struct HermeticSandbox {
    pub container_id: Option<String>,
    pub network_enabled: bool,
    pub filesystem_mounts: Vec<String>,
    pub timeout_seconds: u32,
}

impl HermeticSandbox {
    /// A sandbox with no container, no network and no mounts.
    pub fn new() -> (r: Self)
        ensures
            r.container_id is None,
            !r.network_enabled,
            r.filesystem_mounts@.len() == 0,
            r.timeout_seconds == 300,
    {
        HermeticSandbox {
            container_id: None,
            network_enabled: false,
            filesystem_mounts: Vec::new(),
            timeout_seconds: 300,
        }
    }

    /// Check delimiter balance and indentation after colon lines.
    fn validate_python(&self, code: &Vec<char>, lines: &Vec<Vec<char>>) -> (r: Vec<
        ValidationError,
    >)
        ensures
            abs_errors(r@) == spec_python(code@, lines_view(lines@)),
    {
        let ghost lv = lines_view(lines@);
        let mut errors: Vec<ValidationError> = Vec::new();
        let po: usize = count_occurrences(code, '(');
        let pc: usize = count_occurrences(code, ')');
        let bo: usize = count_occurrences(code, '[');
        let bc: usize = count_occurrences(code, ']');
        let co: usize = count_occurrences(code, '{');
        let cc: usize = count_occurrences(code, '}');
        if po != pc {
            let e = ValidationError {
                severity: ErrorSeverity::Error,
                message: String::from_str("Unmatched parentheses detected"),
                file: None,
                line: None,
                column: None,
                error_type: ErrorType::SyntaxError,
            };
            proof {
                lemma_abs_push(errors@, e);
            }
            errors.push(e);
        }
        if bo != bc {
            let e = ValidationError {
                severity: ErrorSeverity::Error,
                message: String::from_str("Unmatched square brackets detected"),
                file: None,
                line: None,
                column: None,
                error_type: ErrorType::SyntaxError,
            };
            proof {
                lemma_abs_push(errors@, e);
            }
            errors.push(e);
        }
        if co != cc {
            let e = ValidationError {
                severity: ErrorSeverity::Error,
                message: String::from_str("Unmatched curly braces detected"),
                file: None,
                line: None,
                column: None,
                error_type: ErrorType::SyntaxError,
            };
            proof {
                lemma_abs_push(errors@, e);
            }
            errors.push(e);
        }
        proof {
            assert(abs_errors(errors@) =~= balance_findings(code@));
        }
        let n: usize = lines.len();
        let mut i: usize = 0;
        while i < n
            invariant
                i <= n,
                n == lines@.len(),
                lv == lines_view(lines@),
                abs_errors(errors@) + indent_from(lv, i as int) == spec_python(code@, lv),
            decreases n - i,
        {
            proof {
                assert(indent_from(lv, i as int) == (if colon_line(lv[i as int]) && next_sig(
                    lv,
                    i as int + 1,
                ) < lv.len() && !indented(lv[next_sig(lv, i as int + 1)]) {
                    seq![indent_finding(next_sig(lv, i as int + 1) + 1)]
                } else {
                    Seq::empty()
                }) + indent_from(lv, i as int + 1));
            }
            let t: Vec<char> = crate::strutil::trimmed(&lines[i]);
            if t.len() > 0 && t[t.len() - 1] == ':' {
                let mut j: usize = i + 1;
                while j < n && !is_significant(&lines[j])
                    invariant
                        i + 1 <= j <= n,
                        n == lines@.len(),
                        lv == lines_view(lines@),
                        forall|k: int| i + 1 <= k < j ==> !significant(lv[k]),
                    decreases n - j,
                {
                    j = j + 1;
                }
                proof {
                    lemma_next_sig_at(lv, i as int + 1, j as int);
                }
                if j < n && !is_indented(&lines[j]) {
                    let e = ValidationError {
                        severity: ErrorSeverity::Error,
                        message: String::from_str("Expected indented block after colon"),
                        file: None,
                        line: Some(j + 1),
                        column: None,
                        error_type: ErrorType::SyntaxError,
                    };
                    proof {
                        lemma_abs_push(errors@, e);
                    }
                    errors.push(e);
                }
            }
            i = i + 1;
            proof {
                assert(abs_errors(errors@) + indent_from(lv, i as int) =~= spec_python(
                    code@,
                    lv,
                ));
            }
        }
        proof {
            assert(abs_errors(errors@) =~= spec_python(code@, lv));
        }
        errors
    }

    /// Check a Rust-like artifact for not-yet-implemented macros.
    fn validate_rust(&self, code: &Vec<char>) -> (r: Vec<ValidationError>)
        ensures
            abs_errors(r@) == spec_rust(code@),
    {
        let mut errors: Vec<ValidationError> = Vec::new();
        if contains_str(code, "unimplemented!()") || contains_str(code, "todo!()") {
            let e = ValidationError {
                severity: ErrorSeverity::Fatal,
                message: String::from_str("Found unimplemented!() or todo!() macro"),
                file: None,
                line: None,
                column: None,
                error_type: ErrorType::SterilizationViolation,
            };
            proof {
                lemma_abs_push(errors@, e);
            }
            errors.push(e);
        }
        proof {
            assert(abs_errors(errors@) =~= spec_rust(code@));
        }
        errors
    }

    /// Check a JS/TS-like artifact for TODO- or FIXME-style comments.
    fn validate_javascript(&self, code: &Vec<char>) -> (r: Vec<ValidationError>)
        ensures
            abs_errors(r@) == spec_js(code@),
    {
        let mut errors: Vec<ValidationError> = Vec::new();
        if contains_str(code, "// TODO") || contains_str(code, "// FIXME") {
            let e = ValidationError {
                severity: ErrorSeverity::Fatal,
                message: String::from_str("Found TODO or FIXME comment"),
                file: None,
                line: None,
                column: None,
                error_type: ErrorType::SterilizationViolation,
            };
            proof {
                lemma_abs_push(errors@, e);
            }
            errors.push(e);
        }
        proof {
            assert(abs_errors(errors@) =~= spec_js(code@));
        }
        errors
    }

    /// Validate one artifact: scan for banned phrases, run the checks
    /// of the declared language, and scan for empty bodies.  Purely
    /// in-process and deterministic; the result is a function of the
    /// text and the language alone.
    pub fn validate(&self, code: &str, language: &str) -> (r: ValidationResult)
        ensures
            abs_errors(r.errors@) == spec_validate_errors(code@, language@),
            r.passed == spec_passed(code@, language@),
            r.warnings@.len() == 0,
            r.build_output is None,
            r.test_results is None,
    {
        let cv: Vec<char> = crate::strutil::chars_of(code);
        let lines: Vec<Vec<char>> = split_lines(&cv);
        let ghost lv = lines_view(lines@);
        let mut errors: Vec<ValidationError> = self.check_sterilization(&lines);
        if crate::strutil::str_eq(language, "python") {
            let mut more: Vec<ValidationError> = self.validate_python(&cv, &lines);
            proof {
                lemma_abs_append(errors@, more@);
            }
            errors.append(&mut more);
        } else if crate::strutil::str_eq(language, "rust") {
            let mut more: Vec<ValidationError> = self.validate_rust(&cv);
            proof {
                lemma_abs_append(errors@, more@);
            }
            errors.append(&mut more);
        } else if crate::strutil::str_eq(language, "javascript") || crate::strutil::str_eq(
            language,
            "typescript",
        ) {
            let mut more: Vec<ValidationError> = self.validate_javascript(&cv);
            proof {
                lemma_abs_append(errors@, more@);
            }
            errors.append(&mut more);
        } else {
            let mut msg: String = String::from_str("Unknown language: ");
            msg.append(language);
            let e = ValidationError {
                severity: ErrorSeverity::Warning,
                message: msg,
                file: None,
                line: None,
                column: None,
                error_type: ErrorType::LintError,
            };
            proof {
                lemma_abs_push(errors@, e);
                assert(abs_errors(errors@).push(abs_finding(e)) =~= abs_errors(errors@)
                    + spec_unknown(language@));
            }
            errors.push(e);
        }
        proof {
            assert(abs_errors(errors@) == spec_steril(lv) + lang_findings(cv@, lv, language@));
        }
        let mut ast: Vec<ValidationError> = self.analyze_ast(&lines, language);
        proof {
            lemma_abs_append(errors@, ast@);
        }
        errors.append(&mut ast);
        proof {
            assert(abs_errors(errors@) =~= spec_validate_errors(code@, language@));
        }
        let passed: bool = no_blocking_errors(&errors);
        ValidationResult {
            passed,
            errors,
            warnings: Vec::new(),
            build_output: None,
            test_results: None,
        }
    }

    /// Report every function definition whose body holds no-op
    /// statements alone; runs only for a Python-like artifact.
    fn analyze_ast(&self, lines: &Vec<Vec<char>>, language: &str) -> (r: Vec<ValidationError>)
        ensures
            abs_errors(r@) == spec_ast(lines_view(lines@), language@),
    {
        let ghost lv = lines_view(lines@);
        let mut errors: Vec<ValidationError> = Vec::new();
        if !crate::strutil::str_eq(language, "python") {
            proof {
                assert(abs_errors(errors@) =~= spec_ast(lv, language@));
            }
            return errors;
        }
        let n: usize = lines.len();
        let mut i: usize = 0;
        proof {
            assert(abs_errors(errors@) =~= Seq::<SpecFinding>::empty());
        }
        while i < n
            invariant
                i <= n,
                n == lines@.len(),
                lv == lines_view(lines@),
                language@ == "python"@,
                abs_errors(errors@) + ast_from(lv, i as int) == spec_ast(lv, language@),
            decreases n - i,
        {
            proof {
                assert(ast_from(lv, i as int) == (if empty_body_at(lv, i as int) {
                    seq![ast_finding(i as int + 1)]
                } else {
                    Seq::empty()
                }) + ast_from(lv, i as int + 1));
            }
            let t: Vec<char> = crate::strutil::trimmed(&lines[i]);
            if crate::strutil::starts_with_str(&t, "def ") {
                let mut j: usize = i + 1;
                let mut has_noop: bool = false;
                let mut all_noop: bool = true;
                let mut done: bool = false;
                while j < n && !done
                    invariant
                        i + 1 <= j <= n,
                        n == lines@.len(),
                        lv == lines_view(lines@),
                        !done ==> all_noop,
                        !done ==> body_all_noop(lv, i as int + 1) == body_all_noop(lv, j as int),
                        !done ==> body_has_noop(lv, i as int + 1) == (has_noop || body_has_noop(
                            lv,
                            j as int,
                        )),
                        done ==> body_all_noop(lv, i as int + 1) == all_noop,
                        done ==> body_has_noop(lv, i as int + 1) == has_noop,
                    decreases n - j, (if done { 0int } else { 1int }),
                {
                    let u: Vec<char> = crate::strutil::trimmed(&lines[j]);
                    if crate::strutil::starts_with_str(&u, "def ") || crate::strutil::starts_with_str(
                        &u,
                        "class ",
                    ) {
                        done = true;
                    } else if crate::strutil::vec_eq_str(&u, "pass") || crate::strutil::vec_eq_str(
                        &u,
                        "...",
                    ) {
                        has_noop = true;
                        j = j + 1;
                    } else if u.len() > 0 && u[0] != '#' {
                        all_noop = false;
                        done = true;
                    } else {
                        j = j + 1;
                    }
                }
                if all_noop && has_noop {
                    let e = ValidationError {
                        severity: ErrorSeverity::Fatal,
                        message: String::from_str("Function contains only 'pass' statement"),
                        file: None,
                        line: Some(i + 1),
                        column: None,
                        error_type: ErrorType::EmptyBlock,
                    };
                    proof {
                        lemma_abs_push(errors@, e);
                    }
                    errors.push(e);
                }
            }
            i = i + 1;
            proof {
                assert(abs_errors(errors@) + ast_from(lv, i as int) =~= spec_ast(lv, language@));
            }
        }
        proof {
            assert(abs_errors(errors@) =~= spec_ast(lv, language@));
        }
        errors
    }

    /// Pick the configured linter for the language; no linter runs any
    /// external process, so each returns a clean result.
    pub fn run_linter(&self, file_path: &str, language: &str) -> (r: Result<
        ValidationResult,
        String,
    >)
        ensures
            (language@ == "python"@ || language@ == "javascript"@ || language@ == "typescript"@)
                <==> r is Ok,
            r is Ok ==> (r->Ok_0).passed && (r->Ok_0).errors@.len() == 0 && (
            r->Ok_0).warnings@.len() == 0 && (r->Ok_0).build_output is None && (
            r->Ok_0).test_results is None,
            r is Err ==> (r->Err_0)@ == "No linter configured for language: "@ + language@,
    {
        if crate::strutil::str_eq(language, "python") {
            self.run_pylint(file_path)
        } else if crate::strutil::str_eq(language, "javascript") || crate::strutil::str_eq(
            language,
            "typescript",
        ) {
            self.run_eslint(file_path)
        } else {
            let mut msg: String = String::from_str("No linter configured for language: ");
            msg.append(language);
            Err(msg)
        }
    }

    /// The Python linter: in-process only, reports a clean result.
    fn run_pylint(&self, file_path: &str) -> (r: Result<ValidationResult, String>)
        ensures
            r is Ok,
            (r->Ok_0).passed && (r->Ok_0).errors@.len() == 0 && (r->Ok_0).warnings@.len() == 0 && (
            r->Ok_0).build_output is None && (r->Ok_0).test_results is None,
    {
        Ok(
            ValidationResult {
                passed: true,
                errors: Vec::new(),
                warnings: Vec::new(),
                build_output: None,
                test_results: None,
            },
        )
    }

    /// The JS/TS linter: in-process only, reports a clean result.
    fn run_eslint(&self, file_path: &str) -> (r: Result<ValidationResult, String>)
        ensures
            r is Ok,
            (r->Ok_0).passed && (r->Ok_0).errors@.len() == 0 && (r->Ok_0).warnings@.len() == 0 && (
            r->Ok_0).build_output is None && (r->Ok_0).test_results is None,
    {
        Ok(
            ValidationResult {
                passed: true,
                errors: Vec::new(),
                warnings: Vec::new(),
                build_output: None,
                test_results: None,
            },
        )
    }

    /// Scan every line for every banned phrase of the policy table.
    fn check_sterilization(&self, lines: &Vec<Vec<char>>) -> (r: Vec<ValidationError>)
        ensures
            abs_errors(r@) == spec_steril(lines_view(lines@)),
    {
        let ghost lv = lines_view(lines@);
        let pats: Vec<&'static str> = banned_phrases();
        let mut errors: Vec<ValidationError> = Vec::new();
        proof {
            assert(abs_errors(errors@) =~= Seq::<SpecFinding>::empty());
        }
        let n: usize = lines.len();
        let mut i: usize = 0;
        while i < n
            invariant
                i <= n,
                n == lines@.len(),
                lv == lines_view(lines@),
                pats@.len() == banned_count(),
                forall|k: int| 0 <= k < banned_count() ==> pats@[k]@ == spec_banned_phrase(k),
                abs_errors(errors@) + steril_from(lv, i as int) == spec_steril(lv),
            decreases n - i,
        {
            let m: usize = pats.len();
            let mut j: usize = 0;
            proof {
                assert(steril_from(lv, i as int) == steril_pats_from(lv[i as int], i as int + 1, 0)
                    + steril_from(lv, i as int + 1));
            }
            while j < m
                invariant
                    j <= m,
                    i < n,
                    n == lines@.len(),
                    lv == lines_view(lines@),
                    m == banned_count(),
                    pats@.len() == banned_count(),
                    forall|k: int| 0 <= k < banned_count() ==> pats@[k]@ == spec_banned_phrase(k),
                    abs_errors(errors@) + steril_pats_from(lv[i as int], i as int + 1, j as int)
                        + steril_from(lv, i as int + 1) == spec_steril(lv),
                decreases m - j,
            {
                proof {
                    assert(steril_pats_from(lv[i as int], i as int + 1, j as int) == (
                    if contains_seq(lv[i as int], spec_banned_phrase(j as int)) {
                        seq![steril_finding(i as int + 1, j as int)] + steril_pats_from(
                            lv[i as int],
                            i as int + 1,
                            j as int + 1,
                        )
                    } else {
                        steril_pats_from(lv[i as int], i as int + 1, j as int + 1)
                    }));
                }
                if contains_str(&lines[i], pats[j]) {
                    let mut msg: String = String::from_str("Sterilization violation: Found '");
                    msg.append(pats[j]);
                    msg.append("'");
                    let e = ValidationError {
                        severity: ErrorSeverity::Fatal,
                        message: msg,
                        file: None,
                        line: Some(i + 1),
                        column: None,
                        error_type: ErrorType::SterilizationViolation,
                    };
                    proof {
                        assert(abs_finding(e) == steril_finding(i as int + 1, j as int));
                        lemma_abs_push(errors@, e);
                    }
                    errors.push(e);
                    proof {
                        assert(abs_errors(errors@) + (steril_pats_from(
                            lv[i as int],
                            i as int + 1,
                            j as int + 1,
                        ) + steril_from(lv, i as int + 1)) =~= spec_steril(lv));
                    }
                }
                j = j + 1;
                proof {
                    assert(abs_errors(errors@) + steril_pats_from(
                        lv[i as int],
                        i as int + 1,
                        j as int,
                    ) + steril_from(lv, i as int + 1) =~= spec_steril(lv));
                }
            }
            i = i + 1;
            proof {
                assert(steril_pats_from(lv[i as int - 1], i as int, banned_count())
                    =~= Seq::<SpecFinding>::empty());
                assert(abs_errors(errors@) + steril_from(lv, i as int) =~= spec_steril(lv));
            }
        }
        proof {
            assert(steril_from(lv, n as int) =~= Seq::<SpecFinding>::empty());
            assert(abs_errors(errors@) =~= spec_steril(lv));
        }
        errors
    }
}

} // verus!
