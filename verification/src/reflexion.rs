//! The bounded repair loop: validate a candidate, and while it fails,
//! ask a repair collaborator for the next candidate, keeping a full
//! per-invocation history.  The loop never calls the validator more
//! than one time past its retry budget, and never calls the repairer
//! more often than the budget itself.

use vstd::prelude::*;
use vstd::string::*;

use crate::PipelineError;
use crate::sandbox::ErrorSeverity;
use crate::sandbox::ErrorType;
use crate::sandbox::ValidationResult;
use crate::strutil::contains_seq;
use crate::strutil::contains_str;
use crate::strutil::spec_dec;

verus! {

/// A validation capability: what the loop calls to judge a candidate.
/// Implementations may keep state; the loop promises nothing about
/// what a validator reports, only how it reacts to the reports.
pub trait Validator {
    fn validate(&mut self, code: &str) -> ValidationResult;
}

/// A repair capability: an external collaborator that proposes the
/// next candidate for a failing one.  For end-to-end reproducibility
/// it should be a deterministic function of its inputs; the loop does
/// not and cannot enforce that.
pub trait Repairer {
    fn repair(&mut self, code: &str, outcome: &ValidationResult) -> String;
}

/// One iteration of the repair loop: the candidate evaluated, the
/// outcome, a readable digest of the findings, the repaired candidate
/// if one was requested, and whether this iteration succeeded.
#[derive(Debug)]
pub struct RepairContext {
    pub iteration: u32,
    pub original_code: String,
    pub validation_result: ValidationResult,
    pub error_analysis: String,
    pub repaired_code: Option<String>,
    pub success: bool,
}

/// The bounded repair loop with its per-invocation history.
#[derive(Debug)]
pub struct ReflexionLoop {
    pub max_retries: u32,
    pub current_iteration: u32,
    pub repair_history: Vec<RepairContext>,
}

/// The tag printed for a severity.
pub open spec fn severity_tag(s: ErrorSeverity) -> Seq<char> {
    match s {
        ErrorSeverity::Fatal => "FATAL"@,
        ErrorSeverity::Error => "ERROR"@,
        ErrorSeverity::Warning => "WARNING"@,
    }
}

/// The tag printed for a finding category.
pub open spec fn type_tag(t: ErrorType) -> Seq<char> {
    match t {
        ErrorType::SterilizationViolation => "SterilizationViolation"@,
        ErrorType::SyntaxError => "SyntaxError"@,
        ErrorType::TypeError => "TypeError"@,
        ErrorType::LintError => "LintError"@,
        ErrorType::TestFailure => "TestFailure"@,
        ErrorType::CompilationError => "CompilationError"@,
        ErrorType::EmptyBlock => "EmptyBlock"@,
        ErrorType::ComplexityThreshold => "ComplexityThreshold"@,
    }
}

/// The location line printed under a finding that carries one.
pub open spec fn line_part(l: Option<usize>) -> Seq<char> {
    match l {
        Some(n) => "  Location: Line "@ + spec_dec(n as nat) + "\n"@,
        None => Seq::empty(),
    }
}

/// The digest text of one finding.
pub open spec fn entry_text(e: crate::sandbox::ValidationError) -> Seq<char> {
    "["@ + severity_tag(e.severity) + "] "@ + type_tag(e.error_type) + ": "@ + e.message@ + "\n"@
        + line_part(e.line)
}

/// The digest text of the findings from position `k` on.
pub open spec fn entries_text(es: Seq<crate::sandbox::ValidationError>, k: int) -> Seq<char>
    decreases es.len() - k,
{
    if k < 0 || k >= es.len() {
        Seq::empty()
    } else {
        entry_text(es[k]) + entries_text(es, k + 1)
    }
}

/// The full digest of a validation outcome's findings.
pub open spec fn spec_analysis(es: Seq<crate::sandbox::ValidationError>) -> Seq<char> {
    if es.len() == 0 {
        "No errors found"@
    } else {
        "Validation Errors:\n"@ + entries_text(es, 0)
    }
}

/// The repair instruction for a failing candidate.
pub open spec fn spec_repair_prompt(
    code: Seq<char>,
    es: Seq<crate::sandbox::ValidationError>,
) -> Seq<char> {
    "\n###_STERILIZATION_PROTOCOL_v1_###\n\nThe following code failed the sterilization check:\n\n```"@
        + spec_detect_language(code) + "\n"@ + code + "\n```\n\nError Details:\n"@ + spec_analysis(
        es,
    )
        + "\n\nYou must fix ALL errors. Do not remove comments or TODOs - implement the missing logic.\nEvery function must contain complete, executable code.\nCode containing placeholders will trigger a fatal build error.\n\nGenerate the complete, fixed code:\n"@
}

/// The language guessed from an artifact's text, by keyword.
pub open spec fn spec_detect_language(code: Seq<char>) -> Seq<char> {
    if contains_seq(code, "fn "@) || contains_seq(code, "impl "@) || contains_seq(
        code,
        "struct "@,
    ) {
        "rust"@
    } else if contains_seq(code, "def "@) || contains_seq(code, "import "@) || contains_seq(
        code,
        "class "@,
    ) {
        "python"@
    } else if contains_seq(code, "function "@) || contains_seq(code, "const "@) || contains_seq(
        code,
        "let "@,
    ) {
        "javascript"@
    } else {
        "unknown"@
    }
}

/// Guess an artifact's language from telltale keywords.
pub fn detect_language(code: &str) -> (r: &'static str)
    ensures
        r@ == spec_detect_language(code@),
{
    let cv: Vec<char> = crate::strutil::chars_of(code);
    if contains_str(&cv, "fn ") || contains_str(&cv, "impl ") || contains_str(&cv, "struct ") {
        "rust"
    } else if contains_str(&cv, "def ") || contains_str(&cv, "import ") || contains_str(
        &cv,
        "class ",
    ) {
        "python"
    } else if contains_str(&cv, "function ") || contains_str(&cv, "const ") || contains_str(
        &cv,
        "let ",
    ) {
        "javascript"
    } else {
        "unknown"
    }
}

/// The tag text for a severity.
fn severity_str(s: ErrorSeverity) -> (r: &'static str)
    ensures
        r@ == severity_tag(s),
{
    match s {
        ErrorSeverity::Fatal => "FATAL",
        ErrorSeverity::Error => "ERROR",
        ErrorSeverity::Warning => "WARNING",
    }
}

/// The tag text for a finding category.
fn type_str(t: ErrorType) -> (r: &'static str)
    ensures
        r@ == type_tag(t),
{
    match t {
        ErrorType::SterilizationViolation => "SterilizationViolation",
        ErrorType::SyntaxError => "SyntaxError",
        ErrorType::TypeError => "TypeError",
        ErrorType::LintError => "LintError",
        ErrorType::TestFailure => "TestFailure",
        ErrorType::CompilationError => "CompilationError",
        ErrorType::EmptyBlock => "EmptyBlock",
        ErrorType::ComplexityThreshold => "ComplexityThreshold",
    }
}

/// A run whose first validation reported passed — stated over the
/// history and result that `execute`'s contract describes — returned
/// the original code unchanged after exactly one iteration, and its
/// one record asked for no repair beyond echoing the passing code.
pub proof fn lemma_first_pass_run(
    h: Seq<RepairContext>,
    initial_code: String,
    r: Result<String, PipelineError>,
)
    requires
        1 <= h.len(),
        forall|k: int| #![trigger h[k]] 0 <= k < h.len() - 1 ==> !h[k].validation_result.passed,
        h[0].original_code == initial_code,
        r is Ok <==> h[h.len() - 1].validation_result.passed,
        r is Ok ==> r->Ok_0 == h[h.len() - 1].original_code,
        h[0].validation_result.passed,
    ensures
        h.len() == 1,
        r == Ok::<String, PipelineError>(initial_code),
{
    if h.len() > 1 {
        assert(!h[0].validation_result.passed);
    }
}

/// A run in which no validation ever passed — stated over the history
/// and result that `execute`'s contract describes — failed with the
/// retry budget in the error, after exactly `max_retries + 1`
/// validations (one record each) of which exactly the first
/// `max_retries` led to a repair call.
pub proof fn lemma_exhausted_run(
    h: Seq<RepairContext>,
    max_retries: u32,
    r: Result<String, PipelineError>,
)
    requires
        1 <= h.len() <= max_retries + 1,
        r is Ok <==> h[h.len() - 1].validation_result.passed,
        r is Err ==> r->Err_0 == PipelineError::RetriesExceeded(max_retries) && h.len()
            == max_retries + 1 && h[h.len() - 1].repaired_code is None,
        forall|k: int| #![trigger h[k]] 0 <= k < h.len() - 1 ==> h[k].repaired_code is Some,
        forall|k: int| #![trigger h[k]] 0 <= k < h.len() ==> !h[k].validation_result.passed,
    ensures
        r == Err::<String, PipelineError>(PipelineError::RetriesExceeded(max_retries)),
        h.len() == max_retries + 1,
        forall|k: int| #![trigger h[k]] 0 <= k < h.len() - 1 ==> h[k].repaired_code is Some,
        h[h.len() - 1].repaired_code is None,
{
    assert(!h[h.len() - 1].validation_result.passed);
}

impl ReflexionLoop {
    /// A fresh loop with the given retry budget and empty history.
    pub fn new(max_retries: u32) -> (r: Self)
        requires
            max_retries < u32::MAX,
        ensures
            r.max_retries == max_retries,
            r.current_iteration == 0,
            r.repair_history@.len() == 0,
    {
        ReflexionLoop { max_retries, current_iteration: 0, repair_history: Vec::new() }
    }

    /// The readable digest of a validation outcome's findings, one
    /// line per finding with its severity, category and message, and
    /// an indented location line where a line number is known.
    pub fn analyze_errors(&self, validation_result: &ValidationResult) -> (r: String)
        ensures
            r@ == spec_analysis(validation_result.errors@),
    {
        let es: &Vec<crate::sandbox::ValidationError> = &validation_result.errors;
        if es.len() == 0 {
            return String::from_str("No errors found");
        }
        let ghost esv = es@;
        let mut s: String = String::from_str("Validation Errors:\n");
        let n: usize = es.len();
        let mut i: usize = 0;
        while i < n
            invariant
                i <= n,
                n == es@.len(),
                esv == es@,
                n > 0,
                s@ + entries_text(esv, i as int) == "Validation Errors:\n"@ + entries_text(
                    esv,
                    0,
                ),
            decreases n - i,
        {
            proof {
                assert(entries_text(esv, i as int) == entry_text(esv[i as int]) + entries_text(
                    esv,
                    i as int + 1,
                ));
            }
            s.append("[");
            s.append(severity_str(es[i].severity));
            s.append("] ");
            s.append(type_str(es[i].error_type));
            s.append(": ");
            s.append(es[i].message.as_str());
            s.append("\n");
            match es[i].line {
                Some(line) => {
                    s.append("  Location: Line ");
                    let d: String = crate::strutil::dec_string(line as u64);
                    s.append(d.as_str());
                    s.append("\n");
                },
                None => {},
            }
            i = i + 1;
            proof {
                assert(s@ + entries_text(esv, i as int) =~= "Validation Errors:\n"@
                    + entries_text(esv, 0));
            }
        }
        proof {
            assert(entries_text(esv, n as int) =~= Seq::<char>::empty());
            assert(s@ =~= "Validation Errors:\n"@ + entries_text(esv, 0));
        }
        s
    }

    /// Run the loop on `initial_code`: validate, and while the
    /// outcome fails and budget remains, ask for a repair and try the
    /// repaired candidate.  Per run the validator is called at most
    /// `max_retries + 1` times and the repairer at most `max_retries`
    /// times; the history records one entry per validation, exactly.
    pub fn execute<V: Validator, R: Repairer>(
        &mut self,
        initial_code: String,
        validator: &mut V,
        repairer: &mut R,
    ) -> (r: Result<String, PipelineError>)
        requires
            old(self).max_retries < u32::MAX,
        ensures
            final(self).max_retries == old(self).max_retries,
            ({
                let h = final(self).repair_history@;
                &&& final(self).current_iteration == h.len()
                &&& 1 <= h.len() <= old(self).max_retries + 1
                &&& (forall|k: int| #![trigger h[k]] 0 <= k < h.len() ==> h[k].iteration == k + 1)
                &&& (forall|k: int|
                    #![trigger h[k]]
                    0 <= k < h.len() ==> h[k].error_analysis@ == spec_analysis(
                        h[k].validation_result.errors@,
                    ))
                &&& h[0].original_code == initial_code
                &&& (forall|k: int|
                    #![trigger h[k]]
                    0 <= k < h.len() - 1 ==> !h[k].validation_result.passed && !h[k].success
                        && h[k].repaired_code is Some && h[k + 1].original_code == h[
                        k].repaired_code->0)
                &&& (r is Ok <==> h[h.len() - 1].validation_result.passed)
                &&& (r is Ok ==> h[h.len() - 1].success && r->Ok_0 == h[h.len()
                    - 1].original_code && h[h.len() - 1].repaired_code == Some(r->Ok_0))
                &&& (r is Err ==> r->Err_0 == PipelineError::RetriesExceeded(
                    old(self).max_retries,
                ) && h.len() == old(self).max_retries + 1 && !h[h.len() - 1].success && h[h.len()
                    - 1].repaired_code is None)
            }),
    {
        let ghost mr = self.max_retries;
        self.current_iteration = 0;
        self.repair_history = Vec::new();
        let mut counter: u32 = 0;
        let mut current: String = initial_code;
        loop
            invariant
                self.max_retries == mr,
                old(self).max_retries == mr,
                mr < u32::MAX,
                counter <= mr,
                self.current_iteration == counter,
                ({
                    let h = self.repair_history@;
                    &&& h.len() == counter
                    &&& (forall|k: int|
                        #![trigger h[k]]
                        0 <= k < h.len() ==> h[k].iteration == k + 1 && !h[
                        k].validation_result.passed && !h[k].success && h[k].repaired_code is Some
                            && h[k].error_analysis@ == spec_analysis(
                            h[k].validation_result.errors@,
                        ))
                    &&& (h.len() > 0 ==> h[0].original_code == initial_code)
                    &&& (forall|k: int|
                        #![trigger h[k]]
                        0 <= k < h.len() - 1 ==> h[k + 1].original_code == h[k].repaired_code->0)
                    &&& (if h.len() == 0 {
                        current == initial_code
                    } else {
                        Some(current) == h[h.len() - 1].repaired_code
                    })
                }),
            decreases mr - counter,
        {
            counter = counter + 1;
            self.current_iteration = counter;
            let outcome: ValidationResult = validator.validate(current.as_str());
            let analysis: String = self.analyze_errors(&outcome);
            let passed: bool = outcome.passed;
            if passed {
                let code_copy: String = current.clone();
                let rec = RepairContext {
                    iteration: counter,
                    original_code: current,
                    validation_result: outcome,
                    error_analysis: analysis,
                    repaired_code: Some(code_copy.clone()),
                    success: true,
                };
                self.repair_history.push(rec);
                return Ok(code_copy);
            }
            if counter > self.max_retries {
                let rec = RepairContext {
                    iteration: counter,
                    original_code: current,
                    validation_result: outcome,
                    error_analysis: analysis,
                    repaired_code: None,
                    success: false,
                };
                self.repair_history.push(rec);
                return Err(PipelineError::RetriesExceeded(self.max_retries));
            }
            let next: String = repairer.repair(current.as_str(), &outcome);
            let rec = RepairContext {
                iteration: counter,
                original_code: current,
                validation_result: outcome,
                error_analysis: analysis,
                repaired_code: Some(next.clone()),
                success: false,
            };
            self.repair_history.push(rec);
            current = next;
        }
    }

    /// The repair instruction handed to the generation collaborator
    /// for a failing candidate: the protocol delimiter, the candidate
    /// fenced with its guessed language, the digest of the findings,
    /// and the fixed closing instructions.
    pub fn generate_repair_prompt(
        &self,
        code: &str,
        validation_result: &ValidationResult,
    ) -> (r: String)
        ensures
            r@ == spec_repair_prompt(code@, validation_result.errors@),
    {
        let mut s: String = String::from_str(
            "\n###_STERILIZATION_PROTOCOL_v1_###\n\nThe following code failed the sterilization check:\n\n```",
        );
        s.append(detect_language(code));
        s.append("\n");
        s.append(code);
        s.append("\n```\n\nError Details:\n");
        let analysis: String = self.analyze_errors(validation_result);
        s.append(analysis.as_str());
        s.append(
            "\n\nYou must fix ALL errors. Do not remove comments or TODOs - implement the missing logic.\nEvery function must contain complete, executable code.\nCode containing placeholders will trigger a fatal build error.\n\nGenerate the complete, fixed code:\n",
        );
        proof {
            assert(s@ =~= spec_repair_prompt(code@, validation_result.errors@));
        }
        s
    }

    /// The loop's history, one record per iteration of the last run.
    pub fn get_history(&self) -> (r: &Vec<RepairContext>)
        ensures
            r@ == self.repair_history@,
    {
        &self.repair_history
    }

    /// How many iterations the last run took.
    pub fn get_current_iteration(&self) -> (r: u32)
        ensures
            r == self.current_iteration,
    {
        self.current_iteration
    }
}

} // verus!
