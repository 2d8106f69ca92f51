//! The constraint policy: a declarative description of what a clean
//! artifact must avoid — the banned phrases of the policy table and
//! per-language grammar exclusions — and the instruction suffix that
//! the generation collaborator receives.  This module validates
//! nothing itself; the static validator consumes the same table.

use vstd::prelude::*;
use vstd::string::*;

use crate::policy::banned_count;
use crate::policy::banned_phrases;
use crate::policy::spec_banned_phrase;

verus! {

/// The target language of a grammar constraint.
#[derive(Debug, Clone, Copy, PartialEq, Eq, Structural)]
pub enum ProgrammingLanguage {
    Python,
    Rust,
    JavaScript,
    TypeScript,
}

/// How strictly a grammar rule is enforced.
#[derive(Debug, Clone, Copy, PartialEq, Eq, Structural)]
pub enum EnforcementLevel {
    Warning,
    Error,
    Fatal,
}

/// One named grammar rule with its enforcement level.
#[derive(Debug)]
pub struct GrammarRule {
    pub rule_name: String,
    pub ebnf_definition: String,
    pub enforcement: EnforcementLevel,
}

/// A per-language grammar exclusion list.
#[derive(Debug)]
pub struct GrammarConstraint {
    pub language: ProgrammingLanguage,
    pub grammar_rules: Vec<GrammarRule>,
    pub forbidden_constructs: Vec<String>,
}

impl GrammarConstraint {
    /// The Python exclusions: no body consisting of a lone no-op.
    pub fn for_python() -> (r: Self)
        ensures
            r.language == ProgrammingLanguage::Python,
            r.grammar_rules@.len() == 1,
            r.grammar_rules@[0].rule_name@ == "func_body_no_pass"@,
            r.grammar_rules@[0].ebnf_definition@
                == "\n                        func_body ::= INDENT (stmt)+ DEDENT\n                        stmt ::= (expr_stmt | compound_stmt) \n                        compound_stmt ::= if_stmt | while_stmt | for_stmt | try_stmt | with_stmt | funcdef | classdef\n                        # Exclude: stmt ::= pass\n                    "@,
            r.grammar_rules@[0].enforcement == EnforcementLevel::Fatal,
            r.forbidden_constructs@.len() == 3,
            r.forbidden_constructs@[0]@ == "pass"@,
            r.forbidden_constructs@[1]@ == "..."@,
            r.forbidden_constructs@[2]@ == "raise NotImplementedError()"@,
    {
        let mut rules: Vec<GrammarRule> = Vec::new();
        rules.push(
            GrammarRule {
                rule_name: String::from_str("func_body_no_pass"),
                ebnf_definition: String::from_str(
                    "\n                        func_body ::= INDENT (stmt)+ DEDENT\n                        stmt ::= (expr_stmt | compound_stmt) \n                        compound_stmt ::= if_stmt | while_stmt | for_stmt | try_stmt | with_stmt | funcdef | classdef\n                        # Exclude: stmt ::= pass\n                    ",
                ),
                enforcement: EnforcementLevel::Fatal,
            },
        );
        let mut forbidden: Vec<String> = Vec::new();
        forbidden.push(String::from_str("pass"));
        forbidden.push(String::from_str("..."));
        forbidden.push(String::from_str("raise NotImplementedError()"));
        GrammarConstraint {
            language: ProgrammingLanguage::Python,
            grammar_rules: rules,
            forbidden_constructs: forbidden,
        }
    }

    /// The Rust exclusions: no not-yet-implemented macros.
    pub fn for_rust() -> (r: Self)
        ensures
            r.language == ProgrammingLanguage::Rust,
            r.grammar_rules@.len() == 1,
            r.grammar_rules@[0].rule_name@ == "fn_body_no_unimplemented"@,
            r.grammar_rules@[0].ebnf_definition@
                == "\n                        fn_body ::= block_expr\n                        block_expr ::= '{' (stmt)* (expr)? '}'\n                        # Exclude: stmt ::= unimplemented!() | todo!()\n                    "@,
            r.grammar_rules@[0].enforcement == EnforcementLevel::Fatal,
            r.forbidden_constructs@.len() == 3,
            r.forbidden_constructs@[0]@ == "unimplemented!()"@,
            r.forbidden_constructs@[1]@ == "todo!()"@,
            r.forbidden_constructs@[2]@ == "panic!(\"TODO\")"@,
    {
        let mut rules: Vec<GrammarRule> = Vec::new();
        rules.push(
            GrammarRule {
                rule_name: String::from_str("fn_body_no_unimplemented"),
                ebnf_definition: String::from_str(
                    "\n                        fn_body ::= block_expr\n                        block_expr ::= '{' (stmt)* (expr)? '}'\n                        # Exclude: stmt ::= unimplemented!() | todo!()\n                    ",
                ),
                enforcement: EnforcementLevel::Fatal,
            },
        );
        let mut forbidden: Vec<String> = Vec::new();
        forbidden.push(String::from_str("unimplemented!()"));
        forbidden.push(String::from_str("todo!()"));
        forbidden.push(String::from_str("panic!(\"TODO\")"));
        GrammarConstraint {
            language: ProgrammingLanguage::Rust,
            grammar_rules: rules,
            forbidden_constructs: forbidden,
        }
    }
}

/// The complete constraint policy handed to the generation side: the
/// banned-phrase table, an optional grammar constraint, and the
/// guidance block that becomes the instruction suffix.
#[derive(Debug)]
pub struct SterilizationConfig {
    pub banned_phrases: Vec<String>,
    pub grammar_constraint: Option<GrammarConstraint>,
    pub prompt_fencing: bool,
    pub cryptographic_delimiter: String,
    pub positive_guidance: String,
}

/// The guidance block of the default policy.
pub open spec fn spec_guidance() -> Seq<char> {
    "\n                If logic is complex, decompose it into helper functions.\n                Do not abbreviate or omit implementation details.\n                Every function must contain complete, executable logic.\n                Code containing placeholders will trigger a fatal build error.\n            "@
}

/// The instruction suffix: the delimiter, the guidance, and a final
/// reminder, joined by blank lines.
pub open spec fn spec_prompt_suffix(delimiter: Seq<char>, guidance: Seq<char>) -> Seq<char> {
    delimiter + "\n\n"@ + guidance
        + "\n\nProtocol Check: Ensure no TODOs or placeholders are present in the following output."@
}

impl SterilizationConfig {
    /// The default policy: the shared banned-phrase table, the Python
    /// grammar constraint, fencing on, and the fixed guidance block.
    pub fn default() -> (r: Self)
        ensures
            r.banned_phrases@.len() == banned_count(),
            forall|i: int|
                0 <= i < banned_count() ==> r.banned_phrases@[i]@ == spec_banned_phrase(i),
            r.grammar_constraint is Some,
            (r.grammar_constraint->0).language == ProgrammingLanguage::Python,
            r.prompt_fencing,
            r.cryptographic_delimiter@ == "###_STERILIZATION_PROTOCOL_v1_###"@,
            r.positive_guidance@ == spec_guidance(),
    {
        let table: Vec<&'static str> = banned_phrases();
        let mut phrases: Vec<String> = Vec::new();
        let n: usize = table.len();
        let mut i: usize = 0;
        while i < n
            invariant
                i <= n,
                n == table@.len(),
                n == banned_count(),
                forall|k: int| 0 <= k < banned_count() ==> table@[k]@ == spec_banned_phrase(k),
                phrases@.len() == i,
                forall|k: int| 0 <= k < i ==> phrases@[k]@ == spec_banned_phrase(k),
            decreases n - i,
        {
            phrases.push(String::from_str(table[i]));
            i = i + 1;
        }
        SterilizationConfig {
            banned_phrases: phrases,
            grammar_constraint: Some(GrammarConstraint::for_python()),
            prompt_fencing: true,
            cryptographic_delimiter: String::from_str("###_STERILIZATION_PROTOCOL_v1_###"),
            positive_guidance: String::from_str(
                "\n                If logic is complex, decompose it into helper functions.\n                Do not abbreviate or omit implementation details.\n                Every function must contain complete, executable logic.\n                Code containing placeholders will trigger a fatal build error.\n            ",
            ),
        }
    }

    /// The instruction suffix appended to every generation request.
    pub fn generate_prompt_suffix(&self) -> (r: String)
        ensures
            r@ == spec_prompt_suffix(self.cryptographic_delimiter@, self.positive_guidance@),
    {
        let mut s: String = self.cryptographic_delimiter.clone();
        s.append("\n\n");
        s.append(self.positive_guidance.as_str());
        s.append(
            "\n\nProtocol Check: Ensure no TODOs or placeholders are present in the following output.",
        );
        proof {
            assert(s@ =~= spec_prompt_suffix(
                self.cryptographic_delimiter@,
                self.positive_guidance@,
            ));
        }
        s
    }
}

/// The tokenizer capability of the generation side: how banned text
/// is turned into token identifiers.  Implementations live with the
/// caller; the policy only declares the interface.
pub trait Tokenizer {
    fn encode(&self, text: &str) -> Vec<u32>;

    fn decode(&self, token_ids: &[u32]) -> String;
}

/// A tokenizer that knows no tokens: encodes nothing, decodes to the
/// empty string.
#[derive(Debug)]
pub struct MockTokenizer;

impl Tokenizer for MockTokenizer {
    fn encode(&self, text: &str) -> Vec<u32> {
        Vec::new()
    }

    fn decode(&self, token_ids: &[u32]) -> String {
        String::new()
    }
}

} // verus!
