//! The lint rules.
use crate::text::same_text;
use vstd::prelude::*;

verus! {

/// Which rule a finding comes from.
#[derive(Clone, Copy, PartialEq, Eq, Structural, Debug, Hash)]
pub enum RuleType {
    SpBrace,
    SpPunct,
    NspFunpar,
    NspInparen,
    NspUnary,
    NspTrailing,
    /// Long lines.
    LL1,
    /// No tabs in the indentation.
    IN2,
    /// Indentation of code blocks.
    IN3,
    /// Indentation of closing braces.
    IN4,
    /// Indentation of parenthesized expressions.
    IN5,
    /// Indentation of switch cases.
    IN9,
    /// Indentation of empty loops.
    IN10,
    /// Not a rule of its own: something is wrong with the lint configuration
    /// or an annotation.
    Configuration,
}

/// The rule that goes by a name in the lint configuration and in annotations.
pub open spec fn rule_named(name: Seq<char>) -> Option<RuleType> {
    if name == "sp_brace"@ {
        Some(RuleType::SpBrace)
    } else if name == "sp_punct"@ {
        Some(RuleType::SpPunct)
    } else if name == "nsp_funpar"@ {
        Some(RuleType::NspFunpar)
    } else if name == "nsp_inparen"@ {
        Some(RuleType::NspInparen)
    } else if name == "nsp_unary"@ {
        Some(RuleType::NspUnary)
    } else if name == "nsp_trailing"@ {
        Some(RuleType::NspTrailing)
    } else if name == "long_lines"@ {
        Some(RuleType::LL1)
    } else if name == "indent_no_tabs"@ {
        Some(RuleType::IN2)
    } else if name == "indent_code_block"@ {
        Some(RuleType::IN3)
    } else if name == "indent_closing_brace"@ {
        Some(RuleType::IN4)
    } else if name == "indent_paren_expr"@ {
        Some(RuleType::IN5)
    } else if name == "indent_switch_case"@ {
        Some(RuleType::IN9)
    } else if name == "indent_empty_loop"@ {
        Some(RuleType::IN10)
    } else {
        None
    }
}

impl RuleType {
    /// Looks a rule up by its name.
    pub fn from_name(name: &str) -> (rule: Option<RuleType>)
        ensures
            rule == rule_named(name@),
    {
        if same_text(name, "sp_brace") {
            Some(RuleType::SpBrace)
        } else if same_text(name, "sp_punct") {
            Some(RuleType::SpPunct)
        } else if same_text(name, "nsp_funpar") {
            Some(RuleType::NspFunpar)
        } else if same_text(name, "nsp_inparen") {
            Some(RuleType::NspInparen)
        } else if same_text(name, "nsp_unary") {
            Some(RuleType::NspUnary)
        } else if same_text(name, "nsp_trailing") {
            Some(RuleType::NspTrailing)
        } else if same_text(name, "long_lines") {
            Some(RuleType::LL1)
        } else if same_text(name, "indent_no_tabs") {
            Some(RuleType::IN2)
        } else if same_text(name, "indent_code_block") {
            Some(RuleType::IN3)
        } else if same_text(name, "indent_closing_brace") {
            Some(RuleType::IN4)
        } else if same_text(name, "indent_paren_expr") {
            Some(RuleType::IN5)
        } else if same_text(name, "indent_switch_case") {
            Some(RuleType::IN9)
        } else if same_text(name, "indent_empty_loop") {
            Some(RuleType::IN10)
        } else {
            None
        }
    }
}

} // verus!
