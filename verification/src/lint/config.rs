//! Which lint rules are on, and their settings.
use crate::text::{join, joined, texts};
use vstd::prelude::*;
use vstd::string::*;

verus! {

/// How long a line may be unless the configuration says otherwise.
pub const MAX_LENGTH_DEFAULT: u32 = 80;

/// How many spaces a level is indented unless the configuration says
/// otherwise.
pub const INDENTATION_LEVEL_DEFAULT: u32 = 4;

/// Options of the rule on spaces around braces.
#[derive(Clone, Copy, PartialEq, Eq, Structural, Debug)]
pub struct SpBraceOptions {}

/// Options of the rule on spaces after punctuation.
#[derive(Clone, Copy, PartialEq, Eq, Structural, Debug)]
pub struct SpPunctOptions {}

/// Options of the rule on spaces between a function and its parenthesis.
#[derive(Clone, Copy, PartialEq, Eq, Structural, Debug)]
pub struct NspFunparOptions {}

/// Options of the rule on spaces inside parentheses.
#[derive(Clone, Copy, PartialEq, Eq, Structural, Debug)]
pub struct NspInparenOptions {}

/// Options of the rule on spaces around unary operators.
#[derive(Clone, Copy, PartialEq, Eq, Structural, Debug)]
pub struct NspUnaryOptions {}

/// Options of the rule on spaces at the end of a line.
#[derive(Clone, Copy, PartialEq, Eq, Structural, Debug)]
pub struct NspTrailingOptions {}

/// Options of the rule on long lines.
#[derive(Clone, Copy, PartialEq, Eq, Structural, Debug)]
pub struct LongLineOptions {
    pub max_length: u32,
}

/// How far a level is indented.
#[derive(Clone, Copy, PartialEq, Eq, Structural, Debug)]
pub struct IndentSizeOptions {
    pub indentation_spaces: u32,
}

/// Options of the rule on tabs in the indentation.
#[derive(Clone, Copy, PartialEq, Eq, Structural, Debug)]
pub struct IndentNoTabOptions {}

/// Options of the rule on the indentation of code blocks.
#[derive(Clone, Copy, PartialEq, Eq, Structural, Debug)]
pub struct IndentCodeBlockOptions {
    pub indentation_spaces: u32,
}

/// Options of the rule on the indentation of closing braces.
#[derive(Clone, Copy, PartialEq, Eq, Structural, Debug)]
pub struct IndentClosingBraceOptions {
    pub indentation_spaces: u32,
}

/// Options of the rule on the indentation of parenthesized expressions.
#[derive(Clone, Copy, PartialEq, Eq, Structural, Debug)]
pub struct IndentParenExprOptions {}

/// Options of the rule on the indentation of switch cases.
#[derive(Clone, Copy, PartialEq, Eq, Structural, Debug)]
pub struct IndentSwitchCaseOptions {
    pub indentation_spaces: u32,
}

/// Options of the rule on the indentation of empty loops.
#[derive(Clone, Copy, PartialEq, Eq, Structural, Debug)]
pub struct IndentEmptyLoopOptions {
    pub indentation_spaces: u32,
}

/// The lint configuration. A rule without options is off.
#[derive(Clone, Copy, PartialEq, Eq, Structural, Debug)]
pub struct LintCfg {
    pub sp_brace: Option<SpBraceOptions>,
    pub sp_punct: Option<SpPunctOptions>,
    pub nsp_funpar: Option<NspFunparOptions>,
    pub nsp_inparen: Option<NspInparenOptions>,
    pub nsp_unary: Option<NspUnaryOptions>,
    pub nsp_trailing: Option<NspTrailingOptions>,
    pub long_lines: Option<LongLineOptions>,
    pub indent_size: Option<IndentSizeOptions>,
    pub indent_no_tabs: Option<IndentNoTabOptions>,
    pub indent_code_block: Option<IndentCodeBlockOptions>,
    pub indent_closing_brace: Option<IndentClosingBraceOptions>,
    pub indent_paren_expr: Option<IndentParenExprOptions>,
    pub indent_switch_case: Option<IndentSwitchCaseOptions>,
    pub indent_empty_loop: Option<IndentEmptyLoopOptions>,
    /// Whether a finding names its rule.
    pub annotate_lints: bool,
}

/// The configuration with every rule on, at its usual settings.
pub open spec fn default_lint_cfg() -> LintCfg {
    LintCfg {
        sp_brace: Some(SpBraceOptions {  }),
        sp_punct: Some(SpPunctOptions {  }),
        nsp_funpar: Some(NspFunparOptions {  }),
        nsp_inparen: Some(NspInparenOptions {  }),
        nsp_unary: Some(NspUnaryOptions {  }),
        nsp_trailing: Some(NspTrailingOptions {  }),
        long_lines: Some(LongLineOptions { max_length: 80 }),
        indent_size: Some(IndentSizeOptions { indentation_spaces: 4 }),
        indent_no_tabs: Some(IndentNoTabOptions {  }),
        indent_code_block: Some(IndentCodeBlockOptions { indentation_spaces: 4 }),
        indent_closing_brace: Some(IndentClosingBraceOptions { indentation_spaces: 4 }),
        indent_paren_expr: Some(IndentParenExprOptions {  }),
        indent_switch_case: Some(IndentSwitchCaseOptions { indentation_spaces: 4 }),
        indent_empty_loop: Some(IndentEmptyLoopOptions { indentation_spaces: 4 }),
        annotate_lints: true,
    }
}

impl Default for LintCfg {
    fn default() -> (cfg: LintCfg)
        ensures
            cfg == default_lint_cfg(),
    {
        LintCfg {
            sp_brace: Some(SpBraceOptions {  }),
            sp_punct: Some(SpPunctOptions {  }),
            nsp_funpar: Some(NspFunparOptions {  }),
            nsp_inparen: Some(NspInparenOptions {  }),
            nsp_unary: Some(NspUnaryOptions {  }),
            nsp_trailing: Some(NspTrailingOptions {  }),
            long_lines: Some(LongLineOptions { max_length: MAX_LENGTH_DEFAULT }),
            indent_size: Some(IndentSizeOptions { indentation_spaces: INDENTATION_LEVEL_DEFAULT }),
            indent_no_tabs: Some(IndentNoTabOptions {  }),
            indent_code_block: Some(
                IndentCodeBlockOptions { indentation_spaces: INDENTATION_LEVEL_DEFAULT },
            ),
            indent_closing_brace: Some(
                IndentClosingBraceOptions { indentation_spaces: INDENTATION_LEVEL_DEFAULT },
            ),
            indent_paren_expr: Some(IndentParenExprOptions {  }),
            indent_switch_case: Some(
                IndentSwitchCaseOptions { indentation_spaces: INDENTATION_LEVEL_DEFAULT },
            ),
            indent_empty_loop: Some(
                IndentEmptyLoopOptions { indentation_spaces: INDENTATION_LEVEL_DEFAULT },
            ),
            annotate_lints: true,
        }
    }
}

/// What `annotate_lints` is where the configuration leaves it out.
pub fn get_true() -> (b: bool)
    ensures
        b,
{
    true
}

/// How far a level is indented under this configuration.
pub open spec fn indentation_of(cfg: LintCfg) -> u32 {
    match cfg.indent_size {
        Some(options) => options.indentation_spaces,
        None => 4,
    }
}

/// The configuration in which all rules that are on and need to know how far a
/// level is indented agree on it.
pub open spec fn with_one_indentation(cfg: LintCfg) -> LintCfg {
    let indentation_spaces = indentation_of(cfg);
    LintCfg {
        indent_code_block: if cfg.indent_code_block is Some {
            Some(IndentCodeBlockOptions { indentation_spaces })
        } else {
            None
        },
        indent_closing_brace: if cfg.indent_closing_brace is Some {
            Some(IndentClosingBraceOptions { indentation_spaces })
        } else {
            None
        },
        indent_switch_case: if cfg.indent_switch_case is Some {
            Some(IndentSwitchCaseOptions { indentation_spaces })
        } else {
            None
        },
        indent_empty_loop: if cfg.indent_empty_loop is Some {
            Some(IndentEmptyLoopOptions { indentation_spaces })
        } else {
            None
        },
        ..cfg
    }
}

/// Hands the size of a level on to the rules that need it.
pub fn setup_indentation_size(cfg: &mut LintCfg)
    ensures
        *final(cfg) == with_one_indentation(*old(cfg)),
{
    let indentation_spaces: u32 = match cfg.indent_size {
        Some(options) => options.indentation_spaces,
        None => INDENTATION_LEVEL_DEFAULT,
    };
    if cfg.indent_code_block.is_some() {
        cfg.indent_code_block = Some(IndentCodeBlockOptions { indentation_spaces });
    }
    if cfg.indent_closing_brace.is_some() {
        cfg.indent_closing_brace = Some(IndentClosingBraceOptions { indentation_spaces });
    }
    if cfg.indent_switch_case.is_some() {
        cfg.indent_switch_case = Some(IndentSwitchCaseOptions { indentation_spaces });
    }
    if cfg.indent_empty_loop.is_some() {
        cfg.indent_empty_loop = Some(IndentEmptyLoopOptions { indentation_spaces });
    }
}

/// The message about fields of the lint configuration that nothing knows.
pub open spec fn unknown_lint_fields_message(unknowns: Seq<Seq<char>>) -> Seq<char> {
    "Unknown lint configuration field"@ + (if unknowns.len() > 1 {
        "s"@
    } else {
        ""@
    }) + ": "@ + joined(unknowns, ", "@) + ". These will be ignored."@
}

/// Words the message about fields of the lint configuration that nothing
/// knows.
pub fn unknown_lint_fields_text(unknowns: &Vec<String>) -> (message: String)
    ensures
        message@ == unknown_lint_fields_message(texts(unknowns@)),
{
    let mut message = "Unknown lint configuration field".to_owned();
    if unknowns.len() > 1 {
        message.append("s");
    } else {
        message.append("");
    }
    message.append(": ");
    let fields = join(unknowns, ", ");
    message.append(fields.as_str());
    message.append(". These will be ignored.");
    message
}

} // verus!
