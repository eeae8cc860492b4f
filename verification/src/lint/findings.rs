//! What a lint rule reports.
use crate::lint::rules::RuleType;
use crate::span::ZeroRange;
use vstd::prelude::*;

verus! {

/// An error in a file that is known from the context.
#[derive(Debug, Clone)]
pub struct LocalDMLError {
    pub range: ZeroRange,
    pub description: String,
}

/// A finding of a lint rule.
#[derive(Debug, Clone)]
pub struct DMLStyleError {
    pub error: LocalDMLError,
    pub rule_ident: &'static str,
    pub rule_type: RuleType,
}

/// What a finding says.
pub struct Finding {
    pub range: ZeroRange,
    pub description: Seq<char>,
    pub rule_ident: Seq<char>,
    pub rule_type: RuleType,
}

impl View for DMLStyleError {
    type V = Finding;

    open spec fn view(&self) -> Finding {
        Finding {
            range: self.error.range,
            description: self.error.description@,
            rule_ident: self.rule_ident@,
            rule_type: self.rule_type,
        }
    }
}

/// What a list of findings says.
pub open spec fn findings(errors: Seq<DMLStyleError>) -> Seq<Finding> {
    errors.map_values(|e: DMLStyleError| e@)
}

/// A finding says what its fields hold.
pub proof fn findings_say_what_they_hold(errors: Seq<DMLStyleError>, i: int)
    requires
        0 <= i < errors.len(),
    ensures
        findings(errors).len() == errors.len(),
        findings(errors)[i].range == errors[i].error.range,
        findings(errors)[i].description == errors[i].error.description@,
        findings(errors)[i].rule_ident == errors[i].rule_ident@,
        findings(errors)[i].rule_type == errors[i].rule_type,
{
}

} // verus!
