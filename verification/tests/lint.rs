use dls::lint::analysis::LinterAnalysis;
use dls::lint::annotations::{obtain_lint_annotations, LintAnnotation};
use dls::lint::check::{
    begin_style_check, post_process_linting_errors, remove_disabled_lints, LineFindings,
    StyleFindings,
};
use dls::lint::config::{
    get_true, setup_indentation_size, IndentClosingBraceOptions, IndentSizeOptions, LintCfg,
    LongLineOptions,
};
use dls::lint::findings::{DMLStyleError, LocalDMLError};
use dls::lint::rules::RuleType;
use dls::errors::DiagnosticSeverity;
use dls::path::FilePath;
use dls::span::ZeroRange;

const SOURCE: &str = "
    dml 1.4;

    bank sb_cr {
        group monitor {

            register MKTME_KEYID_MASK {
                method get() -> (uint64) {
                    local uint64 physical_address_mask = mse.srv10nm_mse_mktme.get_key_addr_mask();
                    this.Mask.set(physical_address_mask);
                    this.function_with_args('some_string',
                                    integer,
                                    floater);
                    return this.val;
                }
            }

            register TDX_KEYID_MASK {
                method get() -> (uint64) {
                    local uint64 tdx_keyid_mask = mse.srv10nm_mse_tdx.get_key_addr_mask();
                    local uint64 some_uint = (is_this_real) ? then_you_might_like_this_value : or_this_one;
                    this.Mask.set(tdx_keyid_mask);
                    return this.val;
                }
            }
        }
    }

    /*
        This is ONEEEE VEEEEEERY LLOOOOOOONG COOOMMMEENTT ON A SINGLEEEE LINEEEEEEEEEEEEEE
        and ANOTHEEEER VEEEEEERY LLOOOOOOONG COOOMMMEENTT ON A SINGLEEEE LINEEEEEEEEEEEEEE
    */

    ";

fn path(text: &str) -> FilePath {
    let mut components: Vec<String> = Vec::new();
    if text.starts_with('/') {
        components.push("/".to_string());
    }
    for part in text.split('/') {
        if !part.is_empty() {
            components.push(part.to_string());
        }
    }
    FilePath::new(text.to_string(), components)
}

fn finding(rule_type: RuleType, range: (u32, u32, u32, u32)) -> DMLStyleError {
    DMLStyleError {
        error: LocalDMLError {
            range: ZeroRange::from_u32(range.0, range.1, range.2, range.3),
            description: "found".to_string(),
        },
        rule_ident: "ID",
        rule_type,
    }
}

fn no_line_findings() -> LineFindings {
    LineFindings { indent_no_tabs: vec![], long_lines: vec![], nsp_trailing: vec![] }
}

/// What a check for lines of more than 80 characters finds.
fn long_line_findings(source: &str) -> Vec<LineFindings> {
    let mut lines: Vec<LineFindings> = Vec::new();
    for (row, line) in source.lines().enumerate() {
        let mut found = no_line_findings();
        if line.len() > 80 {
            let row = row as u32;
            found.long_lines.push(finding(RuleType::LL1, (row, row, 80, line.len() as u32)));
        }
        lines.push(found);
    }
    lines
}

fn kept(errors: &[DMLStyleError]) -> Vec<(RuleType, u32)> {
    errors.iter().map(|e| (e.rule_type, e.error.range.row_start.0)).collect()
}

#[test]
fn test_annotation_parse() {
    let source = "// dml-lint: allow=long_lines
                      // dml-lint: allow-file=indent_empty_loop
                      // dml-lint: allow=indent_switch_case
                      // dml-lint: allow=unknown_rule
                      // dml-lint: configure=not_valid
                      local int foo = 5;
                      local bool bar = 0; // dml-lint: allow=indent_paren_expr
                      // dml-lint: allow=long_lines";
    let (errs, mut annotations) = obtain_lint_annotations(source);
    let simplified_errs = errs.into_iter()
        .map(|err|
             {
                 let DMLStyleError {
                     rule_ident,
                     rule_type,
                     error: LocalDMLError {
                         range,
                         description
                     },
                 } = err;
                 assert_eq!(rule_ident, "LintCfg");
                 assert_eq!(rule_type, RuleType::Configuration);
                 assert_eq!(range.row_start, range.row_end);
                 (range.row_start.0, description)
             })
        .collect::<Vec<_>>();
    assert_eq!(simplified_errs,
               vec![(3, "Invalid lint rule target 'unknown_rule'.".to_string()),
                    (4, "Invalid command 'configure' in dml-lint \
                         annotation.".to_string()),
                    (7, "dml-lint annotations without effect at \
                         end of file.".to_string())]);
    assert_eq!(annotations.whole_file.as_vec().iter().collect::<Vec<_>>(),
               vec![
                   &LintAnnotation::Allow(RuleType::IN10)
               ]);
    let mut line5 = annotations.line_specific.remove(&5).unwrap();
    let mut line6 = annotations.line_specific.remove(&6).unwrap();
    assert!(annotations.line_specific.is_empty());
    for expected in [
        LintAnnotation::Allow(RuleType::LL1),
        LintAnnotation::Allow(RuleType::IN9)
    ] {
        assert!(line5.remove(&expected));
    }
    assert!(line5.is_empty());
    for expected in [
        LintAnnotation::Allow(RuleType::IN5),
    ] {
        assert!(line6.remove(&expected));
    }
    assert!(line6.is_empty());
}

#[test]
fn test_main() {
    let checks = StyleFindings { tree: vec![], lines: long_line_findings(SOURCE) };
    let lint_errors = begin_style_check(checks, SOURCE);
    assert!(lint_errors.is_ok());
    assert!(!lint_errors.unwrap().is_empty());
}

#[test]
fn test_annotation_apply() {
    let source =
        "
dml 1.4;

// dml-lint: allow-file=nsp_unary

method my_method() {
    if (true ++) {
    // dml-lint: allow=indent_closing_brace
        return; }
    if (true) {
        return; } // dml-lint: allow=indent_closing_brace
    if (true) {
        return; }
}}
// dml-lint: allow=long_lines
method my_method() { /* now THIS is a long line. but we will allow it just this once*/ }
method my_method() { /* however, this long line will not be allowed even though its the same*/ }
";
    let checks = StyleFindings {
        tree: vec![
            finding(RuleType::NspUnary, (6, 6, 12, 13)),
            finding(RuleType::IN4, (8, 8, 16, 17)),
            finding(RuleType::IN4, (10, 10, 16, 17)),
            finding(RuleType::IN4, (12, 12, 16, 17)),
        ],
        lines: long_line_findings(source),
    };
    assert_eq!(checks.lines[15].long_lines.len(), 1);
    assert_eq!(checks.lines[16].long_lines.len(), 1);
    let errors = begin_style_check(checks, source).unwrap();
    let found: Vec<(ZeroRange, RuleType)> =
        errors.iter().map(|e| (e.error.range, e.rule_type)).collect();
    assert_eq!(found,
               vec![(ZeroRange::from_u32(12, 12, 16, 17), RuleType::IN4),
                    (ZeroRange::from_u32(16, 16, 80, 96), RuleType::LL1)]);
}

#[test]
fn annotation_ranges_count_bytes() {
    // The letter takes two bytes.
    let (errs, _) = obtain_lint_annotations("\u{e4} // dml-lint: forbid = long_lines");
    assert_eq!(errs.len(), 1);
    assert_eq!(errs[0].error.range, ZeroRange::from_u32(0, 0, 16, 22));
    assert_eq!(errs[0].error.description, "Invalid command 'forbid' in dml-lint annotation.");
    let (errs, _) = obtain_lint_annotations("// dml-lint: allow=nothing  ");
    assert_eq!(errs[0].error.range, ZeroRange::from_u32(0, 0, 19, 26));
    assert_eq!(errs[0].error.description, "Invalid lint rule target 'nothing'.");
}

#[test]
fn annotations_need_the_word_and_a_blank() {
    for line in ["// dml-lint:allow=long_lines", "/ / dml-lint: allow=long_lines",
                 "// dml-lint: allow", "// dml-lint: allow=long_lines extra",
                 "// dml-lint: al1ow=long_lines", ""] {
        let (errs, annotations) = obtain_lint_annotations(line);
        assert!(errs.is_empty(), "{}", line);
        assert!(annotations.whole_file.is_empty());
        assert!(annotations.line_specific.is_empty());
    }
}

#[test]
fn the_last_slashes_start_the_annotation() {
    let (errs, annotations) = obtain_lint_annotations(
        "// dml-lint: allow=sp_brace // dml-lint: allow-file=sp_punct");
    assert!(errs.is_empty());
    assert_eq!(annotations.whole_file.as_vec(), &vec![LintAnnotation::Allow(RuleType::SpPunct)]);
    assert!(annotations.line_specific.is_empty());
}

#[test]
fn blank_lines_take_no_annotation() {
    let (errs, annotations) = obtain_lint_annotations(
        "// dml-lint: allow=sp_brace\n\n  \t\u{a0}\ncode\nmore");
    assert!(errs.is_empty());
    assert_eq!(annotations.line_specific.len(), 1);
    assert!(annotations.line_specific.get(&3).unwrap()
            .contains(&LintAnnotation::Allow(RuleType::SpBrace)));
}

#[test]
fn rules_go_by_their_names() {
    for (name, rule) in [
        ("sp_brace", RuleType::SpBrace), ("sp_punct", RuleType::SpPunct),
        ("nsp_funpar", RuleType::NspFunpar), ("nsp_inparen", RuleType::NspInparen),
        ("nsp_unary", RuleType::NspUnary), ("nsp_trailing", RuleType::NspTrailing),
        ("long_lines", RuleType::LL1), ("indent_no_tabs", RuleType::IN2),
        ("indent_code_block", RuleType::IN3), ("indent_closing_brace", RuleType::IN4),
        ("indent_paren_expr", RuleType::IN5), ("indent_switch_case", RuleType::IN9),
        ("indent_empty_loop", RuleType::IN10),
    ] {
        assert_eq!(RuleType::from_name(name), Some(rule));
    }
    assert_eq!(RuleType::from_name("indent_size"), None);
    assert_eq!(RuleType::from_name("Long_lines"), None);
}

#[test]
fn silenced_findings_are_removed() {
    let (_, annotations) = obtain_lint_annotations(
        "// dml-lint: allow-file=sp_brace\ncode // dml-lint: allow=sp_punct\ncode");
    let mut errors = vec![
        finding(RuleType::SpBrace, (2, 2, 0, 1)),
        finding(RuleType::SpPunct, (1, 2, 0, 1)),
        finding(RuleType::SpPunct, (2, 2, 0, 1)),
        finding(RuleType::NspUnary, (1, 1, 0, 1)),
    ];
    remove_disabled_lints(&mut errors, &annotations);
    assert_eq!(kept(&errors), vec![(RuleType::SpPunct, 2), (RuleType::NspUnary, 1)]);
}

#[test]
fn tabs_hide_other_findings_on_their_rows() {
    let mut errors = vec![
        finding(RuleType::SpBrace, (3, 3, 0, 1)),
        finding(RuleType::IN2, (3, 3, 0, 1)),
        finding(RuleType::IN2, (3, 3, 2, 3)),
        finding(RuleType::SpPunct, (2, 3, 0, 1)),
        finding(RuleType::SpPunct, (4, 4, 0, 1)),
    ];
    post_process_linting_errors(&mut errors);
    assert_eq!(kept(&errors),
               vec![(RuleType::IN2, 3), (RuleType::IN2, 3), (RuleType::SpPunct, 4)]);
    // Nothing more is hidden the second time.
    post_process_linting_errors(&mut errors);
    assert_eq!(errors.len(), 3);
}

#[test]
fn silenced_tabs_hide_nothing() {
    let mut line = no_line_findings();
    line.indent_no_tabs.push(finding(RuleType::IN2, (0, 0, 0, 1)));
    line.nsp_trailing.push(finding(RuleType::NspTrailing, (0, 0, 9, 10)));
    let checks = StyleFindings { tree: vec![], lines: vec![line] };
    let errors = begin_style_check(checks, "\tcode;   \n// dml-lint: allow-file=indent_no_tabs").unwrap();
    assert_eq!(kept(&errors), vec![(RuleType::NspTrailing, 0)]);
}

#[test]
fn findings_come_rule_by_rule_and_annotations_last() {
    let mut line = no_line_findings();
    line.nsp_trailing.push(finding(RuleType::NspTrailing, (0, 0, 9, 10)));
    line.long_lines.push(finding(RuleType::LL1, (0, 0, 80, 90)));
    let mut second = no_line_findings();
    second.indent_no_tabs.push(finding(RuleType::IN2, (1, 1, 0, 1)));
    let checks = StyleFindings {
        tree: vec![finding(RuleType::SpBrace, (5, 5, 0, 1))],
        lines: vec![line, second],
    };
    let errors = begin_style_check(checks, "code\n\tcode\n// dml-lint: allow=sp_brace").unwrap();
    assert_eq!(kept(&errors),
               vec![(RuleType::SpBrace, 5), (RuleType::LL1, 0), (RuleType::NspTrailing, 0),
                    (RuleType::IN2, 1), (RuleType::Configuration, 2)]);
}

#[test]
fn usual_lint_config() {
    let cfg = LintCfg::default();
    assert_eq!(cfg.long_lines, Some(LongLineOptions { max_length: 80 }));
    assert_eq!(cfg.indent_size, Some(IndentSizeOptions { indentation_spaces: 4 }));
    assert!(cfg.annotate_lints);
    assert!(get_true());
    let mut same = cfg;
    setup_indentation_size(&mut same);
    assert_eq!(same, cfg);
}

#[test]
fn rules_agree_on_the_indentation() {
    let mut cfg = LintCfg::default();
    cfg.indent_size = Some(IndentSizeOptions { indentation_spaces: 2 });
    cfg.indent_empty_loop = None;
    setup_indentation_size(&mut cfg);
    assert_eq!(cfg.indent_closing_brace, Some(IndentClosingBraceOptions { indentation_spaces: 2 }));
    assert_eq!(cfg.indent_code_block.unwrap().indentation_spaces, 2);
    assert_eq!(cfg.indent_switch_case.unwrap().indentation_spaces, 2);
    assert_eq!(cfg.indent_empty_loop, None);
    cfg.indent_size = None;
    setup_indentation_size(&mut cfg);
    assert_eq!(cfg.indent_closing_brace.unwrap().indentation_spaces, 4);
}

#[test]
fn lint_errors_are_warnings() {
    let source = "code // dml-lint: allow=nothing";
    for annotate in [true, false] {
        let mut cfg = LintCfg::default();
        cfg.annotate_lints = annotate;
        let checks = StyleFindings {
            tree: vec![finding(RuleType::SpBrace, (0, 0, 1, 2))],
            lines: vec![],
        };
        let analysis = LinterAnalysis::new(
            &path("/dir/a.dml"), path("/real/a.dml"), source, &cfg, checks).unwrap();
        assert_eq!(analysis.path.text, "/real/a.dml");
        assert_eq!(analysis.errors.len(), 2);
        assert_eq!(analysis.errors[0].span.file.text, "/dir/a.dml");
        assert_eq!(analysis.errors[0].span.range, ZeroRange::from_u32(0, 0, 1, 2));
        assert_eq!(analysis.errors[0].severity, Some(DiagnosticSeverity::Warning));
        assert!(analysis.errors[0].related.is_empty());
        assert_eq!(analysis.errors[0].description, if annotate { "ID: found" } else { "found" });
        assert_eq!(analysis.errors[1].description,
                   if annotate { "LintCfg: Invalid lint rule target 'nothing'." }
                   else { "Invalid lint rule target 'nothing'." });
        assert_eq!(analysis.to_text(), "LinterAnalysis {\n\tpath: /real/a.dml\n\n}\n");
    }
}
