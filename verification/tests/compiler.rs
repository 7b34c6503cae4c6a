//! Compiler-stage behavior: block structure, validation rules and the
//! error class each violation produces.

use lucius::compile;
use lucius::error::CompileErrorKind;
use lucius::parse::pipeline::LunchGenInput;
use lucius::token::Tok;
use lucius::token::flatten_to_vec;
use lucius::token::lex;

fn minimal_tail() -> &'static str {
    r#"
    signals {
        family f {
            signal s {
                derive from operation.op.step_a
                    when out_a.flag
            }
        }
    }
    clinch {
        when signal.f.s {
            tag += "t"
        }
    }
    "#
}

fn with_ops(ops_body: &str) -> String {
    format!("operations {{ operation op {{ {} }} }} {}", ops_body, minimal_tail())
}

#[test]
fn unknown_top_level_keyword_is_a_parse_error() {
    let err = compile("nonsense { }").expect_err("unknown block");
    assert_eq!(err.kind, CompileErrorKind::Parse);
}

#[test]
fn duplicate_block_is_a_parse_error() {
    let err = compile("meta { } meta { }").expect_err("duplicate block");
    assert_eq!(err.kind, CompileErrorKind::Parse);
    assert_eq!(err.message, "duplicate `meta` block".to_string());
}

#[test]
fn missing_operations_block_is_rejected() {
    let err = compile("meta { }").expect_err("missing operations");
    assert_eq!(err.kind, CompileErrorKind::Parse);
}

#[test]
fn duplicate_operation_name_is_a_uniqueness_error() {
    let text = r#"
    operations {
        operation op { do step_a output out_a }
        operation op { do step_b output out_b }
    }
    "#;
    let err = compile(&format!("{}{}", text, minimal_tail())).expect_err("duplicate operation");
    assert_eq!(err.kind, CompileErrorKind::Uniqueness);
    assert_eq!(err.token, "op".to_string());
}

#[test]
fn duplicate_output_binding_is_a_uniqueness_error() {
    let err = compile(&with_ops("do step_a output out_a do step_b output out_a"))
        .expect_err("duplicate binding");
    assert_eq!(err.kind, CompileErrorKind::Uniqueness);
    assert_eq!(err.token, "out_a".to_string());
}

#[test]
fn duplicate_step_is_a_uniqueness_error() {
    let err = compile(&with_ops("do step_a output out_a do step_a output out_b"))
        .expect_err("duplicate step");
    assert_eq!(err.kind, CompileErrorKind::Uniqueness);
    assert_eq!(err.token, "step_a".to_string());
}

#[test]
fn loop_keyword_in_operation_body_is_a_safety_error() {
    let err = compile(&with_ops("do step_a output out_a for")).expect_err("loop keyword");
    assert_eq!(err.kind, CompileErrorKind::Safety);
}

#[test]
fn mut_context_reference_is_a_safety_error() {
    let err = compile(&with_ops("do step_a output out_a & mut Context"))
        .expect_err("mutable context reference");
    assert_eq!(err.kind, CompileErrorKind::Safety);
}

#[test]
fn empty_operation_body_is_a_grammar_error() {
    let err = compile(&format!(
        "operations {{ operation op {{ }} }} {}",
        minimal_tail()
    ))
    .expect_err("no do statement");
    assert_eq!(err.kind, CompileErrorKind::Grammar);
}

#[test]
fn malformed_do_statement_is_a_grammar_error() {
    let err = compile(&with_ops("do step_a")).expect_err("short do statement");
    assert_eq!(err.kind, CompileErrorKind::Grammar);
}

#[test]
fn unknown_operation_reference_is_a_referential_error() {
    let text = r#"
    operations { operation op { do step_a output out_a } }
    signals {
        family f {
            signal s {
                derive from operation.ghost_op.step_a
                    when out_a.flag
            }
        }
    }
    clinch { when signal.f.s { tag += "t" } }
    "#;
    let err = compile(text).expect_err("unknown operation");
    assert_eq!(err.kind, CompileErrorKind::Referential);
    assert_eq!(err.token, "ghost_op".to_string());
}

#[test]
fn foreign_binding_in_when_is_a_referential_error() {
    let text = r#"
    operations { operation op { do step_a output out_a } }
    signals {
        family f {
            signal s {
                derive from operation.op.step_a
                    when other_binding.flag
            }
        }
    }
    clinch { when signal.f.s { tag += "t" } }
    "#;
    let err = compile(text).expect_err("foreign binding");
    assert_eq!(err.kind, CompileErrorKind::Referential);
    assert_eq!(err.token, "other_binding".to_string());
}

#[test]
fn unknown_signal_in_clinch_is_a_referential_error() {
    let text = r#"
    operations { operation op { do step_a output out_a } }
    signals {
        family f {
            signal s {
                derive from operation.op.step_a
                    when out_a.flag
            }
        }
    }
    clinch { when signal.f.ghost_signal { tag += "t" } }
    "#;
    let err = compile(text).expect_err("unknown signal");
    assert_eq!(err.kind, CompileErrorKind::Referential);
    assert_eq!(err.token, "ghost_signal".to_string());
}

#[test]
fn empty_signal_family_is_rejected() {
    let text = r#"
    operations { operation op { do step_a output out_a } }
    signals { family f { } }
    clinch { }
    "#;
    let err = compile(text).expect_err("empty family");
    assert_eq!(err.kind, CompileErrorKind::Grammar);
}

#[test]
fn empty_clinch_body_is_rejected() {
    let text = r#"
    operations { operation op { do step_a output out_a } }
    signals {
        family f {
            signal s {
                derive from operation.op.step_a
                    when out_a.flag
            }
        }
    }
    clinch { when signal.f.s { } }
    "#;
    let err = compile(text).expect_err("empty action block");
    assert_eq!(err.kind, CompileErrorKind::Grammar);
}

#[test]
fn unknown_action_is_a_grammar_error() {
    let text = r#"
    operations { operation op { do step_a output out_a } }
    signals {
        family f {
            signal s {
                derive from operation.op.step_a
                    when out_a.flag
            }
        }
    }
    clinch { when signal.f.s { explode now } }
    "#;
    let err = compile(text).expect_err("unknown action");
    assert_eq!(err.kind, CompileErrorKind::Grammar);
}

#[test]
fn non_numeric_score_literal_is_a_numeric_error() {
    let text = r#"
    operations { operation op { do step_a output out_a } }
    signals {
        family f {
            signal s {
                derive from operation.op.step_a
                    when out_a.flag
            }
        }
    }
    clinch { when signal.f.s { score k += "lots" } }
    "#;
    let err = compile(text).expect_err("string score literal");
    assert_eq!(err.kind, CompileErrorKind::NumericLiteral);
}

#[test]
fn component_wrapper_parses() {
    let text = r#"
    component = lstran {
        operations { operation op { do step_a output out_a } }
        signals {
            family f {
                signal s {
                    derive from operation.op.step_a
                        when out_a.flag
                }
            }
        }
        clinch { when signal.f.s { tag += "t" } }
    }
    "#;
    let trees = lex(text).unwrap();
    let input = LunchGenInput::parse(trees).unwrap();
    assert_eq!(input.component, "lstran".to_string());
    assert!(input.pipeline.operations.is_some());
    assert!(input.pipeline.signals.is_some());
    assert!(input.pipeline.clinch.is_some());
    assert!(input.pipeline.meta.is_none());
}

#[test]
fn comments_are_skipped_by_the_lexer() {
    let text = "meta { // line comment\n /* block\n comment */ name = \"x\" }";
    let trees = lex(text).unwrap();
    assert_eq!(trees.len(), 2);
}

#[test]
fn flatten_removes_grouping_and_keeps_order() {
    let trees = lex("a { b [ 1 , 2 ] } c").unwrap();
    let toks = flatten_to_vec(&trees);
    let words: Vec<String> = toks
        .iter()
        .map(|t| match t {
            Tok::Ident(s) => s.clone(),
            Tok::NumLit(s) => s.clone(),
            Tok::StrLit(s) => s.clone(),
            Tok::Punct(c) => c.to_string(),
        })
        .collect();
    assert_eq!(words, vec!["a", "b", "1", ",", "2", "c"]);
}

#[test]
fn unbalanced_delimiters_are_parse_errors() {
    assert!(lex("operations {").is_err());
    assert!(lex("}").is_err());
    assert!(lex("\"unterminated").is_err());
}

#[test]
fn meta_block_is_carried_into_the_plan() {
    let with_meta = format!(
        "meta {{ name = \"probe\" }} operations {{ operation op {{ do step_a output out_a }} }} {}",
        minimal_tail()
    );
    let plan = compile(&with_meta).unwrap();
    assert!(plan.meta.is_some());
    let without = format!(
        "operations {{ operation op {{ do step_a output out_a }} }} {}",
        minimal_tail()
    );
    assert!(compile(&without).unwrap().meta.is_none());
}

#[test]
fn run_deferred_without_handler_fails_at_index_build() {
    // The shape validator tolerates a trailing `run deferred`; building
    // the clinch index then rejects the missing handler name.
    let text = "operations { operation op { do step_a output out_a } } signals { family f { signal s { derive from operation.op.step_a when out_a.flag } } } clinch { when signal.f.s { run deferred } }";
    let err = compile(text).expect_err("missing handler");
    assert_eq!(err.kind, CompileErrorKind::Grammar);
    assert_eq!(err.message, "missing handler".to_string());
}

#[test]
fn lunch_expander_parses_and_indexes() {
    let text = r#"
    component = lstran {
        operations { operation op { do step_a output out_a } }
        signals {
            family f {
                signal s {
                    derive from operation.op.step_a
                        when out_a.flag
                }
            }
        }
        clinch { when signal.f.s { tag += "t" } }
    }
    "#;
    let trees = lex(text).unwrap();
    let (parsed, index) = lucius::expanders::lunch_expander(trees).unwrap();
    assert_eq!(parsed.component, "lstran".to_string());
    assert_eq!(index.operation_index.index.len(), 1);
    assert_eq!(index.signal_index.families.len(), 1);
    assert_eq!(index.clinch_index.clauses.len(), 1);
}

#[test]
fn duplicate_binding_across_operations_is_rejected_at_lowering() {
    // Step output bindings are read by name at run time, so a binding
    // declared by steps of two different operations would be ambiguous.
    let text = r#"
    operations {
        operation one { do step_a output shared }
        operation two { do step_b output shared }
    }
    signals {
        family f {
            signal s {
                derive from operation.one.step_a
                    when shared.flag
            }
        }
    }
    clinch { when signal.f.s { tag += "t" } }
    "#;
    let err = compile(text).expect_err("ambiguous binding");
    assert_eq!(err.kind, CompileErrorKind::Uniqueness);
    assert_eq!(err.token, "shared".to_string());
}
