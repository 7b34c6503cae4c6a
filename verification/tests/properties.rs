//! Order properties of plan execution: clause order is the declared
//! one, step order is immaterial, and the score quirks are preserved.

use lucius::Artifact;
use lucius::Num;
use lucius::compile;
use lucius::error::RuntimeError;
use lucius::predicate::Value;
use lucius::run;
use lucius::runtime::OperationRegistry;
use lucius::runtime::run_with_outputs;

struct TwoOps;

impl OperationRegistry for TwoOps {
    fn invoke(&self, fn_name: &str, _artifact: &Artifact) -> Result<Value, RuntimeError> {
        if fn_name == "first" || fn_name == "second" {
            Ok(Value::Record(vec![(
                "flag".to_string(),
                Value::Bool(true),
            )]))
        } else {
            Err(RuntimeError::UnknownOperation)
        }
    }
}

fn art() -> Artifact {
    Artifact {
        bytes: Vec::new(),
        text: None,
        meta: Vec::new(),
    }
}

fn two_signal_pipeline(clauses: &str) -> String {
    format!(
        r#"
        operations {{
            operation pair {{
                do first  output out_one
                do second output out_two
            }}
        }}
        signals {{
            family t {{
                signal a {{
                    derive from operation.pair.first
                        when out_one.flag
                }}
                signal b {{
                    derive from operation.pair.second
                        when out_two.flag
                }}
            }}
        }}
        clinch {{ {} }}
        "#,
        clauses
    )
}

#[test]
fn clause_order_is_declaration_order() {
    // Two clauses on different signals mutate the same key via Sub and
    // Mul: swapping their declared order changes the result.
    let sub_then_mul = two_signal_pipeline(
        "when signal.t.a { score k -= 2.0 } when signal.t.b { score k *= 3.0 }",
    );
    let mul_then_sub = two_signal_pipeline(
        "when signal.t.b { score k *= 3.0 } when signal.t.a { score k -= 2.0 }",
    );
    let c1 = run(&compile(&sub_then_mul).unwrap(), &art(), &TwoOps).unwrap();
    let c2 = run(&compile(&mul_then_sub).unwrap(), &art(), &TwoOps).unwrap();
    // (0 - 2.0) * 3.0 versus (0 * 3.0) - 2.0.
    assert_eq!(c1.score_of("k"), Some(Num { mant: -600, scale: 2 }));
    assert_eq!(c2.score_of("k"), Some(Num { mant: -20, scale: 1 }));
    assert_ne!(c1.score_of("k"), c2.score_of("k"));
}

#[test]
fn clauses_on_one_signal_accumulate_in_order() {
    let text = two_signal_pipeline(
        "when signal.t.a { tag += one } when signal.t.b { tag += two } when signal.t.a { tag += three }",
    );
    let ctx = run(&compile(&text).unwrap(), &art(), &TwoOps).unwrap();
    assert_eq!(
        ctx.tags,
        vec![
            "tag:one".to_string(),
            "tag:two".to_string(),
            "tag:three".to_string()
        ]
    );
}

#[test]
fn step_output_order_is_immaterial() {
    let text = two_signal_pipeline(
        "when signal.t.a { score k += 1.0 } when signal.t.b { emit Evt::B }",
    );
    let plan = compile(&text).unwrap();
    let rec_one = Value::Record(vec![("flag".to_string(), Value::Bool(true))]);
    let rec_two = Value::Record(vec![("flag".to_string(), Value::Bool(true))]);
    let forward = vec![
        ("out_one".to_string(), rec_one),
        ("out_two".to_string(), rec_two),
    ];
    let rec_one_r = Value::Record(vec![("flag".to_string(), Value::Bool(true))]);
    let rec_two_r = Value::Record(vec![("flag".to_string(), Value::Bool(true))]);
    let reversed = vec![
        ("out_two".to_string(), rec_two_r),
        ("out_one".to_string(), rec_one_r),
    ];
    let c1 = run_with_outputs(&plan, &forward).unwrap();
    let c2 = run_with_outputs(&plan, &reversed).unwrap();
    assert_eq!(c1.tags, c2.tags);
    assert_eq!(c1.emits, c2.emits);
    assert_eq!(c1.deferred, c2.deferred);
    assert_eq!(c1.scores, c2.scores);
}

#[test]
fn mul_on_missing_key_yields_zero() {
    let text = two_signal_pipeline("when signal.t.a { score fresh *= 4.0 }");
    let ctx = run(&compile(&text).unwrap(), &art(), &TwoOps).unwrap();
    assert_eq!(ctx.score_of("fresh"), Some(Num { mant: 0, scale: 1 }));
}

#[test]
fn tag_value_keeps_its_surface_form() {
    let quoted = two_signal_pipeline("when signal.t.a { tag += \"x:y\" }");
    let bare = two_signal_pipeline("when signal.t.a { tag += plain }");
    let c1 = run(&compile(&quoted).unwrap(), &art(), &TwoOps).unwrap();
    let c2 = run(&compile(&bare).unwrap(), &art(), &TwoOps).unwrap();
    assert_eq!(c1.tags, vec!["tag:\"x:y\"".to_string()]);
    assert_eq!(c2.tags, vec!["tag:plain".to_string()]);
}

#[test]
fn score_set_overwrites_and_add_accumulates() {
    let text = two_signal_pipeline(
        "when signal.t.a { score k = 5.0 score k += 1.5 } when signal.t.b { score k = 2.0 }",
    );
    let ctx = run(&compile(&text).unwrap(), &art(), &TwoOps).unwrap();
    assert_eq!(ctx.score_of("k"), Some(Num { mant: 20, scale: 1 }));
}

#[test]
fn emit_paths_join_with_double_colons() {
    let text = two_signal_pipeline("when signal.t.a { emit Emit::Deep::Path }");
    let ctx = run(&compile(&text).unwrap(), &art(), &TwoOps).unwrap();
    assert_eq!(ctx.emits, vec!["Emit::Deep::Path".to_string()]);
}

#[test]
fn emit_paths_accept_dot_separators() {
    // A path may be dot-joined or `::`-joined; segments canonicalize
    // to `::` in the recorded event.
    let text = two_signal_pipeline("when signal.t.a { emit events.deep.path }");
    let ctx = run(&compile(&text).unwrap(), &art(), &TwoOps).unwrap();
    assert_eq!(ctx.emits, vec!["events::deep::path".to_string()]);
}
