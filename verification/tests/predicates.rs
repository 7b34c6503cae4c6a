//! The predicate sublanguage's semantics, exercised through compiled
//! pipelines and a test registry with records of every value shape.

use lucius::Artifact;
use lucius::Num;
use lucius::compile;
use lucius::error::RuntimeError;
use lucius::predicate::Value;
use lucius::run;
use lucius::runtime::OperationRegistry;

struct ProbeOps;

impl OperationRegistry for ProbeOps {
    fn invoke(&self, fn_name: &str, artifact: &Artifact) -> Result<Value, RuntimeError> {
        if fn_name == "probe" {
            Ok(Value::Record(vec![
                ("flag".to_string(), Value::Bool(!artifact.bytes.is_empty())),
                ("count".to_string(), Value::Num(Num { mant: 3, scale: 0 })),
                (
                    "ratio".to_string(),
                    Value::Num(Num { mant: 25, scale: 1 }),
                ),
                ("name".to_string(), Value::Str("alpha".to_string())),
                ("data".to_string(), Value::Bytes(vec![7, 8, 9])),
            ]))
        } else {
            Err(RuntimeError::UnknownOperation)
        }
    }
}

fn pipeline_with(when: &str) -> String {
    format!(
        r#"
        operations {{ operation scan {{ do probe output rec }} }}
        signals {{
            family t {{
                signal hit {{
                    derive from operation.scan.probe
                        when {}
                }}
            }}
        }}
        clinch {{ when signal.t.hit {{ tag += yes }} }}
        "#,
        when
    )
}

fn fires(when: &str) -> bool {
    let plan = compile(&pipeline_with(when)).expect("predicate pipeline compiles");
    let art = Artifact {
        bytes: vec![1],
        text: None,
        meta: Vec::new(),
    };
    let ctx = run(&plan, &art, &ProbeOps).expect("predicate pipeline runs");
    !ctx.tags.is_empty()
}

fn errs(when: &str) -> RuntimeError {
    let plan = compile(&pipeline_with(when)).expect("predicate pipeline compiles");
    let art = Artifact {
        bytes: vec![1],
        text: None,
        meta: Vec::new(),
    };
    run(&plan, &art, &ProbeOps).expect_err("predicate evaluation fails")
}

#[test]
fn bare_boolean_path_fires() {
    assert!(fires("rec.flag"));
}

#[test]
fn numeric_comparisons_are_exact() {
    assert!(fires("rec.count == 3"));
    assert!(fires("rec.count >= 3"));
    assert!(fires("rec.count <= 3"));
    assert!(!fires("rec.count != 3"));
    assert!(!fires("rec.count > 3"));
    assert!(fires("rec.count < 4"));
    // 2.5 compares equal across scales.
    assert!(fires("rec.ratio == 2.5"));
    assert!(fires("rec.ratio > 2"));
    assert!(fires("rec.ratio < 3"));
}

#[test]
fn hex_and_decimal_literals_agree() {
    assert!(fires("rec.count == 0x3"));
    assert!(fires("rec.data[0] == 0x7"));
    assert!(fires("rec.data[2] == 9"));
}

#[test]
fn string_equality() {
    assert!(fires("rec.name == \"alpha\""));
    assert!(!fires("rec.name == \"beta\""));
    assert!(fires("rec.name != \"beta\""));
}

#[test]
fn byte_sequence_comparison_is_element_wise() {
    assert!(fires("rec.data == [7, 8, 9]"));
    assert!(!fires("rec.data == [7, 8]"));
    assert!(!fires("rec.data == [7, 8, 10]"));
    assert!(fires("rec.data != [1, 2, 3]"));
}

#[test]
fn and_or_combine_and_short_circuit() {
    assert!(fires("rec.flag && rec.count == 3"));
    assert!(!fires("rec.flag && rec.count == 4"));
    assert!(fires("rec.count == 4 || rec.name == \"alpha\""));
    assert!(!fires("rec.count == 4 || rec.name == \"beta\""));
    // The right side of a short-circuited && is never evaluated, so its
    // out-of-bounds index never faults.
    assert!(!fires("rec.count == 4 && rec.data[99] == 0"));
    assert!(fires("rec.flag || rec.data[99] == 0"));
}

#[test]
fn boolean_literals_are_operands() {
    assert!(fires("true"));
    assert!(!fires("false"));
    assert!(fires("rec.flag == true"));
    assert!(!fires("rec.flag == false"));
}

#[test]
fn out_of_bounds_index_is_a_runtime_error() {
    assert_eq!(errs("rec.data[99] == 0"), RuntimeError::IndexOutOfBounds);
}

#[test]
fn type_mismatch_is_a_runtime_error() {
    assert_eq!(errs("rec.name == 3"), RuntimeError::TypeMismatch);
    assert_eq!(errs("rec.count"), RuntimeError::TypeMismatch);
    assert_eq!(errs("rec.name > \"a\""), RuntimeError::TypeMismatch);
}

#[test]
fn missing_field_is_a_runtime_error() {
    assert_eq!(errs("rec.ghost == 1"), RuntimeError::UnknownField);
}

#[test]
fn unknown_operation_fails_the_run() {
    let text = r#"
    operations { operation scan { do vanished output rec } }
    signals {
        family t {
            signal hit {
                derive from operation.scan.vanished
                    when rec.flag
            }
        }
    }
    clinch { when signal.t.hit { tag += yes } }
    "#;
    let plan = compile(text).unwrap();
    let art = Artifact {
        bytes: vec![1],
        text: None,
        meta: Vec::new(),
    };
    let err = run(&plan, &art, &ProbeOps).expect_err("unregistered function");
    assert_eq!(err, RuntimeError::UnknownOperation);
}
