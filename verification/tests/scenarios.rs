//! End-to-end scenarios: the structural-probe pipeline compiled from
//! source and run against artifacts with known signatures.

use lucius::Artifact;
use lucius::LuciusContext;
use lucius::Num;
use lucius::compile;
use lucius::error::CompileErrorKind;
use lucius::ops_file::LstranOps;
use lucius::run;

fn demo_pipeline() -> &'static str {
    r#"
    meta {
        name    = "structural_probe_poc"
        author  = "dozer-project"
        version = "0.2.0"
        scope   = any
    }

    operations {
        operation magic {
            do inspect_magic   output magic_probe
            do classify_format output format_probe
            do entropy_probe   output entropy_probe
        }
    }

    signals {
        family format {
            signal pdf_magic {
                derive from operation.magic.inspect_magic
                    when magic_probe.magic == [0x25, 0x50, 0x44, 0x46]
            }

            signal pe_magic {
                derive from operation.magic.inspect_magic
                    when magic_probe.magic[0] == 0x4D
                      && magic_probe.magic[1] == 0x5A
            }

            signal classified_pdf {
                derive from operation.magic.classify_format
                    when format_probe.format == "pdf"
            }
        }

        family structural {
            signal high_entropy {
                derive from operation.magic.entropy_probe
                    when entropy_probe.entropy > 7.0
            }
        }

        family risk {
            signal suspicious_pe {
                derive from operation.magic.inspect_magic
                    when magic_probe.matched
                      && magic_probe.magic[0] == 0x4D
                      && magic_probe.magic[1] == 0x5A
            }
        }
    }

    clinch {
        when signal.format.pdf_magic {
            tag += "type:pdf"
            emit Emit::PdfMagic
            run deferred PdfMagicHandler
            score risk += 1.0
        }

        when signal.format.classified_pdf {
            tag += "classified:pdf"
            score confidence += 2.0
        }

        when signal.format.pe_magic {
            tag += "type:pe"
            emit Emit::PortableExecutable
            run deferred PeStaticAnalyzer
            score risk += 3.0
        }

        when signal.structural.high_entropy {
            tag += "anomaly:high_entropy"
            emit Emit::HighEntropy
            score risk += 5.0
        }

        when signal.risk.suspicious_pe {
            tag += "risk:suspicious_pe"
            score threat = 9.0
        }
    }
    "#
}

fn artifact(bytes: Vec<u8>) -> Artifact {
    Artifact {
        bytes,
        text: None,
        meta: Vec::new(),
    }
}

fn run_demo(bytes: Vec<u8>) -> LuciusContext {
    let plan = compile(demo_pipeline()).expect("the demo pipeline compiles");
    run(&plan, &artifact(bytes), &LstranOps).expect("the demo pipeline runs")
}

#[test]
fn scenario_pdf_artifact() {
    let ctx = run_demo(vec![0x25, 0x50, 0x44, 0x46]);
    assert_eq!(
        ctx.tags,
        vec![
            "tag:\"type:pdf\"".to_string(),
            "tag:\"classified:pdf\"".to_string()
        ]
    );
    assert_eq!(ctx.emits, vec!["Emit::PdfMagic".to_string()]);
    assert_eq!(ctx.deferred, vec!["PdfMagicHandler".to_string()]);
    assert_eq!(ctx.score_of("risk"), Some(Num { mant: 10, scale: 1 }));
    assert_eq!(ctx.score_of("confidence"), Some(Num { mant: 20, scale: 1 }));
    assert_eq!(ctx.score_of("threat"), None);
}

#[test]
fn scenario_pe_artifact() {
    let ctx = run_demo(vec![0x4D, 0x5A, 0x00, 0x00]);
    assert_eq!(
        ctx.tags,
        vec![
            "tag:\"type:pe\"".to_string(),
            "tag:\"risk:suspicious_pe\"".to_string()
        ]
    );
    assert_eq!(ctx.emits, vec!["Emit::PortableExecutable".to_string()]);
    assert_eq!(ctx.deferred, vec!["PeStaticAnalyzer".to_string()]);
    assert_eq!(ctx.score_of("risk"), Some(Num { mant: 30, scale: 1 }));
    // Set is independent of any prior value.
    assert_eq!(ctx.score_of("threat"), Some(Num { mant: 90, scale: 1 }));
    assert_eq!(ctx.score_of("confidence"), None);
}

#[test]
fn scenario_unclassified_artifact() {
    let ctx = run_demo(vec![0x00, 0x00, 0x00, 0x00]);
    assert!(ctx.tags.is_empty());
    assert!(ctx.emits.is_empty());
    assert!(ctx.deferred.is_empty());
    assert!(ctx.scores.is_empty());
}

#[test]
fn scenario_missing_step_is_rejected_at_compile_time() {
    let text = r#"
    operations {
        operation magic {
            do inspect_magic output magic_probe
        }
    }
    signals {
        family format {
            signal pdf_magic {
                derive from operation.magic.missing_step
                    when magic_probe.matched
            }
        }
    }
    clinch {
        when signal.format.pdf_magic {
            tag += "x"
        }
    }
    "#;
    let err = compile(text).expect_err("a dangling derivation must not compile");
    assert_eq!(err.kind, CompileErrorKind::Referential);
    assert_eq!(err.token, "missing_step".to_string());
}

#[test]
fn compiling_and_running_twice_is_identical() {
    let p1 = compile(demo_pipeline()).unwrap();
    let p2 = compile(demo_pipeline()).unwrap();
    let a = artifact(vec![0x25, 0x50, 0x44, 0x46]);
    let c1 = run(&p1, &a, &LstranOps).unwrap();
    let c2 = run(&p2, &a, &LstranOps).unwrap();
    assert_eq!(c1.tags, c2.tags);
    assert_eq!(c1.emits, c2.emits);
    assert_eq!(c1.deferred, c2.deferred);
    assert_eq!(c1.scores, c2.scores);
}
