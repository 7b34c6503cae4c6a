//! The built-in artifact-inspection operations.

use lucius::Artifact;
use lucius::LuciusContext;
use lucius::LuopDescriptor;
use lucius::Num;
use lucius::ops_file::classify_format;
use lucius::ops_file::entropy_probe;
use lucius::ops_file::inspect_magic;

fn art(bytes: Vec<u8>) -> Artifact {
    Artifact {
        bytes,
        text: Some("Hello, world!".to_string()),
        meta: Vec::new(),
    }
}

#[test]
fn inspect_magic_recognizes_pdf_and_pe() {
    let pdf = inspect_magic(&art(vec![0x25, 0x50, 0x44, 0x46, 0xFF]));
    assert!(pdf.matched);
    assert_eq!(pdf.magic, [0x25, 0x50, 0x44, 0x46]);

    let pe = inspect_magic(&art(vec![0x4D, 0x5A, 0x01, 0x02]));
    assert!(pe.matched);
    assert_eq!(pe.magic, [0x4D, 0x5A, 0x01, 0x02]);

    let other = inspect_magic(&art(vec![1, 2, 3, 4]));
    assert!(!other.matched);
}

#[test]
fn inspect_magic_zero_pads_short_artifacts() {
    let short = inspect_magic(&art(vec![0x25, 0x50]));
    assert_eq!(short.magic, [0, 0, 0, 0]);
    assert!(!short.matched);
}

#[test]
fn classify_format_reads_two_leading_bytes() {
    assert_eq!(classify_format(&art(vec![0x4D, 0x5A])).format, "pe");
    assert_eq!(classify_format(&art(vec![0x25, 0x50, 0x44])).format, "pdf");
    assert_eq!(classify_format(&art(vec![0x00])).format, "unknown");
    assert_eq!(classify_format(&art(Vec::new())).format, "unknown");
}

#[test]
fn entropy_probe_reports_exact_zero() {
    let r = entropy_probe(&art(vec![1, 2, 3]));
    assert_eq!(r.entropy, Num { mant: 0, scale: 0 });
}

#[test]
fn fresh_context_is_empty() {
    let ctx = LuciusContext::new();
    assert!(ctx.tags.is_empty());
    assert!(ctx.emits.is_empty());
    assert!(ctx.deferred.is_empty());
    assert!(ctx.scores.is_empty());
    assert_eq!(ctx.score_of("anything"), None);
}

#[test]
fn descriptor_carries_its_fields() {
    let d = LuopDescriptor {
        fn_name: "inspect_magic",
        output: "magic_probe",
        module: "ops_file",
    };
    assert_eq!(d.fn_name, "inspect_magic");
    assert_eq!(d.output, "magic_probe");
    assert_eq!(d.module, "ops_file");
}
