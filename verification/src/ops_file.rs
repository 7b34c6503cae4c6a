//! Built-in operation functions over an artifact: magic-byte
//! inspection, format classification and an entropy probe, together
//! with a registry that exposes them to plan execution.

use vstd::prelude::*;
use vstd::string::StringExecFns;

use crate::data_objs::Artifact;
use crate::error::RuntimeError;
use crate::num::Num;
use crate::predicate::Value;
use crate::runtime::OperationRegistry;
use crate::strutil::str_eq;

verus! {

/// The first four bytes inspected, zero-padded when fewer exist.
pub open spec fn magic_of(bytes: Seq<u8>) -> Seq<u8> {
    if bytes.len() >= 4 {
        bytes.take(4)
    } else {
        seq![0u8, 0u8, 0u8, 0u8]
    }
}

/// Whether the magic is a PDF (`%PDF`) or PE (`MZ`) signature.
pub open spec fn magic_matched(m: Seq<u8>) -> bool {
    (m[0] == 0x25 && m[1] == 0x50 && m[2] == 0x44 && m[3] == 0x46) || (m[0] == 0x4D && m[1]
        == 0x5A)
}

/// Result of `inspect_magic`: the leading bytes and whether they carry
/// a known signature.
pub struct InspectMagicResult {
    pub matched: bool,
    pub magic: [u8; 4],
}

/// Inspects the artifact's magic bytes: the first four bytes,
/// zero-padded, matched against the PDF and PE signatures.
pub fn inspect_magic(artifact: &Artifact) -> (r: InspectMagicResult)
    ensures
        r.magic@ == magic_of(artifact.bytes@),
        r.matched == magic_matched(magic_of(artifact.bytes@)),
{
    let bytes = &artifact.bytes;
    let magic: [u8; 4] = if bytes.len() >= 4 {
        [bytes[0], bytes[1], bytes[2], bytes[3]]
    } else {
        [0, 0, 0, 0]
    };
    proof {
        assert(magic@ =~= magic_of(artifact.bytes@));
    }
    let matched = (magic[0] == 0x25 && magic[1] == 0x50 && magic[2] == 0x44 && magic[3] == 0x46)
        || (magic[0] == 0x4D && magic[1] == 0x5A);
    InspectMagicResult { matched, magic }
}

/// Result of `entropy_probe`.
pub struct EntropyResult {
    pub entropy: Num,
}

/// Probes the artifact's byte entropy.
pub fn entropy_probe(artifact: &Artifact) -> (r: EntropyResult)
    ensures
        r.entropy == (Num { mant: 0, scale: 0 }),
{
    let entropy = compute_entropy(&artifact.bytes);
    EntropyResult { entropy }
}

/// The entropy estimate; this build measures nothing and reports an
/// exact zero.
fn compute_entropy(bytes: &Vec<u8>) -> (r: Num)
    ensures
        r == (Num { mant: 0, scale: 0 }),
{
    Num { mant: 0, scale: 0 }
}

/// The format class of leading bytes: `pe`, `pdf` or `unknown`.
pub open spec fn format_class(bytes: Seq<u8>) -> Seq<char> {
    if bytes.len() >= 2 && bytes[0] == 0x4D && bytes[1] == 0x5A {
        "pe"@
    } else if bytes.len() >= 2 && bytes[0] == 0x25 && bytes[1] == 0x50 {
        "pdf"@
    } else {
        "unknown"@
    }
}

/// Result of `classify_format`.
pub struct FormatClassResult {
    pub format: &'static str,
}

/// Classifies the artifact's format from its two leading bytes.
pub fn classify_format(artifact: &Artifact) -> (r: FormatClassResult)
    ensures
        r.format@ == format_class(artifact.bytes@),
{
    let bytes = &artifact.bytes;
    let format: &'static str = if bytes.len() >= 2 && bytes[0] == 0x4D && bytes[1] == 0x5A {
        "pe"
    } else if bytes.len() >= 2 && bytes[0] == 0x25 && bytes[1] == 0x50 {
        "pdf"
    } else {
        "unknown"
    };
    FormatClassResult { format }
}

/// The magic-inspection result as a predicate-domain record.
pub fn inspect_magic_value(res: InspectMagicResult) -> (r: Value)
    ensures
        r matches Value::Record(fs) && {
            &&& fs@.len() == 2
            &&& fs@[0].0@ == "matched"@ && fs@[0].1 == Value::Bool(res.matched)
            &&& fs@[1].0@ == "magic"@ && (fs@[1].1 matches Value::Bytes(b) && b@ == res.magic@)
        },
{
    let mut fields: Vec<(String, Value)> = Vec::new();
    fields.push((String::from_str("matched"), Value::Bool(res.matched)));
    let bytes: Vec<u8> = vec![res.magic[0], res.magic[1], res.magic[2], res.magic[3]];
    proof {
        assert(bytes@ =~= res.magic@);
    }
    fields.push((String::from_str("magic"), Value::Bytes(bytes)));
    Value::Record(fields)
}

/// The entropy-probe result as a predicate-domain record.
pub fn entropy_value(res: EntropyResult) -> (r: Value)
    ensures
        r matches Value::Record(fs) && fs@.len() == 1 && fs@[0].0@ == "entropy"@ && fs@[0].1
            == Value::Num(res.entropy),
{
    let mut fields: Vec<(String, Value)> = Vec::new();
    fields.push((String::from_str("entropy"), Value::Num(res.entropy)));
    Value::Record(fields)
}

/// The format-classification result as a predicate-domain record.
pub fn format_class_value(res: FormatClassResult) -> (r: Value)
    ensures
        r matches Value::Record(fs) && fs@.len() == 1 && fs@[0].0@ == "format"@ && (fs@[0].1
            matches Value::Str(s) && s@ == res.format@),
{
    let mut fields: Vec<(String, Value)> = Vec::new();
    fields.push((String::from_str("format"), Value::Str(String::from_str(res.format))));
    Value::Record(fields)
}

/// The built-in operation registry: the three artifact-inspection
/// functions of this crate, by name.
pub struct LstranOps;

impl OperationRegistry for LstranOps {
    fn invoke(&self, fn_name: &str, artifact: &Artifact) -> Result<Value, RuntimeError> {
        if str_eq(fn_name, "inspect_magic") {
            Ok(inspect_magic_value(inspect_magic(artifact)))
        } else if str_eq(fn_name, "classify_format") {
            Ok(format_class_value(classify_format(artifact)))
        } else if str_eq(fn_name, "entropy_probe") {
            Ok(entropy_value(entropy_probe(artifact)))
        } else {
            Err(RuntimeError::UnknownOperation)
        }
    }
}

} // verus!
