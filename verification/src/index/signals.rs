//! The signal index: family to signal to derivation and compiled
//! predicate, in declaration order.

use vstd::prelude::*;

use crate::error::CompileError;
use crate::error::CompileErrorKind;
use crate::index::common::keys_unique;
use crate::validate::core_validate::names_unique;
use crate::parse::signals::SignalDef;
use crate::parse::signals::SignalFamily;
use crate::parse::signals::SignalsBlock;
use crate::predicate::OrExpr;
use crate::predicate::parse_predicate;
use crate::strutil::str_eq;

verus! {

/// Family name to family information, in declaration order.
pub struct SignalIndex {
    pub families: Vec<(String, FamilyInfo)>,
}

impl SignalIndex {
    pub fn new() -> (r: SignalIndex)
        ensures
            r.families@.len() == 0,
    {
        SignalIndex { families: Vec::new() }
    }
}

/// One family's signals, in declaration order.
pub struct FamilyInfo {
    pub signals: Vec<(String, SignalInfo)>,
}

/// One compiled signal: its derivation and its compiled predicate.
pub struct SignalInfo {
    pub derives_from: DeriveFrom,
    pub when: OrExpr,
}

/// A resolved derivation reference.
pub struct DeriveFrom {
    pub operation: String,
    pub step: String,
}

/// A compiled family is faithful to its definition: same signals in the
/// same order, each carrying its definition's derivation and the
/// compiled form of its own `when` tokens.
pub open spec fn family_wf(fam: SignalFamily, info: FamilyInfo) -> bool {
    &&& info.signals@.len() == fam.signals@.len()
    &&& keys_unique(info.signals@)
    &&& forall|j: int|
        0 <= j < info.signals@.len() ==> (#[trigger] info.signals@[j].0@) == fam.signals@[j].name@
    &&& forall|j: int|
        0 <= j < info.signals@.len() ==> (#[trigger] info.signals@[j].1.derives_from.operation@)
            == fam.signals@[j].body.derive_from.operation@
            && info.signals@[j].1.derives_from.step@ == fam.signals@[j].body.derive_from.step@
    &&& forall|j: int|
        0 <= j < info.signals@.len() ==> crate::predicate::spec_parse_predicate(
            fam.signals@[j].body.when@,
        ) == Some(crate::predicate::pred_view((#[trigger] info.signals@[j].1).when))
}

/// What building the signal index requires of its block: unique family
/// names, unique signal names within each family, and a predicate that
/// compiles for every signal.
pub open spec fn signals_buildable(sb: SignalsBlock) -> bool {
    &&& names_unique(sb.families@.map_values(|f: SignalFamily| f.name@))
    &&& forall|i: int|
        0 <= i < sb.families@.len() ==> names_unique(
            (#[trigger] sb.families@[i]).signals@.map_values(|s: SignalDef| s.name@),
        )
    &&& forall|i: int, j: int|
        0 <= i < sb.families@.len() && 0 <= j < sb.families@[i].signals@.len()
            ==> crate::predicate::spec_parse_predicate(
            (#[trigger] sb.families@[i].signals@[j]).body.when@,
        ) is Some
}

/// Builds the signal index: families and signals in declaration order,
/// each signal's predicate compiled once, duplicates rejected.
#[verifier::loop_isolation(false)]
pub fn build_signal_index(signals_block: &SignalsBlock) -> (r: Result<
    Vec<(String, FamilyInfo)>,
    CompileError,
>)
    ensures
        r is Ok <==> signals_buildable(*signals_block),
        r matches Ok(fams) ==> {
            &&& fams@.len() == signals_block.families@.len()
            &&& keys_unique(fams@)
            &&& forall|k: int|
                0 <= k < fams@.len() ==> (#[trigger] fams@[k].0@)
                    == signals_block.families@[k].name@
            &&& forall|k: int|
                0 <= k < fams@.len() ==> family_wf(
                    signals_block.families@[k],
                    #[trigger] fams@[k].1,
                )
        },
{
    let mut families: Vec<(String, FamilyInfo)> = Vec::new();
    let mut f: usize = 0;
    while f < signals_block.families.len()
        invariant
            f <= signals_block.families@.len(),
            families@.len() == f,
            keys_unique(families@),
            forall|k: int|
                0 <= k < f ==> (#[trigger] families@[k].0@) == signals_block.families@[k].name@,
            forall|k: int|
                0 <= k < f ==> family_wf(signals_block.families@[k], #[trigger] families@[k].1),
        decreases signals_block.families@.len() - f,
    {
        let family = &signals_block.families[f];
        let family_name = family.name.clone();
        let mut g: usize = 0;
        while g < families.len()
            invariant
                g <= families@.len(),
                forall|b: int| 0 <= b < g ==> (#[trigger] families@[b].0@) != family_name@,
            decreases families@.len() - g,
        {
            if str_eq(families[g].0.as_str(), family_name.as_str()) {
                proof {
                    let fviews = signals_block.families@.map_values(|x: SignalFamily| x.name@);
                    assert(fviews[g as int] == signals_block.families@[g as int].name@);
                    assert(fviews[f as int] == signals_block.families@[f as int].name@);
                    assert(!names_unique(fviews));
                }
                return Err(
                    CompileError::new(
                        CompileErrorKind::Uniqueness,
                        family_name.as_str(),
                        "duplicate signal family",
                    ),
                );
            }
            g += 1;
        }
        let mut signals: Vec<(String, SignalInfo)> = Vec::new();
        let mut s: usize = 0;
        while s < family.signals.len()
            invariant
                s <= family.signals@.len(),
                signals@.len() == s,
                keys_unique(signals@),
                forall|j: int|
                    0 <= j < s ==> (#[trigger] signals@[j].0@) == family.signals@[j].name@,
                forall|j: int|
                    0 <= j < s ==> (#[trigger] signals@[j].1.derives_from.operation@)
                        == family.signals@[j].body.derive_from.operation@
                        && signals@[j].1.derives_from.step@
                        == family.signals@[j].body.derive_from.step@,
                forall|j: int|
                    0 <= j < s ==> crate::predicate::spec_parse_predicate(
                        family.signals@[j].body.when@,
                    ) == Some(crate::predicate::pred_view((#[trigger] signals@[j].1).when)),
            decreases family.signals@.len() - s,
        {
            let signal = &family.signals[s];
            let signal_name = signal.name.clone();
            let mut h: usize = 0;
            while h < signals.len()
                invariant
                    h <= signals@.len(),
                    forall|b: int| 0 <= b < h ==> (#[trigger] signals@[b].0@) != signal_name@,
                decreases signals@.len() - h,
            {
                if str_eq(signals[h].0.as_str(), signal_name.as_str()) {
                    proof {
                        let sviews = family.signals@.map_values(|x: SignalDef| x.name@);
                        assert(sviews[h as int] == family.signals@[h as int].name@);
                        assert(sviews[s as int] == family.signals@[s as int].name@);
                        assert(!names_unique(sviews));
                    }
                    return Err(
                        CompileError::new(
                            CompileErrorKind::Uniqueness,
                            signal_name.as_str(),
                            "duplicate signal in family",
                        ),
                    );
                }
                h += 1;
            }
            let when = match parse_predicate(&signal.body.when) {
                Ok(p) => p,
                Err(e) => {
                    proof {
                        assert(crate::predicate::spec_parse_predicate(
                            signals_block.families@[f as int].signals@[s as int].body.when@,
                        ) is None);
                    }
                    return Err(e);
                },
            };
            let info = SignalInfo {
                derives_from: DeriveFrom {
                    operation: signal.body.derive_from.operation.clone(),
                    step: signal.body.derive_from.step.clone(),
                },
                when,
            };
            signals.push((signal_name, info));
            s += 1;
        }
        families.push((family_name, FamilyInfo { signals }));
        f += 1;
    }
    proof {
        let sb = *signals_block;
        let fviews = sb.families@.map_values(|x: SignalFamily| x.name@);
        assert(names_unique(fviews)) by {
            assert forall|a: int, b: int| 0 <= a < b < fviews.len() implies (#[trigger] fviews[a])
                != (#[trigger] fviews[b]) by {
                assert(fviews[a] == sb.families@[a].name@);
                assert(fviews[b] == sb.families@[b].name@);
                assert(families@[a].0@ == sb.families@[a].name@);
                assert(families@[b].0@ == sb.families@[b].name@);
            }
        }
        assert forall|i: int| 0 <= i < sb.families@.len() implies names_unique(
            (#[trigger] sb.families@[i]).signals@.map_values(|x: SignalDef| x.name@),
        ) by {
            assert(family_wf(sb.families@[i], families@[i].1));
            let svs = sb.families@[i].signals@.map_values(|x: SignalDef| x.name@);
            assert forall|a: int, b: int| 0 <= a < b < svs.len() implies (#[trigger] svs[a]) != (
            #[trigger] svs[b]) by {
                assert(svs[a] == sb.families@[i].signals@[a].name@);
                assert(svs[b] == sb.families@[i].signals@[b].name@);
                assert(families@[i].1.signals@[a].0@ == sb.families@[i].signals@[a].name@);
                assert(families@[i].1.signals@[b].0@ == sb.families@[i].signals@[b].name@);
            }
        }
        assert forall|i: int, j: int|
            0 <= i < sb.families@.len() && 0 <= j
                < sb.families@[i].signals@.len() implies crate::predicate::spec_parse_predicate(
            (#[trigger] sb.families@[i].signals@[j]).body.when@,
        ) is Some by {
            assert(family_wf(sb.families@[i], families@[i].1));
            assert(crate::predicate::spec_parse_predicate(sb.families@[i].signals@[j].body.when@)
                == Some(crate::predicate::pred_view(families@[i].1.signals@[j].1.when)));
        }
    }
    Ok(families)
}

} // verus!
