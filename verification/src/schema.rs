//! Capability schema parsing: turns a raw, schema-described mode list into
//! a well-formed [`WorkModeModel`], or reports why the schema is unusable.

use vstd::prelude::*;

use crate::model::ModeView;
use crate::model::SpaceView;
use crate::model::ValueSpace;
use crate::model::WorkMode;
use crate::model::WorkModeModel;
use crate::strutil::str_eq;

verus! {

/// The value description a raw schema gives for one mode. Unknown or extra
/// schema fields are dropped by the caller before reaching the parser;
/// `Missing` records that the schema gave no usable value information.
pub enum RawValueDesc {
    /// A single discrete value.
    Single(i64),
    /// An explicit enumeration of discrete values.
    List(Vec<i64>),
    /// A contiguous half-open integer range `[start, end)`.
    Range { start: i64, end: i64 },
    /// No value information present.
    Missing,
}

/// One mode entry of a raw capability schema.
pub struct RawModeEntry {
    pub name: Option<String>,
    pub values: RawValueDesc,
}

/// A raw "workMode" capability description: its mode entries in schema
/// declaration order.
pub struct RawCapability {
    pub modes: Vec<RawModeEntry>,
}

/// Why a capability schema could not be turned into a model.
#[derive(Clone, Copy, Debug, PartialEq, Eq, Structural)]
pub enum SchemaError {
    /// A mode entry carries no name.
    MissingName,
    /// A mode entry carries no values: no value description at all, or an
    /// empty enumeration.
    MissingValues,
    /// A mode entry advertises a range with `end <= start`.
    InvalidRange,
    /// Two mode entries carry the same name.
    DuplicateName,
}

/// The value space a raw value description normalizes to, when it is
/// usable.
pub open spec fn space_of_desc(d: RawValueDesc) -> SpaceView {
    match d {
        RawValueDesc::Single(v) => SpaceView::Discrete { values: seq![v] },
        RawValueDesc::List(vs) => SpaceView::Discrete { values: vs@ },
        RawValueDesc::Range { start, end } => SpaceView::Range { start, end },
        RawValueDesc::Missing => SpaceView::Discrete { values: Seq::empty() },
    }
}

/// The error a single raw entry produces, if any, against the modes parsed
/// before it.
pub open spec fn entry_error(prefix: Seq<ModeView>, e: RawModeEntry) -> Option<SchemaError> {
    if e.name is None {
        Some(SchemaError::MissingName)
    } else if match e.values {
        RawValueDesc::Missing => true,
        RawValueDesc::List(vs) => vs@.len() == 0,
        _ => false,
    } {
        Some(SchemaError::MissingValues)
    } else if match e.values {
        RawValueDesc::Range { start, end } => end <= start,
        _ => false,
    } {
        Some(SchemaError::InvalidRange)
    } else if exists|i: int| 0 <= i < prefix.len() && (#[trigger] prefix[i].name) == e.name->0@ {
        Some(SchemaError::DuplicateName)
    } else {
        None
    }
}

/// The mode a usable raw entry normalizes to.
pub open spec fn mode_of_entry(e: RawModeEntry) -> ModeView {
    ModeView { name: e.name->0@, space: space_of_desc(e.values) }
}

/// The parse of a raw entry sequence: the normalized modes in declaration
/// order, or the error of the first unusable entry.
pub open spec fn parse_modes(s: Seq<RawModeEntry>) -> Result<Seq<ModeView>, SchemaError>
    decreases s.len(),
{
    if s.len() == 0 {
        Ok(Seq::empty())
    } else {
        match parse_modes(s.drop_last()) {
            Err(e) => Err(e),
            Ok(prefix) => match entry_error(prefix, s.last()) {
                Some(e) => Err(e),
                None => Ok(prefix.push(mode_of_entry(s.last()))),
            },
        }
    }
}

/// A parsed mode sequence is well-formed: spaces non-empty, names unique.
proof fn lemma_parse_modes_well_formed(s: Seq<RawModeEntry>)
    requires
        parse_modes(s) is Ok,
    ensures
        forall|i: int|
            0 <= i < parse_modes(s)->Ok_0.len() ==> (#[trigger] parse_modes(
                s,
            )->Ok_0[i].space).well_formed(),
        forall|i: int, j: int|
            0 <= i < j < parse_modes(s)->Ok_0.len() ==> (#[trigger] parse_modes(s)->Ok_0[i].name)
                != (#[trigger] parse_modes(s)->Ok_0[j].name),
    decreases s.len(),
{
    if s.len() > 0 {
        lemma_parse_modes_well_formed(s.drop_last());
    }
}

/// Once some prefix of the entries fails to parse, the whole sequence
/// fails with the same error.
proof fn lemma_parse_modes_err_prefix(s: Seq<RawModeEntry>, k: int)
    requires
        0 <= k <= s.len(),
        parse_modes(s.take(k)) is Err,
    ensures
        parse_modes(s) == parse_modes(s.take(k)),
    decreases s.len() - k,
{
    if k < s.len() {
        assert(s.take(k + 1).drop_last() =~= s.take(k));
        lemma_parse_modes_err_prefix(s, k + 1);
    } else {
        assert(s.take(k) =~= s);
    }
}

fn name_already_used(modes: &Vec<WorkMode>, name: &str) -> (r: bool)
    ensures
        r == exists|i: int| 0 <= i < modes@.len() && (#[trigger] modes@[i].name@) == name@,
{
    let mut i: usize = 0;
    while i < modes.len()
        invariant
            0 <= i <= modes@.len(),
            forall|j: int| 0 <= j < i ==> (#[trigger] modes@[j].name@) != name@,
        decreases modes@.len() - i,
    {
        if str_eq(modes[i].name.as_str(), name) {
            proof {
                assert((modes@[i as int].name@) == name@);
            }
            return true;
        }
        i = i + 1;
    }
    false
}

fn copy_values(vs: &Vec<i64>) -> (r: Vec<i64>)
    ensures
        r@ == vs@,
{
    let mut out: Vec<i64> = Vec::new();
    let mut i: usize = 0;
    while i < vs.len()
        invariant
            0 <= i <= vs@.len(),
            out@ == vs@.take(i as int),
        decreases vs@.len() - i,
    {
        out.push(vs[i]);
        proof {
            assert(out@ =~= vs@.take(i + 1));
        }
        i = i + 1;
    }
    proof {
        assert(vs@.take(vs@.len() as int) =~= vs@);
    }
    out
}

/// Builds the normalized work-mode model from a raw capability schema.
///
/// Fails exactly when some entry is missing its mandatory name or value
/// information, advertises an empty range, or repeats a name; the first
/// unusable entry in declaration order decides the error.
pub fn build_work_mode_model(raw: &RawCapability) -> (r: Result<WorkModeModel, SchemaError>)
    ensures
        match r {
            Ok(m) => parse_modes(raw.modes@) == Ok::<_, SchemaError>(m@) && m.well_formed(),
            Err(e) => parse_modes(raw.modes@) == Err::<Seq<ModeView>, _>(e),
        },
{
    let mut modes: Vec<WorkMode> = Vec::new();
    let mut i: usize = 0;
    proof {
        assert(raw.modes@.take(0) =~= Seq::<RawModeEntry>::empty());
        assert(modes@.map_values(|m: WorkMode| m@) =~= Seq::<ModeView>::empty());
    }
    while i < raw.modes.len()
        invariant
            0 <= i <= raw.modes@.len(),
            parse_modes(raw.modes@.take(i as int)) == Ok::<_, SchemaError>(
                modes@.map_values(|m: WorkMode| m@),
            ),
        decreases raw.modes@.len() - i,
    {
        proof {
            assert(raw.modes@.take(i + 1).drop_last() =~= raw.modes@.take(i as int));
            assert(raw.modes@.take(i + 1).last() == raw.modes@[i as int]);
        }
        let ghost prefix = modes@.map_values(|m: WorkMode| m@);
        let entry = &raw.modes[i];
        let name: String = match &entry.name {
            Some(n) => n.clone(),
            None => {
                proof {
                    assert(parse_modes(raw.modes@.take(i + 1)) == Err::<Seq<ModeView>, _>(
                        SchemaError::MissingName,
                    ));
                    lemma_parse_modes_err_prefix(raw.modes@, i + 1);
                }
                return Err(SchemaError::MissingName);
            },
        };
        let space: ValueSpace = match &entry.values {
            RawValueDesc::Missing => {
                proof {
                    assert(parse_modes(raw.modes@.take(i + 1)) == Err::<Seq<ModeView>, _>(
                        SchemaError::MissingValues,
                    ));
                    lemma_parse_modes_err_prefix(raw.modes@, i + 1);
                }
                return Err(SchemaError::MissingValues);
            },
            RawValueDesc::Single(v) => {
                let mut vs: Vec<i64> = Vec::new();
                vs.push(*v);
                proof {
                    assert(vs@ =~= seq![*v]);
                }
                ValueSpace::Discrete(vs)
            },
            RawValueDesc::List(vs) => {
                if vs.len() == 0 {
                    proof {
                        assert(parse_modes(raw.modes@.take(i + 1)) == Err::<Seq<ModeView>, _>(
                            SchemaError::MissingValues,
                        ));
                        lemma_parse_modes_err_prefix(raw.modes@, i + 1);
                    }
                    return Err(SchemaError::MissingValues);
                }
                ValueSpace::Discrete(copy_values(vs))
            },
            RawValueDesc::Range { start, end } => {
                if *end <= *start {
                    proof {
                        assert(parse_modes(raw.modes@.take(i + 1)) == Err::<Seq<ModeView>, _>(
                            SchemaError::InvalidRange,
                        ));
                        lemma_parse_modes_err_prefix(raw.modes@, i + 1);
                    }
                    return Err(SchemaError::InvalidRange);
                }
                ValueSpace::Range { start: *start, end: *end }
            },
        };
        if name_already_used(&modes, name.as_str()) {
            proof {
                let j = choose|j: int|
                    0 <= j < modes@.len() && (#[trigger] modes@[j].name@) == name@;
                assert(prefix[j].name == name@);
                assert(entry_error(prefix, raw.modes@[i as int]) == Some(
                    SchemaError::DuplicateName,
                ));
                assert(parse_modes(raw.modes@.take(i + 1)) == Err::<Seq<ModeView>, _>(
                    SchemaError::DuplicateName,
                ));
                lemma_parse_modes_err_prefix(raw.modes@, i + 1);
            }
            return Err(SchemaError::DuplicateName);
        }
        let mode = WorkMode { name, space };
        proof {
            assert(forall|j: int|
                0 <= j < prefix.len() ==> (#[trigger] prefix[j].name) == modes@[j].name@);
            assert(entry_error(prefix, raw.modes@[i as int]) is None);
            assert(mode@ == mode_of_entry(raw.modes@[i as int]));
        }
        modes.push(mode);
        proof {
            assert(modes@.map_values(|m: WorkMode| m@) =~= prefix.push(
                mode_of_entry(raw.modes@[i as int]),
            ));
        }
        i = i + 1;
    }
    proof {
        assert(raw.modes@.take(raw.modes@.len() as int) =~= raw.modes@);
        lemma_parse_modes_well_formed(raw.modes@);
        assert(forall|a: int|
            0 <= a < modes@.len() ==> modes@.map_values(|m: WorkMode| m@)[a]
                == (#[trigger] modes@[a])@);
    }
    Ok(WorkModeModel { modes })
}

} // verus!
