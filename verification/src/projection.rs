//! Percentage projection: the forward mapping from live (on, mode,
//! sub-value) state to the quantized external percentage, and the reverse
//! mapping from a requested percentage to a concrete device command.

use vstd::prelude::*;

use crate::model::first_custom;
use crate::model::first_mode_for_value;
use crate::model::first_mode_named;
use crate::model::first_range_like;
use crate::model::gear_mode_name;
use crate::model::ModeView;
use crate::model::SpaceView;
use crate::model::WorkMode;
use crate::model::WorkModeModel;

verus! {

/// The forward projection of `(on, mode_id, sub_value)` through the model
/// `m` into the quantized percentage vocabulary.
///
/// Off state is 0 regardless of mode. An active range-capable mode maps
/// sub-values 1/2/3 to 25/50/75 and clamps anything else to the minimum
/// on-level 25. The custom preset is the maximum, 100. Any other active
/// mode, or an unknown mode id, leaves the projection undefined: the
/// reconciler then reports on/off state only.
pub open spec fn spec_project(m: Seq<ModeView>, on: bool, mode_id: i64, sub_value: i64) -> Option<
    u8,
> {
    if !on {
        Some(0u8)
    } else {
        match first_mode_for_value(m, mode_id) {
            None => None,
            Some(mode) => if mode.is_range_capable() {
                if sub_value == 1 {
                    Some(25u8)
                } else if sub_value == 2 {
                    Some(50u8)
                } else if sub_value == 3 {
                    Some(75u8)
                } else {
                    Some(25u8)
                }
            } else if mode.is_custom() {
                Some(100u8)
            } else {
                None
            },
        }
    }
}

/// Forward projection of device state into a percentage in
/// `{0, 25, 50, 75, 100}`, or `None` when the projection is undefined for
/// the active mode.
pub fn project_percentage(model: &WorkModeModel, on: bool, mode_id: i64, sub_value: i64) -> (r:
    Option<u8>)
    ensures
        r == spec_project(model@, on, mode_id, sub_value),
{
    if !on {
        return Some(0);
    }
    match model.mode_for_value(mode_id) {
        None => None,
        Some(mode) => {
            let range_capable = crate::strutil::str_eq(mode.name.as_str(), "gearMode")
                || mode.space.is_range_like();
            if range_capable {
                if sub_value == 1 {
                    Some(25)
                } else if sub_value == 2 {
                    Some(50)
                } else if sub_value == 3 {
                    Some(75)
                } else {
                    Some(25)
                }
            } else if crate::strutil::str_eq_ignore_ascii_case(mode.name.as_str(), "custom") {
                Some(100)
            } else {
                None
            }
        },
    }
}

/// A concrete device command resolved from a requested percentage.
#[derive(Clone, Copy, Debug, PartialEq, Eq, Structural)]
pub enum FanCommand {
    /// Turn the device off.
    Off,
    /// Write `mode_id` to the work-mode capability, with `sub_value` as
    /// the slider position within a range-capable mode, when one applies.
    SetMode { mode_id: i64, sub_value: Option<i64> },
}

/// The requested percentage has no representable device command: the
/// device advertises neither a range-capable mode nor a custom preset.
#[derive(Clone, Copy, Debug, PartialEq, Eq, Structural)]
pub struct UnsupportedPercentage;

/// The mode the slider drives, when one exists: the mode conventionally
/// named for gear control, else the first range-like mode in declaration
/// order.
pub open spec fn designated_range_mode(m: Seq<ModeView>) -> Option<ModeView> {
    match first_mode_named(m, gear_mode_name()) {
        Some(mode) => Some(mode),
        None => first_range_like(m),
    }
}

/// The mode id written when commanding the designated range mode at
/// sub-value `sub`: `sub` itself when the mode's range contains it, else
/// the mode's representative value.
pub open spec fn range_command_id(mode: ModeView, sub: i64) -> i64 {
    match mode.space {
        SpaceView::Range { start, end } => if start <= sub < end {
            sub
        } else {
            mode.space.first_value()
        },
        SpaceView::Discrete { .. } => mode.space.first_value(),
    }
}

/// The reverse mapping: the command for the rung `step` in `0..=4`
/// (percentage `step * 25`, after rounding down).
///
/// Rung 0 turns the device off. Rungs 1..=3 drive the designated range
/// mode at that sub-value; with no range-capable mode they fall back to
/// the custom preset. Rung 4 selects the custom preset, or sub-value 3 of
/// the range mode as a best-effort ceiling. The request is unsupported
/// exactly when it asks for an on-level and the device advertises neither
/// a range-capable mode nor a custom preset.
pub open spec fn spec_resolve_step(m: Seq<ModeView>, step: int) -> Result<
    FanCommand,
    UnsupportedPercentage,
> {
    if step == 0 {
        Ok(FanCommand::Off)
    } else if step <= 3 {
        match designated_range_mode(m) {
            Some(mode) => Ok(
                FanCommand::SetMode {
                    mode_id: range_command_id(mode, step as i64),
                    sub_value: Some(step as i64),
                },
            ),
            None => match first_custom(m) {
                Some(mode) => Ok(
                    FanCommand::SetMode { mode_id: mode.space.first_value(), sub_value: None },
                ),
                None => Err(UnsupportedPercentage),
            },
        }
    } else {
        match first_custom(m) {
            Some(mode) => Ok(
                FanCommand::SetMode { mode_id: mode.space.first_value(), sub_value: None },
            ),
            None => match designated_range_mode(m) {
                Some(mode) => Ok(
                    FanCommand::SetMode {
                        mode_id: range_command_id(mode, 3),
                        sub_value: Some(3i64),
                    },
                ),
                None => Err(UnsupportedPercentage),
            },
        }
    }
}

/// The reverse mapping for a raw requested percentage: round down to the
/// nearest rung of 25, then resolve that rung.
pub open spec fn spec_resolve(m: Seq<ModeView>, pct: u8) -> Result<
    FanCommand,
    UnsupportedPercentage,
> {
    spec_resolve_step(m, pct as int / 25)
}

impl WorkModeModel {
    /// The designated range mode, as an executable lookup.
    fn designated_range_mode_lookup(&self) -> (r: Option<&WorkMode>)
        ensures
            match r {
                Some(mode) => designated_range_mode(self@) == Some(mode@),
                None => designated_range_mode(self@) is None,
            },
    {
        match self.mode_by_name("gearMode") {
            Some(mode) => Some(mode),
            None => self.first_range_like_mode(),
        }
    }
}

/// Resolves a requested percentage `0..=100` into a device command,
/// rounding down to the nearest rung of 25.
pub fn resolve_command_for_percentage(model: &WorkModeModel, pct: u8) -> (r: Result<
    FanCommand,
    UnsupportedPercentage,
>)
    requires
        model.well_formed(),
        pct <= 100,
    ensures
        r == spec_resolve(model@, pct),
{
    let step: u8 = pct / 25;
    if step == 0 {
        return Ok(FanCommand::Off);
    }
    if step <= 3 {
        match model.designated_range_mode_lookup() {
            Some(mode) => {
                proof {
                    lemma_designated_range_mode_well_formed(model@, mode@);
                }
                let mode_id: i64 = match &mode.space {
                    crate::model::ValueSpace::Range { start, end } => {
                        if *start <= (step as i64) && (step as i64) < *end {
                            step as i64
                        } else {
                            mode.space.first_value()
                        }
                    },
                    crate::model::ValueSpace::Discrete(_) => mode.space.first_value(),
                };
                Ok(FanCommand::SetMode { mode_id, sub_value: Some(step as i64) })
            },
            None => match model.custom_mode() {
                Some(mode) => {
                    proof {
                        lemma_first_custom_well_formed(model@, mode@);
                    }
                    Ok(FanCommand::SetMode { mode_id: mode.space.first_value(), sub_value: None })
                },
                None => Err(UnsupportedPercentage),
            },
        }
    } else {
        match model.custom_mode() {
            Some(mode) => {
                proof {
                    lemma_first_custom_well_formed(model@, mode@);
                }
                Ok(FanCommand::SetMode { mode_id: mode.space.first_value(), sub_value: None })
            },
            None => match model.designated_range_mode_lookup() {
                Some(mode) => {
                    proof {
                        lemma_designated_range_mode_well_formed(model@, mode@);
                    }
                    let mode_id: i64 = match &mode.space {
                        crate::model::ValueSpace::Range { start, end } => {
                            if *start <= 3i64 && 3i64 < *end {
                                3i64
                            } else {
                                mode.space.first_value()
                            }
                        },
                        crate::model::ValueSpace::Discrete(_) => mode.space.first_value(),
                    };
                    Ok(FanCommand::SetMode { mode_id, sub_value: Some(3) })
                },
                None => Err(UnsupportedPercentage),
            },
        }
    }
}

/// Any mode a first-match search returns is one of the model's modes.
proof fn lemma_first_mode_named_member(s: Seq<ModeView>, name: Seq<char>)
    requires
        first_mode_named(s, name) is Some,
    ensures
        exists|i: int| 0 <= i < s.len() && s[i] == first_mode_named(s, name)->0,
    decreases s.len(),
{
    if s.len() > 0 && s[0].name != name {
        lemma_first_mode_named_member(s.drop_first(), name);
        let j = choose|j: int|
            0 <= j < s.drop_first().len() && s.drop_first()[j] == first_mode_named(s, name)->0;
        assert(s[j + 1] == first_mode_named(s, name)->0);
    }
}

proof fn lemma_first_range_like_member(s: Seq<ModeView>)
    requires
        first_range_like(s) is Some,
    ensures
        exists|i: int| 0 <= i < s.len() && s[i] == first_range_like(s)->0,
    decreases s.len(),
{
    if s.len() > 0 && !s[0].space.is_range_like() {
        lemma_first_range_like_member(s.drop_first());
        let j = choose|j: int|
            0 <= j < s.drop_first().len() && s.drop_first()[j] == first_range_like(s)->0;
        assert(s[j + 1] == first_range_like(s)->0);
    }
}

proof fn lemma_first_custom_member(s: Seq<ModeView>)
    requires
        first_custom(s) is Some,
    ensures
        exists|i: int| 0 <= i < s.len() && s[i] == first_custom(s)->0,
    decreases s.len(),
{
    if s.len() > 0 && !s[0].is_custom() {
        lemma_first_custom_member(s.drop_first());
        let j = choose|j: int|
            0 <= j < s.drop_first().len() && s.drop_first()[j] == first_custom(s)->0;
        assert(s[j + 1] == first_custom(s)->0);
    }
}

/// In a well-formed model the designated range mode's value space is
/// well-formed.
proof fn lemma_designated_range_mode_well_formed(s: Seq<ModeView>, mode: ModeView)
    requires
        forall|i: int| 0 <= i < s.len() ==> (#[trigger] s[i].space).well_formed(),
        designated_range_mode(s) == Some(mode),
    ensures
        mode.space.well_formed(),
{
    if first_mode_named(s, gear_mode_name()) is Some {
        lemma_first_mode_named_member(s, gear_mode_name());
    } else {
        lemma_first_range_like_member(s);
    }
}

/// In a well-formed model the custom preset's value space is well-formed.
proof fn lemma_first_custom_well_formed(s: Seq<ModeView>, mode: ModeView)
    requires
        forall|i: int| 0 <= i < s.len() ==> (#[trigger] s[i].space).well_formed(),
        first_custom(s) == Some(mode),
    ensures
        mode.space.well_formed(),
{
    lemma_first_custom_member(s);
}

/// Law: with a range-capable mode active, forward projection maps
/// sub-values 1, 2 and 3 to 25, 50 and 75, and clamps any other sub-value
/// to 25.
pub proof fn lemma_forward_range_projection(
    m: Seq<ModeView>,
    mode_id: i64,
    sub_value: i64,
    mode: ModeView,
)
    requires
        first_mode_for_value(m, mode_id) == Some(mode),
        mode.is_range_capable(),
    ensures
        1 <= sub_value <= 3 ==> spec_project(m, true, mode_id, sub_value) == Some(
            (sub_value * 25) as u8,
        ),
        !(1 <= sub_value <= 3) ==> spec_project(m, true, mode_id, sub_value) == Some(25u8),
{
}

/// Law: off state projects to percentage 0, regardless of the model, the
/// reported mode and the sub-value.
pub proof fn lemma_off_projection(m: Seq<ModeView>, mode_id: i64, sub_value: i64)
    ensures
        spec_project(m, false, mode_id, sub_value) == Some(0u8),
{
}

/// Law: reverse-then-forward round trip. For a percentage on one of the
/// rungs `{0, 25, 50, 75, 100}`, resolving it to a command and projecting
/// that command's state forward yields the same percentage, on a
/// well-formed model that advertises both a range-capable mode and a
/// custom preset, provided the resolved command's mode id resolves back
/// to the mode it was meant for (value spaces that overlap an earlier
/// mode's can capture the id, and a custom preset that is itself
/// range-capable projects as a slider, not as the maximum preset).
pub proof fn lemma_round_trip(m: Seq<ModeView>, pct: u8, range_mode: ModeView, custom: ModeView)
    requires
        pct <= 100,
        pct as int % 25 == 0,
        designated_range_mode(m) == Some(range_mode),
        first_custom(m) == Some(custom),
        !custom.is_range_capable(),
        forall|sub: i64|
            1 <= sub <= 3 ==> first_mode_for_value(m, range_command_id(range_mode, sub)) == Some(
                range_mode,
            ),
        first_mode_for_value(m, custom.space.first_value()) == Some(custom),
    ensures
        spec_resolve(m, pct) is Ok,
        match spec_resolve(m, pct)->Ok_0 {
            FanCommand::Off => spec_project(m, false, 0, 0) == Some(0u8) && pct == 0,
            FanCommand::SetMode { mode_id, sub_value } => spec_project(
                m,
                true,
                mode_id,
                match sub_value {
                    Some(s) => s,
                    None => 0,
                },
            ) == Some(pct),
        },
{
    let step = pct as int / 25;
    assert(0 <= step <= 4);
    assert(pct as int == step * 25);
    if step == 0 {
        assert(pct == 0);
    } else if step <= 3 {
        let sub = step as i64;
        assert(first_mode_for_value(m, range_command_id(range_mode, sub)) == Some(range_mode));
        assert(range_mode.is_range_capable()) by {
            if first_mode_named(m, gear_mode_name()) is Some {
                assert(range_mode.name == gear_mode_name()) by {
                    lemma_first_mode_named_is_named(m, gear_mode_name());
                }
            } else {
                lemma_first_range_like_is_range_like(m);
            }
        }
        assert(spec_project(m, true, range_command_id(range_mode, sub), sub) == Some(pct));
    } else {
        assert(custom.is_custom()) by {
            lemma_first_custom_is_custom(m);
        }
        assert(spec_project(m, true, custom.space.first_value(), 0) == Some(100u8));
    }
}

/// The mode a name search returns bears the searched name.
proof fn lemma_first_mode_named_is_named(s: Seq<ModeView>, name: Seq<char>)
    requires
        first_mode_named(s, name) is Some,
    ensures
        first_mode_named(s, name)->0.name == name,
    decreases s.len(),
{
    if s.len() > 0 && s[0].name != name {
        lemma_first_mode_named_is_named(s.drop_first(), name);
    }
}

/// The mode a range-like search returns is range-like.
proof fn lemma_first_range_like_is_range_like(s: Seq<ModeView>)
    requires
        first_range_like(s) is Some,
    ensures
        first_range_like(s)->0.space.is_range_like(),
    decreases s.len(),
{
    if s.len() > 0 && !s[0].space.is_range_like() {
        lemma_first_range_like_is_range_like(s.drop_first());
    }
}

/// The mode a custom search returns matches the custom name.
proof fn lemma_first_custom_is_custom(s: Seq<ModeView>)
    requires
        first_custom(s) is Some,
    ensures
        first_custom(s)->0.is_custom(),
    decreases s.len(),
{
    if s.len() > 0 && !s[0].is_custom() {
        lemma_first_custom_is_custom(s.drop_first());
    }
}

} // verus!
