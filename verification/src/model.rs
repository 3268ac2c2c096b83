//! The normalized work-mode model: named operating modes, each with a
//! discrete or contiguous-range value space, queried by name or by
//! numeric value with declaration order as the tie-break authority.

use vstd::prelude::*;

use crate::strutil::eq_ignore_ascii_case;
use crate::strutil::str_eq;
use crate::strutil::str_eq_ignore_ascii_case;

verus! {

/// The abstract value space of one mode.
pub enum SpaceView {
    Discrete { values: Seq<i64> },
    Range { start: i64, end: i64 },
}

/// The abstract view of one named mode.
pub struct ModeView {
    pub name: Seq<char>,
    pub space: SpaceView,
}

/// The set of numeric values a mode answers to: either an explicit list of
/// discrete values or a contiguous half-open integer range `[start, end)`.
pub enum ValueSpace {
    Discrete(Vec<i64>),
    Range { start: i64, end: i64 },
}

impl View for ValueSpace {
    type V = SpaceView;

    open spec fn view(&self) -> SpaceView {
        match self {
            ValueSpace::Discrete(vs) => SpaceView::Discrete { values: vs@ },
            ValueSpace::Range { start, end } => SpaceView::Range { start: *start, end: *end },
        }
    }
}

impl SpaceView {
    /// Whether the space contains the numeric value `v`.
    pub open spec fn contains(self, v: i64) -> bool {
        match self {
            SpaceView::Discrete { values } => values.contains(v),
            SpaceView::Range { start, end } => start <= v < end,
        }
    }

    /// A well-formed space is non-empty: a discrete list has at least one
    /// value and a range has `start < end`.
    pub open spec fn well_formed(self) -> bool {
        match self {
            SpaceView::Discrete { values } => values.len() > 0,
            SpaceView::Range { start, end } => start < end,
        }
    }

    /// Range-like: a contiguous range of more than one value. Everything
    /// else is preset-like.
    pub open spec fn is_range_like(self) -> bool {
        match self {
            SpaceView::Discrete { .. } => false,
            SpaceView::Range { start, end } => end - start > 1,
        }
    }

    /// The representative value used when commanding a mode without a
    /// caller-chosen sub-value: the first discrete value, or the range start.
    pub open spec fn first_value(self) -> i64 {
        match self {
            SpaceView::Discrete { values } => values[0],
            SpaceView::Range { start, .. } => start,
        }
    }
}

impl ValueSpace {
    pub fn contains(&self, v: i64) -> (r: bool)
        ensures
            r == self@.contains(v),
    {
        match self {
            ValueSpace::Discrete(vs) => {
                let mut i: usize = 0;
                while i < vs.len()
                    invariant
                        self@ == (SpaceView::Discrete { values: vs@ }),
                        0 <= i <= vs@.len(),
                        forall|j: int| 0 <= j < i ==> vs@[j] != v,
                    decreases vs@.len() - i,
                {
                    if vs[i] == v {
                        proof {
                            assert(vs@.contains(v)) by {
                                assert(vs@[i as int] == v);
                            }
                        }
                        return true;
                    }
                    i = i + 1;
                }
                proof {
                    assert(!vs@.contains(v));
                }
                false
            },
            ValueSpace::Range { start, end } => *start <= v && v < *end,
        }
    }

    pub fn is_range_like(&self) -> (r: bool)
        ensures
            r == self@.is_range_like(),
    {
        match self {
            ValueSpace::Discrete(_) => false,
            ValueSpace::Range { start, end } => (*end as i128) - (*start as i128) > 1,
        }
    }

    pub fn first_value(&self) -> (r: i64)
        requires
            self@.well_formed(),
        ensures
            r == self@.first_value(),
    {
        match self {
            ValueSpace::Discrete(vs) => vs[0],
            ValueSpace::Range { start, .. } => *start,
        }
    }
}

/// One named operating mode of a capability.
pub struct WorkMode {
    pub name: String,
    pub space: ValueSpace,
}

impl View for WorkMode {
    type V = ModeView;

    open spec fn view(&self) -> ModeView {
        ModeView { name: self.name@, space: self.space@ }
    }
}

/// The name by convention of the mode driven through the numeric slider.
pub open spec fn gear_mode_name() -> Seq<char> {
    "gearMode"@
}

/// The name, compared case-insensitively, of the preset that stands for
/// the maximum slider position.
pub open spec fn custom_mode_name() -> Seq<char> {
    "custom"@
}

impl ModeView {
    /// Range-capable: the mode the slider drives. Either it carries the
    /// conventional range-mode name, or its value space is a real range.
    pub open spec fn is_range_capable(self) -> bool {
        self.name == gear_mode_name() || self.space.is_range_like()
    }

    /// Whether this mode is the "maximum/auto" preset, by case-insensitive
    /// name match.
    pub open spec fn is_custom(self) -> bool {
        eq_ignore_ascii_case(self.name, custom_mode_name())
    }
}

/// The first mode of `s`, in declaration order, whose value space contains
/// `v`; `None` when no mode answers to `v`.
pub open spec fn first_mode_for_value(s: Seq<ModeView>, v: i64) -> Option<ModeView>
    decreases s.len(),
{
    if s.len() == 0 {
        None
    } else if s[0].space.contains(v) {
        Some(s[0])
    } else {
        first_mode_for_value(s.drop_first(), v)
    }
}

/// The first mode of `s` named `name` (exact match).
pub open spec fn first_mode_named(s: Seq<ModeView>, name: Seq<char>) -> Option<ModeView>
    decreases s.len(),
{
    if s.len() == 0 {
        None
    } else if s[0].name == name {
        Some(s[0])
    } else {
        first_mode_named(s.drop_first(), name)
    }
}

/// The first range-like mode of `s`.
pub open spec fn first_range_like(s: Seq<ModeView>) -> Option<ModeView>
    decreases s.len(),
{
    if s.len() == 0 {
        None
    } else if s[0].space.is_range_like() {
        Some(s[0])
    } else {
        first_range_like(s.drop_first())
    }
}

/// The first mode of `s` whose name matches the custom preset name up to
/// ASCII case.
pub open spec fn first_custom(s: Seq<ModeView>) -> Option<ModeView>
    decreases s.len(),
{
    if s.len() == 0 {
        None
    } else if s[0].is_custom() {
        Some(s[0])
    } else {
        first_custom(s.drop_first())
    }
}

/// A first-match search is unaffected by skipping a prefix in which nothing
/// matches; stated here for value search.
proof fn lemma_first_mode_for_value_skip(s: Seq<ModeView>, v: i64, i: int)
    requires
        0 <= i <= s.len(),
        forall|j: int| 0 <= j < i ==> !(#[trigger] s[j].space).contains(v),
    ensures
        first_mode_for_value(s, v) == first_mode_for_value(s.skip(i), v),
    decreases i,
{
    if i > 0 {
        assert(s.skip(i) =~= s.drop_first().skip(i - 1));
        lemma_first_mode_for_value_skip(s.drop_first(), v, i - 1);
    } else {
        assert(s.skip(0) =~= s);
    }
}

proof fn lemma_first_mode_named_skip(s: Seq<ModeView>, name: Seq<char>, i: int)
    requires
        0 <= i <= s.len(),
        forall|j: int| 0 <= j < i ==> (#[trigger] s[j].name) != name,
    ensures
        first_mode_named(s, name) == first_mode_named(s.skip(i), name),
    decreases i,
{
    if i > 0 {
        assert(s.skip(i) =~= s.drop_first().skip(i - 1));
        lemma_first_mode_named_skip(s.drop_first(), name, i - 1);
    } else {
        assert(s.skip(0) =~= s);
    }
}

proof fn lemma_first_range_like_skip(s: Seq<ModeView>, i: int)
    requires
        0 <= i <= s.len(),
        forall|j: int| 0 <= j < i ==> !(#[trigger] s[j].space).is_range_like(),
    ensures
        first_range_like(s) == first_range_like(s.skip(i)),
    decreases i,
{
    if i > 0 {
        assert(s.skip(i) =~= s.drop_first().skip(i - 1));
        lemma_first_range_like_skip(s.drop_first(), i - 1);
    } else {
        assert(s.skip(0) =~= s);
    }
}

proof fn lemma_first_custom_skip(s: Seq<ModeView>, i: int)
    requires
        0 <= i <= s.len(),
        forall|j: int| 0 <= j < i ==> !(#[trigger] s[j]).is_custom(),
    ensures
        first_custom(s) == first_custom(s.skip(i)),
    decreases i,
{
    if i > 0 {
        assert(s.skip(i) =~= s.drop_first().skip(i - 1));
        lemma_first_custom_skip(s.drop_first(), i - 1);
    } else {
        assert(s.skip(0) =~= s);
    }
}

/// The names of the preset-like modes of `s`, in declaration order.
pub open spec fn preset_names_of(s: Seq<ModeView>) -> Seq<Seq<char>>
    decreases s.len(),
{
    if s.len() == 0 {
        Seq::empty()
    } else {
        let rest = preset_names_of(s.drop_last());
        if s.last().space.is_range_like() {
            rest
        } else {
            rest.push(s.last().name)
        }
    }
}

/// The normalized model of one capability's modes, immutable after
/// construction, in schema declaration order.
pub struct WorkModeModel {
    pub modes: Vec<WorkMode>,
}

impl View for WorkModeModel {
    type V = Seq<ModeView>;

    open spec fn view(&self) -> Seq<ModeView> {
        self.modes@.map_values(|m: WorkMode| m@)
    }
}

impl WorkModeModel {
    /// Well-formed: every mode's value space is non-empty and mode names
    /// are unique within the capability.
    pub open spec fn well_formed(&self) -> bool {
        &&& forall|i: int| 0 <= i < self@.len() ==> (#[trigger] self@[i].space).well_formed()
        &&& forall|i: int, j: int|
            0 <= i < j < self@.len() ==> (#[trigger] self@[i].name) != (#[trigger] self@[j].name)
    }

    /// Exact-match lookup by mode name.
    pub fn mode_by_name(&self, name: &str) -> (r: Option<&WorkMode>)
        ensures
            match r {
                Some(m) => first_mode_named(self@, name@) == Some(m@),
                None => first_mode_named(self@, name@) is None,
            },
    {
        let mut i: usize = 0;
        while i < self.modes.len()
            invariant
                0 <= i <= self@.len(),
                self@.len() == self.modes@.len(),
                forall|j: int| 0 <= j < i ==> (#[trigger] self@[j].name) != name@,
            decreases self@.len() - i,
        {
            if str_eq(self.modes[i].name.as_str(), name) {
                proof {
                    lemma_first_mode_named_skip(self@, name@, i as int);
                    assert(self@.skip(i as int)[0] == self@[i as int]);
                }
                return Some(&self.modes[i]);
            }
            i = i + 1;
        }
        proof {
            lemma_first_mode_named_skip(self@, name@, i as int);
        }
        None
    }

    /// The first mode, by declaration order, whose value space contains
    /// `v`; `None` means "unknown current mode", not an error.
    pub fn mode_for_value(&self, v: i64) -> (r: Option<&WorkMode>)
        ensures
            match r {
                Some(m) => first_mode_for_value(self@, v) == Some(m@),
                None => first_mode_for_value(self@, v) is None,
            },
    {
        let mut i: usize = 0;
        while i < self.modes.len()
            invariant
                0 <= i <= self@.len(),
                self@.len() == self.modes@.len(),
                forall|j: int| 0 <= j < i ==> !(#[trigger] self@[j].space).contains(v),
            decreases self@.len() - i,
        {
            if self.modes[i].space.contains(v) {
                proof {
                    lemma_first_mode_for_value_skip(self@, v, i as int);
                    assert(self@.skip(i as int)[0] == self@[i as int]);
                }
                return Some(&self.modes[i]);
            }
            i = i + 1;
        }
        proof {
            lemma_first_mode_for_value_skip(self@, v, i as int);
        }
        None
    }

    /// The first range-like mode, by declaration order.
    pub fn first_range_like_mode(&self) -> (r: Option<&WorkMode>)
        ensures
            match r {
                Some(m) => first_range_like(self@) == Some(m@),
                None => first_range_like(self@) is None,
            },
    {
        let mut i: usize = 0;
        while i < self.modes.len()
            invariant
                0 <= i <= self@.len(),
                self@.len() == self.modes@.len(),
                forall|j: int| 0 <= j < i ==> !(#[trigger] self@[j].space).is_range_like(),
            decreases self@.len() - i,
        {
            if self.modes[i].space.is_range_like() {
                proof {
                    lemma_first_range_like_skip(self@, i as int);
                    assert(self@.skip(i as int)[0] == self@[i as int]);
                }
                return Some(&self.modes[i]);
            }
            i = i + 1;
        }
        proof {
            lemma_first_range_like_skip(self@, i as int);
        }
        None
    }

    /// The first mode, by declaration order, named like the custom preset
    /// up to ASCII case.
    pub fn custom_mode(&self) -> (r: Option<&WorkMode>)
        ensures
            match r {
                Some(m) => first_custom(self@) == Some(m@),
                None => first_custom(self@) is None,
            },
    {
        let mut i: usize = 0;
        while i < self.modes.len()
            invariant
                0 <= i <= self@.len(),
                self@.len() == self.modes@.len(),
                forall|j: int| 0 <= j < i ==> !(#[trigger] self@[j]).is_custom(),
            decreases self@.len() - i,
        {
            if str_eq_ignore_ascii_case(self.modes[i].name.as_str(), "custom") {
                proof {
                    lemma_first_custom_skip(self@, i as int);
                    assert(self@.skip(i as int)[0] == self@[i as int]);
                }
                return Some(&self.modes[i]);
            }
            i = i + 1;
        }
        proof {
            lemma_first_custom_skip(self@, i as int);
        }
        None
    }

    /// The names of all preset-like modes, in declaration order; this
    /// order is consumer-visible and therefore significant.
    pub fn preset_names(&self) -> (r: Vec<String>)
        ensures
            r@.map_values(|n: String| n@) == preset_names_of(self@),
    {
        let mut names: Vec<String> = Vec::new();
        let mut i: usize = 0;
        while i < self.modes.len()
            invariant
                0 <= i <= self@.len(),
                self@.len() == self.modes@.len(),
                names@.map_values(|n: String| n@) == preset_names_of(self@.take(i as int)),
            decreases self@.len() - i,
        {
            proof {
                assert(self@.take(i + 1).drop_last() =~= self@.take(i as int));
                assert(self@.take(i + 1).last() == self@[i as int]);
            }
            if !self.modes[i].space.is_range_like() {
                let name = self.modes[i].name.clone();
                names.push(name);
                proof {
                    assert(names@.map_values(|n: String| n@) =~= preset_names_of(
                        self@.take(i + 1),
                    ));
                }
            }
            i = i + 1;
        }
        proof {
            assert(self@.take(self@.len() as int) =~= self@);
        }
        names
    }
}

} // verus!
