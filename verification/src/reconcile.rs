//! The state reconciler: on each outbound notification it resolves pinned
//! versus live state, projects the result into the protocol vocabulary,
//! and yields the publications to perform. It mutates nothing; pinning
//! happens at command-issue time, outside this flow.

use vstd::prelude::*;

use crate::model::first_mode_for_value;
use crate::model::ModeView;
use crate::model::WorkModeModel;
use crate::pinstore::pin_active;
use crate::pinstore::pin_lookup;
use crate::pinstore::PinStore;
use crate::pinstore::PinView;
use crate::projection::spec_project;
use crate::projection::project_percentage;
use crate::strutil::dec_rep;
use crate::strutil::u8_to_dec_string;

verus! {

/// The outbound state topics of one fan-like entity. A `None` topic is
/// simply not published to.
pub struct FanTopics {
    pub state_topic: String,
    pub percentage_state_topic: Option<String>,
    pub preset_mode_state_topic: Option<String>,
}

/// The abstract view of [`FanTopics`].
pub struct TopicsView {
    pub state: Seq<char>,
    pub percentage: Option<Seq<char>>,
    pub preset: Option<Seq<char>>,
}

impl View for FanTopics {
    type V = TopicsView;

    open spec fn view(&self) -> TopicsView {
        TopicsView {
            state: self.state_topic@,
            percentage: match self.percentage_state_topic {
                Some(ref t) => Some(t@),
                None => None,
            },
            preset: match self.preset_mode_state_topic {
                Some(ref t) => Some(t@),
                None => None,
            },
        }
    }
}

/// The plain extract of a device snapshot that reconciliation reads: the
/// power flag and the work-mode capability's reported mode id and
/// sub-value, when present.
pub struct LiveState {
    pub on: bool,
    pub work_mode: Option<i64>,
    pub mode_value: Option<i64>,
}

/// One publication to perform: a topic and its payload.
pub struct PublishRequest {
    pub topic: String,
    pub payload: String,
}

/// The abstract view of [`PublishRequest`].
pub struct PublishView {
    pub topic: Seq<char>,
    pub payload: Seq<char>,
}

impl View for PublishRequest {
    type V = PublishView;

    open spec fn view(&self) -> PublishView {
        PublishView { topic: self.topic@, payload: self.payload@ }
    }
}

/// The on/off payload: the literal strings `"ON"` and `"OFF"`.
pub open spec fn onoff_payload(on: bool) -> Seq<char> {
    if on {
        "ON"@
    } else {
        "OFF"@
    }
}

/// The pin that governs this entity's percentage topic at `now_ms`, if an
/// active one exists.
pub open spec fn spec_active_pin(pins: Seq<PinView>, topics: TopicsView, now_ms: u64) -> Option<
    PinView,
> {
    match topics.percentage {
        Some(pt) => match pin_lookup(pins, pt) {
            Some(p) => if pin_active(p, now_ms) {
                Some(p)
            } else {
                None
            },
            None => None,
        },
        None => None,
    }
}

/// The live percentage of a snapshot: 0 when off; otherwise the forward
/// projection of the reported mode id and sub-value (a missing sub-value
/// is read as 1), undefined when the model or the mode id is missing.
pub open spec fn spec_live_percentage(m: Option<Seq<ModeView>>, live: LiveState) -> Option<u8> {
    if !live.on {
        Some(0u8)
    } else {
        match (m, live.work_mode) {
            (Some(modes), Some(id)) => spec_project(
                modes,
                true,
                id,
                match live.mode_value {
                    Some(v) => v,
                    None => 1,
                },
            ),
            _ => None,
        }
    }
}

/// The preset payload of a snapshot: the name of the preset-like mode the
/// reported mode id resolves to, independent of the percentage flow and
/// never pinned.
pub open spec fn spec_preset_payload(m: Option<Seq<ModeView>>, live: LiveState) -> Option<
    Seq<char>,
> {
    match (m, live.work_mode) {
        (Some(modes), Some(id)) => match first_mode_for_value(modes, id) {
            Some(mode) => if !mode.space.is_range_like() {
                Some(mode.name)
            } else {
                None
            },
            None => None,
        },
        _ => None,
    }
}

/// The publications of the live path: on/off always; the percentage topic
/// only when the projection is defined; the preset topic only when the
/// reported mode resolves to a preset-like mode.
pub open spec fn spec_live_publishes(
    topics: TopicsView,
    m: Option<Seq<ModeView>>,
    live: LiveState,
) -> Seq<PublishView> {
    let base = seq![PublishView { topic: topics.state, payload: onoff_payload(live.on) }];
    let with_pct = match topics.percentage {
        Some(pt) => match spec_live_percentage(m, live) {
            Some(p) => base.push(PublishView { topic: pt, payload: dec_rep(p as int) }),
            None => base,
        },
        None => base,
    };
    match topics.preset {
        Some(prt) => match spec_preset_payload(m, live) {
            Some(name) => with_pct.push(PublishView { topic: prt, payload: name }),
            None => with_pct,
        },
        None => with_pct,
    }
}

/// One reconciliation pass: with an active pin, the pinned percentage is
/// published verbatim together with the on/off state it implies, and live
/// state is not consulted; otherwise the live snapshot is projected, and
/// a missing snapshot publishes nothing.
pub open spec fn spec_reconcile(
    topics: TopicsView,
    pins: Seq<PinView>,
    m: Option<Seq<ModeView>>,
    live: Option<LiveState>,
    now_ms: u64,
) -> Seq<PublishView> {
    match spec_active_pin(pins, topics, now_ms) {
        Some(p) => seq![
            PublishView { topic: topics.state, payload: onoff_payload(p.value > 0) },
            PublishView { topic: topics.percentage->0, payload: dec_rep(p.value as int) },
        ],
        None => match live {
            Some(l) => spec_live_publishes(topics, m, l),
            None => Seq::empty(),
        },
    }
}

/// The model sequence a reconciliation argument stands for.
pub open spec fn opt_model_view(model: Option<&WorkModeModel>) -> Option<Seq<ModeView>> {
    match model {
        Some(m) => Some(m@),
        None => None,
    }
}

/// The snapshot a reconciliation argument stands for.
pub open spec fn opt_live_view(live: Option<&LiveState>) -> Option<LiveState> {
    match live {
        Some(l) => Some(*l),
        None => None,
    }
}

/// Performs one reconciliation pass and returns the publications to make,
/// in order.
pub fn reconcile(
    topics: &FanTopics,
    pins: &PinStore,
    model: Option<&WorkModeModel>,
    live: Option<&LiveState>,
    now_ms: u64,
) -> (r: Vec<PublishRequest>)
    ensures
        r@.map_values(|p: PublishRequest| p@) == spec_reconcile(
            topics@,
            pins@,
            opt_model_view(model),
            opt_live_view(live),
            now_ms,
        ),
{
    let mut out: Vec<PublishRequest> = Vec::new();
    match &topics.percentage_state_topic {
        Some(pt) => {
            match pins.read_pin(pt.as_str(), now_ms) {
                Some(pair) => {
                    if pair.1 {
                        let onoff: String = if pair.0 > 0 {
                            "ON".to_owned()
                        } else {
                            "OFF".to_owned()
                        };
                        out.push(PublishRequest { topic: topics.state_topic.clone(), payload: onoff });
                        out.push(
                            PublishRequest { topic: pt.clone(), payload: u8_to_dec_string(pair.0) },
                        );
                        proof {
                            assert(out@.map_values(|p: PublishRequest| p@) =~= spec_reconcile(
                                topics@,
                                pins@,
                                opt_model_view(model),
                                opt_live_view(live),
                                now_ms,
                            ));
                        }
                        return out;
                    }
                },
                None => {},
            }
        },
        None => {},
    }
    let l: &LiveState = match live {
        Some(l) => l,
        None => {
            proof {
                assert(out@.map_values(|p: PublishRequest| p@) =~= Seq::<PublishView>::empty());
            }
            return out;
        },
    };
    let onoff: String = if l.on {
        "ON".to_owned()
    } else {
        "OFF".to_owned()
    };
    out.push(PublishRequest { topic: topics.state_topic.clone(), payload: onoff });
    let ghost base = out@.map_values(|p: PublishRequest| p@);
    proof {
        assert(base =~= seq![
            PublishView { topic: topics@.state, payload: onoff_payload(l.on) },
        ]);
    }
    match &topics.percentage_state_topic {
        Some(pt) => {
            let pct: Option<u8> = if !l.on {
                Some(0)
            } else {
                match (model, l.work_mode) {
                    (Some(m), Some(id)) => {
                        let sub: i64 = match l.mode_value {
                            Some(v) => v,
                            None => 1,
                        };
                        project_percentage(m, true, id, sub)
                    },
                    _ => None,
                }
            };
            match pct {
                Some(p) => {
                    out.push(PublishRequest { topic: pt.clone(), payload: u8_to_dec_string(p) });
                },
                None => {},
            }
        },
        None => {},
    }
    let ghost with_pct = out@.map_values(|p: PublishRequest| p@);
    proof {
        assert(with_pct =~= match topics@.percentage {
            Some(ptv) => match spec_live_percentage(opt_model_view(model), *l) {
                Some(p) => base.push(PublishView { topic: ptv, payload: dec_rep(p as int) }),
                None => base,
            },
            None => base,
        });
    }
    match &topics.preset_mode_state_topic {
        Some(prt) => {
            match (model, l.work_mode) {
                (Some(m), Some(id)) => {
                    match m.mode_for_value(id) {
                        Some(mode) => {
                            if !mode.space.is_range_like() {
                                out.push(
                                    PublishRequest {
                                        topic: prt.clone(),
                                        payload: mode.name.clone(),
                                    },
                                );
                            }
                        },
                        None => {},
                    }
                },
                _ => {},
            }
        },
        None => {},
    }
    proof {
        assert(out@.map_values(|p: PublishRequest| p@) =~= spec_reconcile(
            topics@,
            pins@,
            opt_model_view(model),
            opt_live_view(live),
            now_ms,
        ));
    }
    out
}

/// Law: pin precedence. While a pin for the percentage topic is active,
/// reconciliation publishes the pinned percentage and the on/off state it
/// implies, whatever the live state; once the pin has lapsed,
/// reconciliation publishes the live-derived values instead.
pub proof fn lemma_pin_precedence(
    topics: TopicsView,
    pins: Seq<PinView>,
    m: Option<Seq<ModeView>>,
    live: LiveState,
    p: PinView,
    now_within: u64,
    now_after: u64,
)
    requires
        topics.percentage is Some,
        pin_lookup(pins, topics.percentage->0) == Some(p),
        now_within < p.expires_at_ms,
        now_after >= p.expires_at_ms,
    ensures
        spec_reconcile(topics, pins, m, Some(live), now_within) == seq![
            PublishView { topic: topics.state, payload: onoff_payload(p.value > 0) },
            PublishView { topic: topics.percentage->0, payload: dec_rep(p.value as int) },
        ],
        spec_reconcile(topics, pins, m, Some(live), now_after) == spec_live_publishes(
            topics,
            m,
            live,
        ),
{
}

/// Law: an off snapshot is published as the literal `"OFF"` with
/// percentage 0, regardless of the model and of the reported mode and
/// sub-value.
pub proof fn lemma_off_publishes(topics: TopicsView, m: Option<Seq<ModeView>>, live: LiveState)
    requires
        !live.on,
        topics.percentage is Some,
    ensures
        spec_live_publishes(topics, m, live)[0] == (PublishView {
            topic: topics.state,
            payload: "OFF"@,
        }),
        spec_live_publishes(topics, m, live)[1] == (PublishView {
            topic: topics.percentage->0,
            payload: dec_rep(0),
        }),
{
}

/// Law: idempotence. Two reconciliation passes over unchanged topics,
/// pins, model and live state, at instants at which the pin situation is
/// the same, produce identical publications.
pub proof fn lemma_reconcile_idempotent(
    topics: TopicsView,
    pins: Seq<PinView>,
    m: Option<Seq<ModeView>>,
    live: Option<LiveState>,
    now_first: u64,
    now_second: u64,
)
    requires
        spec_active_pin(pins, topics, now_first) == spec_active_pin(pins, topics, now_second),
    ensures
        spec_reconcile(topics, pins, m, live, now_first) == spec_reconcile(
            topics,
            pins,
            m,
            live,
            now_second,
        ),
{
}

} // verus!
