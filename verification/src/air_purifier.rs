//! The air-purifier fan entity: its discovery configuration, the exact
//! topic names it publishes under, and its per-notification state
//! reconciliation.

use vstd::prelude::*;

use crate::model::WorkModeModel;
use crate::pinstore::PinStore;
use crate::reconcile::reconcile;
use crate::reconcile::spec_reconcile;
use crate::reconcile::FanTopics;
use crate::reconcile::LiveState;
use crate::reconcile::PublishRequest;
use crate::reconcile::TopicsView;

verus! {

/// The fan state topic of a device, `<namespace>/fan/<id>/state`.
pub open spec fn spec_state_topic(id: Seq<char>) -> Seq<char> {
    "gv2mqtt/fan/"@ + id + "/state"@
}

/// The power command topic: power is routed through the shared switch
/// capability, `<namespace>/switch/<id>/command/powerSwitch`.
pub open spec fn spec_command_topic(id: Seq<char>) -> Seq<char> {
    "gv2mqtt/switch/"@ + id + "/command/powerSwitch"@
}

/// The percentage command topic, `<namespace>/fan/<id>/set-percentage`.
pub open spec fn spec_percentage_command_topic(id: Seq<char>) -> Seq<char> {
    "gv2mqtt/fan/"@ + id + "/set-percentage"@
}

/// The percentage state topic, `<namespace>/fan/<id>/notify-percentage`.
pub open spec fn spec_percentage_state_topic(id: Seq<char>) -> Seq<char> {
    "gv2mqtt/fan/"@ + id + "/notify-percentage"@
}

/// The unique discovery id, `<namespace>-<id>-fan`.
pub open spec fn spec_unique_id(id: Seq<char>) -> Seq<char> {
    "gv2mqtt-"@ + id + "-fan"@
}

/// The discovery fields shared by every entity of this integration that
/// this core fills in.
pub struct EntityConfig {
    pub availability_topic: String,
    pub name: Option<String>,
    pub device_class: Option<String>,
    pub unique_id: String,
    pub entity_category: Option<String>,
    pub icon: Option<String>,
}

/// The discovery configuration of an MQTT fan entity used for an air
/// purifier: a percentage-only slider with 25% steps and no preset
/// topics, to keep a slider-only interface.
pub struct AirPurifierConfig {
    pub base: EntityConfig,
    pub command_topic: String,
    pub state_topic: String,
    pub percentage_command_topic: Option<String>,
    pub percentage_state_topic: Option<String>,
    pub percentage_step: Option<i64>,
    pub speed_range_min: Option<i64>,
    pub speed_range_max: Option<i64>,
    pub preset_mode_command_topic: Option<String>,
    pub preset_mode_state_topic: Option<String>,
    pub preset_modes: Vec<String>,
    pub optimistic: bool,
}

/// An air-purifier entity: its configuration and the ids it reconciles
/// and publishes under.
pub struct AirPurifier {
    pub air_purifier: AirPurifierConfig,
    pub device_id: String,
    pub topic_id: String,
}

fn concat3(prefix: &str, id: &str, suffix: &str) -> (r: String)
    ensures
        r@ == prefix@ + id@ + suffix@,
{
    let r = prefix.to_owned().concat(id).concat(suffix);
    r
}

impl AirPurifier {
    /// Builds the entity for one device: `device_id` is the raw id used
    /// for state lookups, `topic_id` the sanitized id used in topic names
    /// and as the stabilizer key; `use_iot` says whether a push channel
    /// is available, without which the entity reports optimistically.
    pub fn new(
        device_id: &str,
        topic_id: &str,
        availability_topic: &str,
        is_air_purifier_type: bool,
        use_iot: bool,
    ) -> (r: AirPurifier)
        ensures
            r.device_id@ == device_id@,
            r.topic_id@ == topic_id@,
            r.air_purifier.command_topic@ == spec_command_topic(topic_id@),
            r.air_purifier.state_topic@ == spec_state_topic(topic_id@),
            r.air_purifier.percentage_command_topic matches Some(t) && t@
                == spec_percentage_command_topic(topic_id@),
            r.air_purifier.percentage_state_topic matches Some(t) && t@
                == spec_percentage_state_topic(topic_id@),
            r.air_purifier.percentage_step == Some(25i64),
            r.air_purifier.speed_range_min is None,
            r.air_purifier.speed_range_max is None,
            r.air_purifier.preset_mode_command_topic is None,
            r.air_purifier.preset_mode_state_topic is None,
            r.air_purifier.preset_modes@.len() == 0,
            r.air_purifier.optimistic == !use_iot,
            r.air_purifier.base.unique_id@ == spec_unique_id(topic_id@),
            r.air_purifier.base.availability_topic@ == availability_topic@,
            is_air_purifier_type ==> r.air_purifier.base.name is None,
            !is_air_purifier_type ==> (r.air_purifier.base.name matches Some(n) && n@
                == "Air Purifier"@),
            r.air_purifier.base.device_class matches Some(c) && c@ == "fan"@,
            r.air_purifier.base.entity_category is None,
            r.air_purifier.base.icon matches Some(i) && i@ == "mdi:air-purifier"@,
    {
        let command_topic = concat3("gv2mqtt/switch/", topic_id, "/command/powerSwitch");
        let state_topic = concat3("gv2mqtt/fan/", topic_id, "/state");
        let percentage_command_topic = concat3("gv2mqtt/fan/", topic_id, "/set-percentage");
        let percentage_state_topic = concat3("gv2mqtt/fan/", topic_id, "/notify-percentage");
        let unique_id = concat3("gv2mqtt-", topic_id, "-fan");
        let name: Option<String> = if is_air_purifier_type {
            None
        } else {
            Some("Air Purifier".to_owned())
        };
        AirPurifier {
            air_purifier: AirPurifierConfig {
                base: EntityConfig {
                    availability_topic: availability_topic.to_owned(),
                    name,
                    device_class: Some("fan".to_owned()),
                    unique_id,
                    entity_category: None,
                    icon: Some("mdi:air-purifier".to_owned()),
                },
                command_topic,
                state_topic,
                percentage_command_topic: Some(percentage_command_topic),
                percentage_state_topic: Some(percentage_state_topic),
                percentage_step: Some(25),
                speed_range_min: None,
                speed_range_max: None,
                preset_mode_command_topic: None,
                preset_mode_state_topic: None,
                preset_modes: Vec::new(),
                optimistic: !use_iot,
            },
            device_id: device_id.to_owned(),
            topic_id: topic_id.to_owned(),
        }
    }

    /// The state topics this entity reconciles against.
    pub fn fan_topics(&self) -> (r: FanTopics)
        ensures
            r@ == self.spec_topics(),
    {
        let percentage_state_topic: Option<String> = match &self.air_purifier.percentage_state_topic {
            Some(t) => Some(t.clone()),
            None => None,
        };
        let preset_mode_state_topic: Option<String> = match &self.air_purifier.preset_mode_state_topic {
            Some(t) => Some(t.clone()),
            None => None,
        };
        FanTopics {
            state_topic: self.air_purifier.state_topic.clone(),
            percentage_state_topic,
            preset_mode_state_topic,
        }
    }

    /// The abstract topics of this entity.
    pub open spec fn spec_topics(&self) -> TopicsView {
        TopicsView {
            state: self.air_purifier.state_topic@,
            percentage: match self.air_purifier.percentage_state_topic {
                Some(ref t) => Some(t@),
                None => None,
            },
            preset: match self.air_purifier.preset_mode_state_topic {
                Some(ref t) => Some(t@),
                None => None,
            },
        }
    }

    /// One notification pass: the publications that report this entity's
    /// state, pinned or live, at `now_ms`.
    pub fn notify_state(
        &self,
        pins: &PinStore,
        model: Option<&WorkModeModel>,
        live: Option<&LiveState>,
        now_ms: u64,
    ) -> (r: Vec<PublishRequest>)
        ensures
            r@.map_values(|p: PublishRequest| p@) == spec_reconcile(
                self.spec_topics(),
                pins@,
                crate::reconcile::opt_model_view(model),
                crate::reconcile::opt_live_view(live),
                now_ms,
            ),
    {
        let topics = self.fan_topics();
        reconcile(&topics, pins, model, live, now_ms)
    }
}

} // verus!
