use workmode::air_purifier::AirPurifier;
use workmode::model::ValueSpace;
use workmode::model::WorkModeModel;
use workmode::pinstore::PinStore;
use workmode::projection::project_percentage;
use workmode::projection::resolve_command_for_percentage;
use workmode::projection::FanCommand;
use workmode::reconcile::reconcile;
use workmode::reconcile::FanTopics;
use workmode::reconcile::LiveState;
use workmode::reconcile::PublishRequest;
use workmode::schema::build_work_mode_model;
use workmode::schema::RawCapability;
use workmode::schema::RawModeEntry;
use workmode::schema::RawValueDesc;
use workmode::schema::SchemaError;
use workmode::strutil::str_eq;
use workmode::strutil::str_eq_ignore_ascii_case;
use workmode::strutil::u8_to_dec_string;

fn entry(name: &str, values: RawValueDesc) -> RawModeEntry {
    RawModeEntry {
        name: Some(name.to_string()),
        values,
    }
}

/// A schema with a range-capable gear mode over [1,4) and a custom preset
/// at value 5, as a typical device advertises.
fn gear_and_custom() -> WorkModeModel {
    build_work_mode_model(&RawCapability {
        modes: vec![
            entry("gearMode", RawValueDesc::Range { start: 1, end: 4 }),
            entry("Custom", RawValueDesc::Single(5)),
        ],
    })
    .expect("schema parses")
}

fn topics(id: &str) -> FanTopics {
    FanTopics {
        state_topic: format!("gv2mqtt/fan/{id}/state"),
        percentage_state_topic: Some(format!("gv2mqtt/fan/{id}/notify-percentage")),
        preset_mode_state_topic: None,
    }
}

fn pairs(reqs: &[PublishRequest]) -> Vec<(String, String)> {
    reqs.iter()
        .map(|r| (r.topic.clone(), r.payload.clone()))
        .collect()
}

#[test]
fn forward_projection_range_sub_values() {
    let m = gear_and_custom();
    // The active mode id 1 lies in gearMode's range; sub-values 1..=3 map
    // to the three on-rungs.
    assert_eq!(project_percentage(&m, true, 1, 1), Some(25));
    assert_eq!(project_percentage(&m, true, 1, 2), Some(50));
    assert_eq!(project_percentage(&m, true, 1, 3), Some(75));
    // Sub-value 0 and unrecognized sub-values clamp to the minimum
    // on-level.
    assert_eq!(project_percentage(&m, true, 1, 0), Some(25));
    assert_eq!(project_percentage(&m, true, 1, 9), Some(25));
    assert_eq!(project_percentage(&m, true, 1, -7), Some(25));
}

#[test]
fn forward_projection_off_is_zero() {
    let m = gear_and_custom();
    assert_eq!(project_percentage(&m, false, 1, 3), Some(0));
    assert_eq!(project_percentage(&m, false, 5, 0), Some(0));
    assert_eq!(project_percentage(&m, false, -100, 42), Some(0));
}

#[test]
fn forward_projection_custom_is_hundred() {
    let m = gear_and_custom();
    assert_eq!(project_percentage(&m, true, 5, 0), Some(100));
    assert_eq!(project_percentage(&m, true, 5, 2), Some(100));
}

#[test]
fn forward_projection_unknown_mode_undefined() {
    let m = gear_and_custom();
    assert_eq!(project_percentage(&m, true, 99, 1), None);
}

#[test]
fn forward_projection_plain_preset_undefined() {
    let m = build_work_mode_model(&RawCapability {
        modes: vec![
            entry("sleep", RawValueDesc::Single(7)),
            entry("gearMode", RawValueDesc::Range { start: 1, end: 4 }),
        ],
    })
    .unwrap();
    // A preset-like mode that is neither range-capable nor "custom" has
    // no defined percentage.
    assert_eq!(project_percentage(&m, true, 7, 1), None);
}

#[test]
fn round_trip_on_rungs() {
    let m = gear_and_custom();
    for pct in [0u8, 25, 50, 75, 100] {
        let cmd = resolve_command_for_percentage(&m, pct).expect("representable");
        let projected = match cmd {
            FanCommand::Off => project_percentage(&m, false, 0, 0),
            FanCommand::SetMode { mode_id, sub_value } => {
                project_percentage(&m, true, mode_id, sub_value.unwrap_or(0))
            }
        };
        assert_eq!(projected, Some(pct));
    }
}

#[test]
fn resolve_rounds_down_to_rung() {
    let m = gear_and_custom();
    // 60 rounds down to the 50 rung: gearMode at sub-value 2.
    assert_eq!(
        resolve_command_for_percentage(&m, 60),
        Ok(FanCommand::SetMode {
            mode_id: 2,
            sub_value: Some(2)
        })
    );
    // 24 rounds down to the off rung.
    assert_eq!(resolve_command_for_percentage(&m, 24), Ok(FanCommand::Off));
    // 100 selects the custom preset.
    assert_eq!(
        resolve_command_for_percentage(&m, 100),
        Ok(FanCommand::SetMode {
            mode_id: 5,
            sub_value: None
        })
    );
}

#[test]
fn resolve_without_custom_uses_range_ceiling() {
    let m = build_work_mode_model(&RawCapability {
        modes: vec![entry("gearMode", RawValueDesc::Range { start: 1, end: 4 })],
    })
    .unwrap();
    assert_eq!(
        resolve_command_for_percentage(&m, 100),
        Ok(FanCommand::SetMode {
            mode_id: 3,
            sub_value: Some(3)
        })
    );
}

#[test]
fn resolve_without_range_falls_back_to_custom() {
    let m = build_work_mode_model(&RawCapability {
        modes: vec![entry("custom", RawValueDesc::Single(5))],
    })
    .unwrap();
    assert_eq!(
        resolve_command_for_percentage(&m, 50),
        Ok(FanCommand::SetMode {
            mode_id: 5,
            sub_value: None
        })
    );
}

#[test]
fn resolve_unsupported_when_no_mode_can_represent() {
    let m = build_work_mode_model(&RawCapability {
        modes: vec![entry("sleep", RawValueDesc::Single(7))],
    })
    .unwrap();
    assert!(resolve_command_for_percentage(&m, 50).is_err());
    // Turning off needs no mode at all.
    assert_eq!(resolve_command_for_percentage(&m, 0), Ok(FanCommand::Off));
}

#[test]
fn mode_lookup_by_value_resolves_custom() {
    let m = gear_and_custom();
    let mode = m.mode_for_value(5).expect("custom resolves");
    assert!(str_eq(mode.name.as_str(), "Custom"));
    let gear = m.mode_for_value(2).expect("gear resolves");
    assert!(str_eq(gear.name.as_str(), "gearMode"));
    assert!(m.mode_for_value(4).is_none());
}

#[test]
fn mode_lookup_first_match_by_declaration_order() {
    let m = build_work_mode_model(&RawCapability {
        modes: vec![
            entry("first", RawValueDesc::List(vec![3, 4])),
            entry("second", RawValueDesc::Range { start: 1, end: 9 }),
        ],
    })
    .unwrap();
    // Value 3 lies in both spaces; declaration order is the tie-break
    // authority.
    let mode = m.mode_for_value(3).unwrap();
    assert!(str_eq(mode.name.as_str(), "first"));
}

#[test]
fn preset_names_keep_declaration_order() {
    let m = build_work_mode_model(&RawCapability {
        modes: vec![
            entry("Auto", RawValueDesc::Single(9)),
            entry("gearMode", RawValueDesc::Range { start: 1, end: 4 }),
            entry("Custom", RawValueDesc::Single(5)),
        ],
    })
    .unwrap();
    let names = m.preset_names();
    assert_eq!(names, vec!["Auto".to_string(), "Custom".to_string()]);
}

#[test]
fn schema_missing_name_rejected() {
    let r = build_work_mode_model(&RawCapability {
        modes: vec![RawModeEntry {
            name: None,
            values: RawValueDesc::Single(1),
        }],
    });
    assert_eq!(r.err(), Some(SchemaError::MissingName));
}

#[test]
fn schema_missing_values_rejected() {
    let r = build_work_mode_model(&RawCapability {
        modes: vec![entry("gearMode", RawValueDesc::Missing)],
    });
    assert_eq!(r.err(), Some(SchemaError::MissingValues));
    let r = build_work_mode_model(&RawCapability {
        modes: vec![entry("gearMode", RawValueDesc::List(vec![]))],
    });
    assert_eq!(r.err(), Some(SchemaError::MissingValues));
}

#[test]
fn schema_invalid_range_rejected() {
    let r = build_work_mode_model(&RawCapability {
        modes: vec![entry("gearMode", RawValueDesc::Range { start: 4, end: 4 })],
    });
    assert_eq!(r.err(), Some(SchemaError::InvalidRange));
}

#[test]
fn schema_duplicate_name_rejected() {
    let r = build_work_mode_model(&RawCapability {
        modes: vec![
            entry("gearMode", RawValueDesc::Single(1)),
            entry("gearMode", RawValueDesc::Single(2)),
        ],
    });
    assert_eq!(r.err(), Some(SchemaError::DuplicateName));
}

#[test]
fn schema_first_error_wins() {
    let r = build_work_mode_model(&RawCapability {
        modes: vec![
            entry("bad", RawValueDesc::Range { start: 2, end: 1 }),
            RawModeEntry {
                name: None,
                values: RawValueDesc::Single(1),
            },
        ],
    });
    assert_eq!(r.err(), Some(SchemaError::InvalidRange));
}

#[test]
fn pin_precedence_within_and_after_ttl() {
    let m = gear_and_custom();
    let t = topics("dev1");
    let pct_topic = t.percentage_state_topic.clone().unwrap();
    let mut pins = PinStore::new();
    pins.pin(&pct_topic, 75, 5000, 1_000);

    // Live state says sub-value 1 (25%), but the pin wins within the ttl.
    let live = LiveState {
        on: true,
        work_mode: Some(1),
        mode_value: Some(1),
    };
    let within = reconcile(&t, &pins, Some(&m), Some(&live), 3_000);
    assert_eq!(
        pairs(&within),
        vec![
            ("gv2mqtt/fan/dev1/state".to_string(), "ON".to_string()),
            (pct_topic.clone(), "75".to_string()),
        ]
    );

    // Once the ttl has elapsed the live-derived value is published.
    let after = reconcile(&t, &pins, Some(&m), Some(&live), 6_000);
    assert_eq!(
        pairs(&after),
        vec![
            ("gv2mqtt/fan/dev1/state".to_string(), "ON".to_string()),
            (pct_topic.clone(), "25".to_string()),
        ]
    );
}

#[test]
fn reconcile_is_idempotent_without_new_pins() {
    let m = gear_and_custom();
    let t = topics("dev2");
    let pins = PinStore::new();
    let live = LiveState {
        on: true,
        work_mode: Some(1),
        mode_value: Some(3),
    };
    let first = reconcile(&t, &pins, Some(&m), Some(&live), 10_000);
    let second = reconcile(&t, &pins, Some(&m), Some(&live), 10_000);
    assert_eq!(pairs(&first), pairs(&second));
    assert_eq!(
        pairs(&first),
        vec![
            ("gv2mqtt/fan/dev2/state".to_string(), "ON".to_string()),
            (
                "gv2mqtt/fan/dev2/notify-percentage".to_string(),
                "75".to_string()
            ),
        ]
    );
}

#[test]
fn pinned_fifty_beats_stale_off_read() {
    // Device is off; a "set 50%" command was issued and pinned; an
    // immediate state read still reports off. The pin must win.
    let m = gear_and_custom();
    let t = topics("dev3");
    let pct_topic = t.percentage_state_topic.clone().unwrap();
    let mut pins = PinStore::new();
    pins.pin(&pct_topic, 50, 3000, 100);
    let stale = LiveState {
        on: false,
        work_mode: None,
        mode_value: None,
    };
    let out = reconcile(&t, &pins, Some(&m), Some(&stale), 200);
    assert_eq!(
        pairs(&out),
        vec![
            ("gv2mqtt/fan/dev3/state".to_string(), "ON".to_string()),
            (pct_topic.clone(), "50".to_string()),
        ]
    );
}

#[test]
fn reconcile_off_publishes_off_and_zero() {
    let m = gear_and_custom();
    let t = topics("dev4");
    let pins = PinStore::new();
    let live = LiveState {
        on: false,
        work_mode: Some(1),
        mode_value: Some(3),
    };
    let out = reconcile(&t, &pins, Some(&m), Some(&live), 0);
    assert_eq!(
        pairs(&out),
        vec![
            ("gv2mqtt/fan/dev4/state".to_string(), "OFF".to_string()),
            (
                "gv2mqtt/fan/dev4/notify-percentage".to_string(),
                "0".to_string()
            ),
        ]
    );
}

#[test]
fn reconcile_undefined_projection_skips_percentage() {
    let m = gear_and_custom();
    let t = topics("dev5");
    let pins = PinStore::new();
    // An unknown mode id: on/off is still published, the percentage is
    // not.
    let live = LiveState {
        on: true,
        work_mode: Some(42),
        mode_value: Some(1),
    };
    let out = reconcile(&t, &pins, Some(&m), Some(&live), 0);
    assert_eq!(
        pairs(&out),
        vec![("gv2mqtt/fan/dev5/state".to_string(), "ON".to_string())]
    );
}

#[test]
fn reconcile_missing_snapshot_publishes_nothing() {
    let m = gear_and_custom();
    let t = topics("dev6");
    let pins = PinStore::new();
    let out = reconcile(&t, &pins, Some(&m), None, 0);
    assert!(out.is_empty());
}

#[test]
fn reconcile_preset_topic_reports_preset_mode() {
    let m = build_work_mode_model(&RawCapability {
        modes: vec![
            entry("gearMode", RawValueDesc::Range { start: 1, end: 4 }),
            entry("Auto", RawValueDesc::Single(9)),
        ],
    })
    .unwrap();
    let t = FanTopics {
        state_topic: "gv2mqtt/fan/dev7/state".to_string(),
        percentage_state_topic: Some("gv2mqtt/fan/dev7/notify-percentage".to_string()),
        preset_mode_state_topic: Some("gv2mqtt/fan/dev7/notify-preset-mode".to_string()),
    };
    let pins = PinStore::new();
    let live = LiveState {
        on: true,
        work_mode: Some(9),
        mode_value: None,
    };
    let out = reconcile(&t, &pins, Some(&m), Some(&live), 0);
    assert_eq!(
        pairs(&out),
        vec![
            ("gv2mqtt/fan/dev7/state".to_string(), "ON".to_string()),
            (
                "gv2mqtt/fan/dev7/notify-preset-mode".to_string(),
                "Auto".to_string()
            ),
        ]
    );
}

#[test]
fn read_pin_reports_lapsed_entries_inactive() {
    let mut pins = PinStore::new();
    assert_eq!(pins.read_pin("t", 0), None);
    pins.pin("t", 30, 1000, 0);
    assert_eq!(pins.read_pin("t", 999), Some((30, true)));
    // A lapsed pin is still returned, flagged inactive.
    assert_eq!(pins.read_pin("t", 1000), Some((30, false)));
}

#[test]
fn pin_is_last_writer_wins_per_topic() {
    let mut pins = PinStore::new();
    pins.pin("a", 25, 1000, 0);
    pins.pin("b", 50, 1000, 0);
    pins.pin("a", 75, 2000, 500);
    assert_eq!(pins.read_pin("a", 600), Some((75, true)));
    assert_eq!(pins.read_pin("b", 600), Some((50, true)));
}

#[test]
fn pin_deadline_saturates() {
    let mut pins = PinStore::new();
    pins.pin("t", 10, u64::MAX, u64::MAX - 5);
    assert_eq!(pins.read_pin("t", u64::MAX - 1), Some((10, true)));
}

#[test]
fn evict_expired_sweeps_only_lapsed_pins() {
    let mut pins = PinStore::new();
    pins.pin("old", 25, 100, 0);
    pins.pin("fresh", 50, 10_000, 0);
    pins.evict_expired(5_000);
    assert_eq!(pins.read_pin("old", 5_000), None);
    assert_eq!(pins.read_pin("fresh", 5_000), Some((50, true)));
}

#[test]
fn air_purifier_topics_are_bit_exact() {
    let e = AirPurifier::new("raw-id", "dev_42", "gv2mqtt/availability", true, true);
    let c = &e.air_purifier;
    assert_eq!(
        c.command_topic,
        "gv2mqtt/switch/dev_42/command/powerSwitch"
    );
    assert_eq!(c.state_topic, "gv2mqtt/fan/dev_42/state");
    assert_eq!(
        c.percentage_command_topic.as_deref(),
        Some("gv2mqtt/fan/dev_42/set-percentage")
    );
    assert_eq!(
        c.percentage_state_topic.as_deref(),
        Some("gv2mqtt/fan/dev_42/notify-percentage")
    );
    assert_eq!(c.base.unique_id, "gv2mqtt-dev_42-fan");
    assert_eq!(c.percentage_step, Some(25));
    assert!(c.preset_mode_command_topic.is_none());
    assert!(c.preset_mode_state_topic.is_none());
    assert!(c.preset_modes.is_empty());
    assert!(!c.optimistic);
    assert!(c.base.name.is_none());
    assert_eq!(e.device_id, "raw-id");
    assert_eq!(e.topic_id, "dev_42");
}

#[test]
fn air_purifier_naming_and_optimism() {
    let e = AirPurifier::new("id", "id", "gv2mqtt/availability", false, false);
    assert_eq!(e.air_purifier.base.name.as_deref(), Some("Air Purifier"));
    assert!(e.air_purifier.optimistic);
    assert_eq!(e.air_purifier.base.device_class.as_deref(), Some("fan"));
    assert_eq!(e.air_purifier.base.icon.as_deref(), Some("mdi:air-purifier"));
}

#[test]
fn air_purifier_notify_uses_its_own_topics() {
    let m = gear_and_custom();
    let e = AirPurifier::new("raw", "dev8", "gv2mqtt/availability", true, true);
    let mut pins = PinStore::new();
    pins.pin("gv2mqtt/fan/dev8/notify-percentage", 25, 1000, 0);
    let out = e.notify_state(&pins, Some(&m), None, 500);
    assert_eq!(
        pairs(&out),
        vec![
            ("gv2mqtt/fan/dev8/state".to_string(), "ON".to_string()),
            (
                "gv2mqtt/fan/dev8/notify-percentage".to_string(),
                "25".to_string()
            ),
        ]
    );
}

#[test]
fn decimal_rendering_is_exact() {
    assert_eq!(u8_to_dec_string(0), "0");
    assert_eq!(u8_to_dec_string(7), "7");
    assert_eq!(u8_to_dec_string(25), "25");
    assert_eq!(u8_to_dec_string(100), "100");
    assert_eq!(u8_to_dec_string(255), "255");
}

#[test]
fn case_insensitive_name_matching() {
    assert!(str_eq_ignore_ascii_case("Custom", "cUSTOM"));
    assert!(!str_eq_ignore_ascii_case("Custom", "Customs"));
    assert!(str_eq("gearMode", "gearMode"));
    assert!(!str_eq("gearMode", "gearmode"));
}

#[test]
fn custom_preset_matches_case_insensitively() {
    let m = build_work_mode_model(&RawCapability {
        modes: vec![entry("CUSTOM", RawValueDesc::Single(5))],
    })
    .unwrap();
    assert_eq!(project_percentage(&m, true, 5, 0), Some(100));
}

#[test]
fn empty_capability_parses_but_represents_nothing() {
    let m = build_work_mode_model(&RawCapability { modes: vec![] }).unwrap();
    assert!(m.mode_for_value(1).is_none());
    assert!(m.preset_names().is_empty());
    assert_eq!(resolve_command_for_percentage(&m, 0), Ok(FanCommand::Off));
    assert!(resolve_command_for_percentage(&m, 25).is_err());
    // With no resolvable mode the projection is undefined while on.
    assert_eq!(project_percentage(&m, true, 1, 1), None);
    assert_eq!(project_percentage(&m, false, 1, 1), Some(0));
}

#[test]
fn value_space_variants_answer_membership() {
    let discrete = ValueSpace::Discrete(vec![2, 4]);
    assert!(discrete.contains(4));
    assert!(!discrete.contains(3));
    let range = ValueSpace::Range { start: 1, end: 4 };
    assert!(range.contains(1));
    assert!(range.contains(3));
    assert!(!range.contains(4));
    assert!(range.is_range_like());
    assert!(!discrete.is_range_like());
}
