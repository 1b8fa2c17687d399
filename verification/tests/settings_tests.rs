use gladius::errors::SlicerWarnings;
use gladius::settings::{
    FanSettings, FilamentSettings, LayerRange, MovementParameter, PartialLayerSettings, Settings,
    PartialInfillTypes, SettingsValidationResult, SolidInfillTypes,
};

fn uniform(v: i64) -> MovementParameter {
    MovementParameter {
        interior_inner_perimeter: v,
        interior_surface_perimeter: v,
        exterior_inner_perimeter: v,
        exterior_surface_perimeter: v,
        solid_top_infill: v,
        solid_infill: v,
        infill: v,
        travel: v,
        bridge: v,
        support: v,
    }
}

fn make_settings() -> Settings {
    Settings {
        layer_height: 200,
        extrusion_width: uniform(400),
        filament: FilamentSettings {
            diameter: 1750,
            density: 1240,
            cost: 24990,
            extruder_temp: 210000,
            bed_temp: 60000,
        },
        fan: FanSettings {
            fan_speed: 100000,
            disable_fan_for_layers: 1,
            slow_down_threshold: 15000,
            min_print_speed: 15000,
        },
        skirt: None,
        support: None,
        nozzle_diameter: 400,
        retract_length: 800,
        retract_lift_z: 600,
        retract_speed: 35000,
        retraction_wipe: None,
        speed: uniform(40000),
        acceleration: uniform(900000),
        infill_percentage: 200,
        inner_perimeters_first: true,
        number_of_perimeters: 3,
        top_layers: 3,
        bottom_layers: 3,
        print_x: 210000,
        print_y: 210000,
        print_z: 210000,
        brim_width: None,
        layer_shrink_amount: None,
        minimum_retract_distance: 1000,
        infill_perimeter_overlap_percentage: 250,
        solid_infill_type: SolidInfillTypes::Rectilinear,
        partial_infill_type: PartialInfillTypes::Linear,
        starting_instructions: String::new(),
        ending_instructions: String::new(),
        before_layer_change_instructions: String::new(),
        after_layer_change_instructions: String::new(),
        object_change_instructions: String::new(),
        max_acceleration_x: 1000000,
        max_acceleration_y: 1000000,
        max_acceleration_z: 1000000,
        max_acceleration_e: 5000000,
        max_acceleration_extruding: 1250000,
        max_acceleration_travel: 1250000,
        max_acceleration_retracting: 1250000,
        max_jerk_x: 8000,
        max_jerk_y: 8000,
        max_jerk_z: 400,
        max_jerk_e: 1500,
        minimum_feedrate_print: 0,
        minimum_feedrate_travel: 0,
        maximum_feedrate_x: 200000,
        maximum_feedrate_y: 200000,
        maximum_feedrate_z: 12000,
        maximum_feedrate_e: 120000,
        layer_settings: Vec::new(),
    }
}

#[test]
fn default_settings_validate_cleanly() {
    let s = make_settings();
    assert_eq!(s.validate_settings(), SettingsValidationResult::NoIssue);
}

#[test]
fn stopping_distance_equal_to_bed_passes() {
    // speed^2 / (2 * acceleration) lands exactly on the smaller bed
    // dimension; the check uses a strict comparison, so this passes.
    let mut s = make_settings();
    s.print_x = 200000;
    s.print_y = 200000;
    s.speed.infill = 200000;
    s.acceleration.infill = 100000;
    assert_eq!(s.validate_settings(), SettingsValidationResult::NoIssue);
}

#[test]
fn stopping_distance_beyond_bed_warns() {
    let mut s = make_settings();
    s.print_x = 200000;
    s.print_y = 200000;
    s.speed.infill = 200001;
    s.acceleration.infill = 100000;
    match s.validate_settings() {
        SettingsValidationResult::Warning(SlicerWarnings::AccelerationTooLow {
            acceleration,
            speed,
            bed_size,
        }) => {
            assert_eq!(acceleration, 100000);
            assert_eq!(speed, 200001);
            assert_eq!(bed_size, 200000);
        }
        other => panic!("expected an acceleration warning, got {:?}", other),
    }
}

#[test]
fn nonpositive_dimension_is_an_error() {
    let mut s = make_settings();
    s.print_x = 0;
    assert!(matches!(
        s.validate_settings(),
        SettingsValidationResult::Error(_)
    ));
}

#[test]
fn thick_layer_warns() {
    let mut s = make_settings();
    s.layer_height = 350;
    assert!(matches!(
        s.validate_settings(),
        SettingsValidationResult::Warning(SlicerWarnings::LayerSizeTooHigh { .. })
    ));
}

#[test]
fn cold_nozzle_warns() {
    let mut s = make_settings();
    s.filament.extruder_temp = 120000;
    assert!(matches!(
        s.validate_settings(),
        SettingsValidationResult::Warning(SlicerWarnings::NozzleTemperatureTooLow { .. })
    ));
}

#[test]
fn skirt_inside_brim_warns() {
    let mut s = make_settings();
    s.skirt = Some(gladius::settings::SkirtSettings {
        layers: 3,
        distance: 3000,
    });
    s.brim_width = Some(4000);
    assert!(matches!(
        s.validate_settings(),
        SettingsValidationResult::Warning(SlicerWarnings::SkirtAndBrimOverlap { .. })
    ));
}

#[test]
fn layer_overrides_resolve_first_match_first() {
    let mut s = make_settings();
    let mut first = PartialLayerSettings::default();
    first.layer_height = Some(300);
    first.bed_temp = Some(60000);
    let mut second = PartialLayerSettings::default();
    second.layer_height = Some(250);
    second.extruder_temp = Some(215000);
    s.layer_settings = vec![
        (LayerRange::SingleLayer(0), first),
        (LayerRange::LayerCountRange { start: 0, end: 5 }, second),
    ];

    let l0 = s.get_layer_settings(0, 0);
    assert_eq!(l0.layer_height, 300);
    assert_eq!(l0.bed_temp, 60000);
    assert_eq!(l0.extruder_temp, 215000);

    let l3 = s.get_layer_settings(3, 600);
    assert_eq!(l3.layer_height, 250);
    assert_eq!(l3.extruder_temp, 215000);

    let l9 = s.get_layer_settings(9, 2000);
    assert_eq!(l9.layer_height, 200);
    assert_eq!(l9.extruder_temp, 210000);
}

#[test]
fn height_ranges_match_inclusively() {
    let mut s = make_settings();
    let mut hr = PartialLayerSettings::default();
    hr.layer_height = Some(280);
    s.layer_settings = vec![(
        LayerRange::HeightRange {
            start: 1000,
            end: 2000,
        },
        hr,
    )];
    assert_eq!(s.get_layer_settings(7, 1000).layer_height, 280);
    assert_eq!(s.get_layer_settings(8, 2000).layer_height, 280);
    assert_eq!(s.get_layer_settings(9, 2001).layer_height, 200);
}

#[test]
fn movement_parameter_selects_by_type() {
    let mut mp = uniform(100);
    mp.travel = 180000;
    mp.bridge = 30000;
    assert_eq!(
        mp.get_value_for_movement_type(&gladius::commands::MoveType::Travel),
        180000
    );
    assert_eq!(
        mp.get_value_for_movement_type(&gladius::commands::MoveType::Bridging),
        30000
    );
    assert_eq!(
        mp.get_value_for_movement_type(&gladius::commands::MoveType::Infill),
        100
    );
}

#[test]
fn validation_error_names_the_offending_setting() {
    let mut s = make_settings();
    s.retract_speed = -7;
    match s.validate_settings() {
        SettingsValidationResult::Error(
            gladius::errors::SlicerErrors::SettingLessThanOrEqualToZero { setting, value },
        ) => {
            assert_eq!(setting, "retract_speed");
            assert_eq!(value, -7);
        },
        other => panic!("expected a less-than-or-equal-to-zero error, got {:?}", other),
    }
    let mut s2 = make_settings();
    s2.retract_length = -3;
    match s2.validate_settings() {
        SettingsValidationResult::Error(
            gladius::errors::SlicerErrors::SettingLessThanZero { setting, value },
        ) => {
            assert_eq!(setting, "retract_length");
            assert_eq!(value, -3);
        },
        other => panic!("expected a less-than-zero error, got {:?}", other),
    }
}

#[test]
fn usable_settings_need_positive_layer_heights() {
    let mut s = make_settings();
    assert!(gladius::slicing::settings_usable_exec(&s));
    s.layer_settings.push((
        LayerRange::SingleLayer(2),
        PartialLayerSettings {
            layer_height: Some(0),
            ..Default::default()
        },
    ));
    assert!(!gladius::slicing::settings_usable_exec(&s));
}
