use gladius::bounds::check_model_bounds;
use gladius::calculation::{calculate_values, slow_down_layers};
use gladius::commands::{Command, Point2, RetractionType, StateChange};
use gladius::errors::{Axis, SlicerErrors};
use gladius::geometry::{IndexedTriangle, Transform, Vertex};
use gladius::pipeline::{slicer_pipeline, PipelineCallbacks, ProfilingCallbacks};
use gladius::plotter::convert_objects_into_moves;
use gladius::settings::{
    FanSettings, FilamentSettings, MovementParameter, PartialInfillTypes, Settings,
    SolidInfillTypes,
};
use gladius::slicing::slice;
use gladius::tower::{create_towers, TriangleTowerIterator};

fn uniform(v: i64) -> MovementParameter {
    MovementParameter {
        interior_inner_perimeter: v,
        interior_surface_perimeter: v,
        exterior_inner_perimeter: v,
        exterior_surface_perimeter: v,
        solid_top_infill: v,
        solid_infill: v,
        infill: v,
        travel: v,
        bridge: v,
        support: v,
    }
}

fn make_settings() -> Settings {
    Settings {
        layer_height: 200,
        extrusion_width: uniform(400),
        filament: FilamentSettings {
            diameter: 1750,
            density: 1240,
            cost: 24990,
            extruder_temp: 210000,
            bed_temp: 60000,
        },
        fan: FanSettings {
            fan_speed: 100000,
            disable_fan_for_layers: 1,
            slow_down_threshold: 15000,
            min_print_speed: 15000,
        },
        skirt: None,
        support: None,
        nozzle_diameter: 400,
        retract_length: 800,
        retract_lift_z: 600,
        retract_speed: 35000,
        retraction_wipe: None,
        speed: uniform(40000),
        acceleration: uniform(900000),
        infill_percentage: 200,
        inner_perimeters_first: true,
        number_of_perimeters: 3,
        top_layers: 3,
        bottom_layers: 3,
        print_x: 210000,
        print_y: 210000,
        print_z: 210000,
        brim_width: None,
        layer_shrink_amount: None,
        minimum_retract_distance: 1000,
        infill_perimeter_overlap_percentage: 250,
        solid_infill_type: SolidInfillTypes::Rectilinear,
        partial_infill_type: PartialInfillTypes::Linear,
        starting_instructions: String::new(),
        ending_instructions: String::new(),
        before_layer_change_instructions: String::new(),
        after_layer_change_instructions: String::new(),
        object_change_instructions: String::new(),
        max_acceleration_x: 1000000,
        max_acceleration_y: 1000000,
        max_acceleration_z: 1000000,
        max_acceleration_e: 5000000,
        max_acceleration_extruding: 1250000,
        max_acceleration_travel: 1250000,
        max_acceleration_retracting: 1250000,
        max_jerk_x: 8000,
        max_jerk_y: 8000,
        max_jerk_z: 400,
        max_jerk_e: 1500,
        minimum_feedrate_print: 0,
        minimum_feedrate_travel: 0,
        maximum_feedrate_x: 200000,
        maximum_feedrate_y: 200000,
        maximum_feedrate_z: 12000,
        maximum_feedrate_e: 120000,
        layer_settings: Vec::new(),
    }
}

fn tri(a: usize, b: usize, c: usize) -> IndexedTriangle {
    IndexedTriangle { verts: [a, b, c] }
}

/// A closed cube of side `l` units with its lowest corner at `(x, y, z)`.
fn cube(l: i64, x: i64, y: i64, z: i64) -> (Vec<Vertex>, Vec<IndexedTriangle>) {
    let vertices = vec![
        Vertex { x, y, z },
        Vertex { x: x + l, y, z },
        Vertex { x: x + l, y: y + l, z },
        Vertex { x, y: y + l, z },
        Vertex { x, y, z: z + l },
        Vertex { x: x + l, y, z: z + l },
        Vertex { x: x + l, y: y + l, z: z + l },
        Vertex { x, y: y + l, z: z + l },
    ];
    let triangles = vec![
        tri(0, 2, 1),
        tri(0, 3, 2),
        tri(4, 5, 6),
        tri(4, 6, 7),
        tri(0, 1, 5),
        tri(0, 5, 4),
        tri(2, 3, 7),
        tri(2, 7, 6),
        tri(0, 4, 7),
        tri(0, 7, 3),
        tri(1, 2, 6),
        tri(1, 6, 5),
    ];
    (vertices, triangles)
}

/// Twice the signed area of a closed loop, by the shoelace formula.
fn loop_area_doubled(pts: &[Point2]) -> i128 {
    let mut acc: i128 = 0;
    for w in 0..pts.len() - 1 {
        let a = pts[w];
        let b = pts[w + 1];
        acc += (a.x as i128) * (b.y as i128) - (b.x as i128) * (a.y as i128);
    }
    acc
}

#[test]
fn cube_slices_to_expected_layers() {
    let settings = make_settings();
    let models = vec![cube(10000, 0, 0, 0)];
    let towers = create_towers(&models).unwrap();
    let objects = slice(towers, &settings).unwrap();
    assert_eq!(objects.len(), 1);
    let layers = &objects[0].layers;
    // A cube of side 10 mm at 0.2 mm per layer gives exactly 50 layers.
    assert_eq!(layers.len(), 50);
    for (k, s) in layers.iter().enumerate() {
        assert_eq!(s.layer_index, k);
        assert_eq!(s.bottom_height, 200 * k as i64);
        assert_eq!(s.top_height, 200 * (k as i64 + 1));
        assert_eq!(s.main_polygon.len(), 1);
        let lp = &s.main_polygon[0];
        assert_eq!(lp.first(), lp.last());
        // The cross-section of the cube is its full square footprint.
        let area2 = loop_area_doubled(lp).abs();
        assert_eq!(area2, 2 * 10000i128 * 10000i128);
    }
}

#[test]
fn layer_change_count_matches_slice_count() {
    let settings = make_settings();
    let models = vec![cube(10000, 0, 0, 0), cube(6000, 30000, 0, 0)];
    let towers = create_towers(&models).unwrap();
    let objects = slice(towers, &settings).unwrap();
    let total: usize = objects.iter().map(|o| o.layers.len()).sum();
    let cmds = convert_objects_into_moves(&objects, &settings);
    let layer_changes = cmds
        .iter()
        .filter(|c| matches!(c, Command::LayerChange { .. }))
        .count();
    assert_eq!(layer_changes, total);
}

#[test]
fn two_objects_alternate_per_layer() {
    let settings = make_settings();
    let models = vec![cube(10000, 0, 0, 0), cube(10000, 30000, 0, 0)];
    let towers = create_towers(&models).unwrap();
    let objects = slice(towers, &settings).unwrap();
    assert_eq!(objects.len(), 2);
    let cmds = convert_objects_into_moves(&objects, &settings);
    let ids: Vec<usize> = cmds
        .iter()
        .filter_map(|c| match c {
            Command::ChangeObject { object } => Some(*object),
            _ => None,
        })
        .collect();
    assert_eq!(ids.len(), 100);
    for (w, id) in ids.iter().enumerate() {
        assert_eq!(*id, w % 2);
    }
}

#[test]
fn model_left_of_bed_fails_on_x() {
    let settings = make_settings();
    let models = vec![cube(10000, -1000, 0, 0)];
    let r = check_model_bounds(&models, &settings);
    assert_eq!(r, Err(SlicerErrors::ModelOutsideBounds { axis: Axis::X }));
}

#[test]
fn translated_mesh_shifts_the_stream() {
    let settings = make_settings();
    let dx = 5000;
    let dy = 7000;
    let t = Transform::new_translation_transform(dx, dy, 0);
    let (verts, tris) = cube(10000, 0, 0, 0);
    let moved: Vec<Vertex> = verts.iter().map(|v| t.apply(v).unwrap()).collect();

    let towers_a = create_towers(&vec![(verts, tris.clone())]).unwrap();
    let objects_a = slice(towers_a, &settings).unwrap();
    let cmds_a = convert_objects_into_moves(&objects_a, &settings);

    let towers_b = create_towers(&vec![(moved, tris)]).unwrap();
    let objects_b = slice(towers_b, &settings).unwrap();
    let cmds_b = convert_objects_into_moves(&objects_b, &settings);

    assert_eq!(cmds_a.len(), cmds_b.len());
    let shift = |p: Point2| Point2 {
        x: p.x + dx,
        y: p.y + dy,
    };
    for (a, b) in cmds_a.iter().zip(cmds_b.iter()) {
        let shifted = match a.clone() {
            Command::MoveTo { end } => Command::MoveTo { end: shift(end) },
            Command::MoveAndExtrude {
                start,
                end,
                thickness,
                width,
            } => Command::MoveAndExtrude {
                start: shift(start),
                end: shift(end),
                thickness,
                width,
            },
            other => other,
        };
        assert_eq!(&shifted, b);
    }
}

#[test]
fn open_mesh_fails_tower_generation() {
    let verts = vec![
        Vertex { x: 0, y: 0, z: 0 },
        Vertex {
            x: 10000,
            y: 0,
            z: 0,
        },
        Vertex {
            x: 5000,
            y: 5000,
            z: 10000,
        },
    ];
    let tris = vec![tri(0, 1, 2)];
    let towers = create_towers(&vec![(verts, tris)]).unwrap();
    let mut it = TriangleTowerIterator::new(towers.into_iter().next().unwrap());
    assert_eq!(it.advance_to_height(100), Err(SlicerErrors::TowerGeneration));
}

#[test]
fn slowdown_scales_a_fast_thin_layer_uniformly() {
    let state = |v: i64| Command::SetState {
        new_state: StateChange {
            extruder_temp: None,
            bed_temp: None,
            movement_speed: Some(v),
            acceleration: None,
            fan_speed: None,
            aux_fan_speed: None,
            retract: RetractionType::NoRetract,
        },
    };
    // One layer printed in 10 s against a 15 s threshold: every speed is
    // scaled by the same 10/15 ratio and none falls below the floor.
    let mut cmds = vec![
        Command::LayerChange { z: 200, index: 0 },
        state(100000),
        Command::MoveAndExtrude {
            start: Point2 { x: 0, y: 0 },
            end: Point2 { x: 1000000, y: 0 },
            thickness: 200,
            width: 400,
        },
        state(60000),
    ];
    let fan = FanSettings {
        fan_speed: 100000,
        disable_fan_for_layers: 1,
        slow_down_threshold: 15000,
        min_print_speed: 15000,
    };
    slow_down_layers(&mut cmds, &fan);
    let speeds: Vec<i64> = cmds
        .iter()
        .filter_map(|c| match c {
            Command::SetState { new_state } => new_state.movement_speed,
            _ => None,
        })
        .collect();
    assert_eq!(speeds, vec![100000 * 10000 / 15000, 60000 * 10000 / 15000]);
    for v in speeds {
        assert!(v >= fan.min_print_speed);
    }
}

#[test]
fn slowdown_clamps_to_the_minimum_print_speed() {
    let mut cmds = vec![
        Command::LayerChange { z: 200, index: 0 },
        Command::SetState {
            new_state: StateChange {
                extruder_temp: None,
                bed_temp: None,
                movement_speed: Some(100000),
                acceleration: None,
                fan_speed: None,
                aux_fan_speed: None,
                retract: RetractionType::NoRetract,
            },
        },
        Command::MoveAndExtrude {
            start: Point2 { x: 0, y: 0 },
            end: Point2 { x: 10000, y: 0 },
            thickness: 200,
            width: 400,
        },
    ];
    let fan = FanSettings {
        fan_speed: 100000,
        disable_fan_for_layers: 1,
        slow_down_threshold: 15000,
        min_print_speed: 15000,
    };
    // The layer takes 100 ms; raw scaling would drop the speed to 666,
    // so the floor takes over.
    slow_down_layers(&mut cmds, &fan);
    match &cmds[1] {
        Command::SetState { new_state } => {
            assert_eq!(new_state.movement_speed, Some(15000));
        }
        other => panic!("expected a state change, got {:?}", other),
    }
}

#[test]
fn calculated_values_integrate_the_stream() {
    let settings = make_settings();
    let cmds = vec![
        Command::SetState {
            new_state: StateChange {
                extruder_temp: None,
                bed_temp: None,
                movement_speed: Some(50000),
                acceleration: None,
                fan_speed: None,
                aux_fan_speed: None,
                retract: RetractionType::NoRetract,
            },
        },
        Command::MoveTo {
            end: Point2 { x: 3000, y: 4000 },
        },
        Command::MoveAndExtrude {
            start: Point2 { x: 3000, y: 4000 },
            end: Point2 { x: 3000, y: 9000 },
            thickness: 200,
            width: 400,
        },
        Command::Delay { msec: 50 },
    ];
    let cv = calculate_values(&cmds, &settings);
    // Bead area: (400 - 200) * 200 plus a quarter-pi cap of 31415.
    let area: i64 = 40000 + 31415;
    assert_eq!(cv.plastic_length, 5000);
    assert_eq!(cv.plastic_volume, area * 5000);
    // Two 5 mm motions at 50 mm per second, plus the delay.
    assert_eq!(cv.total_time, 100 + 100 + 50);
    assert_eq!(
        cv.plastic_weight,
        (area as i128 * 5000 * 1240 / 1000000000000) as i64
    );
}

#[test]
fn pipeline_runs_a_cube_end_to_end() {
    let settings = make_settings();
    let models = vec![cube(10000, 0, 0, 0)];
    let mut callbacks = ProfilingCallbacks::new();
    let (cmds, cv) = slicer_pipeline(&models, &settings, &mut callbacks).unwrap();
    assert!(!cmds.is_empty());
    for c in &cmds {
        assert!(!matches!(c, Command::NoAction));
        if let Command::MoveAndExtrude { start, end, .. } = c {
            assert_ne!(start, end);
        }
        if let Command::SetState { new_state } = c {
            assert!(new_state != &StateChange {
                extruder_temp: None,
                bed_temp: None,
                movement_speed: None,
                acceleration: None,
                fan_speed: None,
                aux_fan_speed: None,
                retract: RetractionType::NoRetract,
            });
        }
    }
    assert!(cv.plastic_volume > 0);
    assert!(cv.plastic_length > 0);
    assert!(cv.total_time > 0);
    let lc = cmds
        .iter()
        .filter(|c| matches!(c, Command::LayerChange { .. }))
        .count();
    assert_eq!(lc, 50);
}

#[test]
fn callbacks_receive_the_final_stream() {
    struct Recorder {
        commands_seen: usize,
        finished: bool,
        warnings: usize,
    }
    impl PipelineCallbacks for Recorder {
        fn handle_state_update(&mut self, _state_message: &str) {}
        fn handle_settings_warning(&mut self, _warning: gladius::errors::SlicerWarnings) {
            self.warnings += 1;
        }
        fn handle_commands(&mut self, commands: &Vec<Command>) {
            self.commands_seen = commands.len();
        }
        fn handle_calculated_values(
            &mut self,
            _cv: gladius::calculation::CalculatedValues,
            _settings: &Settings,
        ) {
        }
        fn handle_slice_finished(&mut self) {
            self.finished = true;
        }
    }
    let settings = make_settings();
    let models = vec![cube(10000, 0, 0, 0)];
    let mut rec = Recorder {
        commands_seen: 0,
        finished: false,
        warnings: 0,
    };
    let (cmds, _cv) = slicer_pipeline(&models, &settings, &mut rec).unwrap();
    assert_eq!(rec.commands_seen, cmds.len());
    assert!(rec.finished);
    assert_eq!(rec.warnings, 0);
}

#[test]
fn top_and_bottom_pass_fills_boundary_layers() {
    let mut settings = make_settings();
    settings.top_layers = 1;
    settings.bottom_layers = 1;
    let models = vec![cube(10000, 0, 0, 0)];
    let towers = gladius::tower::create_towers(&models).unwrap();
    let objects = slice(towers, &settings).unwrap();
    let before: Vec<usize> = objects[0].layers.iter().map(|s| s.chains.len()).collect();
    let after = gladius::passes::top_and_bottom_layers_pass(objects, &settings);
    let layers = &after[0].layers;
    // The bottom and top layers trace their whole cross-section as solid
    // fill; the interior of a solid cube gains nothing.
    assert!(layers[0].chains.len() > before[0]);
    assert!(layers[49].chains.len() > before[49]);
    for s in &layers[0].chains {
        for m in &s.moves {
            assert_eq!(m.move_type, gladius::commands::MoveType::SolidInfill);
        }
    }
    assert_eq!(layers[25].chains.len(), before[25]);
}

#[test]
fn zero_top_and_bottom_counts_change_nothing() {
    let mut settings = make_settings();
    settings.top_layers = 0;
    settings.bottom_layers = 0;
    let models = vec![cube(10000, 0, 0, 0)];
    let towers = gladius::tower::create_towers(&models).unwrap();
    let objects = slice(towers, &settings).unwrap();
    let before: Vec<usize> = objects[0].layers.iter().map(|s| s.chains.len()).collect();
    let after = gladius::passes::top_and_bottom_layers_pass(objects, &settings);
    let counts: Vec<usize> = after[0].layers.iter().map(|s| s.chains.len()).collect();
    assert_eq!(counts, before);
}

#[test]
fn bridging_and_top_layers_are_empty_on_a_solid_cube() {
    let settings = make_settings();
    let models = vec![cube(10000, 0, 0, 0)];
    let towers = gladius::tower::create_towers(&models).unwrap();
    let objects = slice(towers, &settings).unwrap();
    let before: Vec<usize> = objects[0].layers.iter().map(|s| s.chains.len()).collect();
    let objects = gladius::passes::bridging_pass(objects, &settings);
    let objects = gladius::passes::top_layer_pass(objects, &settings);
    // Every slice of a solid cube is fully supported and fully covered, so
    // neither pass adds a chain anywhere.
    let counts: Vec<usize> = objects[0].layers.iter().map(|s| s.chains.len()).collect();
    assert_eq!(counts, before);
}

#[test]
fn stream_opens_with_a_layer_change_and_marks_switches_only() {
    let settings = make_settings();
    let models = vec![cube(10000, 0, 0, 0)];
    let towers = gladius::tower::create_towers(&models).unwrap();
    let objects = slice(towers, &settings).unwrap();
    let cmds = convert_objects_into_moves(&objects, &settings);
    assert!(matches!(cmds[0], Command::LayerChange { .. }));
    let markers = cmds
        .iter()
        .filter(|c| matches!(c, Command::ChangeObject { .. }))
        .count();
    // A single object is announced once and never re-announced.
    assert_eq!(markers, 1);
}

#[test]
fn slowdown_ignores_a_nonpositive_threshold() {
    let orig = vec![
        Command::LayerChange { z: 200, index: 0 },
        Command::SetState {
            new_state: StateChange {
                extruder_temp: None,
                bed_temp: None,
                movement_speed: Some(100000),
                acceleration: None,
                fan_speed: None,
                aux_fan_speed: None,
                retract: RetractionType::NoRetract,
            },
        },
    ];
    let mut cmds = orig.clone();
    let fan = FanSettings {
        fan_speed: 100000,
        disable_fan_for_layers: 1,
        slow_down_threshold: 0,
        min_print_speed: 15000,
    };
    slow_down_layers(&mut cmds, &fan);
    assert_eq!(cmds, orig);
}

#[test]
fn perimeter_pass_adds_concentric_rings() {
    let mut settings = make_settings();
    settings.number_of_perimeters = 2;
    let models = vec![cube(10000, 0, 0, 0)];
    let towers = gladius::tower::create_towers(&models).unwrap();
    let objects = slice(towers, &settings).unwrap();
    assert_eq!(objects[0].layers.len(), 50);
    let after = gladius::passes::perimeter_pass(objects, &settings);
    for s in &after[0].layers {
        // A 10 mm square inset by half a width and then a full width keeps
        // one loop per ring: two perimeter chains per layer, the outer one
        // exterior-surface, the inner one inner-perimeter.
        assert_eq!(s.chains.len(), 2);
        assert!(!s.chains[0].moves.is_empty());
        assert!(!s.chains[1].moves.is_empty());
        for m in &s.chains[0].moves {
            assert_eq!(m.move_type, gladius::commands::MoveType::ExteriorSurfacePerimeter);
            // Inset by 200 units: every point sits inside the 10 mm square.
            assert!(m.end.x >= 200 && m.end.x <= 9800);
            assert!(m.end.y >= 200 && m.end.y <= 9800);
        }
        for m in &s.chains[1].moves {
            assert_eq!(m.move_type, gladius::commands::MoveType::InteriorInnerPerimeter);
            assert_eq!(m.width, 400);
            // A full width further in.
            assert!(m.end.x >= 600 && m.end.x <= 9400);
            assert!(m.end.y >= 600 && m.end.y <= 9400);
        }
    }
}

#[test]
fn zero_perimeter_count_adds_no_chains() {
    let mut settings = make_settings();
    settings.number_of_perimeters = 0;
    let models = vec![cube(10000, 0, 0, 0)];
    let towers = gladius::tower::create_towers(&models).unwrap();
    let objects = slice(towers, &settings).unwrap();
    let before: Vec<usize> = objects[0].layers.iter().map(|s| s.chains.len()).collect();
    let after = gladius::passes::perimeter_pass(objects, &settings);
    let counts: Vec<usize> = after[0].layers.iter().map(|s| s.chains.len()).collect();
    assert_eq!(counts, before);
}
