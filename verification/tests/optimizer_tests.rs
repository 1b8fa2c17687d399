use gladius::commands::{Command, Move, MoveChain, MoveType, Point2, RetractionType, StateChange};
use gladius::optimizer::{binary_optimizer, optimize_commands, state_optomizer, unary_optimizer};
use gladius::order::order_chains;

fn speed_state(speed: i64) -> StateChange {
    StateChange {
        extruder_temp: None,
        bed_temp: None,
        movement_speed: Some(speed),
        acceleration: None,
        fan_speed: None,
        aux_fan_speed: None,
        retract: RetractionType::NoRetract,
    }
}

fn empty_state() -> StateChange {
    StateChange {
        extruder_temp: None,
        bed_temp: None,
        movement_speed: None,
        acceleration: None,
        fan_speed: None,
        aux_fan_speed: None,
        retract: RetractionType::NoRetract,
    }
}

fn pt(x: i64, y: i64) -> Point2 {
    Point2 { x, y }
}

#[test]
fn repeated_speed_states_collapse_to_one() {
    // Two identical speed requests followed by a different one: only the
    // last survives, since the earlier ones are absorbed by state diffing
    // and state-change merging.
    let mut cmds = vec![
        Command::SetState {
            new_state: speed_state(50000),
        },
        Command::SetState {
            new_state: speed_state(50000),
        },
        Command::SetState {
            new_state: speed_state(60000),
        },
    ];
    optimize_commands(&mut cmds);
    assert_eq!(
        cmds,
        vec![Command::SetState {
            new_state: speed_state(60000),
        }]
    );
}

#[test]
fn unary_pass_drops_noops() {
    let mut cmds = vec![
        Command::NoAction,
        Command::Delay { msec: 0 },
        Command::SetState {
            new_state: empty_state(),
        },
        Command::MoveAndExtrude {
            start: pt(5, 5),
            end: pt(5, 5),
            thickness: 200,
            width: 400,
        },
        Command::Delay { msec: 7 },
        Command::MoveTo { end: pt(1, 2) },
    ];
    unary_optimizer(&mut cmds);
    assert_eq!(
        cmds,
        vec![Command::Delay { msec: 7 }, Command::MoveTo { end: pt(1, 2) }]
    );
}

#[test]
fn binary_pass_fuses_collinear_extrusions() {
    let mut cmds = vec![
        Command::MoveAndExtrude {
            start: pt(0, 0),
            end: pt(5000, 0),
            thickness: 200,
            width: 400,
        },
        Command::MoveAndExtrude {
            start: pt(5000, 0),
            end: pt(10000, 0),
            thickness: 200,
            width: 400,
        },
    ];
    binary_optimizer(&mut cmds);
    assert_eq!(
        cmds,
        vec![Command::MoveAndExtrude {
            start: pt(0, 0),
            end: pt(10000, 0),
            thickness: 200,
            width: 400,
        }]
    );
}

#[test]
fn binary_pass_keeps_corner_extrusions() {
    let orig = vec![
        Command::MoveAndExtrude {
            start: pt(0, 0),
            end: pt(5000, 0),
            thickness: 200,
            width: 400,
        },
        Command::MoveAndExtrude {
            start: pt(5000, 0),
            end: pt(5000, 5000),
            thickness: 200,
            width: 400,
        },
    ];
    let mut cmds = orig.clone();
    binary_optimizer(&mut cmds);
    assert_eq!(cmds, orig);
}

#[test]
fn binary_pass_keeps_second_travel() {
    let mut cmds = vec![
        Command::MoveTo { end: pt(5, 5) },
        Command::MoveTo { end: pt(9, 9) },
    ];
    binary_optimizer(&mut cmds);
    assert_eq!(cmds, vec![Command::MoveTo { end: pt(9, 9) }]);
}

#[test]
fn optimizer_is_idempotent_on_a_mixed_stream() {
    let mut once = vec![
        Command::LayerChange { z: 200, index: 0 },
        Command::SetState {
            new_state: speed_state(40000),
        },
        Command::MoveTo { end: pt(0, 0) },
        Command::MoveAndExtrude {
            start: pt(0, 0),
            end: pt(4000, 0),
            thickness: 200,
            width: 400,
        },
        Command::MoveAndExtrude {
            start: pt(4000, 0),
            end: pt(9000, 0),
            thickness: 200,
            width: 400,
        },
        Command::NoAction,
        Command::SetState {
            new_state: speed_state(40000),
        },
        Command::Delay { msec: 0 },
        Command::MoveTo { end: pt(9000, 9000) },
    ];
    optimize_commands(&mut once);
    let mut twice = once.clone();
    optimize_commands(&mut twice);
    assert_eq!(once, twice);
}

#[test]
fn state_diffing_removes_redundant_fields() {
    let mut cmds = vec![
        Command::SetState {
            new_state: speed_state(50000),
        },
        Command::SetState {
            new_state: speed_state(50000),
        },
    ];
    state_optomizer(&mut cmds);
    assert_eq!(
        cmds,
        vec![
            Command::SetState {
                new_state: speed_state(50000),
            },
            Command::SetState {
                new_state: empty_state(),
            },
        ]
    );
}

#[test]
fn state_diff_and_combine() {
    let mut machine = empty_state();
    let d1 = machine.state_diff(&speed_state(30000));
    assert_eq!(d1.movement_speed, Some(30000));
    let d2 = machine.state_diff(&speed_state(30000));
    assert_eq!(d2.movement_speed, None);
    let d3 = machine.state_diff(&speed_state(45000));
    assert_eq!(d3.movement_speed, Some(45000));

    let combined = speed_state(30000).combine(&speed_state(45000));
    assert_eq!(combined.movement_speed, Some(45000));
    let kept = speed_state(30000).combine(&empty_state());
    assert_eq!(kept.movement_speed, Some(30000));
}

#[test]
fn chains_print_nearest_first() {
    let chain_at = |x: i64, y: i64| MoveChain {
        start_point: pt(x, y),
        moves: vec![Move {
            end: pt(x + 1000, y),
            width: 400,
            move_type: MoveType::ExteriorSurfacePerimeter,
        }],
    };
    let chains = vec![
        chain_at(50000, 0),
        chain_at(100, 0),
        chain_at(20000, 0),
    ];
    let ordered = order_chains(chains, pt(0, 0));
    let starts: Vec<i64> = ordered.iter().map(|c| c.start_point.x).collect();
    // From the origin the nearest start wins; the head then moves right,
    // and again the nearest remaining start wins.
    assert_eq!(starts, vec![100, 20000, 50000]);
}
