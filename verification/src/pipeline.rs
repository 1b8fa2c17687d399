//! The pipeline: validate, check bounds, build towers, slice, run the
//! slice passes, plot, optimize and slow down, then hand the final
//! command stream and totals to the caller.  Progress, warnings and
//! final values flow through a callback capability the caller implements.

use vstd::prelude::*;

use crate::bounds::{check_model_bounds, check_moves_bounds};
use crate::calculation::{calculate_values, lemma_slowdown_keeps, slow_down_layers, CalculatedValues};
use crate::commands::{cmds_view, Command, Point2, MAX_COORD};
use crate::errors::{SlicerErrors, SlicerWarnings};
use crate::geometry::{IndexedTriangle, Vertex};
use crate::optimizer::{cmd_keep, lemma_filter_fixpoint, lemma_optimize_props, optimize_commands};
use crate::plotter::convert_objects_into_moves;
use crate::settings::{Settings, SettingsValidationResult};
use crate::slicing::{slice, slices_ordered};
use crate::tower::create_towers;

verus! {

#[verifier::external_type_specification]
#[verifier::external_body]
/// The system clock's instant type, declared for Verus.
pub struct ExSystemTime(std::time::SystemTime);

#[verifier::external_type_specification]
#[verifier::external_body]
/// The clock's backwards-drift error type, declared for Verus.
pub struct ExSystemTimeError(std::time::SystemTimeError);

/// Relies on `std::time::SystemTime::now`: hands back the current instant.
/// Nothing can be promised of a clock reading.
#[verifier::external_body]
pub fn time_now() -> std::time::SystemTime {
    std::time::SystemTime::now()
}

/// Relies on `std::time::SystemTime::duration_since`: the elapsed time
/// from `earlier` to `t`, or zero when the clock went backwards.  Nothing
/// can be promised of a clock reading.
#[verifier::external_body]
pub fn time_since(t: &std::time::SystemTime, earlier: &std::time::SystemTime) -> (r:
    std::time::Duration) {
    t.duration_since(*earlier).unwrap_or(std::time::Duration::from_millis(0))
}

/// Where progress messages go.
#[derive(Clone, Copy, Debug, PartialEq, Eq, Structural)]
pub enum DisplayType {
    /// Structured messages for another process.
    Message,
    /// Plain output for a person.
    StdOut,
}

/// Clock state carried between progress updates.
pub struct StateContext {
    /// Where progress messages go.
    pub display_type: DisplayType,
    /// When the run began.
    pub start_time: std::time::SystemTime,
    /// When the last update happened.
    pub last_time: std::time::SystemTime,
}

impl StateContext {
    /// Starts the clocks.
    pub fn new(display_type: DisplayType) -> (r: StateContext)
        ensures
            r.display_type == display_type,
            r.start_time == r.last_time,
    {
        let time = time_now();
        StateContext { display_type, start_time: time, last_time: time }
    }

    /// The time since the last call, or since the start for the first;
    /// restarts the interval clock.
    pub fn get_elapsed_time(&mut self) -> (r: std::time::Duration)
        ensures
            final(self).display_type == old(self).display_type,
            final(self).start_time == old(self).start_time,
    {
        let time = time_now();
        let elapsed = time_since(&time, &self.last_time);
        self.last_time = time;
        elapsed
    }

    /// The time since the start.
    pub fn get_total_elapsed_time(&self) -> std::time::Duration {
        let now = time_now();
        time_since(&now, &self.start_time)
    }
}

/// What the pipeline calls back into while it runs.
pub trait PipelineCallbacks {
    /// Called whenever the pipeline moves to a new phase.
    fn handle_state_update(&mut self, state_message: &str);

    /// Called for each non-fatal finding of settings validation.
    fn handle_settings_warning(&mut self, warning: SlicerWarnings);

    /// Called once with the final command stream, before emission.
    fn handle_commands(&mut self, commands: &Vec<Command>);

    /// Called once with the totals of a successful run.
    fn handle_calculated_values(&mut self, cv: CalculatedValues, settings: &Settings);

    /// Called once at the end of a successful run.
    fn handle_slice_finished(&mut self);
}

/// Callbacks that time each phase.
pub struct ProfilingCallbacks {
    /// When the run began.
    pub start_time: std::time::SystemTime,
    /// When the last phase ended.
    pub last_time: std::time::SystemTime,
}

impl ProfilingCallbacks {
    /// Starts the clocks.
    pub fn new() -> (r: ProfilingCallbacks)
        ensures
            r.start_time == r.last_time,
    {
        let time = time_now();
        ProfilingCallbacks { start_time: time, last_time: time }
    }

    /// The time since the run began.
    pub fn get_total_elapsed_time(&self) -> std::time::Duration {
        let now = time_now();
        time_since(&now, &self.start_time)
    }
}

impl PipelineCallbacks for ProfilingCallbacks {
    fn handle_state_update(&mut self, _state_message: &str) {
        self.last_time = time_now();
    }

    fn handle_settings_warning(&mut self, _warning: SlicerWarnings) {
    }

    fn handle_commands(&mut self, _commands: &Vec<Command>) {
    }

    fn handle_calculated_values(&mut self, _cv: CalculatedValues, _settings: &Settings) {
    }

    fn handle_slice_finished(&mut self) {
    }
}

/// The pipeline: runs validation, bounds checks, tower building, slicing,
/// the slice passes, plotting, optimization and the slow-down pass, then
/// hands the command stream and its totals back.  The returned totals are
/// exactly the stream's own integral: volume, length and time walk the
/// stream as `cv_walk` states, and the weight follows from the volume.  In a returned stream
/// every command does something: no placeholder, no empty state change, no
/// zero delay and no zero-length extrusion survives.
#[verifier::rlimit(50)]
pub fn slicer_pipeline<C: PipelineCallbacks>(
    models: &Vec<(Vec<Vertex>, Vec<IndexedTriangle>)>,
    settings: &Settings,
    callbacks: &mut C,
) -> (r: Result<(Vec<Command>, CalculatedValues), SlicerErrors>)
    requires
        0 < settings.print_x <= MAX_COORD,
        0 < settings.print_y <= MAX_COORD,
        0 < settings.print_z <= MAX_COORD,
        forall|m: int|
            0 <= m < models@.len() ==> crate::tower::triangles_in_range(
                (#[trigger] models@[m]).1@,
                models@[m].0@.len() as int,
            ),
    ensures
        (match r {
            Ok(out) => forall|i: int|
                0 <= i < out.0@.len() ==> cmd_keep(#[trigger] cmds_view(out.0@)[i]),
            Err(_) => true,
        }),
        (match r {
            Ok(out) => {
                &&& (
                    out.1.plastic_volume as int,
                    out.1.plastic_length as int,
                    out.1.total_time as int,
                ) == crate::calculation::cv_walk(
                    cmds_view(out.0@),
                    Point2 { x: 0, y: 0 },
                    0,
                    0,
                    0,
                    0,
                )
                &&& out.1.plastic_weight as int == crate::calculation::sat_add(
                    0,
                    crate::calculation::weight_of(
                        out.1.plastic_volume as int,
                        settings.filament.density as int,
                    ),
                )
            },
            Err(_) => true,
        }),
        r is Ok ==> crate::bounds::models_in_bounds(models@, *settings)
            && crate::slicing::settings_usable(*settings),
        !crate::slicing::settings_usable(*settings) ==> r is Err,
        crate::settings::settings_valid(*settings) && !crate::bounds::models_in_bounds(
            models@,
            *settings,
        ) ==> (match r {
            Err(e) => e is ModelOutsideBounds,
            Ok(_) => false,
        }),
        (match r {
            Err(e) => {
                &&& (e is SettingLessThanOrEqualToZero || e is SettingLessThanZero
                    || e is ModelOutsideBounds || e is TowerGeneration
                    || e is MovesOutsideBounds)
                &&& e is ModelOutsideBounds ==> !crate::bounds::models_in_bounds(
                    models@,
                    *settings,
                )
                &&& (e is SettingLessThanOrEqualToZero || e is SettingLessThanZero)
                    ==> crate::settings::error_justified(*settings, e)
            },
            Ok(_) => true,
        }),
        crate::settings::settings_valid(*settings) && models@.len() == 0 ==> r is Ok,
{
    match settings.validate_settings() {
        SettingsValidationResult::NoIssue => {},
        SettingsValidationResult::Warning(w) => {
            callbacks.handle_settings_warning(w);
        },
        SettingsValidationResult::Error(e) => {
            return Err(e);
        },
    }
    if settings.layer_height <= 0 {
        return Err(
            SlicerErrors::SettingLessThanOrEqualToZero {
                setting: "layer_height".to_string(),
                value: settings.layer_height,
            },
        );
    }
    let mut li: usize = 0;
    while li < settings.layer_settings.len()
        invariant
            li <= settings.layer_settings@.len(),
            settings.layer_height > 0,
            forall|k: int|
                0 <= k < li ==> (match (#[trigger] settings.layer_settings@[k]).1.layer_height {
                    Some(lh) => lh > 0,
                    None => true,
                }),
        decreases settings.layer_settings@.len() - li,
    {
        match settings.layer_settings[li].1.layer_height {
            Some(lh) => {
                if lh <= 0 {
                    proof {
                        assert(settings.layer_settings@[li as int].1.layer_height == Some(lh));
                    }
                    return Err(
                        SlicerErrors::SettingLessThanOrEqualToZero {
                            setting: "layer_height".to_string(),
                            value: lh,
                        },
                    );
                }
            },
            None => {},
        }
        li = li + 1;
    }
    proof {
        assert(crate::slicing::settings_usable(*settings));
    }
    match check_model_bounds(models, settings) {
        Ok(_) => {},
        Err(e) => {
            return Err(e);
        },
    }
    callbacks.handle_state_update("Creating Towers");
    proof {
        assert forall|m: int, i: int|
            0 <= m < models@.len() && 0 <= i < models@[m].0@.len() implies
            crate::geometry::vert_bounded(#[trigger] models@[m].0@[i]) by {
            assert(crate::bounds::vertex_in_bounds(models@[m].0@[i], *settings));
        }
    }
    let towers = match create_towers(models) {
        Ok(t) => t,
        Err(e) => {
            return Err(e);
        },
    };
    callbacks.handle_state_update("Slicing");
    let objects = match slice(towers, settings) {
        Ok(o) => o,
        Err(e) => {
            proof {
                assert(models@.len() > 0) by {
                    if models@.len() == 0 {
                        assert(towers@.len() == 0);
                    }
                }
            }
            return Err(e);
        },
    };
    callbacks.handle_state_update("Generating Moves: Shrink Layers");
    let ghost sh0 = objects@;
    let objects = crate::passes::shrink_pass(objects, settings);
    proof {
        assert forall|m: int| 0 <= m < objects@.len() implies slices_ordered(
            (#[trigger] objects@[m]).layers@,
        ) by {
            assert(slices_ordered(sh0[m].layers@));
        }
    }
    callbacks.handle_state_update("Generating Moves: Perimeters");
    let ghost s0 = objects@;
    let objects = crate::passes::perimeter_pass(objects, settings);
    proof {
        assert forall|m: int| 0 <= m < objects@.len() implies slices_ordered(
            (#[trigger] objects@[m]).layers@,
        ) by {
            assert(slices_ordered(s0[m].layers@));
        }
    }
    callbacks.handle_state_update("Generating Moves: Bridging");
    let ghost s1 = objects@;
    let objects = crate::passes::bridging_pass(objects, settings);
    proof {
        assert forall|m: int| 0 <= m < objects@.len() implies slices_ordered(
            (#[trigger] objects@[m]).layers@,
        ) by {
            assert(slices_ordered(s1[m].layers@));
        }
    }
    callbacks.handle_state_update("Generating Moves: Top Layer");
    let ghost s2 = objects@;
    let objects = crate::passes::top_layer_pass(objects, settings);
    proof {
        assert forall|m: int| 0 <= m < objects@.len() implies slices_ordered(
            (#[trigger] objects@[m]).layers@,
        ) by {
            assert(slices_ordered(s2[m].layers@));
        }
    }
    callbacks.handle_state_update("Generating Moves: Above and below support");
    let ghost s3 = objects@;
    let objects = crate::passes::top_and_bottom_layers_pass(objects, settings);
    proof {
        assert forall|m: int| 0 <= m < objects@.len() implies slices_ordered(
            (#[trigger] objects@[m]).layers@,
        ) by {
            assert(slices_ordered(s3[m].layers@));
        }
    }
    callbacks.handle_state_update("Generating Moves: Order Chains");
    let ghost s4 = objects@;
    let objects = crate::passes::order_pass(objects);
    proof {
        assert forall|m: int| 0 <= m < objects@.len() implies slices_ordered(
            (#[trigger] objects@[m]).layers@,
        ) by {
            assert(slices_ordered(s4[m].layers@));
        }
    }
    callbacks.handle_state_update("Generating Moves");
    let mut cmds = convert_objects_into_moves(&objects, settings);
    match check_moves_bounds(&cmds, settings) {
        Ok(_) => {},
        Err(e) => {
            proof {
                assert(models@.len() > 0) by {
                    if models@.len() == 0 {
                        assert(cmds@.len() == 0) by {
                            if cmds@.len() > 0 {
                            }
                        }
                        assert(crate::bounds::moves_in_bounds(cmds_view(cmds@), *settings));
                    }
                }
            }
            return Err(e);
        },
    }
    callbacks.handle_state_update("Optimizing");
    let ghost pre_opt = cmds_view(cmds@);
    optimize_commands(&mut cmds);
    proof {
        lemma_optimize_props(pre_opt);
        lemma_filter_fixpoint(cmds_view(cmds@));
        crate::optimizer::lemma_optimize_bounded(pre_opt);
    }
    callbacks.handle_state_update("Slowing Layer Down");
    let ghost pre_slow = cmds_view(cmds@);
    slow_down_layers(&mut cmds, &settings.fan);
    proof {
        assert forall|i: int| 0 <= i < cmds@.len() implies cmd_keep(
            #[trigger] cmds_view(cmds@)[i],
        ) && crate::optimizer::cmd_bounded(cmds_view(cmds@)[i]) by {
            if settings.fan.slow_down_threshold > 0 {
                let num = crate::calculation::win_num(
                    crate::calculation::window_times_of(pre_slow),
                    crate::calculation::window_of(pre_slow, i),
                    settings.fan.slow_down_threshold as int,
                );
                lemma_slowdown_keeps(
                    pre_slow[i],
                    cmds_view(cmds@)[i],
                    num,
                    settings.fan.slow_down_threshold as int,
                    settings.fan.min_print_speed as int,
                );
                crate::calculation::lemma_slowdown_bounded(
                    pre_slow[i],
                    cmds_view(cmds@)[i],
                    num,
                    settings.fan.slow_down_threshold as int,
                    settings.fan.min_print_speed as int,
                );
            } else {
                assert(cmds_view(cmds@)[i] == pre_slow[i]);
            }
        }
    }
    callbacks.handle_commands(&cmds);
    callbacks.handle_state_update("Calculate Values");
    let cv = calculate_values(&cmds, settings);
    callbacks.handle_calculated_values(cv, settings);
    callbacks.handle_slice_finished();
    Ok((cmds, cv))
}

} // verus!
