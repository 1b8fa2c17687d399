//! Slicer settings: the frozen snapshot of all tunables, per-layer
//! overlays, and validation.  Lengths are in fixed-point units, dimensionless
//! ratios are scaled by a thousand, temperatures are in thousandths of a
//! degree.

use vstd::prelude::*;

use crate::commands::MoveType;
use crate::errors::{SlicerErrors, SlicerWarnings};

verus! {

/// The patterns available for solid infill.
#[derive(Clone, Copy, Debug, PartialEq, Eq, Structural)]
pub enum SolidInfillTypes {
    /// Straight lines alternating direction per layer.
    Rectilinear,
}

/// The patterns available for partial infill.
#[derive(Clone, Copy, Debug, PartialEq, Eq, Structural)]
pub enum PartialInfillTypes {
    /// Parallel lines in one direction.
    Linear,
    /// Straight lines alternating direction per layer.
    Rectilinear,
    /// Three overlapping line directions.
    Triangle,
    /// Three line directions offset per layer.
    Cubic,
    /// A tree of spars grown downward from the top surfaces.
    Lightning,
}

/// A value for each movement type.
#[derive(Clone, Copy, Debug, PartialEq, Eq, Structural)]
pub struct MovementParameter {
    /// Value for inner perimeters facing an interior cavity.
    pub interior_inner_perimeter: i64,
    /// Value for surface perimeters facing an interior cavity.
    pub interior_surface_perimeter: i64,
    /// Value for inner perimeters on an exterior wall.
    pub exterior_inner_perimeter: i64,
    /// Value for surface perimeters on an exterior surface.
    pub exterior_surface_perimeter: i64,
    /// Value for top solid infill moves.
    pub solid_top_infill: i64,
    /// Value for solid infill moves.
    pub solid_infill: i64,
    /// Value for partial infill moves.
    pub infill: i64,
    /// Value for travel moves.
    pub travel: i64,
    /// Value for bridging moves.
    pub bridge: i64,
    /// Value for support moves.
    pub support: i64,
}

impl MovementParameter {
    /// The value for a movement type, as a spec function.
    pub open spec fn value_for_spec(self, move_type: MoveType) -> i64 {
        match move_type {
            MoveType::TopSolidInfill => self.solid_top_infill,
            MoveType::SolidInfill => self.solid_infill,
            MoveType::Infill => self.infill,
            MoveType::ExteriorSurfacePerimeter => self.exterior_surface_perimeter,
            MoveType::InteriorSurfacePerimeter => self.interior_surface_perimeter,
            MoveType::ExteriorInnerPerimeter => self.exterior_inner_perimeter,
            MoveType::InteriorInnerPerimeter => self.interior_inner_perimeter,
            MoveType::Bridging => self.bridge,
            MoveType::Support => self.support,
            MoveType::Travel => self.travel,
        }
    }

    /// Hands back the value associated with the given movement type.
    pub fn get_value_for_movement_type(&self, move_type: &MoveType) -> (r: i64)
        ensures
            r == self.value_for_spec(*move_type),
    {
        match move_type {
            MoveType::TopSolidInfill => self.solid_top_infill,
            MoveType::SolidInfill => self.solid_infill,
            MoveType::Infill => self.infill,
            MoveType::ExteriorSurfacePerimeter => self.exterior_surface_perimeter,
            MoveType::InteriorSurfacePerimeter => self.interior_surface_perimeter,
            MoveType::ExteriorInnerPerimeter => self.exterior_inner_perimeter,
            MoveType::InteriorInnerPerimeter => self.interior_inner_perimeter,
            MoveType::Bridging => self.bridge,
            MoveType::Support => self.support,
            MoveType::Travel => self.travel,
        }
    }
}

/// Filament properties.
#[derive(Clone, Copy, Debug, PartialEq, Eq, Structural)]
pub struct FilamentSettings {
    /// Filament diameter in units.
    pub diameter: i64,
    /// Density in thousandths of a gram per cubic centimetre.
    pub density: i64,
    /// Cost in thousandths of a currency unit per kilogram.
    pub cost: i64,
    /// Extruder temperature in thousandths of a degree.
    pub extruder_temp: i64,
    /// Bed temperature in thousandths of a degree.
    pub bed_temp: i64,
}

/// Part-cooling fan behaviour.
#[derive(Clone, Copy, Debug, PartialEq, Eq, Structural)]
pub struct FanSettings {
    /// Fan speed in thousandths of a percent point.
    pub fan_speed: i64,
    /// Disable the fan on layers below this index.
    pub disable_fan_for_layers: usize,
    /// Slow a layer down when its print time falls below this many
    /// milliseconds.
    pub slow_down_threshold: i64,
    /// Never slow below this speed, in units per second.
    pub min_print_speed: i64,
}

/// Support generation parameters.
#[derive(Clone, Copy, Debug, PartialEq, Eq, Structural)]
pub struct SupportSettings {
    /// Overhang angle above which support is grown, in thousandths of a
    /// degree.
    pub max_overhang_angle: i64,
    /// Spacing between support ribs, in units.
    pub support_spacing: i64,
}

/// Skirt generation parameters.
#[derive(Clone, Copy, Debug, PartialEq, Eq, Structural)]
pub struct SkirtSettings {
    /// Number of layers the skirt rises.
    pub layers: usize,
    /// Distance from the models, in units.
    pub distance: i64,
}

/// Retraction-wipe parameters.
#[derive(Clone, Copy, Debug, PartialEq, Eq, Structural)]
pub struct RetractionWipeSettings {
    /// Wipe speed in units per second.
    pub speed: i64,
    /// Wipe acceleration in units per second squared.
    pub acceleration: i64,
    /// Wipe distance in units.
    pub distance: i64,
}

/// A closed range of layers, by index or by height.
#[derive(Clone, Copy, Debug, PartialEq, Eq, Structural)]
pub enum LayerRange {
    /// A single layer, by index.
    SingleLayer(usize),
    /// A closed index interval.
    LayerCountRange {
        /// First index of the range.
        start: usize,
        /// Last index of the range.
        end: usize,
    },
    /// A closed height interval, in units.
    HeightRange {
        /// Lower height of the range.
        start: i64,
        /// Upper height of the range.
        end: i64,
    },
}

/// A partial per-layer overlay: set fields override, absent fields inherit.
#[derive(Default, Clone, Copy, Debug, PartialEq)]
pub struct PartialLayerSettings {
    /// Overrides the layer height.
    pub layer_height: Option<i64>,
    /// Overrides the layer shrink inset.
    pub layer_shrink_amount: Option<i64>,
    /// Overrides the speeds.
    pub speed: Option<MovementParameter>,
    /// Overrides the accelerations.
    pub acceleration: Option<MovementParameter>,
    /// Overrides the extrusion widths.
    pub extrusion_width: Option<MovementParameter>,
    /// Overrides the solid infill pattern.
    pub solid_infill_type: Option<SolidInfillTypes>,
    /// Overrides the partial infill pattern.
    pub partial_infill_type: Option<PartialInfillTypes>,
    /// Overrides the infill density, in thousandths.
    pub infill_percentage: Option<i64>,
    /// Overrides the infill-to-perimeter overlap, in thousandths.
    pub infill_perimeter_overlap_percentage: Option<i64>,
    /// Overrides the perimeter order.
    pub inner_perimeters_first: Option<bool>,
    /// Overrides the bed temperature.
    pub bed_temp: Option<i64>,
    /// Overrides the extruder temperature.
    pub extruder_temp: Option<i64>,
    /// Overrides the retraction wipe.
    pub retraction_wipe: Option<RetractionWipeSettings>,
    /// Overrides the retraction length.
    pub retraction_length: Option<i64>,
}

/// The settings resolved for one layer.
#[derive(Clone, Copy, Debug, PartialEq)]
pub struct LayerSettings {
    /// The layer's height in units.
    pub layer_height: i64,
    /// Inset every polygon by this amount, if set.
    pub layer_shrink_amount: Option<i64>,
    /// Speeds per movement type.
    pub speed: MovementParameter,
    /// Accelerations per movement type.
    pub acceleration: MovementParameter,
    /// Extrusion widths per movement type.
    pub extrusion_width: MovementParameter,
    /// Solid infill pattern.
    pub solid_infill_type: SolidInfillTypes,
    /// Partial infill pattern.
    pub partial_infill_type: PartialInfillTypes,
    /// Infill density, in thousandths.
    pub infill_percentage: i64,
    /// Infill-to-perimeter overlap, in thousandths.
    pub infill_perimeter_overlap_percentage: i64,
    /// Whether inner perimeters print before outer ones.
    pub inner_perimeters_first: bool,
    /// Bed temperature in thousandths of a degree.
    pub bed_temp: i64,
    /// Extruder temperature in thousandths of a degree.
    pub extruder_temp: i64,
    /// Retraction wipe, if configured.
    pub retraction_wipe: Option<RetractionWipeSettings>,
    /// Retraction length in units.
    pub retraction_length: i64,
}

/// A complete settings snapshot.
#[derive(Clone, Debug, PartialEq)]
pub struct Settings {
    /// The height of the layers, in units.
    pub layer_height: i64,
    /// The extrusion widths per movement type, in units.
    pub extrusion_width: MovementParameter,
    /// The filament.
    pub filament: FilamentSettings,
    /// The fan.
    pub fan: FanSettings,
    /// Skirt generation; absent means no skirt.
    pub skirt: Option<SkirtSettings>,
    /// Support generation; absent means no support.
    pub support: Option<SupportSettings>,
    /// Nozzle diameter in units.
    pub nozzle_diameter: i64,
    /// Retraction length in units.
    pub retract_length: i64,
    /// Z lift during a retraction, in units.
    pub retract_lift_z: i64,
    /// Retraction speed in units per second.
    pub retract_speed: i64,
    /// Retraction wipe; absent means no wipe.
    pub retraction_wipe: Option<RetractionWipeSettings>,
    /// Speeds per movement type, in units per second.
    pub speed: MovementParameter,
    /// Accelerations per movement type, in units per second squared.
    pub acceleration: MovementParameter,
    /// Infill density, in thousandths.
    pub infill_percentage: i64,
    /// Whether inner perimeters print before outer ones.
    pub inner_perimeters_first: bool,
    /// Number of perimeters.
    pub number_of_perimeters: usize,
    /// Number of solid top layers.
    pub top_layers: usize,
    /// Number of solid bottom layers.
    pub bottom_layers: usize,
    /// Print volume along X, in units.
    pub print_x: i64,
    /// Print volume along Y, in units.
    pub print_y: i64,
    /// Print volume along Z, in units.
    pub print_z: i64,
    /// Brim width; absent means no brim.
    pub brim_width: Option<i64>,
    /// Inset every layer by this amount; absent means no inset.
    pub layer_shrink_amount: Option<i64>,
    /// Travel distance above which a retraction is inserted, in units.
    pub minimum_retract_distance: i64,
    /// Infill-to-perimeter overlap, in thousandths.
    pub infill_perimeter_overlap_percentage: i64,
    /// Solid infill pattern.
    pub solid_infill_type: SolidInfillTypes,
    /// Partial infill pattern.
    pub partial_infill_type: PartialInfillTypes,
    /// Instructions prepended to the output; an outside templater expands
    /// them.
    pub starting_instructions: String,
    /// Instructions appended to the output.
    pub ending_instructions: String,
    /// Instructions inserted before each layer change.
    pub before_layer_change_instructions: String,
    /// Instructions inserted after each layer change.
    pub after_layer_change_instructions: String,
    /// Instructions inserted between object changes.
    pub object_change_instructions: String,
    /// Machine acceleration limit along X.
    pub max_acceleration_x: i64,
    /// Machine acceleration limit along Y.
    pub max_acceleration_y: i64,
    /// Machine acceleration limit along Z.
    pub max_acceleration_z: i64,
    /// Machine acceleration limit of the extruder.
    pub max_acceleration_e: i64,
    /// Machine acceleration limit while extruding.
    pub max_acceleration_extruding: i64,
    /// Machine acceleration limit while travelling.
    pub max_acceleration_travel: i64,
    /// Machine acceleration limit while retracting.
    pub max_acceleration_retracting: i64,
    /// Machine jerk limit along X.
    pub max_jerk_x: i64,
    /// Machine jerk limit along Y.
    pub max_jerk_y: i64,
    /// Machine jerk limit along Z.
    pub max_jerk_z: i64,
    /// Machine jerk limit of the extruder.
    pub max_jerk_e: i64,
    /// Minimum feedrate for extruding moves.
    pub minimum_feedrate_print: i64,
    /// Minimum feedrate for travel moves.
    pub minimum_feedrate_travel: i64,
    /// Machine feedrate limit along X.
    pub maximum_feedrate_x: i64,
    /// Machine feedrate limit along Y.
    pub maximum_feedrate_y: i64,
    /// Machine feedrate limit along Z.
    pub maximum_feedrate_z: i64,
    /// Machine feedrate limit of the extruder.
    pub maximum_feedrate_e: i64,
    /// Per-layer overlays, applied to matching layers in order.
    pub layer_settings: Vec<(LayerRange, PartialLayerSettings)>,
}

/// `a` if set, else `b`.
pub open spec fn or_opt<T>(a: Option<T>, b: Option<T>) -> Option<T> {
    if a is Some {
        a
    } else {
        b
    }
}

impl PartialLayerSettings {
    /// The overlay keeping `self`'s fields and filling the rest from
    /// `other`.
    pub open spec fn combine_spec(self, other: PartialLayerSettings) -> PartialLayerSettings {
        PartialLayerSettings {
            layer_height: or_opt(self.layer_height, other.layer_height),
            layer_shrink_amount: or_opt(self.layer_shrink_amount, other.layer_shrink_amount),
            speed: or_opt(self.speed, other.speed),
            acceleration: or_opt(self.acceleration, other.acceleration),
            extrusion_width: or_opt(self.extrusion_width, other.extrusion_width),
            solid_infill_type: or_opt(self.solid_infill_type, other.solid_infill_type),
            partial_infill_type: or_opt(self.partial_infill_type, other.partial_infill_type),
            infill_percentage: or_opt(self.infill_percentage, other.infill_percentage),
            infill_perimeter_overlap_percentage: or_opt(
                self.infill_perimeter_overlap_percentage,
                other.infill_perimeter_overlap_percentage,
            ),
            inner_perimeters_first: or_opt(
                self.inner_perimeters_first,
                other.inner_perimeters_first,
            ),
            bed_temp: or_opt(self.bed_temp, other.bed_temp),
            extruder_temp: or_opt(self.extruder_temp, other.extruder_temp),
            retraction_wipe: or_opt(self.retraction_wipe, other.retraction_wipe),
            retraction_length: or_opt(self.retraction_length, other.retraction_length),
        }
    }

    /// Combines two overlays; fields of `self` win.
    pub fn combine(&self, other: &PartialLayerSettings) -> (r: PartialLayerSettings)
        ensures
            r == self.combine_spec(*other),
    {
        PartialLayerSettings {
            layer_height: if self.layer_height.is_some() {
                self.layer_height
            } else {
                other.layer_height
            },
            layer_shrink_amount: if self.layer_shrink_amount.is_some() {
                self.layer_shrink_amount
            } else {
                other.layer_shrink_amount
            },
            speed: if self.speed.is_some() {
                self.speed
            } else {
                other.speed
            },
            acceleration: if self.acceleration.is_some() {
                self.acceleration
            } else {
                other.acceleration
            },
            extrusion_width: if self.extrusion_width.is_some() {
                self.extrusion_width
            } else {
                other.extrusion_width
            },
            solid_infill_type: if self.solid_infill_type.is_some() {
                self.solid_infill_type
            } else {
                other.solid_infill_type
            },
            partial_infill_type: if self.partial_infill_type.is_some() {
                self.partial_infill_type
            } else {
                other.partial_infill_type
            },
            infill_percentage: if self.infill_percentage.is_some() {
                self.infill_percentage
            } else {
                other.infill_percentage
            },
            infill_perimeter_overlap_percentage: if self
                .infill_perimeter_overlap_percentage
                .is_some() {
                self.infill_perimeter_overlap_percentage
            } else {
                other.infill_perimeter_overlap_percentage
            },
            inner_perimeters_first: if self.inner_perimeters_first.is_some() {
                self.inner_perimeters_first
            } else {
                other.inner_perimeters_first
            },
            bed_temp: if self.bed_temp.is_some() {
                self.bed_temp
            } else {
                other.bed_temp
            },
            extruder_temp: if self.extruder_temp.is_some() {
                self.extruder_temp
            } else {
                other.extruder_temp
            },
            retraction_wipe: if self.retraction_wipe.is_some() {
                self.retraction_wipe
            } else {
                other.retraction_wipe
            },
            retraction_length: if self.retraction_length.is_some() {
                self.retraction_length
            } else {
                other.retraction_length
            },
        }
    }

    /// The overlay that overrides nothing.
    pub open spec fn default_spec() -> PartialLayerSettings {
        PartialLayerSettings {
            layer_height: None,
            layer_shrink_amount: None,
            speed: None,
            acceleration: None,
            extrusion_width: None,
            solid_infill_type: None,
            partial_infill_type: None,
            infill_percentage: None,
            infill_perimeter_overlap_percentage: None,
            inner_perimeters_first: None,
            bed_temp: None,
            extruder_temp: None,
            retraction_wipe: None,
            retraction_length: None,
        }
    }
}

/// True when the range covers the layer with the given index and bottom
/// height; bounds are inclusive.
pub open spec fn range_matches(r: LayerRange, layer: usize, height: i64) -> bool {
    match r {
        LayerRange::SingleLayer(l) => l == layer,
        LayerRange::LayerCountRange { start, end } => start <= layer && layer <= end,
        LayerRange::HeightRange { start, end } => start <= height && height <= end,
    }
}

/// The fold of all matching overlays, in list order; earlier matches win.
pub open spec fn fold_overrides(
    entries: Seq<(LayerRange, PartialLayerSettings)>,
    layer: usize,
    height: i64,
) -> PartialLayerSettings
    decreases entries.len(),
{
    if entries.len() == 0 {
        PartialLayerSettings::default_spec()
    } else {
        let pre = fold_overrides(entries.drop_last(), layer, height);
        if range_matches(entries.last().0, layer, height) {
            pre.combine_spec(entries.last().1)
        } else {
            pre
        }
    }
}

impl Settings {
    /// The settings resolved for one layer: every overlay field that a
    /// matching range sets overrides the global value.
    pub open spec fn layer_settings_spec(self, layer: usize, height: i64) -> LayerSettings {
        let c = fold_overrides(self.layer_settings@, layer, height);
        LayerSettings {
            layer_height: c.layer_height.unwrap_or(self.layer_height),
            layer_shrink_amount: or_opt(c.layer_shrink_amount, self.layer_shrink_amount),
            speed: c.speed.unwrap_or(self.speed),
            acceleration: c.acceleration.unwrap_or(self.acceleration),
            extrusion_width: c.extrusion_width.unwrap_or(self.extrusion_width),
            solid_infill_type: c.solid_infill_type.unwrap_or(self.solid_infill_type),
            partial_infill_type: c.partial_infill_type.unwrap_or(self.partial_infill_type),
            infill_percentage: c.infill_percentage.unwrap_or(self.infill_percentage),
            infill_perimeter_overlap_percentage: c.infill_perimeter_overlap_percentage.unwrap_or(
                self.infill_perimeter_overlap_percentage,
            ),
            inner_perimeters_first: c.inner_perimeters_first.unwrap_or(
                self.inner_perimeters_first,
            ),
            bed_temp: c.bed_temp.unwrap_or(self.filament.bed_temp),
            extruder_temp: c.extruder_temp.unwrap_or(self.filament.extruder_temp),
            retraction_wipe: or_opt(c.retraction_wipe, self.retraction_wipe),
            retraction_length: c.retraction_length.unwrap_or(self.retract_length),
        }
    }

    /// Resolves the settings for the layer with the given index and bottom
    /// height.
    pub fn get_layer_settings(&self, layer: usize, height: i64) -> (r: LayerSettings)
        ensures
            r == self.layer_settings_spec(layer, height),
    {
        let mut changes = PartialLayerSettings {
            layer_height: None,
            layer_shrink_amount: None,
            speed: None,
            acceleration: None,
            extrusion_width: None,
            solid_infill_type: None,
            partial_infill_type: None,
            infill_percentage: None,
            infill_perimeter_overlap_percentage: None,
            inner_perimeters_first: None,
            bed_temp: None,
            extruder_temp: None,
            retraction_wipe: None,
            retraction_length: None,
        };
        let mut i: usize = 0;
        while i < self.layer_settings.len()
            invariant
                i <= self.layer_settings@.len(),
                changes == fold_overrides(self.layer_settings@.take(i as int), layer, height),
            decreases self.layer_settings@.len() - i,
        {
            let entry = &self.layer_settings[i];
            proof {
                assert(self.layer_settings@.take(i + 1).drop_last() =~= self.layer_settings@.take(
                    i as int,
                ));
                assert(self.layer_settings@.take(i + 1).last() == self.layer_settings@[i as int]);
            }
            let matches_here: bool = match entry.0 {
                LayerRange::SingleLayer(l) => l == layer,
                LayerRange::LayerCountRange { start, end } => start <= layer && layer <= end,
                LayerRange::HeightRange { start, end } => start <= height && height <= end,
            };
            if matches_here {
                changes = changes.combine(&entry.1);
            }
            i = i + 1;
        }
        proof {
            assert(self.layer_settings@.take(self.layer_settings@.len() as int)
                =~= self.layer_settings@);
        }
        LayerSettings {
            layer_height: changes.layer_height.unwrap_or(self.layer_height),
            layer_shrink_amount: if changes.layer_shrink_amount.is_some() {
                changes.layer_shrink_amount
            } else {
                self.layer_shrink_amount
            },
            speed: changes.speed.unwrap_or(self.speed),
            acceleration: changes.acceleration.unwrap_or(self.acceleration),
            extrusion_width: changes.extrusion_width.unwrap_or(self.extrusion_width),
            solid_infill_type: changes.solid_infill_type.unwrap_or(self.solid_infill_type),
            partial_infill_type: changes.partial_infill_type.unwrap_or(self.partial_infill_type),
            infill_percentage: changes.infill_percentage.unwrap_or(self.infill_percentage),
            infill_perimeter_overlap_percentage: changes
                .infill_perimeter_overlap_percentage
                .unwrap_or(self.infill_perimeter_overlap_percentage),
            inner_perimeters_first: changes.inner_perimeters_first.unwrap_or(
                self.inner_perimeters_first,
            ),
            bed_temp: changes.bed_temp.unwrap_or(self.filament.bed_temp),
            extruder_temp: changes.extruder_temp.unwrap_or(self.filament.extruder_temp),
            retraction_wipe: if changes.retraction_wipe.is_some() {
                changes.retraction_wipe
            } else {
                self.retraction_wipe
            },
            retraction_length: changes.retraction_length.unwrap_or(self.retract_length),
        }
    }
}

/// What validating the settings found.
#[derive(Clone, Debug, PartialEq)]
pub enum SettingsValidationResult {
    /// Nothing to report.
    NoIssue,
    /// A non-fatal finding; the pipeline continues.
    Warning(SlicerWarnings),
    /// A fatal finding; the pipeline stops.
    Error(SlicerErrors),
}

/// True when every setting that must be strictly positive is.
pub open spec fn positives_ok(s: Settings) -> bool {
    &&& s.print_x > 0
    &&& s.print_y > 0
    &&& s.print_z > 0
    &&& s.nozzle_diameter > 0
    &&& s.layer_height > 0
    &&& s.retract_speed > 0
    &&& s.max_acceleration_x > 0
    &&& s.max_acceleration_y > 0
    &&& s.max_acceleration_z > 0
    &&& s.max_acceleration_e > 0
    &&& s.max_jerk_x > 0
    &&& s.max_jerk_y > 0
    &&& s.max_jerk_z > 0
    &&& s.max_jerk_e > 0
    &&& s.max_acceleration_extruding > 0
    &&& s.max_acceleration_travel > 0
    &&& s.max_acceleration_retracting > 0
    &&& s.maximum_feedrate_x > 0
    &&& s.maximum_feedrate_y > 0
    &&& s.maximum_feedrate_z > 0
    &&& s.maximum_feedrate_e > 0
}

/// True when every setting that must be non-negative is.
pub open spec fn nonnegatives_ok(s: Settings) -> bool {
    &&& s.infill_percentage >= 0
    &&& s.retract_length >= 0
    &&& s.retract_lift_z >= 0
    &&& s.minimum_feedrate_travel >= 0
    &&& s.minimum_feedrate_print >= 0
    &&& s.minimum_retract_distance >= 0
}

/// True when the layer height lies within a fifth and four fifths of the
/// nozzle diameter.
pub open spec fn layer_ratio_ok(layer_height: i64, nozzle_diameter: i64) -> bool {
    5 * layer_height >= nozzle_diameter && 5 * layer_height <= 4 * nozzle_diameter
}

/// True when the width lies within six tenths and twice the nozzle
/// diameter.
pub open spec fn extrusion_ok(width: i64, nozzle_diameter: i64) -> bool {
    5 * width >= 3 * nozzle_diameter && width <= 2 * nozzle_diameter
}

/// True when every extruding channel's width is in range; travel extrudes
/// nothing and is exempt.
pub open spec fn extrusions_ok(mp: MovementParameter, nozzle_diameter: i64) -> bool {
    &&& extrusion_ok(mp.infill, nozzle_diameter)
    &&& extrusion_ok(mp.solid_top_infill, nozzle_diameter)
    &&& extrusion_ok(mp.solid_infill, nozzle_diameter)
    &&& extrusion_ok(mp.bridge, nozzle_diameter)
    &&& extrusion_ok(mp.support, nozzle_diameter)
    &&& extrusion_ok(mp.interior_surface_perimeter, nozzle_diameter)
    &&& extrusion_ok(mp.interior_inner_perimeter, nozzle_diameter)
    &&& extrusion_ok(mp.exterior_inner_perimeter, nozzle_diameter)
    &&& extrusion_ok(mp.exterior_surface_perimeter, nozzle_diameter)
}

/// True when a channel cannot reach its target speed inside the bed: the
/// stopping distance `speed^2 / (2 * acceleration)` strictly exceeds the
/// smaller bed dimension.
pub open spec fn accel_too_low(speed: i64, accel: i64, bed: i64) -> bool {
    if accel > 0 {
        speed * speed > 2 * accel * bed
    } else {
        accel == 0 && speed != 0
    }
}

/// True when every extruding channel reaches its speed inside the bed.
pub open spec fn accels_ok(acc: MovementParameter, sp: MovementParameter, bed: i64) -> bool {
    &&& !accel_too_low(sp.infill, acc.infill, bed)
    &&& !accel_too_low(sp.solid_top_infill, acc.solid_top_infill, bed)
    &&& !accel_too_low(sp.solid_infill, acc.solid_infill, bed)
    &&& !accel_too_low(sp.bridge, acc.bridge, bed)
    &&& !accel_too_low(sp.support, acc.support, bed)
    &&& !accel_too_low(sp.interior_surface_perimeter, acc.interior_surface_perimeter, bed)
    &&& !accel_too_low(sp.interior_inner_perimeter, acc.interior_inner_perimeter, bed)
    &&& !accel_too_low(sp.exterior_inner_perimeter, acc.exterior_inner_perimeter, bed)
    &&& !accel_too_low(sp.exterior_surface_perimeter, acc.exterior_surface_perimeter, bed)
}

/// True when the value is one of the nine extruding channels of the
/// parameter.
pub open spec fn is_width_channel(mp: MovementParameter, v: i64) -> bool {
    ||| v == mp.infill
    ||| v == mp.solid_top_infill
    ||| v == mp.solid_infill
    ||| v == mp.bridge
    ||| v == mp.support
    ||| v == mp.interior_surface_perimeter
    ||| v == mp.interior_inner_perimeter
    ||| v == mp.exterior_inner_perimeter
    ||| v == mp.exterior_surface_perimeter
}

/// True when the pair is one of the nine extruding channels' acceleration
/// and speed.
pub open spec fn is_accel_pair(acc: MovementParameter, sp: MovementParameter, a: i64, v: i64) -> bool {
    ||| (a == acc.infill && v == sp.infill)
    ||| (a == acc.solid_top_infill && v == sp.solid_top_infill)
    ||| (a == acc.solid_infill && v == sp.solid_infill)
    ||| (a == acc.bridge && v == sp.bridge)
    ||| (a == acc.support && v == sp.support)
    ||| (a == acc.interior_surface_perimeter && v == sp.interior_surface_perimeter)
    ||| (a == acc.interior_inner_perimeter && v == sp.interior_inner_perimeter)
    ||| (a == acc.exterior_inner_perimeter && v == sp.exterior_inner_perimeter)
    ||| (a == acc.exterior_surface_perimeter && v == sp.exterior_surface_perimeter)
}

/// True when the skirt clears the brim.
pub open spec fn skirt_brim_ok(s: Settings) -> bool {
    match (s.skirt, s.brim_width) {
        (Some(sk), Some(bw)) => sk.distance > bw,
        _ => true,
    }
}

/// True when the extruder temperature lies in the plausible printing
/// range.
pub open spec fn temp_ok(t: i64) -> bool {
    140000 <= t <= 260000
}

/// The smaller bed dimension.
pub open spec fn min_bed(s: Settings) -> i64 {
    if s.print_x <= s.print_y {
        s.print_x
    } else {
        s.print_y
    }
}

/// True when one per-layer overlay passes every check that applies to the
/// fields it sets.
pub open spec fn override_ok(s: Settings, pls: PartialLayerSettings) -> bool {
    &&& (match pls.layer_height {
        Some(lh) => lh > 0 && layer_ratio_ok(lh, s.nozzle_diameter),
        None => true,
    })
    &&& (match pls.infill_percentage {
        Some(p) => p >= 0,
        None => true,
    })
    &&& (match pls.retraction_length {
        Some(l) => l >= 0,
        None => true,
    })
    &&& (match pls.extruder_temp {
        Some(t) => temp_ok(t),
        None => true,
    })
    &&& (match pls.extrusion_width {
        Some(w) => extrusions_ok(w, s.nozzle_diameter),
        None => true,
    })
    &&& accels_ok(
        pls.acceleration.unwrap_or(s.acceleration),
        pls.speed.unwrap_or(s.speed),
        min_bed(s),
    )
}

/// True when the settings pass every validation rule.
pub open spec fn settings_valid(s: Settings) -> bool {
    &&& positives_ok(s)
    &&& nonnegatives_ok(s)
    &&& layer_ratio_ok(s.layer_height, s.nozzle_diameter)
    &&& extrusions_ok(s.extrusion_width, s.nozzle_diameter)
    &&& accels_ok(s.acceleration, s.speed, min_bed(s))
    &&& skirt_brim_ok(s)
    &&& temp_ok(s.filament.extruder_temp)
    &&& forall|i: int|
        0 <= i < s.layer_settings@.len() ==> override_ok(s, (#[trigger] s.layer_settings@[i]).1)
}

/// True when the warning is a fact about these settings.
pub open spec fn warning_justified(s: Settings, w: SlicerWarnings) -> bool {
    match w {
        SlicerWarnings::LayerSizeTooLow { layer_height, nozzle_diameter } => nozzle_diameter
            == s.nozzle_diameter && layer_height == s.layer_height && (5 * s.layer_height
            < s.nozzle_diameter || exists|i: int|
            0 <= i < s.layer_settings@.len() && (#[trigger] s.layer_settings@[i]).1.layer_height
                is Some && 5 * s.layer_settings@[i].1.layer_height.unwrap() < s.nozzle_diameter),
        SlicerWarnings::LayerSizeTooHigh { layer_height, nozzle_diameter } => nozzle_diameter
            == s.nozzle_diameter && layer_height == s.layer_height && (5 * s.layer_height > 4
            * s.nozzle_diameter || exists|i: int|
            0 <= i < s.layer_settings@.len() && (#[trigger] s.layer_settings@[i]).1.layer_height
                is Some && 5 * s.layer_settings@[i].1.layer_height.unwrap() > 4
                * s.nozzle_diameter),
        SlicerWarnings::ExtrusionWidthTooLow { extrusion_width, nozzle_diameter } => nozzle_diameter
            == s.nozzle_diameter && 5 * extrusion_width < 3 * s.nozzle_diameter && (
        is_width_channel(s.extrusion_width, extrusion_width) || exists|i: int|
            0 <= i < s.layer_settings@.len() && (#[trigger] s.layer_settings@[i]).1.extrusion_width
                is Some && is_width_channel(
                s.layer_settings@[i].1.extrusion_width.unwrap(),
                extrusion_width,
            )),
        SlicerWarnings::ExtrusionWidthTooHigh { extrusion_width, nozzle_diameter } =>
            nozzle_diameter == s.nozzle_diameter && extrusion_width > 2 * s.nozzle_diameter && (
        is_width_channel(s.extrusion_width, extrusion_width) || exists|i: int|
            0 <= i < s.layer_settings@.len() && (#[trigger] s.layer_settings@[i]).1.extrusion_width
                is Some && is_width_channel(
                s.layer_settings@[i].1.extrusion_width.unwrap(),
                extrusion_width,
            )),
        SlicerWarnings::AccelerationTooLow { acceleration, speed, bed_size } => bed_size == min_bed(
            s,
        ) && accel_too_low(speed, acceleration, bed_size) && (is_accel_pair(
            s.acceleration,
            s.speed,
            acceleration,
            speed,
        ) || exists|i: int|
            0 <= i < s.layer_settings@.len() && is_accel_pair(
                (#[trigger] s.layer_settings@[i]).1.acceleration.unwrap_or(s.acceleration),
                s.layer_settings@[i].1.speed.unwrap_or(s.speed),
                acceleration,
                speed,
            )),
        SlicerWarnings::SkirtAndBrimOverlap { skirt_distance, brim_width } => s.skirt is Some
            && s.skirt.unwrap().distance == skirt_distance && s.brim_width == Some(brim_width)
            && skirt_distance <= brim_width,
        SlicerWarnings::NozzleTemperatureTooLow { temp } => temp == s.filament.extruder_temp && (
        s.filament.extruder_temp < 140000 || exists|i: int|
            0 <= i < s.layer_settings@.len() && (#[trigger] s.layer_settings@[i]).1.extruder_temp
                is Some && s.layer_settings@[i].1.extruder_temp.unwrap() < 140000),
        SlicerWarnings::NozzleTemperatureTooHigh { temp } => temp == s.filament.extruder_temp && (
        s.filament.extruder_temp > 260000 || exists|i: int|
            0 <= i < s.layer_settings@.len() && (#[trigger] s.layer_settings@[i]).1.extruder_temp
                is Some && s.layer_settings@[i].1.extruder_temp.unwrap() > 260000),
    }
}

/// True when the error is a fact about these settings.
pub open spec fn error_justified(s: Settings, e: SlicerErrors) -> bool {
    match e {
        SlicerErrors::SettingLessThanOrEqualToZero { setting, value } => value <= 0 && ({
            ||| setting@ == "print_x"@ && value == s.print_x
            ||| setting@ == "print_y"@ && value == s.print_y
            ||| setting@ == "print_z"@ && value == s.print_z
            ||| setting@ == "nozzle_diameter"@ && value == s.nozzle_diameter
            ||| setting@ == "layer_height"@ && (value == s.layer_height || (exists|i: int|
                0 <= i < s.layer_settings@.len() && (#[trigger] s.layer_settings@[i]).1
                    .layer_height == Some(value)))
            ||| setting@ == "retract_speed"@ && value == s.retract_speed
            ||| setting@ == "max_acceleration_x"@ && value == s.max_acceleration_x
            ||| setting@ == "max_acceleration_y"@ && value == s.max_acceleration_y
            ||| setting@ == "max_acceleration_z"@ && value == s.max_acceleration_z
            ||| setting@ == "max_acceleration_e"@ && value == s.max_acceleration_e
            ||| setting@ == "max_jerk_x"@ && value == s.max_jerk_x
            ||| setting@ == "max_jerk_y"@ && value == s.max_jerk_y
            ||| setting@ == "max_jerk_z"@ && value == s.max_jerk_z
            ||| setting@ == "max_jerk_e"@ && value == s.max_jerk_e
            ||| setting@ == "max_acceleration_extruding"@ && value == s.max_acceleration_extruding
            ||| setting@ == "max_acceleration_travel"@ && value == s.max_acceleration_travel
            ||| setting@ == "max_acceleration_retracting"@ && value
                == s.max_acceleration_retracting
            ||| setting@ == "maximum_feedrate_x"@ && value == s.maximum_feedrate_x
            ||| setting@ == "maximum_feedrate_y"@ && value == s.maximum_feedrate_y
            ||| setting@ == "maximum_feedrate_z"@ && value == s.maximum_feedrate_z
            ||| setting@ == "maximum_feedrate_e"@ && value == s.maximum_feedrate_e
        }),
        SlicerErrors::SettingLessThanZero { setting, value } => value < 0 && ({
            ||| setting@ == "infill_percentage"@ && (value == s.infill_percentage || (exists|
                i: int,
            |
                0 <= i < s.layer_settings@.len() && (#[trigger] s.layer_settings@[i]).1
                    .infill_percentage == Some(value)))
            ||| setting@ == "retract_length"@ && value == s.retract_length
            ||| setting@ == "retract_lift_z"@ && value == s.retract_lift_z
            ||| setting@ == "minimum_feedrate_travel"@ && value == s.minimum_feedrate_travel
            ||| setting@ == "minimum_feedrate_print"@ && value == s.minimum_feedrate_print
            ||| setting@ == "minimum_retract_distance"@ && value == s.minimum_retract_distance
            ||| setting@ == "retraction_length"@ && (exists|i: int|
                0 <= i < s.layer_settings@.len() && (#[trigger] s.layer_settings@[i]).1
                    .retraction_length == Some(value))
        }),
        _ => false,
    }
}

impl Settings {
    /// Validates the settings: dimensions and rates must be positive,
    /// lengths non-negative, the layer height and extrusion widths in
    /// proportion to the nozzle, every channel's speed reachable inside the
    /// bed, the skirt clear of the brim, the extruder temperature plausible,
    /// and every per-layer overlay held to the same rules.  `NoIssue` comes
    /// back exactly when every rule holds; anything else names a rule that
    /// fails.
    pub fn validate_settings(&self) -> (r: SettingsValidationResult)
        ensures
            (r == SettingsValidationResult::NoIssue) <==> settings_valid(*self),
            (match r {
                SettingsValidationResult::NoIssue => true,
                SettingsValidationResult::Warning(w) => warning_justified(*self, w),
                SettingsValidationResult::Error(e) => error_justified(*self, e),
            }),
            r is Warning ==> positives_ok(*self) && nonnegatives_ok(*self),
    {
        if self.print_x <= 0 {
            return SettingsValidationResult::Error(
                SlicerErrors::SettingLessThanOrEqualToZero {
                    setting: "print_x".to_string(),
                    value: self.print_x,
                },
            );
        }
        if self.print_y <= 0 {
            return SettingsValidationResult::Error(
                SlicerErrors::SettingLessThanOrEqualToZero {
                    setting: "print_y".to_string(),
                    value: self.print_y,
                },
            );
        }
        if self.print_z <= 0 {
            return SettingsValidationResult::Error(
                SlicerErrors::SettingLessThanOrEqualToZero {
                    setting: "print_z".to_string(),
                    value: self.print_z,
                },
            );
        }
        if self.nozzle_diameter <= 0 {
            return SettingsValidationResult::Error(
                SlicerErrors::SettingLessThanOrEqualToZero {
                    setting: "nozzle_diameter".to_string(),
                    value: self.nozzle_diameter,
                },
            );
        }
        if self.layer_height <= 0 {
            return SettingsValidationResult::Error(
                SlicerErrors::SettingLessThanOrEqualToZero {
                    setting: "layer_height".to_string(),
                    value: self.layer_height,
                },
            );
        }
        if self.retract_speed <= 0 {
            return SettingsValidationResult::Error(
                SlicerErrors::SettingLessThanOrEqualToZero {
                    setting: "retract_speed".to_string(),
                    value: self.retract_speed,
                },
            );
        }
        if self.max_acceleration_x <= 0 {
            return SettingsValidationResult::Error(
                SlicerErrors::SettingLessThanOrEqualToZero {
                    setting: "max_acceleration_x".to_string(),
                    value: self.max_acceleration_x,
                },
            );
        }
        if self.max_acceleration_y <= 0 {
            return SettingsValidationResult::Error(
                SlicerErrors::SettingLessThanOrEqualToZero {
                    setting: "max_acceleration_y".to_string(),
                    value: self.max_acceleration_y,
                },
            );
        }
        if self.max_acceleration_z <= 0 {
            return SettingsValidationResult::Error(
                SlicerErrors::SettingLessThanOrEqualToZero {
                    setting: "max_acceleration_z".to_string(),
                    value: self.max_acceleration_z,
                },
            );
        }
        if self.max_acceleration_e <= 0 {
            return SettingsValidationResult::Error(
                SlicerErrors::SettingLessThanOrEqualToZero {
                    setting: "max_acceleration_e".to_string(),
                    value: self.max_acceleration_e,
                },
            );
        }
        if self.max_jerk_x <= 0 {
            return SettingsValidationResult::Error(
                SlicerErrors::SettingLessThanOrEqualToZero {
                    setting: "max_jerk_x".to_string(),
                    value: self.max_jerk_x,
                },
            );
        }
        if self.max_jerk_y <= 0 {
            return SettingsValidationResult::Error(
                SlicerErrors::SettingLessThanOrEqualToZero {
                    setting: "max_jerk_y".to_string(),
                    value: self.max_jerk_y,
                },
            );
        }
        if self.max_jerk_z <= 0 {
            return SettingsValidationResult::Error(
                SlicerErrors::SettingLessThanOrEqualToZero {
                    setting: "max_jerk_z".to_string(),
                    value: self.max_jerk_z,
                },
            );
        }
        if self.max_jerk_e <= 0 {
            return SettingsValidationResult::Error(
                SlicerErrors::SettingLessThanOrEqualToZero {
                    setting: "max_jerk_e".to_string(),
                    value: self.max_jerk_e,
                },
            );
        }
        if self.max_acceleration_extruding <= 0 {
            return SettingsValidationResult::Error(
                SlicerErrors::SettingLessThanOrEqualToZero {
                    setting: "max_acceleration_extruding".to_string(),
                    value: self.max_acceleration_extruding,
                },
            );
        }
        if self.max_acceleration_travel <= 0 {
            return SettingsValidationResult::Error(
                SlicerErrors::SettingLessThanOrEqualToZero {
                    setting: "max_acceleration_travel".to_string(),
                    value: self.max_acceleration_travel,
                },
            );
        }
        if self.max_acceleration_retracting <= 0 {
            return SettingsValidationResult::Error(
                SlicerErrors::SettingLessThanOrEqualToZero {
                    setting: "max_acceleration_retracting".to_string(),
                    value: self.max_acceleration_retracting,
                },
            );
        }
        if self.maximum_feedrate_x <= 0 {
            return SettingsValidationResult::Error(
                SlicerErrors::SettingLessThanOrEqualToZero {
                    setting: "maximum_feedrate_x".to_string(),
                    value: self.maximum_feedrate_x,
                },
            );
        }
        if self.maximum_feedrate_y <= 0 {
            return SettingsValidationResult::Error(
                SlicerErrors::SettingLessThanOrEqualToZero {
                    setting: "maximum_feedrate_y".to_string(),
                    value: self.maximum_feedrate_y,
                },
            );
        }
        if self.maximum_feedrate_z <= 0 {
            return SettingsValidationResult::Error(
                SlicerErrors::SettingLessThanOrEqualToZero {
                    setting: "maximum_feedrate_z".to_string(),
                    value: self.maximum_feedrate_z,
                },
            );
        }
        if self.maximum_feedrate_e <= 0 {
            return SettingsValidationResult::Error(
                SlicerErrors::SettingLessThanOrEqualToZero {
                    setting: "maximum_feedrate_e".to_string(),
                    value: self.maximum_feedrate_e,
                },
            );
        }
        if self.infill_percentage < 0 {
            return SettingsValidationResult::Error(
                SlicerErrors::SettingLessThanZero {
                    setting: "infill_percentage".to_string(),
                    value: self.infill_percentage,
                },
            );
        }
        if self.retract_length < 0 {
            return SettingsValidationResult::Error(
                SlicerErrors::SettingLessThanZero {
                    setting: "retract_length".to_string(),
                    value: self.retract_length,
                },
            );
        }
        if self.retract_lift_z < 0 {
            return SettingsValidationResult::Error(
                SlicerErrors::SettingLessThanZero {
                    setting: "retract_lift_z".to_string(),
                    value: self.retract_lift_z,
                },
            );
        }
        if self.minimum_feedrate_travel < 0 {
            return SettingsValidationResult::Error(
                SlicerErrors::SettingLessThanZero {
                    setting: "minimum_feedrate_travel".to_string(),
                    value: self.minimum_feedrate_travel,
                },
            );
        }
        if self.minimum_feedrate_print < 0 {
            return SettingsValidationResult::Error(
                SlicerErrors::SettingLessThanZero {
                    setting: "minimum_feedrate_print".to_string(),
                    value: self.minimum_feedrate_print,
                },
            );
        }
        if self.minimum_retract_distance < 0 {
            return SettingsValidationResult::Error(
                SlicerErrors::SettingLessThanZero {
                    setting: "minimum_retract_distance".to_string(),
                    value: self.minimum_retract_distance,
                },
            );
        }
        let lh5: i128 = 5 * (self.layer_height as i128);
        let nd: i128 = self.nozzle_diameter as i128;
        if lh5 < nd {
            return SettingsValidationResult::Warning(
                SlicerWarnings::LayerSizeTooLow {
                    layer_height: self.layer_height,
                    nozzle_diameter: self.nozzle_diameter,
                },
            );
        } else if lh5 > 4 * nd {
            return SettingsValidationResult::Warning(
                SlicerWarnings::LayerSizeTooHigh {
                    layer_height: self.layer_height,
                    nozzle_diameter: self.nozzle_diameter,
                },
            );
        }
        let ew_check = check_extrusions(&self.extrusion_width, self.nozzle_diameter);
        if !matches!(ew_check, SettingsValidationResult::NoIssue) {
            return ew_check;
        }
        let bed: i64 = if self.print_x <= self.print_y {
            self.print_x
        } else {
            self.print_y
        };
        let accel_check = check_accelerations(&self.acceleration, &self.speed, bed);
        if !matches!(accel_check, SettingsValidationResult::NoIssue) {
            return accel_check;
        }
        match (&self.skirt, &self.brim_width) {
            (Some(skirt), Some(brim)) => {
                if skirt.distance <= *brim {
                    return SettingsValidationResult::Warning(
                        SlicerWarnings::SkirtAndBrimOverlap {
                            skirt_distance: skirt.distance,
                            brim_width: *brim,
                        },
                    );
                }
            },
            _ => {},
        }
        if self.filament.extruder_temp < 140000 {
            return SettingsValidationResult::Warning(
                SlicerWarnings::NozzleTemperatureTooLow { temp: self.filament.extruder_temp },
            );
        } else if self.filament.extruder_temp > 260000 {
            return SettingsValidationResult::Warning(
                SlicerWarnings::NozzleTemperatureTooHigh { temp: self.filament.extruder_temp },
            );
        }
        let mut i: usize = 0;
        while i < self.layer_settings.len()
            invariant
                i <= self.layer_settings@.len(),
                positives_ok(*self),
                nonnegatives_ok(*self),
                nd == self.nozzle_diameter as i128,
                bed == min_bed(*self),
                forall|k: int|
                    0 <= k < i ==> override_ok(*self, (#[trigger] self.layer_settings@[k]).1),
            decreases self.layer_settings@.len() - i,
        {
            let pls = &self.layer_settings[i].1;
            match pls.layer_height {
                Some(lh) => {
                    if lh <= 0 {
                        proof {
                            assert(!override_ok(*self, self.layer_settings@[i as int].1));
                        }
                        return SettingsValidationResult::Error(
                            SlicerErrors::SettingLessThanOrEqualToZero {
                                setting: "layer_height".to_string(),
                                value: lh,
                            },
                        );
                    }
                    let olh5: i128 = 5 * (lh as i128);
                    if olh5 < nd {
                        proof {
                            assert(!override_ok(*self, self.layer_settings@[i as int].1));
                        }
                        return SettingsValidationResult::Warning(
                            SlicerWarnings::LayerSizeTooLow {
                                layer_height: self.layer_height,
                                nozzle_diameter: self.nozzle_diameter,
                            },
                        );
                    } else if olh5 > 4 * nd {
                        proof {
                            assert(!override_ok(*self, self.layer_settings@[i as int].1));
                        }
                        return SettingsValidationResult::Warning(
                            SlicerWarnings::LayerSizeTooHigh {
                                layer_height: self.layer_height,
                                nozzle_diameter: self.nozzle_diameter,
                            },
                        );
                    }
                },
                None => {},
            }
            match pls.infill_percentage {
                Some(p) => {
                    if p < 0 {
                        proof {
                            assert(!override_ok(*self, self.layer_settings@[i as int].1));
                        }
                        return SettingsValidationResult::Error(
                            SlicerErrors::SettingLessThanZero {
                                setting: "infill_percentage".to_string(),
                                value: p,
                            },
                        );
                    }
                },
                None => {},
            }
            match pls.retraction_length {
                Some(l) => {
                    if l < 0 {
                        proof {
                            assert(!override_ok(*self, self.layer_settings@[i as int].1));
                        }
                        return SettingsValidationResult::Error(
                            SlicerErrors::SettingLessThanZero {
                                setting: "retraction_length".to_string(),
                                value: l,
                            },
                        );
                    }
                },
                None => {},
            }
            match pls.extruder_temp {
                Some(t) => {
                    if t < 140000 {
                        proof {
                            assert(!override_ok(*self, self.layer_settings@[i as int].1));
                        }
                        return SettingsValidationResult::Warning(
                            SlicerWarnings::NozzleTemperatureTooLow {
                                temp: self.filament.extruder_temp,
                            },
                        );
                    } else if t > 260000 {
                        proof {
                            assert(!override_ok(*self, self.layer_settings@[i as int].1));
                        }
                        return SettingsValidationResult::Warning(
                            SlicerWarnings::NozzleTemperatureTooHigh {
                                temp: self.filament.extruder_temp,
                            },
                        );
                    }
                },
                None => {},
            }
            match &pls.extrusion_width {
                Some(w) => {
                    let wc = check_extrusions(w, self.nozzle_diameter);
                    if !matches!(wc, SettingsValidationResult::NoIssue) {
                        proof {
                            assert(!override_ok(*self, self.layer_settings@[i as int].1));
                        }
                        return wc;
                    }
                },
                None => {},
            }
            let oa = match &pls.acceleration {
                Some(a) => *a,
                None => self.acceleration,
            };
            let os = match &pls.speed {
                Some(sp) => *sp,
                None => self.speed,
            };
            let ac = check_accelerations(&oa, &os, bed);
            if !matches!(ac, SettingsValidationResult::NoIssue) {
                proof {
                    assert(!override_ok(*self, self.layer_settings@[i as int].1));
                }
                return ac;
            }
            i = i + 1;
        }
        SettingsValidationResult::NoIssue
    }
}

/// Decides whether a channel cannot reach its speed inside the bed,
/// exactly.
fn accel_warn(speed: i64, accel: i64, bed: i64) -> (r: bool)
    ensures
        r == accel_too_low(speed, accel, bed),
{
    if accel > 0 {
        let sp: i128 = speed as i128;
        let ac: i128 = accel as i128;
        let bd: i128 = bed as i128;
        proof {
            assert(sp * sp >= 0 && sp * sp <= 85070591730234615865843651857942052864)
                by (nonlinear_arith)
                requires
                    -9223372036854775808 <= sp <= 9223372036854775807,
            ;
            assert(ac * bd <= 85070591730234615856620279821087277056 && ac * bd
                >= -85070591730234615856620279821087277056) by (nonlinear_arith)
                requires
                    1 <= ac <= 9223372036854775807,
                    -9223372036854775808 <= bd <= 9223372036854775807,
            ;
            assert(2 * (ac * bd) == 2 * ac * bd) by (nonlinear_arith);
        }
        sp * sp > 2 * (ac * bd)
    } else {
        accel == 0 && speed != 0
    }
}

/// Decides whether a width is in range for the nozzle; `0` in range, `1`
/// too low, `2` too high.
fn extrusion_class(width: i64, nozzle_diameter: i64) -> (r: u8)
    ensures
        r == 0 <==> extrusion_ok(width, nozzle_diameter),
        r == 1 <==> 5 * width < 3 * nozzle_diameter,
        r == 2 <==> (5 * width >= 3 * nozzle_diameter && width > 2 * nozzle_diameter),
{
    let w: i128 = width as i128;
    let nd: i128 = nozzle_diameter as i128;
    if 5 * w < 3 * nd {
        1
    } else if w > 2 * nd {
        2
    } else {
        0
    }
}

/// Checks every extruding channel's width against the nozzle.
pub fn check_extrusions(extrusion_width: &MovementParameter, nozzle_diameter: i64) -> (r:
    SettingsValidationResult)
    ensures
        (r == SettingsValidationResult::NoIssue) <==> extrusions_ok(
            *extrusion_width,
            nozzle_diameter,
        ),
        (match r {
            SettingsValidationResult::Warning(w) => match w {
                SlicerWarnings::ExtrusionWidthTooLow { extrusion_width: ew, nozzle_diameter: nd }
                    => nd == nozzle_diameter && 5 * ew < 3 * nozzle_diameter && is_width_channel(
                    *extrusion_width,
                    ew,
                ),
                SlicerWarnings::ExtrusionWidthTooHigh { extrusion_width: ew, nozzle_diameter: nd }
                    => nd == nozzle_diameter && ew > 2 * nozzle_diameter && is_width_channel(
                    *extrusion_width,
                    ew,
                ),
                _ => false,
            },
            _ => true,
        }),
        r is Error ==> false,
{
    let widths: [i64; 9] = [
        extrusion_width.infill,
        extrusion_width.solid_top_infill,
        extrusion_width.solid_infill,
        extrusion_width.bridge,
        extrusion_width.support,
        extrusion_width.interior_surface_perimeter,
        extrusion_width.interior_inner_perimeter,
        extrusion_width.exterior_inner_perimeter,
        extrusion_width.exterior_surface_perimeter,
    ];
    let mut i: usize = 0;
    while i < 9
        invariant
            i <= 9,
            widths@.len() == 9,
            widths@[0] == extrusion_width.infill,
            widths@[1] == extrusion_width.solid_top_infill,
            widths@[2] == extrusion_width.solid_infill,
            widths@[3] == extrusion_width.bridge,
            widths@[4] == extrusion_width.support,
            widths@[5] == extrusion_width.interior_surface_perimeter,
            widths@[6] == extrusion_width.interior_inner_perimeter,
            widths@[7] == extrusion_width.exterior_inner_perimeter,
            widths@[8] == extrusion_width.exterior_surface_perimeter,
            forall|k: int| 0 <= k < i ==> extrusion_ok(#[trigger] widths@[k], nozzle_diameter),
        decreases 9 - i,
    {
        let c = extrusion_class(widths[i], nozzle_diameter);
        if c == 1 {
            return SettingsValidationResult::Warning(
                SlicerWarnings::ExtrusionWidthTooLow {
                    extrusion_width: widths[i],
                    nozzle_diameter,
                },
            );
        } else if c == 2 {
            return SettingsValidationResult::Warning(
                SlicerWarnings::ExtrusionWidthTooHigh {
                    extrusion_width: widths[i],
                    nozzle_diameter,
                },
            );
        }
        i = i + 1;
    }
    SettingsValidationResult::NoIssue
}

/// Checks every extruding channel's speed against its acceleration and the
/// bed.
pub fn check_accelerations(
    acceleration: &MovementParameter,
    speed: &MovementParameter,
    min_bed_dimension: i64,
) -> (r: SettingsValidationResult)
    ensures
        (r == SettingsValidationResult::NoIssue) <==> accels_ok(
            *acceleration,
            *speed,
            min_bed_dimension,
        ),
        (match r {
            SettingsValidationResult::Warning(w) => match w {
                SlicerWarnings::AccelerationTooLow { acceleration: a, speed: sp, bed_size } =>
                    bed_size == min_bed_dimension && accel_too_low(sp, a, bed_size)
                    && is_accel_pair(*acceleration, *speed, a, sp),
                _ => false,
            },
            _ => true,
        }),
        r is Error ==> false,
{
    let accels: [i64; 9] = [
        acceleration.infill,
        acceleration.solid_top_infill,
        acceleration.solid_infill,
        acceleration.bridge,
        acceleration.support,
        acceleration.interior_surface_perimeter,
        acceleration.interior_inner_perimeter,
        acceleration.exterior_inner_perimeter,
        acceleration.exterior_surface_perimeter,
    ];
    let speeds: [i64; 9] = [
        speed.infill,
        speed.solid_top_infill,
        speed.solid_infill,
        speed.bridge,
        speed.support,
        speed.interior_surface_perimeter,
        speed.interior_inner_perimeter,
        speed.exterior_inner_perimeter,
        speed.exterior_surface_perimeter,
    ];
    let mut i: usize = 0;
    while i < 9
        invariant
            i <= 9,
            accels@.len() == 9,
            speeds@.len() == 9,
            accels@[0] == acceleration.infill && speeds@[0] == speed.infill,
            accels@[1] == acceleration.solid_top_infill && speeds@[1] == speed.solid_top_infill,
            accels@[2] == acceleration.solid_infill && speeds@[2] == speed.solid_infill,
            accels@[3] == acceleration.bridge && speeds@[3] == speed.bridge,
            accels@[4] == acceleration.support && speeds@[4] == speed.support,
            accels@[5] == acceleration.interior_surface_perimeter && speeds@[5]
                == speed.interior_surface_perimeter,
            accels@[6] == acceleration.interior_inner_perimeter && speeds@[6]
                == speed.interior_inner_perimeter,
            accels@[7] == acceleration.exterior_inner_perimeter && speeds@[7]
                == speed.exterior_inner_perimeter,
            accels@[8] == acceleration.exterior_surface_perimeter && speeds@[8]
                == speed.exterior_surface_perimeter,
            forall|k: int|
                0 <= k < i ==> !accel_too_low(
                    #[trigger] speeds@[k],
                    accels@[k],
                    min_bed_dimension,
                ),
        decreases 9 - i,
    {
        if accel_warn(speeds[i], accels[i], min_bed_dimension) {
            return SettingsValidationResult::Warning(
                SlicerWarnings::AccelerationTooLow {
                    acceleration: accels[i],
                    speed: speeds[i],
                    bed_size: min_bed_dimension,
                },
            );
        }
        i = i + 1;
    }
    SettingsValidationResult::NoIssue
}

} // verus!
