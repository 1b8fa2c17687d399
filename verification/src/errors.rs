//! The error and warning taxonomy of the pipeline.  Every failure is
//! non-recoverable and surfaces to the caller; warnings are reported and the
//! pipeline continues.

use vstd::prelude::*;

verus! {

/// An axis of the print volume.
#[derive(Clone, Copy, Debug, PartialEq, Eq, Structural)]
pub enum Axis {
    /// The X axis.
    X,
    /// The Y axis.
    Y,
    /// The Z axis.
    Z,
}

/// The pipeline's failures.
#[derive(Clone, Debug, PartialEq)]
pub enum SlicerErrors {
    /// A model file could not be found.
    ObjectFileNotFound {
        /// Path of the missing file.
        filepath: String,
    },
    /// A model file's extension names no supported format.
    FileFormatNotSupported {
        /// Path of the rejected file.
        filepath: String,
    },
    /// The STL parser failed.
    StlLoadError,
    /// The 3MF parser failed.
    ThreeMFLoadError,
    /// The input object specification could not be read.
    InputMisformat,
    /// The input was not valid UTF-8.
    InputNotUTF8,
    /// A triangle of a model names a vertex that the model does not have.
    TriangleIndexOutOfBounds,
    /// A setting that must be strictly positive is not.
    SettingLessThanOrEqualToZero {
        /// Name of the setting.
        setting: String,
        /// The offending value, in fixed-point units.
        value: i64,
    },
    /// A setting that must be non-negative is not.
    SettingLessThanZero {
        /// Name of the setting.
        setting: String,
        /// The offending value, in fixed-point units.
        value: i64,
    },
    /// A required setting is absent after the settings files merge.
    SettingsFileMissingSettings {
        /// Name of the missing setting.
        missing_setting: String,
    },
    /// A settings file could not be parsed.
    SettingsFileMisformat {
        /// Path of the rejected file.
        filepath: String,
    },
    /// A settings file named by another settings file could not be loaded.
    SettingsRecursiveLoadError {
        /// Path of the file that failed.
        filepath: String,
    },
    /// A model's bounding box leaves the print volume.
    ModelOutsideBounds {
        /// The axis on which the model leaves the volume.
        axis: Axis,
    },
    /// A planned motion leaves the print volume.
    MovesOutsideBounds {
        /// The axis on which the motion leaves the volume.
        axis: Axis,
    },
    /// The mesh is non-manifold: the sweep reached a height where a ring of
    /// its surface does not close.
    TowerGeneration,
    /// Writing to the output sink failed.
    SinkError,
    /// An instruction template failed to evaluate.
    MacroParseError,
}

impl SlicerErrors {
    /// The error's stable code and human-readable message.
    pub fn get_code_and_message(&self) -> (r: (u64, &'static str))
        ensures
            r.0 == self.code_spec(),
    {
        match self {
            SlicerErrors::ObjectFileNotFound { .. } => (0x1000, "A model file could not be found."),
            SlicerErrors::FileFormatNotSupported { .. } => (
                0x1001,
                "The model file's format is not supported.",
            ),
            SlicerErrors::StlLoadError => (0x1002, "The STL file could not be parsed."),
            SlicerErrors::ThreeMFLoadError => (0x1003, "The 3MF file could not be parsed."),
            SlicerErrors::InputMisformat => (
                0x1004,
                "The input object specification could not be read.",
            ),
            SlicerErrors::InputNotUTF8 => (0x1005, "The input was not valid UTF-8."),
            SlicerErrors::TriangleIndexOutOfBounds => (
                0x1006,
                "A triangle names a vertex that the model does not have.",
            ),
            SlicerErrors::SettingLessThanOrEqualToZero { .. } => (
                0x2000,
                "A setting that must be strictly positive is zero or negative.",
            ),
            SlicerErrors::SettingLessThanZero { .. } => (
                0x2001,
                "A setting that must be non-negative is negative.",
            ),
            SlicerErrors::SettingsFileMissingSettings { .. } => (
                0x2002,
                "A required setting is missing after the settings files merge.",
            ),
            SlicerErrors::SettingsFileMisformat { .. } => (
                0x2003,
                "A settings file could not be parsed.",
            ),
            SlicerErrors::SettingsRecursiveLoadError { .. } => (
                0x2004,
                "A settings file named by another settings file could not be loaded.",
            ),
            SlicerErrors::ModelOutsideBounds { .. } => (
                0x3000,
                "The model does not fit inside the print volume.",
            ),
            SlicerErrors::MovesOutsideBounds { .. } => (
                0x3001,
                "A planned motion leaves the print volume.",
            ),
            SlicerErrors::TowerGeneration => (
                0x4000,
                "The mesh is non-manifold: a surface ring does not close.",
            ),
            SlicerErrors::SinkError => (0x5000, "Writing to the output sink failed."),
            SlicerErrors::MacroParseError => (
                0x5001,
                "An instruction template failed to evaluate.",
            ),
        }
    }

    /// The error's stable code.
    pub open spec fn code_spec(self) -> u64 {
        match self {
            SlicerErrors::ObjectFileNotFound { .. } => 0x1000,
            SlicerErrors::FileFormatNotSupported { .. } => 0x1001,
            SlicerErrors::StlLoadError => 0x1002,
            SlicerErrors::ThreeMFLoadError => 0x1003,
            SlicerErrors::InputMisformat => 0x1004,
            SlicerErrors::InputNotUTF8 => 0x1005,
            SlicerErrors::TriangleIndexOutOfBounds => 0x1006,
            SlicerErrors::SettingLessThanOrEqualToZero { .. } => 0x2000,
            SlicerErrors::SettingLessThanZero { .. } => 0x2001,
            SlicerErrors::SettingsFileMissingSettings { .. } => 0x2002,
            SlicerErrors::SettingsFileMisformat { .. } => 0x2003,
            SlicerErrors::SettingsRecursiveLoadError { .. } => 0x2004,
            SlicerErrors::ModelOutsideBounds { .. } => 0x3000,
            SlicerErrors::MovesOutsideBounds { .. } => 0x3001,
            SlicerErrors::TowerGeneration => 0x4000,
            SlicerErrors::SinkError => 0x5000,
            SlicerErrors::MacroParseError => 0x5001,
        }
    }
}

/// The pipeline's non-fatal findings.
#[derive(Clone, Copy, Debug, PartialEq, Eq, Structural)]
pub enum SlicerWarnings {
    /// The layer height is below a fifth of the nozzle diameter.
    LayerSizeTooLow {
        /// The offending layer height, in units.
        layer_height: i64,
        /// The nozzle diameter, in units.
        nozzle_diameter: i64,
    },
    /// The layer height is above four fifths of the nozzle diameter.
    LayerSizeTooHigh {
        /// The offending layer height, in units.
        layer_height: i64,
        /// The nozzle diameter, in units.
        nozzle_diameter: i64,
    },
    /// An extrusion width is below six tenths of the nozzle diameter.
    ExtrusionWidthTooLow {
        /// The offending width, in units.
        extrusion_width: i64,
        /// The nozzle diameter, in units.
        nozzle_diameter: i64,
    },
    /// An extrusion width is above twice the nozzle diameter.
    ExtrusionWidthTooHigh {
        /// The offending width, in units.
        extrusion_width: i64,
        /// The nozzle diameter, in units.
        nozzle_diameter: i64,
    },
    /// The printer cannot reach a movement type's target speed inside the
    /// bed with its configured acceleration.
    AccelerationTooLow {
        /// The configured acceleration, scaled.
        acceleration: i64,
        /// The configured speed, scaled.
        speed: i64,
        /// The smaller bed dimension, in units.
        bed_size: i64,
    },
    /// The skirt would overlap the brim.
    SkirtAndBrimOverlap {
        /// The skirt's distance from the model, in units.
        skirt_distance: i64,
        /// The brim's width, in units.
        brim_width: i64,
    },
    /// The extruder temperature is suspiciously low.
    NozzleTemperatureTooLow {
        /// The temperature, scaled thousandths of a degree.
        temp: i64,
    },
    /// The extruder temperature is suspiciously high.
    NozzleTemperatureTooHigh {
        /// The temperature, scaled thousandths of a degree.
        temp: i64,
    },
}

impl SlicerWarnings {
    /// The warning's stable code and human-readable message.
    pub fn get_code_and_message(&self) -> (r: (u64, &'static str))
        ensures
            r.0 == self.code_spec(),
    {
        match self {
            SlicerWarnings::LayerSizeTooLow { .. } => (
                0x6000,
                "The layer height is very low for this nozzle.",
            ),
            SlicerWarnings::LayerSizeTooHigh { .. } => (
                0x6001,
                "The layer height is very high for this nozzle.",
            ),
            SlicerWarnings::ExtrusionWidthTooLow { .. } => (
                0x6002,
                "An extrusion width is very low for this nozzle.",
            ),
            SlicerWarnings::ExtrusionWidthTooHigh { .. } => (
                0x6003,
                "An extrusion width is very high for this nozzle.",
            ),
            SlicerWarnings::AccelerationTooLow { .. } => (
                0x6004,
                "The printer cannot reach the target speed inside the bed.",
            ),
            SlicerWarnings::SkirtAndBrimOverlap { .. } => (
                0x6005,
                "The skirt would overlap the brim.",
            ),
            SlicerWarnings::NozzleTemperatureTooLow { .. } => (
                0x6006,
                "The extruder temperature is suspiciously low.",
            ),
            SlicerWarnings::NozzleTemperatureTooHigh { .. } => (
                0x6007,
                "The extruder temperature is suspiciously high.",
            ),
        }
    }

    /// The warning's stable code.
    pub open spec fn code_spec(self) -> u64 {
        match self {
            SlicerWarnings::LayerSizeTooLow { .. } => 0x6000,
            SlicerWarnings::LayerSizeTooHigh { .. } => 0x6001,
            SlicerWarnings::ExtrusionWidthTooLow { .. } => 0x6002,
            SlicerWarnings::ExtrusionWidthTooHigh { .. } => 0x6003,
            SlicerWarnings::AccelerationTooLow { .. } => 0x6004,
            SlicerWarnings::SkirtAndBrimOverlap { .. } => 0x6005,
            SlicerWarnings::NozzleTemperatureTooLow { .. } => 0x6006,
            SlicerWarnings::NozzleTemperatureTooHigh { .. } => 0x6007,
        }
    }
}

} // verus!
