//! Display colour filters: presets of brightness, contrast, gamma and channel
//! gains, the lookup tables they produce, and the controller that applies the
//! tables to display devices and restores what the devices showed before.
//!
//! Parameters are held in millionths, intensities as numerators over fixed
//! scales, and device accesses are left to the caller: a `DeviceJob` says
//! which display to read or write next, and takes in what the access gave.

pub mod collection;
pub mod error;
pub mod gamma_ramp;
pub mod manager;
pub mod monitor;
pub mod string_map;
pub mod types;

pub use collection::PresetCollection;
pub use error::{ConfigField, DeviceFailure, FilterError};
pub use gamma_ramp::{
    Capture, DeviceAction, DeviceEvent, DeviceJob, Followup, GammaCurve, GammaRamp,
    GammaRampController, PlannedWrite,
};
pub use manager::FilterManager;
pub use monitor::{
    enumerate_monitors, get_monitor_device_name, AdapterRecord, MonitorInfo, MonitorRecord,
};
pub use string_map::StringMap;
pub use types::{FilterConfig, FilterPreset};
