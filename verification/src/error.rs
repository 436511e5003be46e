//! The errors that the filter operations report.

use vstd::prelude::*;

verus! {

/// One of the six parameters of a filter configuration.
#[derive(Clone, Copy, Debug, PartialEq, Eq, Structural)]
pub enum ConfigField {
    Brightness,
    Gamma,
    Contrast,
    RedScale,
    GreenScale,
    BlueScale,
}

/// A device on which a read or a write failed, with the cause the device layer gave.
#[derive(Clone, Debug, PartialEq, Eq)]
pub struct DeviceFailure {
    pub device: String,
    pub cause: String,
}

/// Why a filter operation was refused or failed.
#[derive(Clone, Debug, PartialEq, Eq)]
pub enum FilterError {
    /// A configuration parameter lies outside its domain. `field` is the first
    /// such parameter and `value` what it holds, in millionths.
    InvalidConfig { field: ConfigField, value: i32 },
    /// No preset has the requested id.
    NotFound,
    /// The hotkey already belongs to the preset `preset_id`.
    Conflict { hotkey: String, preset_id: String },
    /// Built-in presets cannot be deleted.
    CannotDeleteDefault,
    /// A preset is stored under the id already.
    DuplicateId { preset_id: String },
    /// A catalogue breaks its rules: a preset is stored under another id
    /// than its own, a configuration is outside its domains, two presets
    /// hold the same hotkey, or the active id names no preset.
    InvalidCatalogue,
    /// An operation on devices was given no device.
    NoDevicesSelected,
    /// Fewer active displays are attached than the requested index needs.
    MonitorNotFound { index: usize },
    /// A read or write on a single device failed.
    DeviceError { device: String, cause: String },
    /// Some devices of a multi-device operation failed. The devices in
    /// `succeeded` keep what was written to them.
    PartialFailure { succeeded: Vec<String>, failed: Vec<DeviceFailure> },
}

/// The mathematical value of a `DeviceFailure`.
pub struct DeviceFailureView {
    pub device: Seq<char>,
    pub cause: Seq<char>,
}

impl View for DeviceFailure {
    type V = DeviceFailureView;

    open spec fn view(&self) -> DeviceFailureView {
        DeviceFailureView { device: self.device@, cause: self.cause@ }
    }
}

/// The mathematical value of a `FilterError`.
pub enum FilterErrorView {
    InvalidConfig { field: ConfigField, value: i32 },
    NotFound,
    Conflict { hotkey: Seq<char>, preset_id: Seq<char> },
    CannotDeleteDefault,
    DuplicateId { preset_id: Seq<char> },
    InvalidCatalogue,
    NoDevicesSelected,
    MonitorNotFound { index: usize },
    DeviceError { device: Seq<char>, cause: Seq<char> },
    PartialFailure { succeeded: Seq<Seq<char>>, failed: Seq<DeviceFailureView> },
}

/// The texts that the strings of `names` hold.
pub open spec fn texts(names: Seq<String>) -> Seq<Seq<char>> {
    names.map_values(|name: String| name@)
}

/// The values of `failures`.
pub open spec fn failure_views(failures: Seq<DeviceFailure>) -> Seq<DeviceFailureView> {
    failures.map_values(|failure: DeviceFailure| failure@)
}

impl View for FilterError {
    type V = FilterErrorView;

    open spec fn view(&self) -> FilterErrorView {
        match *self {
            FilterError::InvalidConfig { field, value } => FilterErrorView::InvalidConfig {
                field,
                value,
            },
            FilterError::NotFound => FilterErrorView::NotFound,
            FilterError::Conflict { hotkey, preset_id } => FilterErrorView::Conflict {
                hotkey: hotkey@,
                preset_id: preset_id@,
            },
            FilterError::CannotDeleteDefault => FilterErrorView::CannotDeleteDefault,
            FilterError::DuplicateId { preset_id } => FilterErrorView::DuplicateId {
                preset_id: preset_id@,
            },
            FilterError::InvalidCatalogue => FilterErrorView::InvalidCatalogue,
            FilterError::NoDevicesSelected => FilterErrorView::NoDevicesSelected,
            FilterError::MonitorNotFound { index } => FilterErrorView::MonitorNotFound { index },
            FilterError::DeviceError { device, cause } => FilterErrorView::DeviceError {
                device: device@,
                cause: cause@,
            },
            FilterError::PartialFailure { succeeded, failed } => FilterErrorView::PartialFailure {
                succeeded: texts(succeeded@),
                failed: failure_views(failed@),
            },
        }
    }
}

/// The mathematical value of the result of an operation that gives nothing back.
pub open spec fn outcome_view(result: Result<(), FilterError>) -> Result<(), FilterErrorView> {
    match result {
        Ok(()) => Ok(()),
        Err(error) => Err(error@),
    }
}

} // verus!
