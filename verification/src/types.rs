//! Filter configurations, the colour curve they describe, presets and the
//! preset catalogue.

use crate::error::{ConfigField, FilterError};
use vstd::prelude::*;

verus! {

/// One whole, in the millionths in which configuration parameters are held.
pub const UNIT: i32 = 1_000_000;

/// The least brightness, -1.
pub const BRIGHTNESS_MIN: i32 = -1_000_000;

/// The greatest brightness, 1.
pub const BRIGHTNESS_MAX: i32 = 1_000_000;

/// The least gamma, 0.5.
pub const GAMMA_MIN: i32 = 500_000;

/// The greatest gamma, 3.5.
pub const GAMMA_MAX: i32 = 3_500_000;

/// The least contrast, -0.5.
pub const CONTRAST_MIN: i32 = -500_000;

/// The greatest contrast, 0.5.
pub const CONTRAST_MAX: i32 = 500_000;

/// The least channel scale, 0.5.
pub const SCALE_MIN: i32 = 500_000;

/// The greatest channel scale, 2.
pub const SCALE_MAX: i32 = 2_000_000;

/// Full intensity of a contrast-adjusted level: `contrasted_level` gives
/// numerators over this.
pub const CONTRAST_SCALE: u32 = 510_000_000;

/// Full intensity of a gamma-corrected level: `calculate_color_value` takes
/// numerators over this.
pub const GAMMA_SCALE: u32 = 4_294_967_295;

/// The largest entry of a colour table.
pub const OUTPUT_MAX: u16 = 65535;

/// The parameters of a colour filter, each in millionths.
///
/// `brightness` is added to the intensity, in [-1, 1]. `gamma` is the
/// exponent of the curve, in [0.5, 3.5]. `contrast` is added to the slope 1
/// of the curve around mid-grey, in [-0.5, 0.5]. The three scales multiply
/// the channels, each in [0.5, 2].
#[derive(Clone, Copy, Debug, PartialEq, Eq)]
pub struct FilterConfig {
    pub brightness: i32,
    pub gamma: i32,
    pub contrast: i32,
    pub red_scale: i32,
    pub green_scale: i32,
    pub blue_scale: i32,
}

/// Whether `value` lies in the domain of `field`.
pub open spec fn in_domain(field: ConfigField, value: int) -> bool {
    match field {
        ConfigField::Brightness => BRIGHTNESS_MIN <= value <= BRIGHTNESS_MAX,
        ConfigField::Gamma => GAMMA_MIN <= value <= GAMMA_MAX,
        ConfigField::Contrast => CONTRAST_MIN <= value <= CONTRAST_MAX,
        ConfigField::RedScale => SCALE_MIN <= value <= SCALE_MAX,
        ConfigField::GreenScale => SCALE_MIN <= value <= SCALE_MAX,
        ConfigField::BlueScale => SCALE_MIN <= value <= SCALE_MAX,
    }
}

/// `value`, or the bound that it lies beyond.
pub open spec fn clamp(value: int, low: int, high: int) -> int {
    if value < low {
        low
    } else if value > high {
        high
    } else {
        value
    }
}

/// The contrast stage of the curve for input level `level` of 255, as a
/// numerator over `CONTRAST_SCALE`: the level's distance from mid-grey is
/// multiplied by 1 + contrast, and the result kept within [0, 1].
pub open spec fn contrasted(contrast: int, level: int) -> int {
    clamp((2 * level - 255) * (UNIT + contrast) + 255 * UNIT, 0, CONTRAST_SCALE as int)
}

/// The denominator of a brightened intensity.
pub open spec fn brightened_scale() -> int {
    GAMMA_SCALE * UNIT
}

/// The brightness stage: the gamma-corrected intensity plus the brightness,
/// kept within [0, 1], as a numerator over `brightened_scale()`.
pub open spec fn brightened(brightness: int, gamma_corrected: int) -> int {
    clamp(gamma_corrected * UNIT + brightness * GAMMA_SCALE, 0, brightened_scale())
}

/// The denominator of an intensity after the channel gain.
pub open spec fn gained_scale() -> int {
    GAMMA_SCALE * UNIT * UNIT
}

/// The gain stage: the brightened intensity times the channel's scale, kept
/// within [0, 1], as a numerator over `gained_scale()`.
pub open spec fn gained(brightened: int, channel_scale: int) -> int {
    clamp(brightened * channel_scale, 0, gained_scale())
}

/// An intensity over `gained_scale()` as a table entry: 65535 times the
/// intensity, rounded to the nearest integer, halves upwards.
pub open spec fn table_entry(gained: int) -> int {
    (2 * OUTPUT_MAX * gained + gained_scale()) / (2 * gained_scale())
}

/// The table entry for a gamma-corrected intensity: brightness, then the
/// channel gain, then the scaling to sixteen bits.
pub open spec fn color_value(brightness: int, channel_scale: int, gamma_corrected: int) -> int {
    table_entry(gained(brightened(brightness, gamma_corrected), channel_scale))
}

/// The denominators of the curve's stages, as numbers.
pub proof fn lemma_scales()
    ensures
        brightened_scale() == 4_294_967_295_000_000,
        gained_scale() == 4_294_967_295_000_000_000_000,
{
    assert(4_294_967_295int * 1_000_000 == 4_294_967_295_000_000) by (nonlinear_arith);
    assert(4_294_967_295int * 1_000_000 * 1_000_000 == 4_294_967_295_000_000_000_000)
        by (nonlinear_arith);
}

proof fn lemma_table_entry_form(gained: int)
    ensures
        table_entry(gained) == (131_070 * gained + 4_294_967_295_000_000_000_000)
            / 8_589_934_590_000_000_000_000,
{
    lemma_scales();
    assert(2 * OUTPUT_MAX * gained == 131_070 * gained) by (nonlinear_arith)
        requires
            OUTPUT_MAX == 65535,
    ;
}

/// Every stage of the curve keeps the intensity between nothing and full,
/// and every table entry lies between 0 and 65535, whatever the parameters,
/// the level and the intensity handed in.
pub proof fn lemma_curve_in_range(
    brightness: int,
    contrast: int,
    channel_scale: int,
    level: int,
    gamma_corrected: int,
)
    ensures
        0 <= contrasted(contrast, level) <= CONTRAST_SCALE,
        0 <= brightened(brightness, gamma_corrected) <= brightened_scale(),
        0 <= gained(brightened(brightness, gamma_corrected), channel_scale) <= gained_scale(),
        0 <= color_value(brightness, channel_scale, gamma_corrected) <= OUTPUT_MAX,
{
    lemma_scales();
    lemma_table_entry_form(gained(brightened(brightness, gamma_corrected), channel_scale));
}

/// With a slope that is not negative, a higher level never gives a lower
/// contrast-adjusted intensity. Every valid configuration has such a slope.
pub proof fn lemma_contrasted_monotone(contrast: int, lower: int, upper: int)
    requires
        -UNIT <= contrast,
        lower <= upper,
    ensures
        contrasted(contrast, lower) <= contrasted(contrast, upper),
{
    assert((2 * lower - 255) * (UNIT + contrast) <= (2 * upper - 255) * (UNIT + contrast))
        by (nonlinear_arith)
        requires
            lower <= upper,
            0 <= UNIT + contrast,
    ;
}

/// With a channel scale that is not negative, a higher gamma-corrected
/// intensity never gives a lower table entry. Every valid configuration has
/// such scales.
pub proof fn lemma_color_value_monotone(
    brightness: int,
    channel_scale: int,
    lower: int,
    upper: int,
)
    requires
        0 <= channel_scale,
        lower <= upper,
    ensures
        color_value(brightness, channel_scale, lower) <= color_value(
            brightness,
            channel_scale,
            upper,
        ),
{
    lemma_scales();
    let low = brightened(brightness, lower);
    let high = brightened(brightness, upper);
    assert(low <= high);
    assert(low * channel_scale <= high * channel_scale) by (nonlinear_arith)
        requires
            low <= high,
            0 <= channel_scale,
    ;
    assert(gained(low, channel_scale) <= gained(high, channel_scale));
    lemma_table_entry_form(gained(low, channel_scale));
    lemma_table_entry_form(gained(high, channel_scale));
}

/// Table entries rise with the level, as far as the gamma stage does: for a
/// valid configuration, and for any way `power` of taking the gamma-corrected
/// intensity from the contrast-adjusted one that never gives less for more,
/// a higher level never gives a lower table entry. So the entry of level 0
/// is never above that of level 255.
pub proof fn lemma_value_rises_with_level(
    config: FilterConfig,
    channel_scale: int,
    power: spec_fn(int) -> int,
    low: int,
    high: int,
)
    requires
        config.is_valid(),
        0 <= channel_scale,
        low <= high,
        forall|less: int, more: int| less <= more ==> #[trigger] power(less) <= #[trigger] power(more),
    ensures
        color_value(
            config.brightness as int,
            channel_scale,
            power(contrasted(config.contrast as int, low)),
        ) <= color_value(
            config.brightness as int,
            channel_scale,
            power(contrasted(config.contrast as int, high)),
        ),
{
    lemma_contrasted_monotone(config.contrast as int, low, high);
    lemma_color_value_monotone(
        config.brightness as int,
        channel_scale,
        power(contrasted(config.contrast as int, low)),
        power(contrasted(config.contrast as int, high)),
    );
}

/// The neutral configuration maps full intensity to the largest table
/// entry and no intensity to 0.
pub proof fn lemma_neutral_endpoints()
    ensures
        neutral_config().is_valid(),
        color_value(0, UNIT as int, 0) == 0,
        color_value(0, UNIT as int, GAMMA_SCALE as int) == OUTPUT_MAX,
{
    lemma_scales();
    assert(4_294_967_295_000_000int * 1_000_000 == 4_294_967_295_000_000_000_000)
        by (nonlinear_arith);
    assert(4_294_967_295int * 1_000_000 + 0 * 4_294_967_295 == 4_294_967_295_000_000)
        by (nonlinear_arith);
    lemma_table_entry_form(0);
    lemma_table_entry_form(4_294_967_295_000_000_000_000);
}

impl FilterConfig {
    /// What the parameter `field` holds.
    pub open spec fn field_value(&self, field: ConfigField) -> i32 {
        match field {
            ConfigField::Brightness => self.brightness,
            ConfigField::Gamma => self.gamma,
            ConfigField::Contrast => self.contrast,
            ConfigField::RedScale => self.red_scale,
            ConfigField::GreenScale => self.green_scale,
            ConfigField::BlueScale => self.blue_scale,
        }
    }

    /// The parameter `field` lies in its domain.
    pub open spec fn field_ok(&self, field: ConfigField) -> bool {
        in_domain(field, self.field_value(field) as int)
    }

    /// Every parameter lies in its domain.
    pub open spec fn is_valid(&self) -> bool {
        &&& self.field_ok(ConfigField::Brightness)
        &&& self.field_ok(ConfigField::Gamma)
        &&& self.field_ok(ConfigField::Contrast)
        &&& self.field_ok(ConfigField::RedScale)
        &&& self.field_ok(ConfigField::GreenScale)
        &&& self.field_ok(ConfigField::BlueScale)
    }

    /// The first parameter outside its domain, in the order brightness,
    /// gamma, contrast, red, green, blue.
    pub open spec fn first_invalid(&self) -> Option<ConfigField> {
        if !self.field_ok(ConfigField::Brightness) {
            Some(ConfigField::Brightness)
        } else if !self.field_ok(ConfigField::Gamma) {
            Some(ConfigField::Gamma)
        } else if !self.field_ok(ConfigField::Contrast) {
            Some(ConfigField::Contrast)
        } else if !self.field_ok(ConfigField::RedScale) {
            Some(ConfigField::RedScale)
        } else if !self.field_ok(ConfigField::GreenScale) {
            Some(ConfigField::GreenScale)
        } else if !self.field_ok(ConfigField::BlueScale) {
            Some(ConfigField::BlueScale)
        } else {
            None
        }
    }

    /// What `validate` answers.
    pub open spec fn validation(&self) -> Result<(), FilterError> {
        match self.first_invalid() {
            Some(field) => Err(
                FilterError::InvalidConfig { field, value: self.field_value(field) },
            ),
            None => Ok(()),
        }
    }

    /// Accepts the configuration if all six parameters lie in their domains,
    /// and otherwise names the first that does not.
    pub fn validate(&self) -> (result: Result<(), FilterError>)
        ensures
            result is Ok <==> self.is_valid(),
            result == self.validation(),
    {
        if self.brightness < BRIGHTNESS_MIN || self.brightness > BRIGHTNESS_MAX {
            return Err(
                FilterError::InvalidConfig {
                    field: ConfigField::Brightness,
                    value: self.brightness,
                },
            );
        }
        if self.gamma < GAMMA_MIN || self.gamma > GAMMA_MAX {
            return Err(FilterError::InvalidConfig { field: ConfigField::Gamma, value: self.gamma });
        }
        if self.contrast < CONTRAST_MIN || self.contrast > CONTRAST_MAX {
            return Err(
                FilterError::InvalidConfig { field: ConfigField::Contrast, value: self.contrast },
            );
        }
        if self.red_scale < SCALE_MIN || self.red_scale > SCALE_MAX {
            return Err(
                FilterError::InvalidConfig { field: ConfigField::RedScale, value: self.red_scale },
            );
        }
        if self.green_scale < SCALE_MIN || self.green_scale > SCALE_MAX {
            return Err(
                FilterError::InvalidConfig {
                    field: ConfigField::GreenScale,
                    value: self.green_scale,
                },
            );
        }
        if self.blue_scale < SCALE_MIN || self.blue_scale > SCALE_MAX {
            return Err(
                FilterError::InvalidConfig {
                    field: ConfigField::BlueScale,
                    value: self.blue_scale,
                },
            );
        }
        Ok(())
    }

    /// The contrast-adjusted intensity of input level `index` of 255, as a
    /// numerator over `CONTRAST_SCALE`. Raising it to the power 1 / gamma
    /// gives the gamma-corrected intensity that `calculate_color_value` takes.
    pub fn contrasted_level(&self, index: usize) -> (level: u32)
        ensures
            level == contrasted(self.contrast as int, index as int),
    {
        let offset: i128 = 2 * (index as i128) - 255;
        let slope: i128 = UNIT as i128 + self.contrast as i128;
        assert(-0x2_0000_0000_0000_0000_0000_0000 <= offset * slope
            <= 0x2_0000_0000_0000_0000_0000_0000) by (nonlinear_arith)
            requires
                -255 <= offset <= 0x2_0000_0000_0000_0000,
                -0x1_0000_0000 <= slope <= 0x1_0000_0000,
        ;
        let raised: i128 = offset * slope + 255 * (UNIT as i128);
        if raised < 0 {
            0
        } else if raised > CONTRAST_SCALE as i128 {
            CONTRAST_SCALE
        } else {
            raised as u32
        }
    }

    /// The table entry of a channel for a gamma-corrected intensity, given as
    /// a numerator over `GAMMA_SCALE`: the brightness is added, the sum
    /// multiplied by the channel's scale, and the product scaled to sixteen
    /// bits. Each stage keeps the intensity within [0, 1].
    pub fn calculate_color_value(&self, channel_scale: i32, gamma_corrected: u32) -> (value: u16)
        ensures
            value == color_value(
                self.brightness as int,
                channel_scale as int,
                gamma_corrected as int,
            ),
    {
        let full: i128 = (GAMMA_SCALE as i128) * (UNIT as i128);
        let sum: i128 = (gamma_corrected as i128) * (UNIT as i128) + (self.brightness as i128) * (
        GAMMA_SCALE as i128);
        let bright: i128 = if sum < 0 {
            0
        } else if sum > full {
            full
        } else {
            sum
        };
        assert(bright == brightened(self.brightness as int, gamma_corrected as int));
        let whole: i128 = full * (UNIT as i128);
        assert(whole == gained_scale() == 4_294_967_295_000_000_000_000) by (nonlinear_arith)
            requires
                whole == full * 1_000_000,
                full == 4_294_967_295 * 1_000_000,
                gained_scale() == 4_294_967_295 * 1_000_000 * 1_000_000,
        ;
        assert(-0x1_0000_0000_0000_0000_0000_0000 <= bright * (channel_scale as i128)
            <= 0x1_0000_0000_0000_0000_0000_0000) by (nonlinear_arith)
            requires
                0 <= bright <= 0x1_0000_0000_0000_0000,
                -0x1_0000_0000 <= channel_scale <= 0x1_0000_0000,
        ;
        let product: i128 = bright * (channel_scale as i128);
        let gain: i128 = if product < 0 {
            0
        } else if product > whole {
            whole
        } else {
            product
        };
        assert(gain == gained(bright as int, channel_scale as int));
        let entry: i128 = (131_070 * gain + whole) / (2 * whole);
        assert(2 * OUTPUT_MAX * gain == 131_070 * gain) by (nonlinear_arith)
            requires
                OUTPUT_MAX == 65535,
        ;
        assert(entry == table_entry(gain as int));
        entry as u16
    }
}

impl Default for FilterConfig {
    /// The configuration that leaves colours as they are.
    fn default() -> (config: Self)
        ensures
            config == neutral_config(),
    {
        FilterConfig {
            brightness: 0,
            gamma: UNIT,
            contrast: 0,
            red_scale: UNIT,
            green_scale: UNIT,
            blue_scale: UNIT,
        }
    }
}

/// The configuration that leaves colours as they are: no brightness offset,
/// gamma 1, no contrast change, every channel at scale 1.
pub open spec fn neutral_config() -> FilterConfig {
    FilterConfig {
        brightness: 0,
        gamma: UNIT,
        contrast: 0,
        red_scale: UNIT,
        green_scale: UNIT,
        blue_scale: UNIT,
    }
}

/// A named filter configuration, with the hotkey that applies it.
#[derive(Debug, PartialEq, Eq)]
pub struct FilterPreset {
    /// Identifies the preset in the catalogue.
    pub id: String,
    pub name: String,
    pub hotkey: Option<String>,
    pub config: FilterConfig,
    /// Built-in presets cannot be deleted.
    pub is_default: bool,
}

/// The mathematical value of a `FilterPreset`.
pub struct PresetView {
    pub id: Seq<char>,
    pub name: Seq<char>,
    pub hotkey: Option<Seq<char>>,
    pub config: FilterConfig,
    pub is_default: bool,
}

/// The text that an optional string holds.
pub open spec fn optional_text(text: Option<String>) -> Option<Seq<char>> {
    match text {
        Some(text) => Some(text@),
        None => None,
    }
}

impl View for FilterPreset {
    type V = PresetView;

    open spec fn view(&self) -> PresetView {
        PresetView {
            id: self.id@,
            name: self.name@,
            hotkey: optional_text(self.hotkey),
            config: self.config,
            is_default: self.is_default,
        }
    }
}

fn copy_optional_text(text: &Option<String>) -> (copy: Option<String>)
    ensures
        copy == *text,
{
    match text {
        Some(text) => Some(text.clone()),
        None => None,
    }
}

impl Clone for FilterPreset {
    fn clone(&self) -> (copy: Self)
        ensures
            copy == *self,
    {
        FilterPreset {
            id: self.id.clone(),
            name: self.name.clone(),
            hotkey: copy_optional_text(&self.hotkey),
            config: self.config,
            is_default: self.is_default,
        }
    }
}

impl FilterPreset {
    /// A preset of the user's own, without a hotkey.
    pub fn new(id: String, name: String, config: FilterConfig) -> (preset: Self)
        ensures
            preset == (FilterPreset { id, name, hotkey: None, config, is_default: false }),
    {
        FilterPreset { id, name, hotkey: None, config, is_default: false }
    }

    /// A built-in preset.
    pub fn new_default(id: String, name: String, hotkey: Option<String>, config: FilterConfig) -> (preset:
        Self)
        ensures
            preset == (FilterPreset { id, name, hotkey, config, is_default: true }),
    {
        FilterPreset { id, name, hotkey, config, is_default: true }
    }
}

} // verus!
