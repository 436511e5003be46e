use screen_filter::{FilterConfig, GammaCurve, GammaRamp};

fn gamma_curve(config: &FilterConfig) -> GammaCurve {
    let mut curve = [0u32; 256];
    let gamma = config.gamma as f64 / 1_000_000.0;
    for i in 0..256 {
        let contrasted = config.contrasted_level(i) as f64 / 510_000_000.0;
        let corrected = contrasted.powf(1.0 / gamma);
        curve[i] = (corrected * 4_294_967_295.0).round() as u32;
    }
    GammaCurve::new(curve).unwrap()
}

#[test]
fn test_gamma_ramp_default() {
    let ramp = GammaRamp::default();
    assert_eq!(ramp.red[0], 0);
    assert_eq!(ramp.red[255], 65280);
}

#[test]
fn test_gamma_ramp_from_config() {
    let config = FilterConfig::default();
    let ramp = GammaRamp::from_config(&config, &gamma_curve(&config));
    assert!(ramp.red[128] > 30000 && ramp.red[128] < 35000);
}

#[test]
fn default_ramp_is_linear_in_every_channel() {
    let ramp = GammaRamp::default();
    for i in 0..256usize {
        assert_eq!(ramp.red[i] as usize, 256 * i);
        assert_eq!(ramp.green[i] as usize, 256 * i);
        assert_eq!(ramp.blue[i] as usize, 256 * i);
    }
}

#[test]
fn neutral_config_gives_the_full_sixteen_bit_range() {
    let config = FilterConfig::default();
    let ramp = GammaRamp::from_config(&config, &gamma_curve(&config));
    assert_eq!(ramp.red[0], 0);
    assert_eq!(ramp.red[1], 257);
    assert_eq!(ramp.red[127], 32639);
    assert_eq!(ramp.red[128], 32896);
    assert_eq!(ramp.red[255], 65535);
    assert_eq!(ramp.green, ramp.red);
    assert_eq!(ramp.blue, ramp.red);
}

#[test]
fn from_config_applies_each_channel_scale_to_its_channel() {
    let config = FilterConfig {
        brightness: 100_000,
        gamma: 1_300_000,
        contrast: 0,
        red_scale: 1_000_000,
        green_scale: 1_000_000,
        blue_scale: 950_000,
    };
    let ramp = GammaRamp::from_config(&config, &gamma_curve(&config));
    assert_eq!(ramp.red[0], 6554);
    assert_eq!(ramp.blue[0], 6226);
    assert_eq!(ramp.red[255], 65535);
    assert_eq!(ramp.blue[255], 62258);
    assert_eq!(ramp.green, ramp.red);
    for i in 0..256 {
        assert!(ramp.blue[i] <= ramp.red[i]);
    }
}

#[test]
fn from_config_uses_the_curve_entry_of_each_level() {
    let config = FilterConfig::default();
    let mut values = [0u32; 256];
    for i in 9..256 {
        values[i] = 2_147_483_647;
    }
    for i in 200..256 {
        values[i] = u32::MAX;
    }
    let curve = GammaCurve::new(values).unwrap();
    assert_eq!(curve.values(), &values);
    let ramp = GammaRamp::from_config(&config, &curve);
    for i in 0..256 {
        let expected = config.calculate_color_value(config.red_scale, values[i]);
        assert_eq!(ramp.red[i], expected);
    }
    assert_eq!(ramp.red[8], 0);
    assert_eq!(ramp.red[9], 32767);
    assert_eq!(ramp.red[199], 32767);
    assert_eq!(ramp.red[200], 65535);
}

#[test]
fn a_curve_that_falls_is_no_gamma_curve() {
    let mut values = [7u32; 256];
    assert!(GammaCurve::new(values).is_some());
    values[100] = 6;
    assert!(GammaCurve::new(values).is_none());
    values[100] = 8;
    assert!(GammaCurve::new(values).is_none());
    for i in 100..256 {
        values[i] = 8;
    }
    assert!(GammaCurve::new(values).is_some());
    values[255] = 7;
    assert!(GammaCurve::new(values).is_none());
    values[255] = 8;
    values[0] = 9;
    assert!(GammaCurve::new(values).is_none());
}

#[test]
fn the_table_of_a_valid_config_never_falls() {
    let configs = [
        FilterConfig::default(),
        FilterConfig {
            brightness: -600_000,
            gamma: 3_500_000,
            contrast: -500_000,
            red_scale: 500_000,
            green_scale: 1_300_000,
            blue_scale: 2_000_000,
        },
        FilterConfig {
            brightness: 700_000,
            gamma: 500_000,
            contrast: 500_000,
            red_scale: 2_000_000,
            green_scale: 900_000,
            blue_scale: 500_000,
        },
    ];
    for config in configs.iter() {
        assert!(config.validate().is_ok());
        let ramp = GammaRamp::from_config(config, &gamma_curve(config));
        for i in 0..255 {
            assert!(ramp.red[i] <= ramp.red[i + 1]);
            assert!(ramp.green[i] <= ramp.green[i + 1]);
            assert!(ramp.blue[i] <= ramp.blue[i + 1]);
        }
    }
}

#[test]
fn level_zero_is_never_above_level_255_for_valid_configs() {
    let brightnesses = [-999_999, -500_000, 0, 500_000, 1_000_000];
    let gammas = [500_000, 1_000_000, 2_000_000, 3_500_000];
    let contrasts = [-500_000, 0, 250_000, 500_000];
    let scales = [500_000, 1_000_000, 2_000_000];
    for &brightness in brightnesses.iter() {
        for &gamma in gammas.iter() {
            for &contrast in contrasts.iter() {
                for &scale in scales.iter() {
                    let config = FilterConfig {
                        brightness,
                        gamma,
                        contrast,
                        red_scale: scale,
                        green_scale: scale,
                        blue_scale: scale,
                    };
                    assert!(config.validate().is_ok());
                    let ramp = GammaRamp::from_config(&config, &gamma_curve(&config));
                    assert!(ramp.red[0] <= ramp.red[255]);
                    assert!(ramp.green[0] <= ramp.green[255]);
                    assert!(ramp.blue[0] <= ramp.blue[255]);
                }
            }
        }
    }
}
