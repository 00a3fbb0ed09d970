use olivaw::battery::curve::{cell_percent, pack_percent};
use olivaw::battery::divider::Divider;
use olivaw::battery::model::{mean_u16, AdcModel};
use olivaw::battery::monitor::{BatteryMonitor, BatteryState, MonitorConfig};

#[test]
fn endpoints_and_interpolation() {
    assert_eq!(cell_percent(4250), 100);
    assert_eq!(cell_percent(4200), 100);
    assert_eq!(cell_percent(3300), 0);
    assert_eq!(cell_percent(3000), 0);
    assert_eq!(cell_percent(3800), 50);
    let mid = cell_percent(3850 + 25); // halfway 3850→3920 is 60→70
    assert!((63..=67).contains(&mid), "{mid}");
}

#[test]
fn monotonic_over_the_whole_range() {
    let mut last = 0;
    for mv in (3000..=4300).step_by(10) {
        let p = cell_percent(mv);
        assert!(p >= last, "{mv} mV → {p} < {last}");
        last = p;
    }
}

#[test]
fn pack_uses_average_cell() {
    assert_eq!(pack_percent(12_600, 3), 100);
    assert_eq!(pack_percent(11_400, 3), 50);
    assert_eq!(pack_percent(12_600, 0), 0);
}

#[test]
fn curve_interpolates_exactly_between_breakpoints() {
    // 3875 mV: 60 + 25 * 10 / 70 = 63 (rounded down).
    assert_eq!(cell_percent(3875), 63);
    // 3475 mV: 5 + 75 * 5 / 150 = 7.
    assert_eq!(cell_percent(3475), 7);
    assert_eq!(cell_percent(4199), 99);
    assert_eq!(cell_percent(3301), 0);
    assert_eq!(cell_percent(0), 0);
    assert_eq!(cell_percent(u16::MAX), 100);
    // A pack voltage whose per-cell value exceeds u16 saturates.
    assert_eq!(pack_percent(u32::MAX, 1), 100);
}

#[test]
fn car_divider_keeps_full_3s_under_the_adc_limit() {
    let pin = Divider::car_3s().pin_mv(12_600);
    assert!((2_250..=2_300).contains(&pin), "pin {pin} mV");
    assert!(pin < 2_500);
}

#[test]
fn round_trips_within_rounding() {
    for pack in [9_000, 11_100, 12_600] {
        let back = Divider::car_3s().pack_mv(Divider::car_3s().pin_mv(pack));
        assert!(
            (i64::from(back) - i64::from(pack)).abs() <= 6,
            "{pack} → {back}"
        );
    }
}

#[test]
fn degenerate_divider_reads_zero() {
    let d = Divider {
        r_top_ohm: 0,
        r_bottom_ohm: 0,
    };
    assert_eq!(d.pack_mv(1000), 0);
    assert_eq!(d.pin_mv(1000), 0);
}

#[test]
fn divider_exact_values_and_saturation() {
    let d = Divider::car_3s();
    assert_eq!(d.pin_mv(12_600), 2272); // 12600 * 22000 / 122000
    assert_eq!(d.pack_mv(2272), 12_599); // 2272 * 122000 / 22000
    let huge = Divider {
        r_top_ohm: u32::MAX,
        r_bottom_ohm: 1,
    };
    assert_eq!(huge.pack_mv(2), u32::MAX);
}

#[test]
fn nominal_model_hits_both_calibration_points() {
    let m = AdcModel::esp32_11db_nominal();
    assert_eq!(m.pin_mv(m.raw_lo), m.mv_lo);
    assert_eq!(m.pin_mv(m.raw_hi), m.mv_hi);
}

#[test]
fn is_monotonic_and_clamps_low() {
    let m = AdcModel::esp32_11db_nominal();
    assert_eq!(m.pin_mv(0), 0);
    assert!(m.pin_mv(2000) < m.pin_mv(3000));
}

#[test]
fn degenerate_points_read_zero() {
    let m = AdcModel {
        raw_lo: 100,
        mv_lo: 0,
        raw_hi: 100,
        mv_hi: 1,
    };
    assert_eq!(m.pin_mv(4000), 0);
}

#[test]
fn adc_model_exact_values_and_falling_line() {
    let m = AdcModel::esp32_11db_nominal();
    // 150 + (2000 - 190) * 2950 / 3905 = 150 + 1367 = 1517.
    assert_eq!(m.pin_mv(2000), 1517);
    // A falling line rounds towards zero and clamps at zero.
    let falling = AdcModel {
        raw_lo: 0,
        mv_lo: 1000,
        raw_hi: 3,
        mv_hi: 0,
    };
    assert_eq!(falling.pin_mv(1), 667); // 1000 - 333
    assert_eq!(falling.pin_mv(3), 0);
    assert_eq!(falling.pin_mv(10), 0);
}

#[test]
fn mean_of_samples() {
    assert_eq!(mean_u16(&[]), 0);
    assert_eq!(mean_u16(&[10, 20, 30]), 20);
    assert_eq!(mean_u16(&[u16::MAX; 4]), u16::MAX);
}

#[test]
fn mean_rounds_down() {
    assert_eq!(mean_u16(&[1, 2]), 1);
    assert_eq!(mean_u16(&[7]), 7);
}

fn monitor() -> BatteryMonitor {
    BatteryMonitor::new(MonitorConfig {
        warn_mv: 10_500,
        critical_mv: 9_900,
        hysteresis_mv: 300,
        debounce_samples: 3,
    })
}

#[test]
fn a_single_sag_does_not_trip() {
    let mut m = monitor();
    assert_eq!(m.update(10_000), BatteryState::Normal);
    assert_eq!(m.update(11_000), BatteryState::Normal);
}

#[test]
fn sustained_low_then_recovery_with_hysteresis() {
    let mut m = monitor();
    for _ in 0..3 {
        m.update(10_400);
    }
    assert_eq!(m.state(), BatteryState::Low);
    assert_eq!(
        m.update(10_600),
        BatteryState::Low,
        "inside the hysteresis band"
    );
    assert_eq!(m.update(10_900), BatteryState::Normal);
}

#[test]
fn critical_steps_down_through_low() {
    let mut m = monitor();
    for _ in 0..3 {
        m.update(9_500);
    }
    assert_eq!(m.state(), BatteryState::Critical);
    assert_eq!(m.update(10_300), BatteryState::Low);
    assert_eq!(m.update(10_900), BatteryState::Normal);
}

#[test]
fn short_sags_interleaved_with_recovery_never_trip() {
    let mut m = monitor();
    for _ in 0..10 {
        assert_eq!(m.update(9_000), BatteryState::Normal);
        assert_eq!(m.update(9_000), BatteryState::Normal);
        assert_eq!(m.update(12_000), BatteryState::Normal);
    }
    // The third consecutive critical reading goes straight to Critical.
    m.update(9_000);
    m.update(9_000);
    assert_eq!(m.update(9_000), BatteryState::Critical);
    // Recovery from critical needs critical + hysteresis.
    assert_eq!(m.update(10_100), BatteryState::Critical);
    assert_eq!(m.update(10_200), BatteryState::Low);
}

#[test]
fn car_config_values() {
    let c = MonitorConfig::car_3s();
    assert_eq!((c.warn_mv, c.critical_mv, c.hysteresis_mv, c.debounce_samples), (10_500, 9_900, 300, 4));
    assert_eq!(BatteryState::default(), BatteryState::Normal);
}
