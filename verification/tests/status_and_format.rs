use solax_mon::decode::{decode, Measurements};
use solax_mon::fmt::{fmt_display, fmt_fixed1, fmt_u64};
use solax_mon::registers::RegisterMap;
use solax_mon::status::{
    format_status, project, BatteryDirection, GridDirection, StatusSnapshot,
};

fn snapshot(
    solar: i64,
    battery_pct: i64,
    battery: i64,
    grid: i64,
    home: i64,
) -> StatusSnapshot {
    StatusSnapshot {
        solar_centi_w: solar,
        battery_pct_centi: battery_pct,
        battery_power_centi_w: battery.abs(),
        battery_direction: if battery > 0 {
            BatteryDirection::Charging
        } else if battery < 0 {
            BatteryDirection::Discharging
        } else {
            BatteryDirection::Idle
        },
        grid_power_centi_w: grid.abs(),
        grid_direction: if grid > 0 {
            GridDirection::Exporting
        } else if grid < 0 {
            GridDirection::Importing
        } else {
            GridDirection::Idle
        },
        home_consumption_centi_w: home,
    }
}

#[test]
fn fmt_u64_digits() {
    assert_eq!(fmt_u64(0), "0");
    assert_eq!(fmt_u64(7), "7");
    assert_eq!(fmt_u64(10), "10");
    assert_eq!(fmt_u64(90210), "90210");
    assert_eq!(fmt_u64(18446744073709551615), "18446744073709551615");
}

#[test]
fn fmt_fixed1_one_decimal() {
    assert_eq!(fmt_fixed1(0), "0.0");
    assert_eq!(fmt_fixed1(23050), "230.5");
    assert_eq!(fmt_fixed1(-100), "-1.0");
    assert_eq!(fmt_fixed1(-5), "-0.1"); // half rounds away from zero
    assert_eq!(fmt_fixed1(4), "0.0");
    assert_eq!(fmt_fixed1(96), "1.0");
}

#[test]
fn fmt_display_minimal_decimals() {
    assert_eq!(fmt_display(0), "0");
    assert_eq!(fmt_display(40000), "400");
    assert_eq!(fmt_display(50), "0.5");
    assert_eq!(fmt_display(-12345), "-123.45");
    assert_eq!(fmt_display(-100), "-1");
    assert_eq!(fmt_display(510), "5.1");
}

#[test]
fn project_reads_defaults_for_missing_names() {
    let m = Measurements { readings: Vec::new() };
    let s = project(&m);
    assert_eq!(s.solar_centi_w, 0);
    assert_eq!(s.battery_pct_centi, 0);
    assert_eq!(s.battery_power_centi_w, 0);
    assert_eq!(s.battery_direction, BatteryDirection::Idle);
    assert_eq!(s.grid_power_centi_w, 0);
    assert_eq!(s.grid_direction, GridDirection::Idle);
    assert_eq!(s.home_consumption_centi_w, 0);
}

#[test]
fn grid_import_scenario() {
    // Registers 34/35 holding the halves of -1 decode to a grid power of
    // exactly -1 W, which projects as importing with magnitude 1 W.
    let map = RegisterMap::x3_hybrid_g4();
    let mut raw = vec![0i32; 110];
    raw[34] = 0xFFFF;
    raw[35] = 0xFFFF;
    let m = decode(&raw, &map);
    let s = project(&m);
    assert_eq!(s.grid_direction, GridDirection::Importing);
    assert_eq!(s.grid_power_centi_w, 100);
    let o = format_status(&s);
    assert_eq!(o.grid_status, "Importing");
    assert_eq!(o.grid_power, "1.0W");
}

#[test]
fn project_directions_from_signs() {
    let map = RegisterMap::x3_hybrid_g4();
    let mut raw = vec![0i32; 110];
    raw[41] = 500; // battery charging at 500 W
    raw[34] = 0;
    raw[35] = 2; // grid exporting 2 W
    raw[47] = 65535; // home consumption -1 W
    let m = decode(&raw, &map);
    let s = project(&m);
    assert_eq!(s.battery_direction, BatteryDirection::Charging);
    assert_eq!(s.battery_power_centi_w, 50000);
    assert_eq!(s.grid_direction, GridDirection::Exporting);
    assert_eq!(s.grid_power_centi_w, 200);
    assert_eq!(s.home_consumption_centi_w, -100);
}

#[test]
fn format_status_fields() {
    let s = snapshot(30000, 5500, -25000, -100, 40000);
    let o = format_status(&s);
    assert_eq!(o.solar_panels, "300.0W");
    assert_eq!(o.batteries, "55.0%");
    assert_eq!(o.battery_status, "Discharging");
    assert_eq!(o.battery_power, "250.0W");
    assert_eq!(o.grid_status, "Importing");
    assert_eq!(o.grid_power, "1.0W");
    assert_eq!(o.home_consumption, "400.0W");
}

#[test]
fn format_status_idle_labels() {
    let s = snapshot(0, 0, 0, 0, 0);
    let o = format_status(&s);
    assert_eq!(o.battery_status, "Idle");
    assert_eq!(o.grid_status, "Idle");
    assert_eq!(o.solar_panels, "0.0W");
    assert_eq!(o.batteries, "0.0%");
}
