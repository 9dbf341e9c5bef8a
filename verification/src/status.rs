//! The status projector: reduces one decode cycle's measurements to the
//! fixed seven-field status summary. Every field reads its measurement
//! with a default of zero (or idle) when the name is absent, so projection
//! never fails.

use vstd::prelude::*;
use vstd::string::{StrSliceExecFns, StringExecFns};
use crate::decode::{Measurements, ReadingModel, lemma_lookup_bounded, max_reading_centi, spec_lookup};
use crate::fmt::{fmt_fixed1, spec_abs, spec_fmt_fixed1};

verus! {

/// Which way the battery is working.
#[derive(Clone, Copy, Debug, PartialEq, Eq, Structural)]
pub enum BatteryDirection {
    Charging,
    Discharging,
    Idle,
}

/// Which way energy flows at the grid connection.
#[derive(Clone, Copy, Debug, PartialEq, Eq, Structural)]
pub enum GridDirection {
    Importing,
    Exporting,
    Idle,
}

/// One complete projected status reading. Power magnitudes are absolute
/// values in centi-watts; the direction is carried separately. Exact zero
/// power means idle.
#[derive(Clone, Copy, Debug, PartialEq, Eq, Structural)]
pub struct StatusSnapshot {
    pub solar_centi_w: i64,
    pub battery_pct_centi: i64,
    pub battery_power_centi_w: i64,
    pub battery_direction: BatteryDirection,
    pub grid_power_centi_w: i64,
    pub grid_direction: GridDirection,
    pub home_consumption_centi_w: i64,
}

/// The measurement stored under `n`, in hundredths, or zero when absent.
pub open spec fn measured_centi_or_zero(rs: Seq<ReadingModel>, n: Seq<char>) -> int {
    match spec_lookup(rs, n) {
        Option::Some(m) => m.value_centi,
        Option::None => 0,
    }
}

/// Positive battery power charges, negative discharges, zero is idle.
pub open spec fn spec_battery_direction(v: int) -> BatteryDirection {
    if v > 0 {
        BatteryDirection::Charging
    } else if v < 0 {
        BatteryDirection::Discharging
    } else {
        BatteryDirection::Idle
    }
}

/// Positive grid power exports, negative imports, zero is idle.
pub open spec fn spec_grid_direction(v: int) -> GridDirection {
    if v > 0 {
        GridDirection::Exporting
    } else if v < 0 {
        GridDirection::Importing
    } else {
        GridDirection::Idle
    }
}

/// What projecting `rs` must yield.
pub open spec fn spec_project(rs: Seq<ReadingModel>) -> StatusSnapshot {
    let battery = measured_centi_or_zero(rs, "Battery Power"@);
    let grid = measured_centi_or_zero(rs, "Grid Power"@);
    StatusSnapshot {
        solar_centi_w: measured_centi_or_zero(rs, "Total Solar Power"@) as i64,
        battery_pct_centi: measured_centi_or_zero(rs, "Battery Remaining Capacity"@) as i64,
        battery_power_centi_w: spec_abs(battery) as i64,
        battery_direction: spec_battery_direction(battery),
        grid_power_centi_w: spec_abs(grid) as i64,
        grid_direction: spec_grid_direction(grid),
        home_consumption_centi_w: measured_centi_or_zero(rs, "Load/Generator Power"@) as i64,
    }
}

fn measured_or_zero(m: &Measurements, name: &str) -> (v: i64)
    requires
        m.wf(),
    ensures
        v == measured_centi_or_zero(m@, name@),
{
    match m.get(name) {
        Option::Some(meas) => meas.value_centi,
        Option::None => 0,
    }
}

/// Project one decode cycle's measurements to the status summary.
pub fn project(m: &Measurements) -> (s: StatusSnapshot)
    requires
        m.wf(),
    ensures
        s == spec_project(m@),
{
    let solar = measured_or_zero(m, "Total Solar Power");
    let battery_pct = measured_or_zero(m, "Battery Remaining Capacity");
    let battery = measured_or_zero(m, "Battery Power");
    let grid = measured_or_zero(m, "Grid Power");
    let home = measured_or_zero(m, "Load/Generator Power");
    proof {
        if spec_lookup(m@, "Battery Power"@) is Some {
            lemma_lookup_bounded(m@, "Battery Power"@, 2 * max_reading_centi(), 0);
        }
        if spec_lookup(m@, "Grid Power"@) is Some {
            lemma_lookup_bounded(m@, "Grid Power"@, 2 * max_reading_centi(), 0);
        }
    }
    let battery_direction = if battery > 0 {
        BatteryDirection::Charging
    } else if battery < 0 {
        BatteryDirection::Discharging
    } else {
        BatteryDirection::Idle
    };
    let grid_direction = if grid > 0 {
        GridDirection::Exporting
    } else if grid < 0 {
        GridDirection::Importing
    } else {
        GridDirection::Idle
    };
    StatusSnapshot {
        solar_centi_w: solar,
        battery_pct_centi: battery_pct,
        battery_power_centi_w: if battery < 0 {
            -battery
        } else {
            battery
        },
        battery_direction,
        grid_power_centi_w: if grid < 0 {
            -grid
        } else {
            grid
        },
        grid_direction,
        home_consumption_centi_w: home,
    }
}

/// The seven status fields as the status endpoint reports them: decimal
/// strings with one fractional digit and a unit suffix, plus the two
/// direction labels.
pub struct StatusOutput {
    pub solar_panels: String,
    pub batteries: String,
    pub battery_status: String,
    pub battery_power: String,
    pub grid_status: String,
    pub grid_power: String,
    pub home_consumption: String,
}

/// The label reported for a battery direction.
pub open spec fn spec_battery_label(d: BatteryDirection) -> Seq<char> {
    match d {
        BatteryDirection::Charging => "Charging"@,
        BatteryDirection::Discharging => "Discharging"@,
        BatteryDirection::Idle => "Idle"@,
    }
}

/// The label reported for a grid direction.
pub open spec fn spec_grid_label(d: GridDirection) -> Seq<char> {
    match d {
        GridDirection::Importing => "Importing"@,
        GridDirection::Exporting => "Exporting"@,
        GridDirection::Idle => "Idle"@,
    }
}

/// A centi-watt value as the status endpoint prints it.
pub open spec fn spec_watts_field(centi: int) -> Seq<char> {
    spec_fmt_fixed1(centi) + "W"@
}

/// A centi-percent value as the status endpoint prints it.
pub open spec fn spec_percent_field(centi: int) -> Seq<char> {
    spec_fmt_fixed1(centi) + "%"@
}

fn watts_field(centi: i64) -> (s: String)
    ensures
        s@ == spec_watts_field(centi as int),
{
    let mut s = fmt_fixed1(centi);
    s.append("W");
    s
}

/// Render a projected snapshot as the seven status strings.
pub fn format_status(s: &StatusSnapshot) -> (o: StatusOutput)
    ensures
        o.solar_panels@ == spec_watts_field(s.solar_centi_w as int),
        o.batteries@ == spec_percent_field(s.battery_pct_centi as int),
        o.battery_status@ == spec_battery_label(s.battery_direction),
        o.battery_power@ == spec_watts_field(s.battery_power_centi_w as int),
        o.grid_status@ == spec_grid_label(s.grid_direction),
        o.grid_power@ == spec_watts_field(s.grid_power_centi_w as int),
        o.home_consumption@ == spec_watts_field(s.home_consumption_centi_w as int),
{
    let battery_status: &str = match s.battery_direction {
        BatteryDirection::Charging => "Charging",
        BatteryDirection::Discharging => "Discharging",
        BatteryDirection::Idle => "Idle",
    };
    let grid_status: &str = match s.grid_direction {
        GridDirection::Importing => "Importing",
        GridDirection::Exporting => "Exporting",
        GridDirection::Idle => "Idle",
    };
    let mut batteries = fmt_fixed1(s.battery_pct_centi);
    batteries.append("%");
    StatusOutput {
        solar_panels: watts_field(s.solar_centi_w),
        batteries,
        battery_status: battery_status.to_owned(),
        battery_power: watts_field(s.battery_power_centi_w),
        grid_status: grid_status.to_owned(),
        grid_power: watts_field(s.grid_power_centi_w),
        home_consumption: watts_field(s.home_consumption_centi_w),
    }
}

} // verus!
