//! The critical-condition state machine: consumes successive status
//! snapshots, applies the threshold predicate with hysteresis, and emits
//! side-effect intents exactly once per state transition. The machine
//! itself performs no I/O.

use vstd::prelude::*;
use vstd::string::{StrSliceExecFns, StringExecFns};
use crate::fmt::{fmt_display, spec_fmt_display};
use crate::status::StatusSnapshot;

verus! {

/// Alerting state, persistent across evaluation cycles.
#[derive(Clone, Copy, Debug, PartialEq, Eq, Structural)]
pub enum AlertState {
    Normal,
    ShutdownTriggered,
}

/// One power-on-capable host: its management address and credentials.
pub struct IdracServer {
    pub ip: String,
    pub username: String,
    pub password: String,
}

/// What the state machine needs to know about the deployment: which hosts
/// to shut down, and which hosts can be powered back on.
pub struct AlertConfig {
    pub servers: Vec<String>,
    pub ssh_key_path: String,
    pub discord_webhook_url: String,
    pub idrac_enabled: bool,
    pub idrac_servers: Vec<IdracServer>,
}

/// A side-effect request for an external collaborator; emitting one does
/// not perform it.
pub enum Intent {
    SendAlert { message: String },
    ShutdownHosts { hosts: Vec<String> },
    PowerOnHosts { targets: Vec<IdracServer> },
}

/// The critical predicate: the grid reads exactly zero power, solar output
/// does not cover home consumption, and the battery is below ten percent.
pub open spec fn spec_is_critical(s: StatusSnapshot) -> bool {
    &&& s.grid_power_centi_w == 0
    &&& s.solar_centi_w < s.home_consumption_centi_w
    &&& s.battery_pct_centi < 1000
}

/// Executable form of [`spec_is_critical`].
pub fn is_critical(s: &StatusSnapshot) -> (r: bool)
    ensures
        r == spec_is_critical(*s),
{
    s.grid_power_centi_w == 0 && s.solar_centi_w < s.home_consumption_centi_w
        && s.battery_pct_centi < 1000
}

/// The alert sent on entering the critical state.
pub open spec fn spec_critical_message(s: StatusSnapshot) -> Seq<char> {
    "🚨 CRITICAL POWER ALERT!\nGrid: "@ + spec_fmt_display(s.grid_power_centi_w as int)
        + "W (Offline)\nSolar: "@ + spec_fmt_display(s.solar_centi_w as int)
        + "W\nHome Consumption: "@ + spec_fmt_display(s.home_consumption_centi_w as int)
        + "W\nBattery: "@ + spec_fmt_display(s.battery_pct_centi as int)
        + "%\n\n⚠️ Initiating server shutdown sequence..."@
}

/// The alert sent on recovering to the normal state.
pub open spec fn spec_recovery_message(s: StatusSnapshot) -> Seq<char> {
    "✅ Power conditions normalized!\nGrid: "@ + spec_fmt_display(s.grid_power_centi_w as int)
        + "W\nSolar: "@ + spec_fmt_display(s.solar_centi_w as int)
        + "W\nHome Consumption: "@ + spec_fmt_display(s.home_consumption_centi_w as int)
        + "W\nBattery: "@ + spec_fmt_display(s.battery_pct_centi as int) + "%\n"@
}

/// Executable form of [`spec_critical_message`].
pub fn critical_message(s: &StatusSnapshot) -> (msg: String)
    ensures
        msg@ == spec_critical_message(*s),
{
    let mut m = String::new();
    m.append("🚨 CRITICAL POWER ALERT!\nGrid: ");
    let grid = fmt_display(s.grid_power_centi_w);
    m.append(grid.as_str());
    m.append("W (Offline)\nSolar: ");
    let solar = fmt_display(s.solar_centi_w);
    m.append(solar.as_str());
    m.append("W\nHome Consumption: ");
    let home = fmt_display(s.home_consumption_centi_w);
    m.append(home.as_str());
    m.append("W\nBattery: ");
    let battery = fmt_display(s.battery_pct_centi);
    m.append(battery.as_str());
    m.append("%\n\n⚠️ Initiating server shutdown sequence...");
    proof {
        assert(m@ =~= spec_critical_message(*s));
    }
    m
}

/// Executable form of [`spec_recovery_message`].
pub fn recovery_message(s: &StatusSnapshot) -> (msg: String)
    ensures
        msg@ == spec_recovery_message(*s),
{
    let mut m = String::new();
    m.append("✅ Power conditions normalized!\nGrid: ");
    let grid = fmt_display(s.grid_power_centi_w);
    m.append(grid.as_str());
    m.append("W\nSolar: ");
    let solar = fmt_display(s.solar_centi_w);
    m.append(solar.as_str());
    m.append("W\nHome Consumption: ");
    let home = fmt_display(s.home_consumption_centi_w);
    m.append(home.as_str());
    m.append("W\nBattery: ");
    let battery = fmt_display(s.battery_pct_centi);
    m.append(battery.as_str());
    m.append("%\n");
    proof {
        assert(m@ =~= spec_recovery_message(*s));
    }
    m
}

fn clone_hosts(v: &Vec<String>) -> (r: Vec<String>)
    ensures
        r@ == v@,
{
    let mut r: Vec<String> = Vec::new();
    let n = v.len();
    for i in 0..n
        invariant
            n == v.len(),
            r@.len() == i,
            forall|k: int| 0 <= k < i ==> r@[k] == v@[k],
    {
        r.push(v[i].clone());
    }
    proof {
        assert(r@ =~= v@);
    }
    r
}

fn clone_idrac_hosts(v: &Vec<IdracServer>) -> (r: Vec<IdracServer>)
    ensures
        r@ == v@,
{
    let mut r: Vec<IdracServer> = Vec::new();
    let n = v.len();
    for i in 0..n
        invariant
            n == v.len(),
            r@.len() == i,
            forall|k: int| 0 <= k < i ==> r@[k] == v@[k],
    {
        let h = IdracServer {
            ip: v[i].ip.clone(),
            username: v[i].username.clone(),
            password: v[i].password.clone(),
        };
        r.push(h);
    }
    proof {
        assert(r@ =~= v@);
    }
    r
}

/// One evaluation cycle of the state machine.
///
/// Exactly one transition can fire per cycle. Entering the critical state
/// emits one alert and one shutdown request; staying critical emits
/// nothing (idempotence); leaving the critical state emits one alert and,
/// when power-on hosts are configured, one power-on request; staying
/// normal emits nothing.
pub fn step(state: AlertState, snapshot: &StatusSnapshot, config: &AlertConfig) -> (r: (
    AlertState,
    Vec<Intent>,
))
    ensures
        spec_is_critical(*snapshot) && state is Normal ==> {
            &&& r.0 is ShutdownTriggered
            &&& r.1@.len() == 2
            &&& (r.1@[0] matches Intent::SendAlert { message } && message@
                == spec_critical_message(*snapshot))
            &&& (r.1@[1] matches Intent::ShutdownHosts { hosts } && hosts@
                == config.servers@)
        },
        spec_is_critical(*snapshot) && state is ShutdownTriggered ==> {
            &&& r.0 is ShutdownTriggered
            &&& r.1@.len() == 0
        },
        !spec_is_critical(*snapshot) && state is ShutdownTriggered ==> {
            &&& r.0 is Normal
            &&& (r.1@[0] matches Intent::SendAlert { message } && message@
                == spec_recovery_message(*snapshot))
            &&& config.idrac_enabled ==> r.1@.len() == 2 && (r.1@[1] matches
                Intent::PowerOnHosts { targets } && targets@ == config.idrac_servers@)
            &&& !config.idrac_enabled ==> r.1@.len() == 1
        },
        !spec_is_critical(*snapshot) && state is Normal ==> {
            &&& r.0 is Normal
            &&& r.1@.len() == 0
        },
{
    let mut intents: Vec<Intent> = Vec::new();
    if is_critical(snapshot) {
        match state {
            AlertState::Normal => {
                intents.push(Intent::SendAlert { message: critical_message(snapshot) });
                intents.push(Intent::ShutdownHosts { hosts: clone_hosts(&config.servers) });
                (AlertState::ShutdownTriggered, intents)
            },
            AlertState::ShutdownTriggered => (AlertState::ShutdownTriggered, intents),
        }
    } else {
        match state {
            AlertState::ShutdownTriggered => {
                intents.push(Intent::SendAlert { message: recovery_message(snapshot) });
                if config.idrac_enabled {
                    intents.push(
                        Intent::PowerOnHosts { targets: clone_idrac_hosts(&config.idrac_servers) },
                    );
                }
                (AlertState::Normal, intents)
            },
            AlertState::Normal => (AlertState::Normal, intents),
        }
    }
}

} // verus!
