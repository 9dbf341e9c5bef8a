use solax_mon::alert::{
    critical_message, is_critical, recovery_message, step, AlertConfig, AlertState,
    IdracServer, Intent,
};
use solax_mon::status::{BatteryDirection, GridDirection, StatusSnapshot};

fn snapshot(grid: i64, solar: i64, home: i64, battery_pct: i64) -> StatusSnapshot {
    StatusSnapshot {
        solar_centi_w: solar,
        battery_pct_centi: battery_pct,
        battery_power_centi_w: 0,
        battery_direction: BatteryDirection::Idle,
        grid_power_centi_w: grid,
        grid_direction: GridDirection::Idle,
        home_consumption_centi_w: home,
    }
}

fn config() -> AlertConfig {
    AlertConfig {
        servers: vec!["host-a".to_string(), "host-b".to_string()],
        ssh_key_path: "/srv/solax-mon/data/ssh.key".to_string(),
        discord_webhook_url: "https://example.invalid/webhook".to_string(),
        idrac_enabled: true,
        idrac_servers: vec![IdracServer {
            ip: "10.0.0.9".to_string(),
            username: "root".to_string(),
            password: "SECRET-REDACTED".to_string(),
        }],
    }
}

fn count_intents(intents: &[Intent]) -> (usize, usize, usize) {
    let mut alerts = 0;
    let mut shutdowns = 0;
    let mut power_ons = 0;
    for i in intents {
        match i {
            Intent::SendAlert { .. } => alerts += 1,
            Intent::ShutdownHosts { .. } => shutdowns += 1,
            Intent::PowerOnHosts { .. } => power_ons += 1,
        }
    }
    (alerts, shutdowns, power_ons)
}

#[test]
fn critical_predicate_requires_all_three() {
    assert!(is_critical(&snapshot(0, 5000, 40000, 500)));
    assert!(!is_critical(&snapshot(100, 5000, 40000, 500))); // grid alive
    assert!(!is_critical(&snapshot(0, 40000, 5000, 500))); // solar covers home
    assert!(!is_critical(&snapshot(0, 5000, 40000, 1000))); // battery at 10 %
    assert!(is_critical(&snapshot(0, 5000, 40000, 999)));
}

#[test]
fn shutdown_fires_once_per_critical_episode() {
    // critical, critical, critical, normal: exactly one shutdown intent at
    // the first critical and exactly one power-on at the recovery.
    let cfg = config();
    let critical = snapshot(0, 5000, 40000, 500);
    let normal = snapshot(100, 5000, 40000, 5000);
    let mut state = AlertState::Normal;
    let mut total_shutdowns = 0;
    let mut total_power_ons = 0;
    for s in [&critical, &critical, &critical, &normal] {
        let (next, intents) = step(state, s, &cfg);
        let (_, sd, po) = count_intents(&intents);
        total_shutdowns += sd;
        total_power_ons += po;
        state = next;
    }
    assert_eq!(total_shutdowns, 1);
    assert_eq!(total_power_ons, 1);
    assert_eq!(state, AlertState::Normal);
}

#[test]
fn normal_cycles_emit_nothing() {
    let cfg = config();
    let normal = snapshot(100, 5000, 40000, 5000);
    let mut state = AlertState::Normal;
    let mut total = 0;
    for s in [&normal, &normal] {
        let (next, intents) = step(state, s, &cfg);
        total += intents.len();
        state = next;
    }
    assert_eq!(total, 0);
    assert_eq!(state, AlertState::Normal);
}

#[test]
fn entering_critical_emits_alert_then_shutdown() {
    // grid 0.0 W, solar 50.0 W, home 400.0 W, battery 5.0 %
    let cfg = config();
    let s = snapshot(0, 5000, 40000, 500);
    let (next, intents) = step(AlertState::Normal, &s, &cfg);
    assert_eq!(next, AlertState::ShutdownTriggered);
    assert_eq!(intents.len(), 2);
    match &intents[0] {
        Intent::SendAlert { message } => {
            assert_eq!(
                message,
                "🚨 CRITICAL POWER ALERT!\nGrid: 0W (Offline)\nSolar: 50W\nHome Consumption: 400W\nBattery: 5%\n\n⚠️ Initiating server shutdown sequence..."
            );
        }
        _ => panic!("expected an alert first"),
    }
    match &intents[1] {
        Intent::ShutdownHosts { hosts } => {
            assert_eq!(hosts, &vec!["host-a".to_string(), "host-b".to_string()]);
        }
        _ => panic!("expected a shutdown request second"),
    }
}

#[test]
fn staying_critical_is_idempotent() {
    let cfg = config();
    let s = snapshot(0, 5000, 40000, 500);
    let (next, intents) = step(AlertState::ShutdownTriggered, &s, &cfg);
    assert_eq!(next, AlertState::ShutdownTriggered);
    assert!(intents.is_empty());
}

#[test]
fn recovery_emits_alert_and_power_on() {
    let cfg = config();
    let s = snapshot(100, 5000, 40000, 5000);
    let (next, intents) = step(AlertState::ShutdownTriggered, &s, &cfg);
    assert_eq!(next, AlertState::Normal);
    assert_eq!(intents.len(), 2);
    match &intents[0] {
        Intent::SendAlert { message } => {
            assert_eq!(
                message,
                "✅ Power conditions normalized!\nGrid: 1W\nSolar: 50W\nHome Consumption: 400W\nBattery: 50%\n"
            );
        }
        _ => panic!("expected an alert first"),
    }
    match &intents[1] {
        Intent::PowerOnHosts { targets } => {
            assert_eq!(targets.len(), 1);
            assert_eq!(targets[0].ip, "10.0.0.9");
            assert_eq!(targets[0].username, "root");
        }
        _ => panic!("expected a power-on request second"),
    }
}

#[test]
fn recovery_without_idrac_support_sends_alert_only() {
    let mut cfg = config();
    cfg.idrac_enabled = false;
    let s = snapshot(100, 5000, 40000, 5000);
    let (next, intents) = step(AlertState::ShutdownTriggered, &s, &cfg);
    assert_eq!(next, AlertState::Normal);
    assert_eq!(intents.len(), 1);
    assert!(matches!(&intents[0], Intent::SendAlert { .. }));
}

#[test]
fn message_builders_render_fractional_values() {
    let s = snapshot(0, 5050, 40010, 550);
    let c = critical_message(&s);
    assert!(c.contains("Solar: 50.5W"));
    assert!(c.contains("Home Consumption: 400.1W"));
    assert!(c.contains("Battery: 5.5%"));
    let s2 = snapshot(150, 5000, 40000, 5000);
    let r = recovery_message(&s2);
    assert!(r.contains("Grid: 1.5W"));
}
