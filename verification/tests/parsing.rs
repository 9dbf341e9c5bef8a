use solax_mon::alert::AlertConfig;
use solax_mon::config::{config_update, secrets_update, split3};
use solax_mon::fmt::fmt_fixed1;
use solax_mon::parse::{parse_battery_percentage, parse_power_value};

#[test]
fn power_values_parse_to_hundredths() {
    assert_eq!(parse_power_value("123.4W"), 12340);
    assert_eq!(parse_power_value("0.0W"), 0);
    assert_eq!(parse_power_value("-1.5W"), -150);
    assert_eq!(parse_power_value("400W"), 40000);
    assert_eq!(parse_power_value("+2.25W"), 225);
    assert_eq!(parse_power_value("7"), 700);
}

#[test]
fn battery_percentage_parses_to_hundredths() {
    assert_eq!(parse_battery_percentage("5.0%"), 500);
    assert_eq!(parse_battery_percentage("55%"), 5500);
    assert_eq!(parse_battery_percentage("9.9%"), 990);
    assert_eq!(parse_battery_percentage("100.0%"), 10000);
}

#[test]
fn malformed_fields_degrade_to_zero() {
    assert_eq!(parse_power_value(""), 0);
    assert_eq!(parse_power_value("W"), 0);
    assert_eq!(parse_power_value("abcW"), 0);
    assert_eq!(parse_power_value("1.2.3W"), 0);
    assert_eq!(parse_power_value("-W"), 0);
    assert_eq!(parse_power_value("."), 0);
    assert_eq!(parse_power_value("12a4W"), 0);
    assert_eq!(parse_battery_percentage("n/a%"), 0);
}

#[test]
fn parse_edge_shapes() {
    assert_eq!(parse_power_value(".5W"), 50); // fraction only
    assert_eq!(parse_power_value("1.W"), 100); // point without fraction
    assert_eq!(parse_power_value("50WW"), 5000); // every trailing W stripped
    assert_eq!(parse_power_value("1.239W"), 123); // third place truncated
    assert_eq!(parse_power_value("007W"), 700);
    assert_eq!(parse_power_value("-0.0W"), 0);
}

#[test]
fn oversized_magnitudes_saturate() {
    assert_eq!(parse_power_value("99999999999999999999W"), i64::MAX);
    assert_eq!(parse_power_value("-99999999999999999999W"), -i64::MAX);
    assert_eq!(parse_power_value("90000000000000000W"), 9000000000000000000);
}

#[test]
fn round_trip_through_formatting() {
    for centi in [0i64, 23050, -100, 40000, 990] {
        let mut field = fmt_fixed1(centi);
        field.push('W');
        assert_eq!(parse_power_value(&field), centi);
    }
}

#[test]
fn secrets_lines_fold_left_with_last_wins() {
    let (ip, serial) = secrets_update(String::new(), String::new(), "INVERTER_IP=10.0.0.5");
    assert_eq!(ip, "10.0.0.5");
    assert_eq!(serial, "");
    let (ip, serial) = secrets_update(ip, serial, "  SERIAL =  ABC123  ");
    assert_eq!(ip, "10.0.0.5");
    assert_eq!(serial, "ABC123");
    let (ip, serial) = secrets_update(ip, serial, "OTHER=ignored");
    let (ip, serial) = secrets_update(ip, serial, "no equals sign here");
    assert_eq!(ip, "10.0.0.5");
    assert_eq!(serial, "ABC123");
    let (ip, _) = secrets_update(ip, serial, "INVERTER_IP=10.0.0.7");
    assert_eq!(ip, "10.0.0.7");
}

fn empty_config() -> AlertConfig {
    AlertConfig {
        servers: Vec::new(),
        ssh_key_path: "/srv/solax-mon/data/ssh.key".to_string(),
        discord_webhook_url: String::new(),
        idrac_enabled: false,
        idrac_servers: Vec::new(),
    }
}

#[test]
fn config_lines_accumulate() {
    let mut cfg = empty_config();
    cfg = config_update(cfg, "SERVER=host-a");
    cfg = config_update(cfg, "  SERVER=host-b  ");
    cfg = config_update(cfg, "DISCORD_WEBHOOK=https://example.invalid/hook");
    cfg = config_update(cfg, "HAVE_IDRAC=True");
    cfg = config_update(cfg, "IDRAC_SERVER=10.0.0.9,root,SECRET-REDACTED");
    assert_eq!(cfg.servers, vec!["host-a".to_string(), "host-b".to_string()]);
    assert_eq!(cfg.discord_webhook_url, "https://example.invalid/hook");
    assert!(cfg.idrac_enabled);
    assert_eq!(cfg.idrac_servers.len(), 1);
    assert_eq!(cfg.idrac_servers[0].ip, "10.0.0.9");
    assert_eq!(cfg.idrac_servers[0].username, "root");
}

#[test]
fn config_lines_reject_malformed_idrac_entries() {
    let mut cfg = empty_config();
    cfg = config_update(cfg, "IDRAC_SERVER=only,two");
    cfg = config_update(cfg, "IDRAC_SERVER=one,two,three,four");
    assert!(cfg.idrac_servers.is_empty());
}

#[test]
fn config_prefix_is_stripped_repeatedly() {
    let mut cfg = empty_config();
    cfg = config_update(cfg, "SERVER=SERVER=host-x");
    assert_eq!(cfg.servers, vec!["host-x".to_string()]);
}

#[test]
fn have_idrac_is_case_insensitive() {
    let mut cfg = empty_config();
    cfg = config_update(cfg, "HAVE_IDRAC=TRUE");
    assert!(cfg.idrac_enabled);
    cfg = config_update(cfg, "HAVE_IDRAC=false");
    assert!(!cfg.idrac_enabled);
    cfg = config_update(cfg, "HAVE_IDRAC=yes");
    assert!(!cfg.idrac_enabled);
}

#[test]
fn unknown_config_lines_change_nothing() {
    let mut cfg = empty_config();
    cfg = config_update(cfg, "");
    cfg = config_update(cfg, "# comment");
    cfg = config_update(cfg, "INVERTER_IP=10.0.0.5");
    assert!(cfg.servers.is_empty());
    assert_eq!(cfg.discord_webhook_url, "");
    assert!(!cfg.idrac_enabled);
    assert!(cfg.idrac_servers.is_empty());
}

#[test]
fn split3_requires_exactly_three_fields() {
    assert_eq!(
        split3("a,b,c"),
        Some(("a".to_string(), "b".to_string(), "c".to_string()))
    );
    assert_eq!(split3("a,b"), None);
    assert_eq!(split3("a"), None);
    assert_eq!(split3("a,b,c,d"), None);
    assert_eq!(
        split3(",,"),
        Some((String::new(), String::new(), String::new()))
    );
}
