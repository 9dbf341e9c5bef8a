use solax_mon::decode::{decode, Measurements, Measurement, Reading};
use solax_mon::registers::{
    combine_signed32, split_high, split_low, to_signed16, RegisterMap, Transform, Unit,
};

fn x3_raw(len: usize) -> Vec<i32> {
    vec![0; len]
}

#[test]
fn to_signed16_boundaries() {
    assert_eq!(to_signed16(0), 0);
    assert_eq!(to_signed16(32767), 32767);
    assert_eq!(to_signed16(32768), -32768);
    assert_eq!(to_signed16(65535), -1);
}

#[test]
fn combine_signed32_values() {
    assert_eq!(combine_signed32(0, 0), 0);
    assert_eq!(combine_signed32(0, 1), 1);
    assert_eq!(combine_signed32(0, 0xFFFF), 65535);
    assert_eq!(combine_signed32(0xFFFF, 0xFFFF), -1);
    assert_eq!(combine_signed32(0x7FFF, 0xFFFF), 2147483647);
    assert_eq!(combine_signed32(0x8000, 0x0000), -2147483648);
}

#[test]
fn combine_split_round_trip_values() {
    for v in [
        0i32,
        1,
        -1,
        2147483647,
        -2147483648,
        123456789,
        -987654321,
        65536,
        -65536,
    ] {
        let h = split_high(v);
        let l = split_low(v);
        assert_eq!(combine_signed32(h, l), v as i64);
    }
}

#[test]
fn short_array_omits_entry_without_crash() {
    let map = RegisterMap::x3_hybrid_g4();
    // 36 registers: index 103 (battery capacity) and 41 (battery power)
    // are out of bounds and must simply be missing.
    let raw = x3_raw(36);
    let m = decode(&raw, &map);
    assert!(m.get("Battery Remaining Capacity").is_none());
    assert!(m.get("Battery Power").is_none());
    assert!(m.get("Grid 1 Voltage").is_some());
    // An empty array decodes to no readings at all.
    let empty: Vec<i32> = Vec::new();
    let m2 = decode(&empty, &map);
    assert!(m2.get("Grid 1 Voltage").is_none());
    assert!(m2.get("Total Solar Power").is_none());
    assert_eq!(m2.readings.len(), 0);
}

#[test]
fn scale_tenth_is_exact_in_hundredths() {
    let map = RegisterMap::x3_hybrid_g4();
    let mut raw = x3_raw(110);
    raw[0] = 2305; // 230.5 V
    let m = decode(&raw, &map);
    let g = m.get("Grid 1 Voltage").unwrap();
    assert_eq!(g.value_centi, 23050);
    assert_eq!(g.unit, Unit::Volt);
}

#[test]
fn to_signed16_entry_decodes_negative_power() {
    let map = RegisterMap::x3_hybrid_g4();
    let mut raw = x3_raw(110);
    raw[41] = 65535; // battery power -1 W
    let m = decode(&raw, &map);
    let b = m.get("Battery Power").unwrap();
    assert_eq!(b.value_centi, -100);
    assert_eq!(b.unit, Unit::Watt);
}

#[test]
fn total_solar_is_sum_of_channels() {
    let map = RegisterMap::x3_hybrid_g4();
    for (pv1, pv2) in [(100, 200), (0, 0), (-50, 30), (-10, -20), (32767, 32767)] {
        let mut raw = x3_raw(110);
        raw[14] = pv1;
        raw[15] = pv2;
        let m = decode(&raw, &map);
        let total = m.get("Total Solar Power").unwrap();
        assert_eq!(total.value_centi, (pv1 as i64 + pv2 as i64) * 100);
        assert_eq!(total.unit, Unit::Watt);
    }
}

#[test]
fn total_solar_missing_when_channel_missing() {
    let map = RegisterMap::x3_hybrid_g4();
    // Only 15 registers: PV2 Power (index 15) is out of bounds.
    let raw = x3_raw(15);
    let m = decode(&raw, &map);
    assert!(m.get("PV1 Power").is_some());
    assert!(m.get("PV2 Power").is_none());
    assert!(m.get("Total Solar Power").is_none());
}

#[test]
fn grid_power_combines_registers_34_and_35() {
    let map = RegisterMap::x3_hybrid_g4();
    let mut raw = x3_raw(110);
    raw[34] = 0xFFFF; // high half of -1
    raw[35] = 0xFFFF; // low half of -1
    let m = decode(&raw, &map);
    let g = m.get("Grid Power").unwrap();
    assert_eq!(g.value_centi, -100); // exactly -1 W
}

#[test]
fn grid_power_defaults_to_zero_when_low_register_missing() {
    let map = RegisterMap::x3_hybrid_g4();
    // Index 34 in bounds, index 35 out of bounds: the entry is present
    // with the combine fallback of zero.
    let mut raw = x3_raw(35);
    raw[34] = 123;
    let m = decode(&raw, &map);
    let g = m.get("Grid Power").unwrap();
    assert_eq!(g.value_centi, 0);
}

#[test]
fn lookup_returns_first_match() {
    let m = Measurements {
        readings: vec![
            Reading {
                name: "X".to_string(),
                measurement: Measurement { value_centi: 1, unit: Unit::Watt },
            },
            Reading {
                name: "X".to_string(),
                measurement: Measurement { value_centi: 2, unit: Unit::Watt },
            },
        ],
    };
    assert_eq!(m.get("X").unwrap().value_centi, 1);
    assert!(m.get("Y").is_none());
}
