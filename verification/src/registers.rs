//! Register-level arithmetic and the register map: which raw register index
//! holds which named measurement, its unit, and its decode transform.

use vstd::prelude::*;
use vstd::string::StringExecFns;

verus! {

/// Physical unit attached to a decoded measurement.
#[derive(Clone, Copy, Debug, PartialEq, Eq, Structural)]
pub enum Unit {
    Volt,
    Ampere,
    Watt,
    Hertz,
    Celsius,
    KilowattHour,
    Percent,
    Unitless,
}

/// How a raw register value becomes an engineering-unit value.
///
/// Values are carried in exact hundredths of a unit, so every transform is
/// exact integer arithmetic: a register transmitted as unit-times-ten becomes
/// ten hundredths per wire count, and so on.
#[derive(Clone, Copy, Debug, PartialEq, Eq, Structural)]
pub enum Transform {
    /// The register value itself.
    Identity,
    /// The wire carries the value multiplied by ten.
    ScaleTenth,
    /// The wire carries the value multiplied by one hundred.
    ScaleHundredth,
    /// Reinterpret a wire value in `[0, 65535]` as two's-complement 16-bit.
    ToSigned16,
    /// Two registers form one 32-bit two's-complement value:
    /// `(raw[high] << 16) | (raw[low] & 0xFFFF)`.
    CombineSigned32 { high: usize, low: usize },
}

/// Two's-complement reinterpretation of a 16-bit wire value: a raw value
/// above 32767 stands for `raw - 65536`.
pub open spec fn spec_to_signed16(raw: int) -> int {
    if raw > 32767 {
        raw - 65536
    } else {
        raw
    }
}

/// Executable form of [`spec_to_signed16`].
pub fn to_signed16(raw: i32) -> (r: i64)
    ensures
        r == spec_to_signed16(raw as int),
{
    if raw > 32767 {
        (raw as i64) - 65536
    } else {
        raw as i64
    }
}

/// Composition of two 16-bit registers into one signed 32-bit quantity:
/// `(high << 16) | (low & 0xFFFF)`, reinterpreted as two's complement when
/// the composed value exceeds `0x7FFF_FFFF`.
pub open spec fn spec_combine_signed32(high: i32, low: i32) -> int {
    let c = ((high as i64) << 16) | ((low as i64) & 0xFFFF);
    if c > 0x7FFF_FFFF {
        c - 0x1_0000_0000
    } else {
        c as int
    }
}

/// Executable form of [`spec_combine_signed32`].
pub fn combine_signed32(high: i32, low: i32) -> (r: i64)
    ensures
        r == spec_combine_signed32(high, low),
        -0x1_0000_0000_0000 <= r <= 0x1_0000_0000_0000,
{
    let c: i64 = ((high as i64) << 16) | ((low as i64) & 0xFFFF);
    proof {
        assert(-0x8000_0000_0000 <= c <= 0x8000_0000_0000) by (bit_vector)
            requires
                c == ((high as i64) << 16) | ((low as i64) & 0xFFFF),
        ;
    }
    if c > 2147483647 {
        c - 4294967296
    } else {
        c
    }
}

/// High 16-bit half of a 32-bit value, as an unsigned wire register.
pub open spec fn spec_split_high(v: i32) -> i32 {
    (v >> 16) & 0xFFFF
}

/// Low 16-bit half of a 32-bit value, as an unsigned wire register.
pub open spec fn spec_split_low(v: i32) -> i32 {
    v & 0xFFFF
}

/// Executable form of [`spec_split_high`].
pub fn split_high(v: i32) -> (h: i32)
    ensures
        h == spec_split_high(v),
        0 <= h <= 0xFFFF,
{
    proof {
        assert(0 <= ((v >> 16) & 0xFFFF) <= 0xFFFF) by (bit_vector);
    }
    (v >> 16) & 0xFFFF
}

/// Executable form of [`spec_split_low`].
pub fn split_low(v: i32) -> (l: i32)
    ensures
        l == spec_split_low(v),
        0 <= l <= 0xFFFF,
{
    proof {
        assert(0 <= (v & 0xFFFF) <= 0xFFFF) by (bit_vector);
    }
    v & 0xFFFF
}

/// Splitting any signed 32-bit value into its two 16-bit halves and
/// composing them again reproduces the original value.
pub proof fn lemma_combine_split_round_trip(v: i32)
    ensures
        spec_combine_signed32(spec_split_high(v), spec_split_low(v)) == v as int,
{
    let h = spec_split_high(v);
    let l = spec_split_low(v);
    let c = ((h as i64) << 16) | ((l as i64) & 0xFFFF);
    assert((v >= 0 ==> c == v as i64) && (v < 0 ==> c == v as i64 + 0x1_0000_0000)) by (bit_vector)
        requires
            h == (v >> 16) & 0xFFFF,
            l == v & 0xFFFF,
            c == ((h as i64) << 16) | ((l as i64) & 0xFFFF),
    ;
}

/// Mathematical model of one register-map entry.
#[verifier::ext_equal]
pub ghost struct EntryModel {
    pub name: Seq<char>,
    pub index: int,
    pub unit: Unit,
    pub transform: Transform,
}

/// One register-map entry: a named measurement, the register index it is
/// read from, its unit, and its decode transform.
pub struct RegisterEntry {
    pub name: String,
    pub index: usize,
    pub unit: Unit,
    pub transform: Transform,
}

impl View for RegisterEntry {
    type V = EntryModel;

    open spec fn view(&self) -> EntryModel {
        EntryModel {
            name: self.name@,
            index: self.index as int,
            unit: self.unit,
            transform: self.transform,
        }
    }
}

/// The name under which the decoder inserts the derived solar aggregate.
/// It is reserved: no register-map entry may use it.
pub open spec fn total_solar_name() -> Seq<char> {
    "Total Solar Power"@
}

/// A well-formed register map has pairwise distinct entry names, none of
/// them the reserved aggregate name.
pub open spec fn entries_wf(entries: Seq<EntryModel>) -> bool {
    &&& forall|i: int, j: int|
        0 <= i < j < entries.len() ==> entries[i].name != entries[j].name
    &&& forall|i: int| 0 <= i < entries.len() ==> entries[i].name != total_solar_name()
}

/// No entry of `entries` at or after position `k` is named `n`.
pub open spec fn name_absent_from(entries: Seq<EntryModel>, n: Seq<char>, k: int) -> bool
    decreases entries.len() - k,
{
    k >= entries.len() || (entries[k].name != n && name_absent_from(entries, n, k + 1))
}

/// The entry names of `entries` at or after position `k` are pairwise
/// distinct.
pub open spec fn names_distinct_from(entries: Seq<EntryModel>, k: int) -> bool
    decreases entries.len() - k,
{
    k >= entries.len() || (name_absent_from(entries, entries[k].name, k + 1)
        && names_distinct_from(entries, k + 1))
}

proof fn lemma_name_absent_from_index(entries: Seq<EntryModel>, n: Seq<char>, k: int)
    requires
        name_absent_from(entries, n, k),
    ensures
        forall|j: int| k <= j < entries.len() ==> entries[j].name != n,
    decreases entries.len() - k,
{
    if k < entries.len() {
        lemma_name_absent_from_index(entries, n, k + 1);
    }
}

proof fn lemma_names_distinct_from_pairwise(entries: Seq<EntryModel>, k: int)
    requires
        names_distinct_from(entries, k),
    ensures
        forall|i: int, j: int|
            k <= i < j < entries.len() ==> entries[i].name != entries[j].name,
    decreases entries.len() - k,
{
    if k < entries.len() {
        lemma_name_absent_from_index(entries, entries[k].name, k + 1);
        lemma_names_distinct_from_pairwise(entries, k + 1);
    }
}

/// Immutable description of which raw register index maps to which named
/// measurement. Built once at startup; a decode never mutates it.
pub struct RegisterMap {
    pub entries: Vec<RegisterEntry>,
}

impl View for RegisterMap {
    type V = Seq<EntryModel>;

    open spec fn view(&self) -> Seq<EntryModel> {
        self.entries@.map_values(|e: RegisterEntry| e@)
    }
}

impl RegisterMap {
    pub open spec fn wf(&self) -> bool {
        entries_wf(self@)
    }
}

/// The register layout of the X3 Hybrid G4 inverter.
pub open spec fn x3_hybrid_g4_model() -> Seq<EntryModel> {
    seq![
        EntryModel { name: "Grid 1 Voltage"@, index: 0, unit: Unit::Volt, transform: Transform::ScaleTenth },
        EntryModel { name: "Grid 2 Voltage"@, index: 1, unit: Unit::Volt, transform: Transform::ScaleTenth },
        EntryModel { name: "Grid 3 Voltage"@, index: 2, unit: Unit::Volt, transform: Transform::ScaleTenth },
        EntryModel { name: "Grid 1 Current"@, index: 3, unit: Unit::Ampere, transform: Transform::ScaleTenth },
        EntryModel { name: "Grid 2 Current"@, index: 4, unit: Unit::Ampere, transform: Transform::ScaleTenth },
        EntryModel { name: "Grid 3 Current"@, index: 5, unit: Unit::Ampere, transform: Transform::ScaleTenth },
        EntryModel { name: "Grid 1 Power"@, index: 6, unit: Unit::Watt, transform: Transform::ToSigned16 },
        EntryModel { name: "Grid 2 Power"@, index: 7, unit: Unit::Watt, transform: Transform::ToSigned16 },
        EntryModel { name: "Grid 3 Power"@, index: 8, unit: Unit::Watt, transform: Transform::ToSigned16 },
        EntryModel { name: "PV1 Voltage"@, index: 10, unit: Unit::Volt, transform: Transform::ScaleTenth },
        EntryModel { name: "PV2 Voltage"@, index: 11, unit: Unit::Volt, transform: Transform::ScaleTenth },
        EntryModel { name: "PV1 Current"@, index: 12, unit: Unit::Ampere, transform: Transform::ScaleTenth },
        EntryModel { name: "PV2 Current"@, index: 13, unit: Unit::Ampere, transform: Transform::ScaleTenth },
        EntryModel { name: "PV1 Power"@, index: 14, unit: Unit::Watt, transform: Transform::Identity },
        EntryModel { name: "PV2 Power"@, index: 15, unit: Unit::Watt, transform: Transform::Identity },
        EntryModel { name: "Battery Power"@, index: 41, unit: Unit::Watt, transform: Transform::ToSigned16 },
        EntryModel { name: "Battery Remaining Capacity"@, index: 103, unit: Unit::Percent, transform: Transform::Identity },
        EntryModel { name: "Load/Generator Power"@, index: 47, unit: Unit::Watt, transform: Transform::ToSigned16 },
        EntryModel { name: "Grid Power"@, index: 34, unit: Unit::Watt, transform: Transform::CombineSigned32 { high: 34, low: 35 } },
    ]
}

fn x3_entry(name: &str, index: usize, unit: Unit, transform: Transform) -> (e: RegisterEntry)
    ensures
        e@ == (EntryModel { name: name@, index: index as int, unit, transform }),
{
    RegisterEntry { name: String::from_str(name), index, unit, transform }
}

impl RegisterMap {
    /// The register map of the X3 Hybrid G4 inverter. Construction is pure
    /// and deterministic: the result always matches [`x3_hybrid_g4_model`].
    pub fn x3_hybrid_g4() -> (m: RegisterMap)
        ensures
            m@ == x3_hybrid_g4_model(),
            m.wf(),
    {
        let mut entries: Vec<RegisterEntry> = Vec::new();
        entries.push(x3_entry("Grid 1 Voltage", 0, Unit::Volt, Transform::ScaleTenth));
        entries.push(x3_entry("Grid 2 Voltage", 1, Unit::Volt, Transform::ScaleTenth));
        entries.push(x3_entry("Grid 3 Voltage", 2, Unit::Volt, Transform::ScaleTenth));
        entries.push(x3_entry("Grid 1 Current", 3, Unit::Ampere, Transform::ScaleTenth));
        entries.push(x3_entry("Grid 2 Current", 4, Unit::Ampere, Transform::ScaleTenth));
        entries.push(x3_entry("Grid 3 Current", 5, Unit::Ampere, Transform::ScaleTenth));
        entries.push(x3_entry("Grid 1 Power", 6, Unit::Watt, Transform::ToSigned16));
        entries.push(x3_entry("Grid 2 Power", 7, Unit::Watt, Transform::ToSigned16));
        entries.push(x3_entry("Grid 3 Power", 8, Unit::Watt, Transform::ToSigned16));
        entries.push(x3_entry("PV1 Voltage", 10, Unit::Volt, Transform::ScaleTenth));
        entries.push(x3_entry("PV2 Voltage", 11, Unit::Volt, Transform::ScaleTenth));
        entries.push(x3_entry("PV1 Current", 12, Unit::Ampere, Transform::ScaleTenth));
        entries.push(x3_entry("PV2 Current", 13, Unit::Ampere, Transform::ScaleTenth));
        entries.push(x3_entry("PV1 Power", 14, Unit::Watt, Transform::Identity));
        entries.push(x3_entry("PV2 Power", 15, Unit::Watt, Transform::Identity));
        entries.push(x3_entry("Battery Power", 41, Unit::Watt, Transform::ToSigned16));
        entries.push(x3_entry("Battery Remaining Capacity", 103, Unit::Percent, Transform::Identity));
        entries.push(x3_entry("Load/Generator Power", 47, Unit::Watt, Transform::ToSigned16));
        entries.push(x3_entry("Grid Power", 34, Unit::Watt, Transform::CombineSigned32 { high: 34, low: 35 }));
        let m = RegisterMap { entries };
        proof {
            assert(m@ =~~= x3_hybrid_g4_model());
            lemma_x3_hybrid_g4_model_wf();
        }
        m
    }
}

/// The X3 Hybrid G4 register map is well formed: its nineteen entry names
/// are pairwise distinct and none is the reserved aggregate name.
pub proof fn lemma_x3_hybrid_g4_model_wf()
    ensures
        entries_wf(x3_hybrid_g4_model()),
{
    reveal_strlit("Grid 1 Voltage");
    reveal_strlit("Grid 2 Voltage");
    reveal_strlit("Grid 3 Voltage");
    reveal_strlit("Grid 1 Current");
    reveal_strlit("Grid 2 Current");
    reveal_strlit("Grid 3 Current");
    reveal_strlit("Grid 1 Power");
    reveal_strlit("Grid 2 Power");
    reveal_strlit("Grid 3 Power");
    reveal_strlit("PV1 Voltage");
    reveal_strlit("PV2 Voltage");
    reveal_strlit("PV1 Current");
    reveal_strlit("PV2 Current");
    reveal_strlit("PV1 Power");
    reveal_strlit("PV2 Power");
    reveal_strlit("Battery Power");
    reveal_strlit("Battery Remaining Capacity");
    reveal_strlit("Load/Generator Power");
    reveal_strlit("Grid Power");
    reveal_strlit("Total Solar Power");
    // Materialize enough length and character facts to tell the revealed
    // literals apart.
    assert(("Grid 1 Voltage"@).len() == 14 && ("Grid 1 Voltage"@)[5] == '1'
        && ("Grid 1 Voltage"@)[7] == 'V');
    assert(("Grid 2 Voltage"@).len() == 14 && ("Grid 2 Voltage"@)[5] == '2'
        && ("Grid 2 Voltage"@)[7] == 'V');
    assert(("Grid 3 Voltage"@).len() == 14 && ("Grid 3 Voltage"@)[5] == '3'
        && ("Grid 3 Voltage"@)[7] == 'V');
    assert(("Grid 1 Current"@).len() == 14 && ("Grid 1 Current"@)[5] == '1'
        && ("Grid 1 Current"@)[7] == 'C');
    assert(("Grid 2 Current"@).len() == 14 && ("Grid 2 Current"@)[5] == '2'
        && ("Grid 2 Current"@)[7] == 'C');
    assert(("Grid 3 Current"@).len() == 14 && ("Grid 3 Current"@)[5] == '3'
        && ("Grid 3 Current"@)[7] == 'C');
    assert(("Grid 1 Power"@).len() == 12 && ("Grid 1 Power"@)[5] == '1');
    assert(("Grid 2 Power"@).len() == 12 && ("Grid 2 Power"@)[5] == '2');
    assert(("Grid 3 Power"@).len() == 12 && ("Grid 3 Power"@)[5] == '3');
    assert(("PV1 Voltage"@).len() == 11 && ("PV1 Voltage"@)[2] == '1'
        && ("PV1 Voltage"@)[4] == 'V');
    assert(("PV2 Voltage"@).len() == 11 && ("PV2 Voltage"@)[2] == '2'
        && ("PV2 Voltage"@)[4] == 'V');
    assert(("PV1 Current"@).len() == 11 && ("PV1 Current"@)[2] == '1'
        && ("PV1 Current"@)[4] == 'C');
    assert(("PV2 Current"@).len() == 11 && ("PV2 Current"@)[2] == '2'
        && ("PV2 Current"@)[4] == 'C');
    assert(("PV1 Power"@).len() == 9 && ("PV1 Power"@)[2] == '1');
    assert(("PV2 Power"@).len() == 9 && ("PV2 Power"@)[2] == '2');
    assert(("Battery Power"@).len() == 13);
    assert(("Battery Remaining Capacity"@).len() == 26);
    assert(("Load/Generator Power"@).len() == 20);
    assert(("Grid Power"@).len() == 10);
    assert(("Total Solar Power"@).len() == 17);
    let s = x3_hybrid_g4_model();
    reveal_with_fuel(names_distinct_from, 21);
    reveal_with_fuel(name_absent_from, 21);
    assert(names_distinct_from(s, 0));
    assert(name_absent_from(s, total_solar_name(), 0));
    lemma_names_distinct_from_pairwise(s, 0);
    lemma_name_absent_from_index(s, total_solar_name(), 0);
}

} // verus!
