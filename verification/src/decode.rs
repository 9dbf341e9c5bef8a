//! The telemetry decoder: applies a register map to a raw register array,
//! producing named engineering-unit measurements plus the derived solar
//! aggregate. Decoding is total: an entry whose register index is out of
//! bounds is silently omitted, never an error.

use vstd::prelude::*;
use vstd::string::StringExecFns;
use crate::registers::{
    EntryModel, RegisterMap, Transform, Unit, combine_signed32, entries_wf,
    spec_combine_signed32, spec_to_signed16, to_signed16, total_solar_name,
};

verus! {

/// One decoded value: exact hundredths of a unit, with the unit itself.
#[derive(Clone, Copy, Debug, PartialEq, Eq, Structural)]
pub struct Measurement {
    pub value_centi: i64,
    pub unit: Unit,
}

/// Mathematical model of one named reading.
#[verifier::ext_equal]
pub ghost struct ReadingModel {
    pub name: Seq<char>,
    pub value_centi: int,
    pub unit: Unit,
}

/// One named reading produced by a decode cycle.
pub struct Reading {
    pub name: String,
    pub measurement: Measurement,
}

impl View for Reading {
    type V = ReadingModel;

    open spec fn view(&self) -> ReadingModel {
        ReadingModel {
            name: self.name@,
            value_centi: self.measurement.value_centi as int,
            unit: self.measurement.unit,
        }
    }
}

/// All measurements of one decode cycle, in decode order.
pub struct Measurements {
    pub readings: Vec<Reading>,
}

impl View for Measurements {
    type V = Seq<ReadingModel>;

    open spec fn view(&self) -> Seq<ReadingModel> {
        self.readings@.map_values(|r: Reading| r@)
    }
}

/// Largest magnitude any single decoded value can have, in hundredths:
/// the 32-bit combine transform stays within 2^48 wire counts.
pub open spec fn max_reading_centi() -> int {
    28147497671065600
}

/// Every reading's value has magnitude at most `b`.
pub open spec fn readings_bounded_by(rs: Seq<ReadingModel>, b: int) -> bool {
    forall|k: int| 0 <= k < rs.len() ==> -b <= #[trigger] rs[k].value_centi <= b
}

impl Measurements {
    /// Every value a decode cycle produces, the solar aggregate included,
    /// fits well inside `i64`.
    pub open spec fn wf(&self) -> bool {
        readings_bounded_by(self@, 2 * max_reading_centi())
    }
}

/// The engineering-unit value of one register under a transform, in exact
/// hundredths. The combine transform reads both of its own registers and
/// falls back to zero when either is out of bounds.
pub open spec fn spec_transform_centi(t: Transform, v: int, raw: Seq<i32>) -> int {
    match t {
        Transform::Identity => v * 100,
        Transform::ScaleTenth => v * 10,
        Transform::ScaleHundredth => v,
        Transform::ToSigned16 => spec_to_signed16(v) * 100,
        Transform::CombineSigned32 { high, low } => if high < raw.len() && low < raw.len() {
            spec_combine_signed32(raw[high as int], raw[low as int]) * 100
        } else {
            0
        },
    }
}

/// The reading one in-bounds map entry produces.
pub open spec fn spec_entry_reading(e: EntryModel, raw: Seq<i32>) -> ReadingModel {
    ReadingModel {
        name: e.name,
        value_centi: spec_transform_centi(e.transform, raw[e.index] as int, raw),
        unit: e.unit,
    }
}

/// Per-entry decode: one reading per map entry whose index is in bounds,
/// in map order; out-of-bounds entries are omitted.
pub open spec fn spec_decode_entries(raw: Seq<i32>, entries: Seq<EntryModel>) -> Seq<ReadingModel>
    decreases entries.len(),
{
    if entries.len() == 0 {
        Seq::empty()
    } else {
        let rest = spec_decode_entries(raw, entries.drop_last());
        let e = entries.last();
        if 0 <= e.index < raw.len() {
            rest.push(spec_entry_reading(e, raw))
        } else {
            rest
        }
    }
}

/// First reading named `n` at or after position `k`.
pub open spec fn spec_lookup_from(rs: Seq<ReadingModel>, n: Seq<char>, k: int) -> Option<
    ReadingModel,
>
    decreases rs.len() - k,
{
    if k < 0 || k >= rs.len() {
        None
    } else if rs[k].name == n {
        Some(rs[k])
    } else {
        spec_lookup_from(rs, n, k + 1)
    }
}

/// First reading named `n`, if any.
pub open spec fn spec_lookup(rs: Seq<ReadingModel>, n: Seq<char>) -> Option<ReadingModel> {
    spec_lookup_from(rs, n, 0)
}

/// Full decode: per-entry readings, then the derived solar aggregate,
/// present exactly when both photovoltaic channel powers decoded.
pub open spec fn spec_decode(raw: Seq<i32>, entries: Seq<EntryModel>) -> Seq<ReadingModel> {
    let base = spec_decode_entries(raw, entries);
    let pv1 = spec_lookup(base, "PV1 Power"@);
    let pv2 = spec_lookup(base, "PV2 Power"@);
    if pv1 is Some && pv2 is Some {
        base.push(
            ReadingModel {
                name: total_solar_name(),
                value_centi: pv1->Some_0.value_centi + pv2->Some_0.value_centi,
                unit: Unit::Watt,
            },
        )
    } else {
        base
    }
}

proof fn lemma_lookup_from_push(rs: Seq<ReadingModel>, r: ReadingModel, n: Seq<char>, k: int)
    requires
        0 <= k <= rs.len(),
    ensures
        spec_lookup_from(rs.push(r), n, k) == if spec_lookup_from(rs, n, k) is Some {
            spec_lookup_from(rs, n, k)
        } else if r.name == n {
            Some(r)
        } else {
            None::<ReadingModel>
        },
    decreases rs.len() - k,
{
    if k < rs.len() {
        assert(rs.push(r)[k] == rs[k]);
        lemma_lookup_from_push(rs, r, n, k + 1);
        if rs[k].name == n {
            assert(spec_lookup_from(rs.push(r), n, k) == Some(rs[k]));
            assert(spec_lookup_from(rs, n, k) == Some(rs[k]));
        } else {
            assert(spec_lookup_from(rs.push(r), n, k) == spec_lookup_from(rs.push(r), n, k + 1));
            assert(spec_lookup_from(rs, n, k) == spec_lookup_from(rs, n, k + 1));
        }
    } else {
        assert(rs.push(r)[k] == r);
        assert(spec_lookup_from(rs, n, k) is None);
        if r.name == n {
            assert(spec_lookup_from(rs.push(r), n, k) == Some(r));
        } else {
            assert(spec_lookup_from(rs.push(r), n, k) == spec_lookup_from(rs.push(r), n, k + 1));
            assert(spec_lookup_from(rs.push(r), n, k + 1) is None);
        }
    }
}

/// A successful lookup returns one of the readings, so it obeys any bound
/// they all obey.
pub proof fn lemma_lookup_bounded(rs: Seq<ReadingModel>, n: Seq<char>, b: int, k: int)
    requires
        readings_bounded_by(rs, b),
        spec_lookup_from(rs, n, k) is Some,
    ensures
        -b <= spec_lookup_from(rs, n, k)->Some_0.value_centi <= b,
    decreases rs.len() - k,
{
    if 0 <= k < rs.len() && rs[k].name != n {
        lemma_lookup_bounded(rs, n, b, k + 1);
    }
}

/// Appending a reading never changes an existing lookup result.
pub proof fn lemma_lookup_push(rs: Seq<ReadingModel>, r: ReadingModel, n: Seq<char>)
    ensures
        spec_lookup(rs.push(r), n) == if spec_lookup(rs, n) is Some {
            spec_lookup(rs, n)
        } else if r.name == n {
            Some(r)
        } else {
            None::<ReadingModel>
        },
{
    lemma_lookup_from_push(rs, r, n, 0);
}

/// A name that no in-bounds entry carries is absent from the per-entry
/// decode.
pub proof fn lemma_lookup_none_when_absent(raw: Seq<i32>, entries: Seq<EntryModel>, n: Seq<char>)
    requires
        forall|k: int|
            0 <= k < entries.len() ==> !(entries[k].name == n && 0 <= entries[k].index
                < raw.len()),
    ensures
        spec_lookup(spec_decode_entries(raw, entries), n) is None,
    decreases entries.len(),
{
    if entries.len() > 0 {
        let prefix = entries.drop_last();
        assert(forall|k: int|
            0 <= k < prefix.len() ==> !(prefix[k].name == n && 0 <= prefix[k].index
                < raw.len()));
        lemma_lookup_none_when_absent(raw, prefix, n);
        let e = entries.last();
        if 0 <= e.index < raw.len() {
            lemma_lookup_push(spec_decode_entries(raw, prefix), spec_entry_reading(e, raw), n);
        }
    }
}

/// Decoding a well-formed map over a raw array shorter than an entry's
/// register index omits that entry's name entirely.
pub proof fn lemma_out_of_range_entry_omitted(raw: Seq<i32>, entries: Seq<EntryModel>, i: int)
    requires
        entries_wf(entries),
        0 <= i < entries.len(),
        !(0 <= entries[i].index < raw.len()),
    ensures
        spec_lookup(spec_decode(raw, entries), entries[i].name) is None,
{
    let n = entries[i].name;
    assert forall|k: int|
        0 <= k < entries.len() implies !(entries[k].name == n && 0 <= entries[k].index
        < raw.len()) by {
        if k < i {
            assert(entries[k].name != entries[i].name);
        } else if k > i {
            assert(entries[i].name != entries[k].name);
        }
    }
    lemma_lookup_none_when_absent(raw, entries, n);
    let base = spec_decode_entries(raw, entries);
    let pv1 = spec_lookup(base, "PV1 Power"@);
    let pv2 = spec_lookup(base, "PV2 Power"@);
    if pv1 is Some && pv2 is Some {
        lemma_lookup_push(
            base,
            ReadingModel {
                name: total_solar_name(),
                value_centi: pv1->Some_0.value_centi + pv2->Some_0.value_centi,
                unit: Unit::Watt,
            },
            n,
        );
    }
}

/// Whenever both photovoltaic channel powers decode, the decoder inserts
/// their exact sum under the reserved aggregate name.
pub proof fn lemma_total_solar_is_sum(raw: Seq<i32>, entries: Seq<EntryModel>)
    requires
        entries_wf(entries),
        spec_lookup(spec_decode(raw, entries), "PV1 Power"@) is Some,
        spec_lookup(spec_decode(raw, entries), "PV2 Power"@) is Some,
    ensures
        spec_lookup(spec_decode(raw, entries), total_solar_name()) == Some(
            ReadingModel {
                name: total_solar_name(),
                value_centi: spec_lookup(spec_decode(raw, entries), "PV1 Power"@)->Some_0.value_centi
                    + spec_lookup(spec_decode(raw, entries), "PV2 Power"@)->Some_0.value_centi,
                unit: Unit::Watt,
            },
        ),
{
    let base = spec_decode_entries(raw, entries);
    let pv1 = spec_lookup(base, "PV1 Power"@);
    let pv2 = spec_lookup(base, "PV2 Power"@);
    assert(forall|k: int|
        0 <= k < entries.len() ==> !(entries[k].name == total_solar_name() && 0
            <= entries[k].index < raw.len()));
    lemma_lookup_none_when_absent(raw, entries, total_solar_name());
    if pv1 is Some && pv2 is Some {
        let agg = ReadingModel {
            name: total_solar_name(),
            value_centi: pv1->Some_0.value_centi + pv2->Some_0.value_centi,
            unit: Unit::Watt,
        };
        lemma_lookup_push(base, agg, "PV1 Power"@);
        lemma_lookup_push(base, agg, "PV2 Power"@);
        lemma_lookup_push(base, agg, total_solar_name());
    }
}

impl Measurements {
    /// First measurement stored under `name`, if any.
    pub fn get(&self, name: &str) -> (r: Option<Measurement>)
        ensures
            match r {
                Option::None => spec_lookup(self@, name@) is None,
                Option::Some(m) => spec_lookup(self@, name@) == Some(
                    ReadingModel {
                        name: name@,
                        value_centi: m.value_centi as int,
                        unit: m.unit,
                    },
                ),
            },
    {
        let key: String = name.to_owned();
        let n = self.readings.len();
        for i in 0..n
            invariant
                n == self.readings.len(),
                key@ == name@,
                spec_lookup(self@, name@) == spec_lookup_from(self@, name@, i as int),
        {
            if self.readings[i].name == key {
                assert(spec_lookup_from(self@, name@, i as int) == Some(self@[i as int]));
                return Some(self.readings[i].measurement);
            }
            assert(spec_lookup_from(self@, name@, i as int) == spec_lookup_from(
                self@,
                name@,
                i as int + 1,
            ));
        }
        None
    }
}

fn apply_transform(t: Transform, v: i32, raw: &Vec<i32>) -> (r: i64)
    ensures
        r as int == spec_transform_centi(t, v as int, raw@),
        -max_reading_centi() <= r as int <= max_reading_centi(),
{
    match t {
        Transform::Identity => (v as i64) * 100,
        Transform::ScaleTenth => (v as i64) * 10,
        Transform::ScaleHundredth => v as i64,
        Transform::ToSigned16 => to_signed16(v) * 100,
        Transform::CombineSigned32 { high, low } => {
            if high < raw.len() && low < raw.len() {
                combine_signed32(raw[high], raw[low]) * 100
            } else {
                0
            }
        },
    }
}

/// Decode a raw register array against a register map.
///
/// Total in the raw input: every entry whose register index is in bounds
/// yields a reading, every other entry is omitted, and when both
/// photovoltaic channel powers decode their sum is appended under the
/// reserved aggregate name.
pub fn decode(raw: &Vec<i32>, map: &RegisterMap) -> (out: Measurements)
    ensures
        out@ == spec_decode(raw@, map@),
        out.wf(),
{
    let mut readings: Vec<Reading> = Vec::new();
    let n = map.entries.len();
    for i in 0..n
        invariant
            n == map.entries.len(),
            readings@.map_values(|r: Reading| r@) == spec_decode_entries(
                raw@,
                map@.take(i as int),
            ),
            readings_bounded_by(readings@.map_values(|r: Reading| r@), max_reading_centi()),
    {
        let ghost prefix = map@.take(i as int);
        let ghost prefix1 = map@.take(i as int + 1);
        let e = &map.entries[i];
        proof {
            assert(map@[i as int] == e@);
            assert(prefix1.drop_last() =~= prefix);
            assert(prefix1.last() == map@[i as int]);
        }
        if e.index < raw.len() {
            let v: i32 = raw[e.index];
            let centi: i64 = apply_transform(e.transform, v, raw);
            let reading = Reading {
                name: e.name.clone(),
                measurement: Measurement { value_centi: centi, unit: e.unit },
            };
            proof {
                assert(reading@ == spec_entry_reading(e@, raw@));
            }
            readings.push(reading);
            proof {
                assert(readings@.map_values(|r: Reading| r@) =~= spec_decode_entries(
                    raw@,
                    prefix1,
                ));
            }
        } else {
            proof {
                assert(spec_decode_entries(raw@, prefix1) == spec_decode_entries(raw@, prefix));
            }
        }
    }
    proof {
        assert(map@.take(n as int) =~= map@);
    }
    let mut out = Measurements { readings };
    let pv1 = out.get("PV1 Power");
    let pv2 = out.get("PV2 Power");
    if let (Some(a), Some(b)) = (pv1, pv2) {
        proof {
            lemma_lookup_bounded(out@, "PV1 Power"@, max_reading_centi(), 0);
            lemma_lookup_bounded(out@, "PV2 Power"@, max_reading_centi(), 0);
        }
        let total = Reading {
            name: String::from_str("Total Solar Power"),
            measurement: Measurement { value_centi: a.value_centi + b.value_centi, unit: Unit::Watt },
        };
        proof {
            assert(total@.name == total_solar_name());
        }
        out.readings.push(total);
        proof {
            assert(out@ =~= spec_decode(raw@, map@));
        }
    }
    out
}

} // verus!
