//! One decoded telemetry reading.  The three float fields are kept as
//! their validated decimal text — the pipeline never computes with
//! them, it stores, displays and logs them — while counters, positions
//! and flags are plain values.

use vstd::prelude::*;

use crate::float_text::is_float_text;

verus! {

/// One decoded reading, immutable once constructed.  The ingestion
/// timestamp and the two recorded valve flags are left default by the
/// decoder and filled by the acquisition step.
#[derive(Debug, PartialEq, Eq)]
pub struct TelemetrySample {
    /// Ingestion wall clock, whole seconds since the epoch, assigned by
    /// the acquisition step, not by the device.
    pub timestamp: u64,
    /// Controller-reported elapsed time, as decimal float text.
    pub elapsed: Vec<u8>,
    /// Fuel flow rate, as decimal float text.
    pub flow_fuel: Vec<u8>,
    /// Oxidizer flow rate, as decimal float text.
    pub flow_oxi: Vec<u8>,
    /// Fuel pulse count.
    pub pulse_fuel: i32,
    /// Oxidizer pulse count.
    pub pulse_oxi: i32,
    /// Desired fuel actuator position.
    pub pos_fuel: i32,
    /// Desired oxidizer actuator position.
    pub pos_oxi: i32,
    /// Emergency flag reported by the device.
    pub emergency: bool,
    /// Fuel valve intent recorded at ingestion time.
    pub fuel_valve_open: bool,
    /// Oxidizer valve intent recorded at ingestion time.
    pub oxi_valve_open: bool,
    /// The raw line the sample was decoded from.
    pub raw: Vec<u8>,
}

/// Well-formed sample: the three float fields hold valid decimal float
/// text.
pub open spec fn sample_wf(s: TelemetrySample) -> bool {
    is_float_text(s.elapsed@) && is_float_text(s.flow_fuel@) && is_float_text(s.flow_oxi@)
}

/// `a` carries exactly the values of `b`, field for field.
pub open spec fn sample_matches(a: TelemetrySample, b: TelemetrySample) -> bool {
    a.timestamp == b.timestamp && a.elapsed@ == b.elapsed@ && a.flow_fuel@ == b.flow_fuel@
        && a.flow_oxi@ == b.flow_oxi@ && a.pulse_fuel == b.pulse_fuel && a.pulse_oxi == b.pulse_oxi
        && a.pos_fuel == b.pos_fuel && a.pos_oxi == b.pos_oxi && a.emergency == b.emergency
        && a.fuel_valve_open == b.fuel_valve_open && a.oxi_valve_open == b.oxi_valve_open && a.raw@
        == b.raw@
}

/// Copy of a byte string.
pub fn copy_bytes(s: &[u8]) -> (r: Vec<u8>)
    ensures
        r@ == s@,
{
    let mut r: Vec<u8> = Vec::new();
    let mut i: usize = 0;
    while i < s.len()
        invariant
            i <= s@.len(),
            r@ =~= s@.take(i as int),
        decreases s@.len() - i,
    {
        r.push(s[i]);
        proof {
            assert(r@ =~= s@.take(i + 1));
        }
        i += 1;
    }
    proof {
        assert(s@.take(s@.len() as int) =~= s@);
    }
    r
}

impl TelemetrySample {
    /// An independent copy carrying the same values; the pipeline hands
    /// one copy to the history and one to the consumer, so no shared
    /// mutable sample ever exists.
    pub fn duplicate(&self) -> (r: Self)
        ensures
            sample_matches(r, *self),
    {
        TelemetrySample {
            timestamp: self.timestamp,
            elapsed: copy_bytes(self.elapsed.as_slice()),
            flow_fuel: copy_bytes(self.flow_fuel.as_slice()),
            flow_oxi: copy_bytes(self.flow_oxi.as_slice()),
            pulse_fuel: self.pulse_fuel,
            pulse_oxi: self.pulse_oxi,
            pos_fuel: self.pos_fuel,
            pos_oxi: self.pos_oxi,
            emergency: self.emergency,
            fuel_valve_open: self.fuel_valve_open,
            oxi_valve_open: self.oxi_valve_open,
            raw: copy_bytes(self.raw.as_slice()),
        }
    }
}

} // verus!
