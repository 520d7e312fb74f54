//! The line decoder: raw text line to validated sample or decode
//! error.  A line must split on commas into exactly eight fields —
//! elapsed time, fuel flow and oxidizer flow as decimal floats, then
//! fuel pulses, oxidizer pulses, desired fuel position and desired
//! oxidizer position as 32-bit integers, and an emergency flag that
//! must be the integer 0 or 1.  Pure and deterministic; no state, no
//! side effects.

use vstd::prelude::*;

use crate::fields::split_commas;
use crate::fields::split_line;
use crate::float_text::check_float_text;
use crate::float_text::is_float_text;
use crate::num_text::int_text_value;
use crate::num_text::is_i32_text;
use crate::num_text::parse_i32;
use crate::sample::copy_bytes;
use crate::sample::TelemetrySample;

verus! {

/// Why a line was rejected.
#[derive(Clone, Copy, Debug, PartialEq, Eq, Structural)]
pub enum DecodeError {
    /// The line did not split into exactly eight fields.
    FieldCount { found: usize },
    /// Field `index` (counted from zero) is not well formed for its
    /// type: a float field that is not decimal float text, or an
    /// integer field that is not integer text fitting 32 bits.
    BadField { index: usize },
    /// The emergency field is an integer other than 0 or 1.
    EmergencyRange,
}

/// The emergency field: integer text whose value is 0 or 1.
pub open spec fn is_emergency_field(f: Seq<u8>) -> bool {
    is_i32_text(f) && (int_text_value(f) == 0 || int_text_value(f) == 1)
}

/// Well-formedness of field `k` of a telemetry line.
pub open spec fn field_wf(f: Seq<u8>, k: int) -> bool {
    if k < 3 {
        is_float_text(f)
    } else if k < 7 {
        is_i32_text(f)
    } else {
        is_emergency_field(f)
    }
}

/// A line the decoder accepts: exactly eight fields, each well formed.
pub open spec fn line_wf(line: Seq<u8>) -> bool {
    let fs = split_commas(line);
    fs.len() == 8 && forall|k: int| 0 <= k < 8 ==> field_wf(#[trigger] fs[k], k)
}

/// The sample the decoder owes for a well-formed line: float fields
/// keep their text, integer fields their value, the emergency flag is
/// the truth of its field, and the raw line is kept for audit.
pub open spec fn decoded_from(s: TelemetrySample, line: Seq<u8>) -> bool {
    let fs = split_commas(line);
    line_wf(line) && s.elapsed@ == fs[0] && s.flow_fuel@ == fs[1] && s.flow_oxi@ == fs[2]
        && s.pulse_fuel as int == int_text_value(fs[3]) && s.pulse_oxi as int == int_text_value(
        fs[4],
    ) && s.pos_fuel as int == int_text_value(fs[5]) && s.pos_oxi as int == int_text_value(fs[6])
        && s.emergency == (int_text_value(fs[7]) == 1) && s.raw@ == line
}

/// First field index at or after `k` that is malformed, 8 when none is.
pub open spec fn first_bad_index(fs: Seq<Seq<u8>>, k: int) -> int
    decreases 8 - k,
{
    if k < 0 || k >= 8 {
        8
    } else if !field_wf(fs[k], k) {
        k
    } else {
        first_bad_index(fs, k + 1)
    }
}

/// The error the decoder owes for a malformed line: the field count
/// when it is not eight, otherwise the first malformed field, with the
/// emergency range told apart from emergency syntax.
pub open spec fn decode_error_of(line: Seq<u8>) -> DecodeError {
    let fs = split_commas(line);
    if fs.len() != 8 {
        DecodeError::FieldCount { found: fs.len() as usize }
    } else {
        let k = first_bad_index(fs, 0);
        if k == 7 && is_i32_text(fs[7]) {
            DecodeError::EmergencyRange
        } else {
            DecodeError::BadField { index: k as usize }
        }
    }
}

/// Fields before `k` well formed and field `k` malformed pin the first
/// malformed index down.
proof fn lemma_first_bad(fs: Seq<Seq<u8>>, j: int, k: int)
    requires
        0 <= j <= k < 8,
        forall|m: int| j <= m < k ==> field_wf(#[trigger] fs[m], m),
        !field_wf(fs[k], k),
    ensures
        first_bad_index(fs, j) == k,
    decreases k - j,
{
    if j < k {
        lemma_first_bad(fs, j + 1, k);
    }
}

/// Decodes one raw line.  Returns the sample exactly when the line is
/// well formed, with ingestion timestamp and recorded valve flags left
/// zero and false for the caller to fill; otherwise the error the line
/// earns.  Deterministic, no side effects.
pub fn decode_line(line: &[u8]) -> (r: Result<TelemetrySample, DecodeError>)
    ensures
        r is Ok <==> line_wf(line@),
        r matches Ok(s) ==> decoded_from(s, line@) && s.timestamp == 0 && !s.fuel_valve_open
            && !s.oxi_valve_open,
        r matches Err(e) ==> e == decode_error_of(line@),
{
    let fields = split_line(line);
    let ghost fs = split_commas(line@);
    if fields.len() != 8 {
        return Err(DecodeError::FieldCount { found: fields.len() });
    }
    if !check_float_text(fields[0].as_slice()) {
        proof {
            lemma_first_bad(fs, 0, 0);
        }
        return Err(DecodeError::BadField { index: 0 });
    }
    if !check_float_text(fields[1].as_slice()) {
        proof {
            lemma_first_bad(fs, 0, 1);
        }
        return Err(DecodeError::BadField { index: 1 });
    }
    if !check_float_text(fields[2].as_slice()) {
        proof {
            lemma_first_bad(fs, 0, 2);
        }
        return Err(DecodeError::BadField { index: 2 });
    }
    let pulse_fuel = match parse_i32(fields[3].as_slice()) {
        Some(v) => v,
        None => {
            proof {
                lemma_first_bad(fs, 0, 3);
            }
            return Err(DecodeError::BadField { index: 3 });
        },
    };
    let pulse_oxi = match parse_i32(fields[4].as_slice()) {
        Some(v) => v,
        None => {
            proof {
                lemma_first_bad(fs, 0, 4);
            }
            return Err(DecodeError::BadField { index: 4 });
        },
    };
    let pos_fuel = match parse_i32(fields[5].as_slice()) {
        Some(v) => v,
        None => {
            proof {
                lemma_first_bad(fs, 0, 5);
            }
            return Err(DecodeError::BadField { index: 5 });
        },
    };
    let pos_oxi = match parse_i32(fields[6].as_slice()) {
        Some(v) => v,
        None => {
            proof {
                lemma_first_bad(fs, 0, 6);
            }
            return Err(DecodeError::BadField { index: 6 });
        },
    };
    let emergency_val = match parse_i32(fields[7].as_slice()) {
        Some(v) => v,
        None => {
            proof {
                lemma_first_bad(fs, 0, 7);
            }
            return Err(DecodeError::BadField { index: 7 });
        },
    };
    if emergency_val != 0 && emergency_val != 1 {
        proof {
            lemma_first_bad(fs, 0, 7);
        }
        return Err(DecodeError::EmergencyRange);
    }
    let s = TelemetrySample {
        timestamp: 0,
        elapsed: copy_bytes(fields[0].as_slice()),
        flow_fuel: copy_bytes(fields[1].as_slice()),
        flow_oxi: copy_bytes(fields[2].as_slice()),
        pulse_fuel,
        pulse_oxi,
        pos_fuel,
        pos_oxi,
        emergency: emergency_val == 1,
        fuel_valve_open: false,
        oxi_valve_open: false,
        raw: copy_bytes(line),
    };
    proof {
        assert forall|k: int| 0 <= k < 8 implies field_wf(#[trigger] fs[k], k) by {
            if k == 7 {
                assert(is_emergency_field(fs[7]));
            }
        }
    }
    Ok(s)
}

} // verus!
