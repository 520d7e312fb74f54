//! The persistent logger's record layout: one comma-delimited,
//! newline-terminated text record per valid sample — ingestion
//! timestamp, elapsed time, both flows, both pulse counts, both desired
//! positions, both recorded valve flags, in that fixed order.  The
//! record of a sample recovers every one of those values exactly when
//! split back into fields.

use vstd::prelude::*;

use crate::fields::byte_views;
use crate::fields::join_commas;
use crate::fields::join_line;
use crate::fields::lemma_split_join;
use crate::fields::split_commas;
use crate::float_text::lemma_float_text_chars;
use crate::num_text::dec_value;
use crate::num_text::format_i32;
use crate::num_text::format_u64;
use crate::num_text::int_text_of;
use crate::num_text::int_text_value;
use crate::num_text::is_digit;
use crate::num_text::is_int_text;
use crate::num_text::is_uint_text;
use crate::num_text::lemma_int_text_of_value;
use crate::num_text::lemma_uint_text_of_value;
use crate::num_text::uint_text_of;
use crate::sample::copy_bytes;
use crate::sample::sample_wf;
use crate::sample::TelemetrySample;

verus! {

/// A boolean rendered as the words `true` or `false`.
pub open spec fn bool_text(b: bool) -> Seq<u8> {
    if b {
        seq![116u8, 114u8, 117u8, 101u8]
    } else {
        seq![102u8, 97u8, 108u8, 115u8, 101u8]
    }
}

/// The ten fields of a sample's log record, in their fixed order.
pub open spec fn record_fields(s: TelemetrySample) -> Seq<Seq<u8>> {
    seq![
        uint_text_of(s.timestamp as nat),
        s.elapsed@,
        s.flow_fuel@,
        s.flow_oxi@,
        int_text_of(s.pulse_fuel as int),
        int_text_of(s.pulse_oxi as int),
        int_text_of(s.pos_fuel as int),
        int_text_of(s.pos_oxi as int),
        bool_text(s.fuel_valve_open),
        bool_text(s.oxi_valve_open),
    ]
}

/// The record body: the ten fields joined with commas, no terminator.
pub open spec fn record_body(s: TelemetrySample) -> Seq<u8> {
    join_commas(record_fields(s))
}

/// One full log record: the body and a newline.
pub open spec fn log_record(s: TelemetrySample) -> Seq<u8> {
    record_body(s) + seq![10u8]
}

/// Renders a boolean field.
fn format_bool(b: bool) -> (r: Vec<u8>)
    ensures
        r@ == bool_text(b),
{
    let mut r: Vec<u8> = Vec::new();
    if b {
        r.push(116);
        r.push(114);
        r.push(117);
        r.push(101);
    } else {
        r.push(102);
        r.push(97);
        r.push(108);
        r.push(115);
        r.push(101);
    }
    proof {
        assert(r@ =~= bool_text(b));
    }
    r
}

/// Renders a sample as its log record.
pub fn render_record(s: &TelemetrySample) -> (r: Vec<u8>)
    ensures
        r@ == log_record(*s),
{
    let mut fields: Vec<Vec<u8>> = Vec::new();
    fields.push(format_u64(s.timestamp));
    fields.push(copy_bytes(s.elapsed.as_slice()));
    fields.push(copy_bytes(s.flow_fuel.as_slice()));
    fields.push(copy_bytes(s.flow_oxi.as_slice()));
    fields.push(format_i32(s.pulse_fuel));
    fields.push(format_i32(s.pulse_oxi));
    fields.push(format_i32(s.pos_fuel));
    fields.push(format_i32(s.pos_oxi));
    fields.push(format_bool(s.fuel_valve_open));
    fields.push(format_bool(s.oxi_valve_open));
    proof {
        assert(byte_views(fields@) =~= record_fields(*s));
    }
    let mut r = join_line(&fields);
    r.push(10);
    proof {
        assert(r@ =~= log_record(*s));
    }
    r
}

/// No field of a record holds a comma, so the record body splits back
/// into exactly the ten fields.
proof fn lemma_record_fields_comma_free(s: TelemetrySample)
    requires
        sample_wf(s),
    ensures
        forall|k: int, j: int|
            0 <= k < record_fields(s).len() && 0 <= j < record_fields(s)[k].len()
                ==> #[trigger] record_fields(s)[k][j] != 44,
{
    let fs = record_fields(s);
    lemma_uint_text_of_value(s.timestamp as nat);
    lemma_int_text_of_value(s.pulse_fuel as int);
    lemma_int_text_of_value(s.pulse_oxi as int);
    lemma_int_text_of_value(s.pos_fuel as int);
    lemma_int_text_of_value(s.pos_oxi as int);
    assert forall|k: int, j: int| 0 <= k < fs.len() && 0 <= j < fs[k].len() implies #[trigger] fs[k][j]
        != 44 by {
        if k == 1 {
            lemma_float_text_chars(s.elapsed@, j);
        } else if k == 2 {
            lemma_float_text_chars(s.flow_fuel@, j);
        } else if k == 3 {
            lemma_float_text_chars(s.flow_oxi@, j);
        } else if k == 0 {
            assert(is_digit(fs[0][j]));
        } else if 4 <= k < 8 {
            let t = fs[k];
            assert(is_int_text(t));
            if t[0] == 43 || t[0] == 45 {
                if j > 0 {
                    assert(is_digit(t.skip(1)[j - 1]));
                    assert(t.skip(1)[j - 1] == t[j]);
                }
            } else {
                assert(is_digit(t[j]));
            }
        }
    }
}

/// Round trip through the log: splitting a well-formed sample's record
/// body yields ten fields that recover every logged value — the
/// timestamp and the four integer fields by value, the three float
/// fields as their exact original text, and both valve flags.
pub proof fn lemma_record_round_trip(s: TelemetrySample)
    requires
        sample_wf(s),
    ensures
        ({
            let fs = split_commas(record_body(s));
            &&& fs.len() == 10
            &&& is_uint_text(fs[0]) && dec_value(fs[0]) == s.timestamp
            &&& fs[1] == s.elapsed@
            &&& fs[2] == s.flow_fuel@
            &&& fs[3] == s.flow_oxi@
            &&& is_int_text(fs[4]) && int_text_value(fs[4]) == s.pulse_fuel
            &&& is_int_text(fs[5]) && int_text_value(fs[5]) == s.pulse_oxi
            &&& is_int_text(fs[6]) && int_text_value(fs[6]) == s.pos_fuel
            &&& is_int_text(fs[7]) && int_text_value(fs[7]) == s.pos_oxi
            &&& fs[8] == bool_text(s.fuel_valve_open)
            &&& fs[9] == bool_text(s.oxi_valve_open)
        }),
{
    lemma_record_fields_comma_free(s);
    lemma_split_join(record_fields(s));
    lemma_uint_text_of_value(s.timestamp as nat);
    lemma_int_text_of_value(s.pulse_fuel as int);
    lemma_int_text_of_value(s.pulse_oxi as int);
    lemma_int_text_of_value(s.pos_fuel as int);
    lemma_int_text_of_value(s.pos_oxi as int);
}

/// Round trip from the wire to the log and back: for any sample decoded
/// from a well-formed line — whatever ingestion stamp and valve intent
/// were filled in afterwards — the fields of its log record recover the
/// line's numeric values exactly: the float fields as their original
/// text, the integer fields by value, and the stamp and both flags as
/// written.
pub proof fn lemma_decode_log_round_trip(line: Seq<u8>, s: TelemetrySample)
    requires
        crate::decode::decoded_from(s, line),
    ensures
        ({
            let lf = split_commas(line);
            let rf = split_commas(record_body(s));
            &&& rf.len() == 10
            &&& dec_value(rf[0]) == s.timestamp
            &&& rf[1] == lf[0]
            &&& rf[2] == lf[1]
            &&& rf[3] == lf[2]
            &&& int_text_value(rf[4]) == int_text_value(lf[3])
            &&& int_text_value(rf[5]) == int_text_value(lf[4])
            &&& int_text_value(rf[6]) == int_text_value(lf[5])
            &&& int_text_value(rf[7]) == int_text_value(lf[6])
            &&& rf[8] == bool_text(s.fuel_valve_open)
            &&& rf[9] == bool_text(s.oxi_valve_open)
        }),
{
    lemma_record_round_trip(s);
}

} // verus!
