//! Particle records.
//!
//! One row of a step file describes one circular particle with eleven tab
//! separated fields: an identifier, a categorical label, position, velocity
//! and radius coordinates, a contact count and a serialized contact list.
//! Coordinates are kept as their validated literal text, so that nothing is
//! lost before the drawing layer reads them.

use crate::num::{dec_val, is_float_text, is_u32_text, strip_plus};
use crate::text::split_on;
use vstd::prelude::*;

verus! {

/// One particle, as one row of a step file describes it.
///
/// The integer columns are held as values; the coordinate columns keep
/// their literal text, each known to be a well formed floating point
/// literal when the record came out of the parser.
#[derive(Clone, Debug, PartialEq, Eq)]
pub struct ParticleRecord {
    pub id: u32,
    pub cell_type: String,
    pub x: String,
    pub y: String,
    pub z: String,
    pub vx: String,
    pub vy: String,
    pub vz: String,
    pub r: String,
    pub contact: u32,
    pub contact_ids: String,
}

/// The mathematical content of a record.
pub struct RecordModel {
    pub id: u32,
    pub cell_type: Seq<char>,
    pub x: Seq<char>,
    pub y: Seq<char>,
    pub z: Seq<char>,
    pub vx: Seq<char>,
    pub vy: Seq<char>,
    pub vz: Seq<char>,
    pub r: Seq<char>,
    pub contact: u32,
    pub contact_ids: Seq<char>,
}

impl View for ParticleRecord {
    type V = RecordModel;

    open spec fn view(&self) -> RecordModel {
        RecordModel {
            id: self.id,
            cell_type: self.cell_type@,
            x: self.x@,
            y: self.y@,
            z: self.z@,
            vx: self.vx@,
            vy: self.vy@,
            vz: self.vz@,
            r: self.r@,
            contact: self.contact,
            contact_ids: self.contact_ids@,
        }
    }
}

/// What column `c` of a row must hold: unsigned decimal text in the
/// identifier and contact count columns, floating point text in the seven
/// coordinate columns, anything in the two free text columns.
pub open spec fn field_ok(f: Seq<Seq<char>>, c: int) -> bool {
    if c == 0 || c == 9 {
        is_u32_text(f[c])
    } else if 2 <= c && c <= 8 {
        is_float_text(f[c])
    } else {
        true
    }
}

/// A well formed row: exactly eleven tab separated fields, each of the
/// declared shape.
pub open spec fn row_valid(line: Seq<char>) -> bool {
    let f = split_on(line, '\t');
    f.len() == 11 && forall|c: int| 0 <= c < 11 ==> field_ok(f, c)
}

/// The record a well formed row denotes, column by column.
pub open spec fn record_of_row(f: Seq<Seq<char>>) -> RecordModel {
    RecordModel {
        id: dec_val(strip_plus(f[0])) as u32,
        cell_type: f[1],
        x: f[2],
        y: f[3],
        z: f[4],
        vx: f[5],
        vy: f[6],
        vz: f[7],
        r: f[8],
        contact: dec_val(strip_plus(f[9])) as u32,
        contact_ids: f[10],
    }
}

/// All seven coordinate columns of the record hold well formed floating
/// point text.
pub open spec fn record_model_wf(m: RecordModel) -> bool {
    is_float_text(m.x) && is_float_text(m.y) && is_float_text(m.z) && is_float_text(m.vx)
        && is_float_text(m.vy) && is_float_text(m.vz) && is_float_text(m.r)
}

/// The record of a well formed row has well formed coordinate text, so a
/// reader of any parsed record may convert its coordinates without a
/// further check.
pub proof fn lemma_valid_row_record_wf(line: Seq<char>)
    requires
        row_valid(line),
    ensures
        record_model_wf(record_of_row(split_on(line, '\t'))),
{
    let f = split_on(line, '\t');
    assert(field_ok(f, 2) && field_ok(f, 3) && field_ok(f, 4) && field_ok(f, 5) && field_ok(f, 6)
        && field_ok(f, 7) && field_ok(f, 8));
}

} // verus!
