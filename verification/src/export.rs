//! Export encodings for stored records: a spreadsheet-friendly table and a
//! relational dump, both UTF-8 with a byte-order mark.

use vstd::prelude::*;
use crate::store::ExportPOI;
use crate::text::{e7_rep, i64_rep};

verus! {

use vstd::string::StringSliceAdditionalSpecFns;
use vstd::utf8::encode_utf8;

/// The byte-order mark every export file starts with.
pub open spec fn bom_rep() -> Seq<u8> {
    seq![0xefu8, 0xbbu8, 0xbfu8]
}

/// Starts an export buffer with the byte-order mark.
pub fn begin_export() -> (r: Vec<u8>)
    ensures
        r@ == bom_rep(),
{
    let mut r: Vec<u8> = Vec::new();
    r.push(0xef);
    r.push(0xbb);
    r.push(0xbf);
    assert(r@ =~= bom_rep());
    r
}

/// Table-cell escaping: every double quote is doubled.
pub open spec fn csv_escaped(s: Seq<u8>) -> Seq<u8>
    decreases s.len(),
{
    if s.len() == 0 {
        Seq::empty()
    } else {
        csv_escaped(s.drop_last()) + if s.last() == 34 {
            seq![34u8, 34u8]
        } else {
            seq![s.last()]
        }
    }
}

/// Escapes a cell value.
pub fn csv_escape(b: &[u8]) -> (r: Vec<u8>)
    ensures
        r@ == csv_escaped(b@),
{
    let mut r: Vec<u8> = Vec::new();
    let mut i: usize = 0;
    while i < b.len()
        invariant
            i <= b@.len(),
            r@ == csv_escaped(b@.subrange(0, i as int)),
        decreases b@.len() - i,
    {
        proof {
            assert(b@.subrange(0, i as int + 1).drop_last() =~= b@.subrange(0, i as int));
            assert(b@.subrange(0, i as int + 1).last() == b@[i as int]);
        }
        let c = b[i];
        if c == 34 {
            r.push(34);
            r.push(34);
        } else {
            r.push(c);
        }
        assert(r@ =~= csv_escaped(b@.subrange(0, i as int + 1)));
        i = i + 1;
    }
    proof {
        assert(b@.subrange(0, b@.len() as int) =~= b@);
    }
    r
}

/// Statement-literal escaping: every single quote is doubled.
pub open spec fn sql_escaped(s: Seq<u8>) -> Seq<u8>
    decreases s.len(),
{
    if s.len() == 0 {
        Seq::empty()
    } else {
        sql_escaped(s.drop_last()) + if s.last() == 39 {
            seq![39u8, 39u8]
        } else {
            seq![s.last()]
        }
    }
}

/// Escapes a statement literal.
pub fn sql_escape(b: &[u8]) -> (r: Vec<u8>)
    ensures
        r@ == sql_escaped(b@),
{
    let mut r: Vec<u8> = Vec::new();
    let mut i: usize = 0;
    while i < b.len()
        invariant
            i <= b@.len(),
            r@ == sql_escaped(b@.subrange(0, i as int)),
        decreases b@.len() - i,
    {
        proof {
            assert(b@.subrange(0, i as int + 1).drop_last() =~= b@.subrange(0, i as int));
            assert(b@.subrange(0, i as int + 1).last() == b@[i as int]);
        }
        let c = b[i];
        if c == 39 {
            r.push(39);
            r.push(39);
        } else {
            r.push(c);
        }
        assert(r@ =~= sql_escaped(b@.subrange(0, i as int + 1)));
        i = i + 1;
    }
    proof {
        assert(b@.subrange(0, b@.len() as int) =~= b@);
    }
    r
}

/// One table line of a record: identifier, quoted name, the coordinate,
/// quoted address, phone and category, and the platform, comma-separated.
pub open spec fn csv_line_rep(p: ExportPOI) -> Seq<u8> {
    i64_rep(p.id as int) + seq![44u8, 34u8] + csv_escaped(encode_utf8(p.name@)) + seq![
        34u8,
        44u8,
    ] + e7_rep(p.lon_e7 as int) + seq![44u8] + e7_rep(p.lat_e7 as int) + seq![44u8, 34u8]
        + csv_escaped(encode_utf8(p.address@)) + seq![34u8, 44u8, 34u8] + csv_escaped(
        encode_utf8(p.phone@),
    ) + seq![34u8, 44u8, 34u8] + csv_escaped(encode_utf8(p.category@)) + seq![34u8, 44u8]
        + encode_utf8(p.platform@) + seq![10u8]
}

/// Appends the table line of one record.
#[verifier::rlimit(100)]
pub fn push_csv_line(out: &mut Vec<u8>, p: &ExportPOI)
    ensures
        final(out)@ == old(out)@ + csv_line_rep(*p),
{
    let mut digits: Vec<u8> = Vec::new();
    if p.id < 0 {
        digits.push(45);
        crate::text::push_dec_u64(&mut digits, (-(p.id as i128)) as u64);
    } else {
        crate::text::push_dec_u64(&mut digits, p.id as u64);
    }
    assert(digits@ =~= i64_rep(p.id as int));
    out.append(&mut digits);
    out.push(44);
    out.push(34);
    let mut piece = csv_escape(p.name.as_str().as_bytes());
    out.append(&mut piece);
    out.push(34);
    out.push(44);
    let mut piece = e7_bytes(p.lon_e7);
    out.append(&mut piece);
    out.push(44);
    let mut piece = e7_bytes(p.lat_e7);
    out.append(&mut piece);
    out.push(44);
    out.push(34);
    let mut piece = csv_escape(p.address.as_str().as_bytes());
    out.append(&mut piece);
    out.push(34);
    out.push(44);
    out.push(34);
    let mut piece = csv_escape(p.phone.as_str().as_bytes());
    out.append(&mut piece);
    out.push(34);
    out.push(44);
    out.push(34);
    let mut piece = csv_escape(p.category.as_str().as_bytes());
    out.append(&mut piece);
    out.push(34);
    out.push(44);
    let mut piece: Vec<u8> = Vec::new();
    append_str_bytes(&mut piece, p.platform.as_str());
    out.append(&mut piece);
    out.push(10);
    assert(final(out)@ =~= old(out)@ + csv_line_rep(*p));
}

/// One relational insert statement for a record: identifier, quoted and
/// escaped text fields, the coordinate, and the platform, in the table's
/// column order.
pub open spec fn sql_line_rep(p: ExportPOI) -> Seq<u8> {
    "INSERT INTO poi_data (id, name, lon, lat, address, phone, category, platform) VALUES (".spec_bytes()
        + i64_rep(p.id as int) + ", '".spec_bytes() + sql_escaped(encode_utf8(p.name@))
        + "', ".spec_bytes() + e7_rep(p.lon_e7 as int) + ", ".spec_bytes() + e7_rep(
        p.lat_e7 as int,
    ) + ", '".spec_bytes() + sql_escaped(encode_utf8(p.address@)) + "', '".spec_bytes()
        + sql_escaped(encode_utf8(p.phone@)) + "', '".spec_bytes() + sql_escaped(
        encode_utf8(p.category@),
    ) + "', '".spec_bytes() + encode_utf8(p.platform@) + "');\n".spec_bytes()
}

/// Appends the insert statement of one record.
#[verifier::rlimit(100)]
pub fn push_sql_line(out: &mut Vec<u8>, p: &ExportPOI)
    ensures
        final(out)@ == old(out)@ + sql_line_rep(*p),
{
    append_lit(
        out,
        "INSERT INTO poi_data (id, name, lon, lat, address, phone, category, platform) VALUES (",
    );
    let mut digits: Vec<u8> = Vec::new();
    if p.id < 0 {
        digits.push(45);
        crate::text::push_dec_u64(&mut digits, (-(p.id as i128)) as u64);
    } else {
        crate::text::push_dec_u64(&mut digits, p.id as u64);
    }
    assert(digits@ =~= i64_rep(p.id as int));
    out.append(&mut digits);
    append_lit(out, ", '");
    let mut piece = sql_escape(p.name.as_str().as_bytes());
    out.append(&mut piece);
    append_lit(out, "', ");
    let mut piece = e7_bytes(p.lon_e7);
    out.append(&mut piece);
    append_lit(out, ", ");
    let mut piece = e7_bytes(p.lat_e7);
    out.append(&mut piece);
    append_lit(out, ", '");
    let mut piece = sql_escape(p.address.as_str().as_bytes());
    out.append(&mut piece);
    append_lit(out, "', '");
    let mut piece = sql_escape(p.phone.as_str().as_bytes());
    out.append(&mut piece);
    append_lit(out, "', '");
    let mut piece = sql_escape(p.category.as_str().as_bytes());
    out.append(&mut piece);
    append_lit(out, "', '");
    let mut piece: Vec<u8> = Vec::new();
    append_str_bytes(&mut piece, p.platform.as_str());
    out.append(&mut piece);
    append_lit(out, "');\n");
    assert(final(out)@ =~= old(out)@ + sql_line_rep(*p));
}

/// Copies a literal's bytes onto a buffer.
fn append_lit(out: &mut Vec<u8>, lit: &str)
    ensures
        final(out)@ == old(out)@ + lit.spec_bytes(),
{
    let b = lit.as_bytes();
    let mut i: usize = 0;
    while i < b.len()
        invariant
            b@ == lit.spec_bytes(),
            i <= b@.len(),
            out@ == old(out)@ + b@.subrange(0, i as int),
        decreases b@.len() - i,
    {
        out.push(b[i]);
        assert(out@ =~= old(out)@ + b@.subrange(0, i as int + 1));
        i = i + 1;
    }
    proof {
        assert(b@.subrange(0, b@.len() as int) =~= b@);
    }
}

/// The decimal bytes of a fixed-point degree value.
fn e7_bytes(v: i64) -> (r: Vec<u8>)
    ensures
        r@ == e7_rep(v as int),
{
    let s = crate::text::e7_to_string(v);
    proof {
        crate::text::lemma_e7_rep_ascii(v as int);
        crate::text::lemma_ascii_encode(e7_rep(v as int));
    }
    let mut r: Vec<u8> = Vec::new();
    append_str_bytes(&mut r, s.as_str());
    r
}

/// Copies a string's bytes onto a buffer.
fn append_str_bytes(out: &mut Vec<u8>, s: &str)
    ensures
        final(out)@ == old(out)@ + encode_utf8(s@),
{
    let b = s.as_bytes();
    let mut i: usize = 0;
    while i < b.len()
        invariant
            b@ == vstd::utf8::encode_utf8(s@),
            i <= b@.len(),
            out@ == old(out)@ + b@.subrange(0, i as int),
        decreases b@.len() - i,
    {
        out.push(b[i]);
        assert(out@ =~= old(out)@ + b@.subrange(0, i as int + 1));
        i = i + 1;
    }
    proof {
        assert(b@.subrange(0, b@.len() as int) =~= b@);
    }
}

} // verus!
