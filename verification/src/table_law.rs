//! What a reader gives back of a table written by the writer's rules: the
//! header, the field descriptors and every record.

use crate::encoding::{Ascii, DynEncoding, Encoding, UnicodeLossy};
use crate::field::{
    is_plain_ascii_name, lemma_field_info_write_read, lemma_sum_lengths_bound,
    lemma_sum_lengths_monotonic, parsed_field_info, spec_field_info_bytes, sum_lengths, FieldInfo,
    MAX_NUM_FIELDS,
};
use crate::file::{lemma_write_at, spec_write_at, File};
use crate::header::{header_is_canonical, lemma_header_write_read, spec_header_bytes, spec_parse_header, Header, Version};
use crate::memo::MemoReader;
use crate::reading::{descriptors_readable, spec_num_fields, spec_read_values, Reader};
use crate::record::{index_of_name, spec_insert, spec_record_of};
use crate::roundtrip::{lemma_field_roundtrip, utf8_writer, value_fits};
use crate::types::FieldType;
use crate::value::{spec_written_value, ReadFailure, TrimOption, ValueModel};
use crate::writing::{
    repeat_byte, spec_descriptors_bytes, spec_field_bytes, spec_final_header, spec_header_parts,
    spec_write_values, FILE_TERMINATOR,
};
use vstd::prelude::*;
use vstd::utf8::encode_utf8;

verus! {

/// Whether the names of `fields` are all different.
pub open spec fn distinct_names(fields: Seq<FieldInfo>) -> bool {
    forall|i: int, j: int| 0 <= i < j < fields.len() ==> fields[i].name@ != fields[j].name@
}

/// Whether `rec` holds a value for each field, in the order of the fields,
/// under the field's name, that reads back as itself (see [`value_fits`],
/// the text read as UTF-8).
pub open spec fn record_fits(rec: Seq<(Seq<char>, ValueModel)>, fields: Seq<FieldInfo>) -> bool {
    &&& rec.len() == fields.len()
    &&& forall|j: int|
        0 <= j < fields.len() ==> #[trigger] rec[j].0 == fields[j].name@ && value_fits(
            DynEncoding::UnicodeLossy(UnicodeLossy),
            rec[j].1,
            fields[j],
        )
}

/// Whether two field descriptors agree on what reading a record needs.
pub open spec fn same_layout(a: FieldInfo, b: FieldInfo) -> bool {
    &&& a.name@ == b.name@
    &&& a.field_type == b.field_type
    &&& a.field_length == b.field_length
    &&& a.num_decimal_places == b.num_decimal_places
}

/// The bytes of the first `m` records: for each its deletion flag (not
/// deleted) and its fields.
pub open spec fn spec_records_bytes(
    enc: DynEncoding,
    recs: Seq<Seq<(Seq<char>, ValueModel)>>,
    fields: Seq<FieldInfo>,
    m: int,
) -> Seq<u8>
    decreases m,
{
    if m <= 0 {
        Seq::empty()
    } else {
        spec_records_bytes(enc, recs, fields, m - 1) + seq![32u8] + spec_write_values(
            enc,
            recs[m - 1],
            fields,
            fields.len() as int,
        )->Ok_0
    }
}

/// The bytes of a table written from the header `h`, the fields and the
/// records: the header (counting the records, with its offset and record
/// size set from the fields), the field descriptors, the terminator, the
/// records and the end of file byte.
pub open spec fn spec_table_bytes(
    h: Header,
    fields: Seq<FieldInfo>,
    enc: DynEncoding,
    recs: Seq<Seq<(Seq<char>, ValueModel)>>,
) -> Seq<u8> {
    spec_header_parts(spec_final_header(Header { num_records: recs.len() as u32, ..h }, fields), fields)
        + spec_records_bytes(enc, recs, fields, recs.len() as int) + seq![FILE_TERMINATOR]
}

/// Whether a table written from these parts reads back as them: the header
/// is canonical and not Visual FoxPro, the fields fit the header and have
/// different plain ASCII names of at most 11 characters, the encoding
/// writes UTF-8 and every record fits the fields.
pub open spec fn table_fits(
    h: Header,
    fields: Seq<FieldInfo>,
    enc: DynEncoding,
    recs: Seq<Seq<(Seq<char>, ValueModel)>>,
) -> bool {
    &&& header_is_canonical(h)
    &&& h.file_type != Version::VisualFoxPro
    &&& fields.len() <= MAX_NUM_FIELDS
    &&& 1 + sum_lengths(fields, fields.len() as int) <= 0xffff
    &&& forall|i: int|
        0 <= i < fields.len() ==> is_plain_ascii_name(#[trigger] fields[i].name@)
            && fields[i].name@.len() <= 11
    &&& distinct_names(fields)
    &&& utf8_writer(enc)
    &&& recs.len() <= u32::MAX
    &&& forall|k: int| 0 <= k < recs.len() ==> record_fits(#[trigger] recs[k], fields)
}

/// The bytes a field is stored as always have the field's length.
pub proof fn lemma_field_bytes_len(w: Seq<u8>, info: FieldInfo)
    ensures
        spec_field_bytes(w, info).len() == info.field_length,
{
}

/// A UTF-8 writer writes values as any other UTF-8 writer does.
proof fn lemma_written_value_utf8(enc: DynEncoding, v: ValueModel, t: FieldType)
    requires
        utf8_writer(enc),
    ensures
        spec_written_value(enc, v, t) == spec_written_value(DynEncoding::UnicodeLossy(UnicodeLossy), v, t),
{
}

/// The bytes a value is stored as in a field depend on the value and the
/// field alone, whatever was written before (see
/// [`crate::FieldWriter::write_next_field_value`]), and are the same for
/// every encoding that writes UTF-8.
pub proof fn lemma_field_bytes_of_value(e1: DynEncoding, e2: DynEncoding, v: ValueModel, info: FieldInfo)
    requires
        utf8_writer(e1),
        utf8_writer(e2),
    ensures
        spec_written_value(e1, v, info.field_type) == spec_written_value(e2, v, info.field_type),
        spec_written_value(e1, v, info.field_type) is Ok ==> spec_field_bytes(
            spec_written_value(e1, v, info.field_type)->Ok_0,
            info,
        ) == spec_field_bytes(spec_written_value(e2, v, info.field_type)->Ok_0, info),
{
    lemma_written_value_utf8(e1, v, info.field_type);
    lemma_written_value_utf8(e2, v, info.field_type);
}

proof fn lemma_index_of_name(entries: Seq<(Seq<char>, ValueModel)>, name: Seq<char>, i: int, j: int)
    requires
        0 <= i <= j <= entries.len(),
        forall|k: int| i <= k < j ==> entries[k].0 != name,
        j < entries.len() ==> entries[j].0 == name,
    ensures
        index_of_name(entries, name, i) == j,
    decreases j - i,
{
    if i < j {
        lemma_index_of_name(entries, name, i + 1, j);
    }
}

/// The bytes of the fields of a record that fits them, field by field.
proof fn lemma_write_values_layout(
    enc: DynEncoding,
    rec: Seq<(Seq<char>, ValueModel)>,
    fields: Seq<FieldInfo>,
    n: int,
)
    requires
        0 <= n <= fields.len(),
        utf8_writer(enc),
        distinct_names(fields),
        record_fits(rec, fields),
    ensures
        spec_write_values(enc, rec, fields, n) is Ok,
        spec_write_values(enc, rec, fields, n)->Ok_0.len() == sum_lengths(fields, n),
        forall|j: int|
            0 <= j < n ==> spec_write_values(enc, rec, fields, n)->Ok_0.subrange(
                sum_lengths(fields, j),
                sum_lengths(fields, j + 1),
            ) == spec_field_bytes(
                spec_written_value(enc, rec[j].1, fields[j].field_type)->Ok_0,
                fields[j],
            ),
    decreases n,
{
    if n > 0 {
        lemma_write_values_layout(enc, rec, fields, n - 1);
        let prev = spec_write_values(enc, rec, fields, n - 1)->Ok_0;
        let info = fields[n - 1];
        assert(rec[n - 1].0 == info.name@);
        assert forall|k: int| 0 <= k < n - 1 implies rec[k].0 != info.name@ by {
            assert(rec[k].0 == fields[k].name@);
        }
        lemma_index_of_name(rec, info.name@, 0, n - 1);
        lemma_written_value_utf8(enc, rec[n - 1].1, info.field_type);
        lemma_field_roundtrip(DynEncoding::UnicodeLossy(UnicodeLossy), rec[n - 1].1, info, None);
        let w = spec_written_value(enc, rec[n - 1].1, info.field_type)->Ok_0;
        let piece = spec_field_bytes(w, info);
        lemma_field_bytes_len(w, info);
        let all = prev + piece;
        assert(spec_write_values(enc, rec, fields, n) == Ok::<Seq<u8>, (int, crate::writing::RecordWriteFailure)>(all));
        lemma_sum_lengths_bound(fields, n);
        assert forall|j: int| 0 <= j < n implies all.subrange(
            sum_lengths(fields, j),
            sum_lengths(fields, j + 1),
        ) == spec_field_bytes(spec_written_value(enc, rec[j].1, fields[j].field_type)->Ok_0, fields[j]) by {
            if j < n - 1 {
                lemma_sum_lengths_monotonic(fields, j + 1, n - 1);
                lemma_sum_lengths_monotonic(fields, j, j + 1);
                lemma_sum_lengths_bound(fields, j);
                assert(all.subrange(sum_lengths(fields, j), sum_lengths(fields, j + 1)) =~= prev.subrange(
                    sum_lengths(fields, j),
                    sum_lengths(fields, j + 1),
                ));
            } else {
                assert(all.subrange(sum_lengths(fields, j), sum_lengths(fields, j + 1)) =~= piece);
            }
        }
    }
}

/// Fields of the same lengths start at the same positions.
proof fn lemma_same_sums(a: Seq<FieldInfo>, b: Seq<FieldInfo>, n: int)
    requires
        0 <= n <= a.len(),
        a.len() == b.len(),
        forall|j: int| 0 <= j < a.len() ==> #[trigger] a[j].field_length == b[j].field_length,
    ensures
        sum_lengths(a, n) == sum_lengths(b, n),
    decreases n,
{
    if n > 0 {
        lemma_same_sums(a, b, n - 1);
    }
}

/// Reading the fields of a record written for them gives the record back.
proof fn lemma_read_written_values(
    enc: DynEncoding,
    rec: Seq<(Seq<char>, ValueModel)>,
    fields: Seq<FieldInfo>,
    read_fields: Seq<FieldInfo>,
    memo: Option<MemoReader>,
    m: int,
)
    requires
        0 <= m <= fields.len(),
        utf8_writer(enc),
        distinct_names(fields),
        record_fits(rec, fields),
        read_fields.len() == fields.len(),
        forall|j: int| 0 <= j < fields.len() ==> same_layout(#[trigger] read_fields[j], fields[j]),
    ensures
        spec_read_values(
            DynEncoding::UnicodeLossy(UnicodeLossy),
            spec_write_values(enc, rec, fields, fields.len() as int)->Ok_0,
            read_fields,
            TrimOption::BeginEnd,
            memo,
            m,
        ) == Ok::<Seq<(Seq<char>, ValueModel)>, (int, ReadFailure)>(rec.subrange(0, m)),
    decreases m,
{
    let n = fields.len() as int;
    let bytes = spec_write_values(enc, rec, fields, n)->Ok_0;
    if m == 0 {
        assert(rec.subrange(0, 0) =~= Seq::<(Seq<char>, ValueModel)>::empty());
    } else {
        lemma_read_written_values(enc, rec, fields, read_fields, memo, m - 1);
        lemma_write_values_layout(enc, rec, fields, n);
        assert forall|j: int| 0 <= j < fields.len() implies #[trigger] read_fields[j].field_length == fields[j].field_length by {
            assert(same_layout(read_fields[j], fields[j]));
        }
        lemma_same_sums(read_fields, fields, m - 1);
        lemma_same_sums(read_fields, fields, m);
        lemma_sum_lengths_monotonic(fields, m, n);
        lemma_sum_lengths_bound(fields, m - 1);
        let info = fields[m - 1];
        assert(same_layout(read_fields[m - 1], info));
        assert(record_fits(rec, fields));
        assert(rec[m - 1].0 == info.name@);
        let v = rec[m - 1].1;
        lemma_written_value_utf8(enc, v, info.field_type);
        lemma_field_roundtrip(DynEncoding::UnicodeLossy(UnicodeLossy), v, info, memo);
        assert(rec.subrange(0, m - 1).push((read_fields[m - 1].name@, v)) =~= rec.subrange(0, m));
    }
}

proof fn lemma_index_absent(entries: Seq<(Seq<char>, ValueModel)>, name: Seq<char>, i: int)
    requires
        0 <= i <= entries.len(),
        forall|k: int| i <= k < entries.len() ==> entries[k].0 != name,
    ensures
        index_of_name(entries, name, i) == entries.len(),
    decreases entries.len() - i,
{
    if i < entries.len() {
        lemma_index_absent(entries, name, i + 1);
    }
}

/// Inserting values of different names in turn gives them in order.
pub proof fn lemma_record_of_distinct(s: Seq<(Seq<char>, ValueModel)>)
    requires
        forall|i: int, j: int| 0 <= i < j < s.len() ==> s[i].0 != s[j].0,
    ensures
        spec_record_of(s) == s,
    decreases s.len(),
{
    if s.len() > 0 {
        let init = s.drop_last();
        lemma_record_of_distinct(init);
        lemma_index_absent(init, s.last().0, 0);
        assert(init.push(s.last()) =~= s);
    }
}


/// The records of a table, one after the other, each of the size of a
/// record.
proof fn lemma_records_layout(
    enc: DynEncoding,
    recs: Seq<Seq<(Seq<char>, ValueModel)>>,
    fields: Seq<FieldInfo>,
    m: int,
)
    requires
        0 <= m <= recs.len(),
        utf8_writer(enc),
        distinct_names(fields),
        forall|k: int| 0 <= k < recs.len() ==> record_fits(#[trigger] recs[k], fields),
    ensures
        ({
            let size = 1 + sum_lengths(fields, fields.len() as int);
            let bytes = spec_records_bytes(enc, recs, fields, m);
            &&& bytes.len() == m * size
            &&& forall|k: int|
                0 <= k < m ==> bytes.subrange(k * size, k * size + size) == seq![32u8] + spec_write_values(
                    enc,
                    #[trigger] recs[k],
                    fields,
                    fields.len() as int,
                )->Ok_0
        }),
    decreases m,
{
    let n = fields.len() as int;
    let size = 1 + sum_lengths(fields, n);
    if m > 0 {
        lemma_records_layout(enc, recs, fields, m - 1);
        assert(record_fits(recs[m - 1], fields));
        lemma_write_values_layout(enc, recs[m - 1], fields, n);
        let prev = spec_records_bytes(enc, recs, fields, m - 1);
        let piece = seq![32u8] + spec_write_values(enc, recs[m - 1], fields, n)->Ok_0;
        let all = spec_records_bytes(enc, recs, fields, m);
        assert(all =~= prev + piece);
        assert((m - 1) * size + size == m * size) by (nonlinear_arith);
        assert forall|k: int| 0 <= k < m implies all.subrange(k * size, k * size + size) == seq![32u8]
            + spec_write_values(enc, #[trigger] recs[k], fields, n)->Ok_0 by {
            if k < m - 1 {
                assert(k * size + size <= (m - 1) * size) by (nonlinear_arith)
                    requires
                        k < m - 1,
                        size >= 1,
                ;
                assert(k * size >= 0) by (nonlinear_arith)
                    requires
                        k >= 0,
                        size >= 1,
                ;
                assert(all.subrange(k * size, k * size + size) =~= prev.subrange(k * size, k * size + size));
            } else {
                assert(all.subrange(k * size, k * size + size) =~= piece);
            }
        }
    }
}

/// A field descriptor is 32 bytes long.
proof fn lemma_field_info_bytes_len(info: FieldInfo, encoded: Seq<u8>)
    ensures
        spec_field_info_bytes(info, encoded).len() == 32,
{
    assert(info.displacement_field@.len() == 4);
    assert(info.autoincrement_next_val@.len() == 5);
}

/// The field descriptors, one after the other.
proof fn lemma_descriptors_layout(fields: Seq<FieldInfo>, n: int)
    requires
        0 <= n <= fields.len(),
    ensures
        spec_descriptors_bytes(fields, n).len() == 32 * n,
        forall|i: int|
            0 <= i < n ==> spec_descriptors_bytes(fields, n).subrange(32 * i, 32 * i + 32)
                == spec_field_info_bytes(#[trigger] fields[i], encode_utf8(fields[i].name@)),
    decreases n,
{
    if n > 0 {
        lemma_descriptors_layout(fields, n - 1);
        let prev = spec_descriptors_bytes(fields, n - 1);
        let piece = spec_field_info_bytes(fields[n - 1], encode_utf8(fields[n - 1].name@));
        lemma_field_info_bytes_len(fields[n - 1], encode_utf8(fields[n - 1].name@));
        let all = spec_descriptors_bytes(fields, n);
        assert forall|i: int| 0 <= i < n implies all.subrange(32 * i, 32 * i + 32)
            == spec_field_info_bytes(#[trigger] fields[i], encode_utf8(fields[i].name@)) by {
            if i < n - 1 {
                assert(all.subrange(32 * i, 32 * i + 32) =~= prev.subrange(32 * i, 32 * i + 32));
            } else {
                assert(all.subrange(32 * i, 32 * i + 32) =~= piece);
            }
        }
    }
}

/// A descriptor read from bytes that hold its 32 bytes at `pos` is the one
/// read from those 32 bytes alone.
proof fn lemma_parsed_shift(s: Seq<u8>, pos: int, piece: Seq<u8>, info: FieldInfo)
    requires
        0 <= pos,
        pos + 32 <= s.len(),
        piece.len() == 32,
        s.subrange(pos, pos + 32) == piece,
    ensures
        parsed_field_info(Ascii, s, pos, info) == parsed_field_info(Ascii, piece, 0, info),
{
    assert(s.subrange(pos, pos + 11) =~= piece.subrange(0, 11));
    assert(s.subrange(pos + 12, pos + 16) =~= piece.subrange(12, 16));
    assert(s.subrange(pos + 19, pos + 24) =~= piece.subrange(19, 24));
    assert(s[pos + 11] == piece[11]);
    assert(s[pos + 16] == piece[16]);
    assert(s[pos + 17] == piece[17]);
    assert(s[pos + 18] == piece[18]);
    assert(s[pos + 24] == piece[24]);
}

/// The parts of the bytes of a table.
proof fn lemma_table_parts(
    h: Header,
    fields: Seq<FieldInfo>,
    enc: DynEncoding,
    recs: Seq<Seq<(Seq<char>, ValueModel)>>,
)
    requires
        table_fits(h, fields, enc, recs),
    ensures
        ({
            let bytes = spec_table_bytes(h, fields, enc, recs);
            let n = fields.len() as int;
            let m = recs.len() as int;
            let fh = spec_final_header(Header { num_records: recs.len() as u32, ..h }, fields);
            let size = 1 + sum_lengths(fields, n);
            &&& bytes.subrange(0, 32) == spec_header_bytes(fh)
            &&& bytes.subrange(32, 32 + 32 * n) == spec_descriptors_bytes(fields, n)
            &&& bytes.subrange(33 + 32 * n, 33 + 32 * n + m * size) == spec_records_bytes(enc, recs, fields, m)
            &&& bytes.len() == 33 + 32 * n + m * size + 1
            &&& fh.offset_to_first_record == 33 + 32 * n
            &&& header_is_canonical(fh)
        }),
{
    let n = fields.len() as int;
    let m = recs.len() as int;
    let fh = spec_final_header(Header { num_records: recs.len() as u32, ..h }, fields);
    let hb = spec_header_bytes(fh);
    let descs = spec_descriptors_bytes(fields, n);
    let records = spec_records_bytes(enc, recs, fields, m);
    lemma_header_write_read(fh);
    lemma_descriptors_layout(fields, n);
    lemma_records_layout(enc, recs, fields, m);
    let bytes = spec_table_bytes(h, fields, enc, recs);
    assert(bytes =~= hb + descs + seq![crate::reading::TERMINATOR_VALUE] + records + seq![FILE_TERMINATOR]);
    assert(bytes.subrange(0, 32) =~= hb);
    assert(bytes.subrange(32, 32 + 32 * n) =~= descs);
    assert(bytes.subrange(33 + 32 * n, 33 + 32 * n + records.len()) =~= records);
    assert((32 + 32 * n + 1) % 0x10000 == 33 + 32 * n);
}

/// The header of a written table reads back as the header written.
proof fn lemma_table_header(
    h: Header,
    fields: Seq<FieldInfo>,
    enc: DynEncoding,
    recs: Seq<Seq<(Seq<char>, ValueModel)>>,
)
    requires
        table_fits(h, fields, enc, recs),
    ensures
        ({
            let bytes = spec_table_bytes(h, fields, enc, recs);
            let n = fields.len() as int;
            let fh = spec_final_header(Header { num_records: recs.len() as u32, ..h }, fields);
            &&& bytes.len() > 32 + 32 * n
            &&& spec_parse_header(bytes) == fh
            &&& spec_num_fields(fh) == Some(n)
        }),
{
    let bytes = spec_table_bytes(h, fields, enc, recs);
    let fh = spec_final_header(Header { num_records: recs.len() as u32, ..h }, fields);
    let hb = spec_header_bytes(fh);
    lemma_table_parts(h, fields, enc, recs);
    lemma_header_write_read(fh);
    assert forall|i: int| 0 <= i < 32 implies bytes[i] == hb[i] by {
        assert(bytes.subrange(0, 32)[i] == bytes[i]);
    }
    assert(spec_parse_header(bytes) == spec_parse_header(hb));
    let size = 1 + sum_lengths(fields, fields.len() as int);
    lemma_sum_lengths_bound(fields, fields.len() as int);
    assert(recs.len() * size >= 0) by (nonlinear_arith)
        requires
            size >= 1,
    ;
}

/// The descriptor of a field of a written table reads back as the field.
proof fn lemma_table_descriptor(
    h: Header,
    fields: Seq<FieldInfo>,
    enc: DynEncoding,
    recs: Seq<Seq<(Seq<char>, ValueModel)>>,
    i: int,
    info: FieldInfo,
)
    requires
        table_fits(h, fields, enc, recs),
        0 <= i < fields.len(),
    ensures
        crate::field::descriptor_readable(Ascii, spec_table_bytes(h, fields, enc, recs), 32 + 32 * i),
        parsed_field_info(Ascii, spec_table_bytes(h, fields, enc, recs), 32 + 32 * i, info) ==> same_layout(info, fields[i]),
{
    let bytes = spec_table_bytes(h, fields, enc, recs);
    let n = fields.len() as int;
    lemma_table_parts(h, fields, enc, recs);
    lemma_descriptors_layout(fields, n);
    let descs = spec_descriptors_bytes(fields, n);
    let f = fields[i];
    let piece = spec_field_info_bytes(f, encode_utf8(f.name@));
    lemma_field_info_bytes_len(f, encode_utf8(f.name@));
    assert(bytes.subrange(32 + 32 * i, 32 + 32 * i + 32) =~= descs.subrange(32 * i, 32 * i + 32)) by {
        assert(bytes.subrange(32, 32 + 32 * n).subrange(32 * i, 32 * i + 32) =~= bytes.subrange(32 + 32 * i, 32 + 32 * i + 32));
    }
    lemma_parsed_shift(bytes, 32 + 32 * i, piece, info);
    lemma_parsed_shift(bytes, 32 + 32 * i, piece, f);
    assert(is_plain_ascii_name(fields[i].name@));
    lemma_field_info_write_read(f);
    assert(bytes.subrange(32 + 32 * i, 32 + 32 * i + 11) =~= piece.subrange(0, 11));
    assert(bytes[32 + 32 * i + 11] == piece[11]);
}

/// A table written from parts that fit (see [`table_fits`]) reads back as
/// them: its header is the header written (counting the records, its
/// offset and record size set from the fields), it announces as many field
/// descriptors as there are fields, each of them can be read and is the
/// field written (name, type, length, decimals).
pub proof fn lemma_table_write_read(
    h: Header,
    fields: Seq<FieldInfo>,
    enc: DynEncoding,
    recs: Seq<Seq<(Seq<char>, ValueModel)>>,
)
    requires
        table_fits(h, fields, enc, recs),
    ensures
        ({
            let bytes = spec_table_bytes(h, fields, enc, recs);
            let n = fields.len() as int;
            let fh = spec_final_header(Header { num_records: recs.len() as u32, ..h }, fields);
            &&& bytes.len() > 32 + 32 * n
            &&& spec_parse_header(bytes) == fh
            &&& spec_num_fields(fh) == Some(n)
            &&& descriptors_readable(bytes, n)
            &&& forall|i: int, info: FieldInfo|
                0 <= i < n && #[trigger] parsed_field_info(Ascii, bytes, 32 + 32 * i, info) ==> same_layout(
                    info,
                    fields[i],
                )
        }),
{
    let bytes = spec_table_bytes(h, fields, enc, recs);
    let n = fields.len() as int;
    lemma_table_header(h, fields, enc, recs);
    assert forall|i: int| 0 <= i < n implies #[trigger] crate::field::descriptor_readable(Ascii, bytes, 32 + 32 * i) by {
        lemma_table_descriptor(h, fields, enc, recs, i, fields[i]);
    }
    assert forall|i: int, info: FieldInfo|
        0 <= i < n && #[trigger] parsed_field_info(Ascii, bytes, 32 + 32 * i, info) implies same_layout(info, fields[i]) by {
        lemma_table_descriptor(h, fields, enc, recs, i, info);
    }
}

/// The record `k` of a written table, read back.
#[verifier::spinoff_prover]
#[verifier::rlimit(50)]
proof fn lemma_table_record(
    h: Header,
    fields: Seq<FieldInfo>,
    enc: DynEncoding,
    recs: Seq<Seq<(Seq<char>, ValueModel)>>,
    reader: Reader,
    k: int,
)
    requires
        table_fits(h, fields, enc, recs),
        0 <= k < recs.len(),
        reader.spec_source() == spec_table_bytes(h, fields, enc, recs),
        reader.spec_header() == spec_final_header(Header { num_records: recs.len() as u32, ..h }, fields),
        reader.spec_fields().len() == fields.len(),
        forall|j: int| 0 <= j < fields.len() ==> same_layout(#[trigger] reader.spec_fields()[j], fields[j]),
        reader.spec_encoding() == DynEncoding::UnicodeLossy(UnicodeLossy),
        reader.spec_options().character_trim == TrimOption::BeginEnd,
    ensures
        reader.spec_record(k) == Ok::<Seq<(Seq<char>, ValueModel)>, ReadFailure>(recs[k]),
{
    let bytes = spec_table_bytes(h, fields, enc, recs);
    let n = fields.len() as int;
    let m = recs.len() as int;
    let rf = reader.spec_fields();
    assert forall|j: int| 0 <= j < n implies #[trigger] rf[j].field_length == fields[j].field_length by {
        assert(same_layout(rf[j], fields[j]));
    }
    lemma_same_sums(rf, fields, n);
    let size = 1 + sum_lengths(fields, n);
    lemma_sum_lengths_bound(fields, n);
    lemma_table_parts(h, fields, enc, recs);
    lemma_records_layout(enc, recs, fields, m);
    let records = spec_records_bytes(enc, recs, fields, m);
    let start = reader.spec_record_start(k);
    assert(start == 33 + 32 * n + k * size);
    assert(k * size + size <= m * size) by (nonlinear_arith)
        requires
            k < m,
            size >= 1,
    ;
    assert(k * size >= 0) by (nonlinear_arith)
        requires
            k >= 0,
            size >= 1,
    ;
    let rec = recs[k];
    assert(record_fits(rec, fields));
    lemma_write_values_layout(enc, rec, fields, n);
    let rec_bytes = spec_write_values(enc, rec, fields, n)->Ok_0;
    assert(records.subrange(k * size, k * size + size) == seq![32u8] + rec_bytes);
    assert(bytes.subrange(start, start + size) =~= records.subrange(k * size, k * size + size)) by {
        assert(bytes.subrange(33 + 32 * n, 33 + 32 * n + m * size).subrange(k * size, k * size + size)
            =~= bytes.subrange(start, start + size));
    }
    assert(bytes.subrange(start + 1, start + size) =~= rec_bytes) by {
        assert(bytes.subrange(start, start + size).subrange(1, size) =~= bytes.subrange(start + 1, start + size));
        assert((seq![32u8] + rec_bytes).subrange(1, size) =~= rec_bytes);
    }
    lemma_read_written_values(enc, rec, fields, rf, reader.spec_memo(), n);
    assert(rec.subrange(0, n) =~= rec);
    assert forall|i: int, j: int| 0 <= i < j < rec.len() implies rec[i].0 != rec[j].0 by {
        assert(rec[i].0 == fields[i].name@);
        assert(rec[j].0 == fields[j].name@);
    }
    lemma_record_of_distinct(rec);
}

/// The records of a table written from parts that fit (see
/// [`table_fits`]) read back as the records written, by a reader of its
/// bytes (its header and fields read as [`Reader::new`] reads them, strings
/// read as lossy UTF-8, character fields trimmed at both ends).
pub proof fn lemma_table_records_read(
    h: Header,
    fields: Seq<FieldInfo>,
    enc: DynEncoding,
    recs: Seq<Seq<(Seq<char>, ValueModel)>>,
    reader: Reader,
)
    requires
        table_fits(h, fields, enc, recs),
        reader.spec_source() == spec_table_bytes(h, fields, enc, recs),
        reader.spec_header() == spec_parse_header(reader.spec_source()),
        reader.spec_fields().len() == fields.len(),
        forall|i: int|
            0 <= i < fields.len() ==> parsed_field_info(
                Ascii,
                reader.spec_source(),
                32 + 32 * i,
                #[trigger] reader.spec_fields()[i],
            ),
        reader.spec_encoding() == DynEncoding::UnicodeLossy(UnicodeLossy),
        reader.spec_options().character_trim == TrimOption::BeginEnd,
    ensures
        reader.spec_header().num_records == recs.len(),
        forall|k: int|
            0 <= k < recs.len() ==> reader.spec_record(k) == Ok::<Seq<(Seq<char>, ValueModel)>, ReadFailure>(
                #[trigger] recs[k],
            ),
{
    let bytes = spec_table_bytes(h, fields, enc, recs);
    let n = fields.len() as int;
    lemma_table_write_read(h, fields, enc, recs);
    let rf = reader.spec_fields();
    assert forall|j: int| 0 <= j < n implies same_layout(#[trigger] rf[j], fields[j]) by {
        assert(parsed_field_info(Ascii, bytes, 32 + 32 * j, rf[j]));
    }
    assert forall|k: int| 0 <= k < recs.len() implies reader.spec_record(k) == Ok::<Seq<(Seq<char>, ValueModel)>, ReadFailure>(
        #[trigger] recs[k],
    ) by {
        lemma_table_record(h, fields, enc, recs, reader, k);
    }
}

/// A record appended to a table reads back as itself: once
/// [`File::append_written_record`] has written the bytes of a record (its
/// deletion flag, then its values as [`crate::Record::write_using`] writes
/// them) after the last record and the header counting it, reading the new
/// last record gives the record; when its values fit their fields (see
/// [`record_fits`]), the field names are distinct, strings are read as lossy
/// UTF-8, character fields are trimmed at both ends, and the records start
/// after the header. The records before it read as before, the count of
/// records grows by one, and a canonical header reads back, from the new
/// bytes, as the header counting the new record.
#[verifier::spinoff_prover]
#[verifier::rlimit(40)]
pub proof fn lemma_append_read(before: File, after: File, rec: Seq<(Seq<char>, ValueModel)>)
    requires
        before.spec_encoding() == DynEncoding::UnicodeLossy(UnicodeLossy),
        before.spec_options().character_trim == TrimOption::BeginEnd,
        distinct_names(before.spec_fields()),
        record_fits(rec, before.spec_fields()),
        before.spec_header().offset_to_first_record >= 32,
        before.spec_header().num_records < u32::MAX,
        ({
            let n = before.spec_header().num_records as int;
            let h = Header { num_records: (n + 1) as u32, ..before.spec_header() };
            let written = seq![32u8] + spec_write_values(
                before.spec_encoding(),
                rec,
                before.spec_fields(),
                before.spec_fields().len() as int,
            )->Ok_0;
            &&& after.spec_header() == h
            &&& after.spec_fields() == before.spec_fields()
            &&& after.spec_encoding() == before.spec_encoding()
            &&& after.spec_memo() == before.spec_memo()
            &&& after.spec_options() == before.spec_options()
            &&& after.spec_data() == spec_write_at(
                spec_write_at(before.spec_data(), before.spec_record_start(n), written),
                0,
                spec_header_bytes(h),
            )
        }),
    ensures
        after.spec_record(before.spec_header().num_records as int)
            == Ok::<Seq<(Seq<char>, ValueModel)>, ReadFailure>(rec),
        after.spec_header().num_records == before.spec_header().num_records + 1,
        forall|k: int|
            0 <= k < before.spec_header().num_records && before.spec_record_held(k)
                ==> #[trigger] after.spec_record(k) == before.spec_record(k),
        header_is_canonical(before.spec_header()) ==> spec_parse_header(after.spec_data())
            == after.spec_header(),
{
    lemma_append_keeps_records(before, after);
    lemma_append_writes_header(before, after);
    let fields = before.spec_fields();
    let nf = fields.len() as int;
    let enc = before.spec_encoding();
    let n = before.spec_header().num_records as int;
    let h = Header { num_records: (n + 1) as u32, ..before.spec_header() };
    lemma_write_values_layout(enc, rec, fields, nf);
    let values = spec_write_values(enc, rec, fields, nf)->Ok_0;
    let written = seq![32u8] + values;
    let size = before.spec_record_size();
    assert(written.len() == size);
    let start = before.spec_record_start(n);
    assert(n * size >= 0) by (nonlinear_arith)
        requires
            n >= 0,
            size >= 1,
    ;
    assert(start >= 32);
    let d1 = spec_write_at(before.spec_data(), start, written);
    lemma_write_at(before.spec_data(), start, written);
    let hb = spec_header_bytes(h);
    assert(hb.len() == 32);
    lemma_write_at(d1, 0, hb);
    let d2 = after.spec_data();
    assert(after.spec_record_start(n) == start);
    assert(after.spec_record_size() == size);
    assert(d2.len() >= start + size);
    assert(d2.subrange(start + 1, start + size) =~= values) by {
        assert forall|i: int| 0 <= i < values.len() implies d2.subrange(start + 1, start + size)[i]
            == values[i] by {
            assert(d2[start + 1 + i] == d1[start + 1 + i]);
            assert(d1[start + (1 + i)] == written[1 + i]);
        }
    }
    assert forall|j: int| 0 <= j < nf implies same_layout(#[trigger] fields[j], fields[j]) by {}
    lemma_read_written_values(enc, rec, fields, fields, before.spec_memo(), nf);
    assert(rec.subrange(0, nf) =~= rec);
    assert forall|i: int, j: int| 0 <= i < j < rec.len() implies rec[i].0 != rec[j].0 by {
        assert(rec[i].0 == fields[i].name@);
        assert(rec[j].0 == fields[j].name@);
    }
    lemma_record_of_distinct(rec);
}

/// A record written over a record of a table reads back as itself: once
/// [`crate::RecordRef::write`] has written the bytes of a record (its
/// deletion flag, then its values as [`crate::Record::write_using`] writes
/// them) at the position of record `i`, reading record `i` gives the record;
/// when its values fit their fields (see [`record_fits`]), the field names
/// are distinct, strings are read as lossy UTF-8 and character fields are
/// trimmed at both ends.
#[verifier::spinoff_prover]
#[verifier::rlimit(40)]
pub proof fn lemma_record_write_read(before: File, after: File, i: int, rec: Seq<(Seq<char>, ValueModel)>)
    requires
        0 <= i,
        before.spec_encoding() == DynEncoding::UnicodeLossy(UnicodeLossy),
        before.spec_options().character_trim == TrimOption::BeginEnd,
        distinct_names(before.spec_fields()),
        record_fits(rec, before.spec_fields()),
        before.same_but_data(after),
        after.spec_fields() == before.spec_fields(),
        after.spec_header() == before.spec_header(),
        after.spec_encoding() == before.spec_encoding(),
        after.spec_memo() == before.spec_memo(),
        after.spec_options() == before.spec_options(),
        after.spec_data() == spec_write_at(
            before.spec_data(),
            before.spec_record_start(i),
            seq![32u8] + spec_write_values(
                before.spec_encoding(),
                rec,
                before.spec_fields(),
                before.spec_fields().len() as int,
            )->Ok_0,
        ),
    ensures
        after.spec_record(i) == Ok::<Seq<(Seq<char>, ValueModel)>, ReadFailure>(rec),
{
    let fields = before.spec_fields();
    let nf = fields.len() as int;
    let enc = before.spec_encoding();
    lemma_write_values_layout(enc, rec, fields, nf);
    let values = spec_write_values(enc, rec, fields, nf)->Ok_0;
    let written = seq![32u8] + values;
    let size = before.spec_record_size();
    assert(written.len() == size);
    let start = before.spec_record_start(i);
    assert(i * size >= 0) by (nonlinear_arith)
        requires
            i >= 0,
            size >= 1,
    ;
    assert(start >= 0);
    lemma_write_at(before.spec_data(), start, written);
    let d = after.spec_data();
    assert(after.spec_record_start(i) == start);
    assert(after.spec_record_size() == size);
    assert(d.len() >= start + size);
    assert(d.subrange(start + 1, start + size) =~= values) by {
        assert forall|k: int| 0 <= k < values.len() implies d.subrange(start + 1, start + size)[k]
            == values[k] by {
            assert(d[start + (1 + k)] == written[1 + k]);
        }
    }
    assert forall|j: int| 0 <= j < nf implies same_layout(#[trigger] fields[j], fields[j]) by {}
    lemma_read_written_values(enc, rec, fields, fields, before.spec_memo(), nf);
    assert(rec.subrange(0, nf) =~= rec);
    assert forall|a: int, b: int| 0 <= a < b < rec.len() implies rec[a].0 != rec[b].0 by {
        assert(rec[a].0 == fields[a].name@);
        assert(rec[b].0 == fields[b].name@);
    }
    lemma_record_of_distinct(rec);
}

/// The records before an appended one keep their bytes, and so read as
/// before.
proof fn lemma_append_keeps_records(before: File, after: File)
    requires
        before.spec_header().offset_to_first_record >= 32,
        before.spec_header().num_records < u32::MAX,
        after.spec_fields() == before.spec_fields(),
        after.spec_encoding() == before.spec_encoding(),
        after.spec_memo() == before.spec_memo(),
        after.spec_options() == before.spec_options(),
        after.spec_header() == (Header {
            num_records: (before.spec_header().num_records + 1) as u32,
            ..before.spec_header()
        }),
        exists|w: Seq<u8>| after.spec_data() == spec_write_at(
            #[trigger] spec_write_at(before.spec_data(), before.spec_record_start(before.spec_header().num_records as int), w),
            0,
            spec_header_bytes(after.spec_header()),
        ),
    ensures
        forall|k: int|
            0 <= k < before.spec_header().num_records && before.spec_record_held(k)
                ==> #[trigger] after.spec_record(k) == before.spec_record(k),
{
    let n = before.spec_header().num_records as int;
    let start = before.spec_record_start(n);
    let size = before.spec_record_size();
    let w = choose|w: Seq<u8>| after.spec_data() == spec_write_at(
        #[trigger] spec_write_at(before.spec_data(), start, w),
        0,
        spec_header_bytes(after.spec_header()),
    );
    let d1 = spec_write_at(before.spec_data(), start, w);
    lemma_sum_lengths_bound(before.spec_fields(), before.spec_fields().len() as int);
    assert(size >= 1);
    assert(n * size >= 0) by (nonlinear_arith)
        requires
            n >= 0,
            size >= 1,
    ;
    lemma_write_at(before.spec_data(), start, w);
    lemma_write_at(d1, 0, spec_header_bytes(after.spec_header()));
    assert(spec_header_bytes(after.spec_header()).len() == 32);
    assert forall|k: int|
        0 <= k < n && before.spec_record_held(k) implies #[trigger] after.spec_record(k) == before.spec_record(k) by {
        let sk = before.spec_record_start(k);
        assert(k * size >= 0 && k * size + size <= n * size) by (nonlinear_arith)
            requires
                0 <= k < n,
                size >= 1,
        ;
        assert(sk + size <= start);
        assert(sk >= 32);
        assert(after.spec_record_start(k) == sk);
        assert(after.spec_record_size() == size);
        assert(after.spec_data().subrange(sk + 1, sk + size) =~= before.spec_data().subrange(sk + 1, sk + size)) by {
            assert(before.spec_data().len() >= sk + size);
            assert(after.spec_data().len() >= sk + size);
            assert forall|x: int| sk + 1 <= x < sk + size implies after.spec_data()[x] == before.spec_data()[x] by {
                assert(d1[x] == before.spec_data()[x]);
                assert(after.spec_data()[x] == d1[x]);
            }
        }
    }
}

/// The header written when a record is appended is read back as itself.
proof fn lemma_append_writes_header(before: File, after: File)
    requires
        after.spec_header() == (Header {
            num_records: (before.spec_header().num_records + 1) as u32,
            ..before.spec_header()
        }),
        exists|w: Seq<u8>| after.spec_data() == spec_write_at(
            #[trigger] spec_write_at(before.spec_data(), before.spec_record_start(before.spec_header().num_records as int), w),
            0,
            spec_header_bytes(after.spec_header()),
        ),
    ensures
        header_is_canonical(before.spec_header()) ==> spec_parse_header(after.spec_data())
            == after.spec_header(),
{
    let h = after.spec_header();
    if header_is_canonical(before.spec_header()) {
        let w = choose|w: Seq<u8>| after.spec_data() == spec_write_at(
            #[trigger] spec_write_at(before.spec_data(), before.spec_record_start(before.spec_header().num_records as int), w),
            0,
            spec_header_bytes(h),
        );
        let d1 = spec_write_at(before.spec_data(), before.spec_record_start(before.spec_header().num_records as int), w);
        lemma_header_write_read(h);
        lemma_write_at(d1, 0, spec_header_bytes(h));
        let d = after.spec_data();
        let hb = spec_header_bytes(h);
        assert forall|x: int| 0 <= x < 32 implies d[x] == hb[x] by {
            assert(d[0 + x] == hb[x]);
        }
        assert(d.subrange(0, 32) =~= hb);
        assert(spec_parse_header(d) == spec_parse_header(d.subrange(0, 32)));
    }
}

} // verus!
