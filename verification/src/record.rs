//! Generic records: the values of a record by field name.

use crate::encoding::DynEncoding;
use crate::field::FieldInfo;
use crate::error::{ErrorKind, FieldError};
use crate::field::str_eq;
use crate::reading::{lemma_read_values_err, spec_read_values, FieldIterator, NamedValue, ReadableRecord};
use crate::value::{failure_of, spec_written_value, FieldValue, ReadFailure, ValueModel};
use crate::writing::{
    WriteOutcome,
    lemma_write_values_err, spec_field_bytes, spec_write_values, FieldWriter, WritableRecord,
};
use vstd::prelude::*;

verus! {

/// Index of the first entry named `name` in `entries`, or their number.
pub open spec fn index_of_name(entries: Seq<(Seq<char>, ValueModel)>, name: Seq<char>, i: int) -> int
    decreases entries.len() - i,
{
    if i >= entries.len() {
        entries.len() as int
    } else if entries[i].0 == name {
        i
    } else {
        index_of_name(entries, name, i + 1)
    }
}

/// The entries after inserting `v` under `name`: the first entry of that
/// name gets the value, or a new entry is added at the end.
pub open spec fn spec_insert(
    entries: Seq<(Seq<char>, ValueModel)>,
    name: Seq<char>,
    v: ValueModel,
) -> Seq<(Seq<char>, ValueModel)> {
    let i = index_of_name(entries, name, 0);
    if i < entries.len() {
        entries.update(i, (name, v))
    } else {
        entries.push((name, v))
    }
}

/// The record made by inserting the named values in order into an empty one.
pub open spec fn spec_record_of(named: Seq<(Seq<char>, ValueModel)>) -> Seq<(Seq<char>, ValueModel)>
    decreases named.len(),
{
    if named.len() == 0 {
        Seq::empty()
    } else {
        spec_insert(spec_record_of(named.drop_last()), named.last().0, named.last().1)
    }
}

/// Type definition of a generic record.
/// A .dbf file is composed of many records
///
/// The values are kept in the order their names were first inserted.
#[derive(Debug, Clone, PartialEq)]
pub struct Record {
    entries: Vec<(String, FieldValue)>,
}

impl View for Record {
    type V = Seq<(Seq<char>, ValueModel)>;

    closed spec fn view(&self) -> Seq<(Seq<char>, ValueModel)> {
        Seq::new(self.entries@.len(), |i: int| (self.entries@[i].0@, self.entries@[i].1@))
    }
}

impl Record {
    /// A record with no value.
    pub fn new() -> (r: Self)
        ensures
            r@ == Seq::<(Seq<char>, ValueModel)>::empty(),
    {
        let r = Self { entries: Vec::new() };
        assert(r@ =~= Seq::<(Seq<char>, ValueModel)>::empty());
        r
    }

    /// Number of values.
    pub fn len(&self) -> (r: usize)
        ensures
            r == self@.len(),
    {
        self.entries.len()
    }

    fn position(&self, field_name: &str) -> (r: usize)
        ensures
            r == index_of_name(self@, field_name@, 0),
            r <= self@.len(),
    {
        let mut i: usize = 0;
        while i < self.entries.len()
            invariant
                0 <= i <= self@.len(),
                self@.len() == self.entries@.len(),
                index_of_name(self@, field_name@, 0) == index_of_name(self@, field_name@, i as int),
            decreases self@.len() - i,
        {
            if str_eq(self.entries[i].0.as_str(), field_name) {
                assert(self@[i as int].0 == field_name@);
                return i;
            }
            i = i + 1;
        }
        i
    }

    /// Inserts a new value in the record, returning the old one if there was any
    pub fn insert(&mut self, field_name: String, value: FieldValue) -> (r: Option<FieldValue>)
        ensures
            ({
                let i = index_of_name(old(self)@, field_name@, 0);
                if i < old(self)@.len() {
                    &&& r matches Some(v) && v@ == old(self)@[i].1
                    &&& final(self)@ == old(self)@.update(i, (field_name@, value@))
                } else {
                    &&& r is None
                    &&& final(self)@ == old(self)@.push((field_name@, value@))
                }
            }),
    {
        let i = self.position(field_name.as_str());
        let ghost name = field_name@;
        let ghost v = value@;
        if i < self.entries.len() {
            let old_entry = self.entries.remove(i);
            self.entries.insert(i, (field_name, value));
            assert(self@ =~= old(self)@.update(i as int, (name, v)));
            Some(old_entry.1)
        } else {
            self.entries.push((field_name, value));
            assert(self@ =~= old(self)@.push((name, v)));
            None
        }
    }

    /// Returns the [FieldValue](enum.FieldValue.html) for the given field name
    pub fn get(&self, field_name: &str) -> (r: Option<&FieldValue>)
        ensures
            ({
                let i = index_of_name(self@, field_name@, 0);
                if i < self@.len() {
                    r matches Some(v) && v@ == self@[i].1
                } else {
                    r is None
                }
            }),
    {
        let i = self.position(field_name);
        if i < self.entries.len() {
            Some(&self.entries[i].1)
        } else {
            None
        }
    }

    /// Returns a mutable reference to the [FieldValue](enum.FieldValue.html)
    /// for the given field name
    pub fn get_mut(&mut self, field_name: &str) -> (r: Option<&mut FieldValue>)
        ensures
            ({
                let i = index_of_name(old(self)@, field_name@, 0);
                if i < old(self)@.len() {
                    &&& r matches Some(v) && (*v)@ == old(self)@[i].1
                        && final(self)@.len() == old(self)@.len()
                        && final(self)@[i] == (field_name@, (*final(v))@)
                        && (forall|k: int| 0 <= k < old(self)@.len() && k != i ==> #[trigger] final(self)@[k] == old(self)@[k])
                } else {
                    &&& r is None
                    &&& final(self)@ == old(self)@
                }
            }),
    {
        let i = self.position(field_name);
        proof {
            lemma_index_of_name_bounds(self@, field_name@, 0);
        }
        if i < self.entries.len() {
            Some(&mut self.entries[i].1)
        } else {
            None
        }
    }

    /// Removes the [FieldValue](enum.FieldValue.html) for the given field name
    pub fn remove(&mut self, field_name: &str) -> (r: Option<FieldValue>)
        ensures
            ({
                let i = index_of_name(old(self)@, field_name@, 0);
                if i < old(self)@.len() {
                    &&& r matches Some(v) && v@ == old(self)@[i].1
                    &&& final(self)@ == old(self)@.remove(i)
                } else {
                    &&& r is None
                    &&& final(self)@ == old(self)@
                }
            }),
    {
        let i = self.position(field_name);
        if i < self.entries.len() {
            let e = self.entries.remove(i);
            assert(self@ =~= old(self)@.remove(i as int));
            Some(e.1)
        } else {
            None
        }
    }
}


proof fn lemma_index_of_name_bounds(entries: Seq<(Seq<char>, ValueModel)>, name: Seq<char>, i: int)
    requires
        0 <= i <= entries.len(),
    ensures
        i <= index_of_name(entries, name, i) <= entries.len(),
        index_of_name(entries, name, i) < entries.len() ==> entries[index_of_name(entries, name, i)].0 == name,
        forall|k: int| i <= k < index_of_name(entries, name, i) ==> entries[k].0 != name,
    decreases entries.len() - i,
{
    if i < entries.len() && entries[i].0 != name {
        lemma_index_of_name_bounds(entries, name, i + 1);
    }
}

proof fn lemma_index_of_name_same(
    a: Seq<(Seq<char>, ValueModel)>,
    b: Seq<(Seq<char>, ValueModel)>,
    name: Seq<char>,
    i: int,
    j: int,
)
    requires
        0 <= i <= j,
        j <= a.len(),
        j <= b.len(),
        forall|k: int| i <= k < j ==> a[k].0 == b[k].0 && a[k].0 != name,
        j < a.len() && j < b.len() && a[j].0 == name && b[j].0 == name,
    ensures
        index_of_name(a, name, i) == j,
        index_of_name(b, name, i) == j,
    decreases j - i,
{
    if i < j {
        lemma_index_of_name_same(a, b, name, i + 1, j);
    }
}

/// Once a value is inserted under a name, the record gives that value for
/// the name, and the other names keep their values.
pub proof fn lemma_insert_get(
    entries: Seq<(Seq<char>, ValueModel)>,
    name: Seq<char>,
    v: ValueModel,
    other: Seq<char>,
)
    ensures
        ({
            let after = spec_insert(entries, name, v);
            let i = index_of_name(after, name, 0);
            &&& i < after.len()
            &&& after[i].1 == v
            &&& other != name ==> (index_of_name(after, other, 0) < after.len()
                <==> index_of_name(entries, other, 0) < entries.len())
            &&& other != name && index_of_name(entries, other, 0) < entries.len() ==> after[index_of_name(after, other, 0)].1
                == entries[index_of_name(entries, other, 0)].1
        }),
{
    let after = spec_insert(entries, name, v);
    lemma_index_of_name_bounds(entries, name, 0);
    lemma_index_of_name_bounds(entries, other, 0);
    lemma_index_of_name_bounds(after, other, 0);
    let i = index_of_name(entries, name, 0);
    if i < entries.len() {
        lemma_index_of_name_same(after, entries, name, 0, i);
    } else {
        assert forall|k: int| 0 <= k < entries.len() implies entries[k].0 != name by {}
        lemma_index_of_name_same(after, after, name, 0, entries.len() as int);
    }
    if other != name {
        let jo = index_of_name(entries, other, 0);
        if jo < entries.len() {
            lemma_index_of_name_same(after, entries, other, 0, jo);
        } else {
            assert forall|k: int| 0 <= k < after.len() implies after[k].0 != other by {
                if k < entries.len() {
                    assert(after[k].0 == entries[k].0 || k == i);
                }
            }
        }
    }
}

impl Default for Record {
    fn default() -> (r: Self)
        ensures
            r@ == Seq::<(Seq<char>, ValueModel)>::empty(),
    {
        Record::new()
    }
}

impl ReadableRecord for Record {
    open spec fn spec_read(values: Seq<(Seq<char>, ValueModel)>, result: Option<Self>) -> bool {
        result matches Some(rec) && rec@ == spec_record_of(values)
    }

    fn read_using(field_iterator: &mut FieldIterator<'_>) -> (r: Result<Self, FieldError>)
        ensures
            old(field_iterator).spec_next() == 0 ==> {
                let ctx = old(field_iterator).spec_context();
                let fields = old(field_iterator).spec_fields();
                let expected = spec_read_values(
                    ctx.1,
                    old(field_iterator).spec_source(),
                    fields,
                    ctx.2,
                    ctx.0,
                    fields.len() as int,
                );
                &&& expected matches Ok(s) ==> (r matches Ok(rec) && rec@ == spec_record_of(s))
                &&& expected matches Err(f) ==> (r matches Err(e) && failure_of(e.kind) == f.1)
            },
    {
        let ghost start = old(field_iterator).spec_next();
        let ghost ctx = old(field_iterator).spec_context();
        let ghost fields = old(field_iterator).spec_fields();
        let ghost src = old(field_iterator).spec_source();
        let mut record = Record::new();
        while !field_iterator.is_at_end()
            invariant
                start == old(field_iterator).spec_next(),
                ctx == old(field_iterator).spec_context(),
                fields == old(field_iterator).spec_fields(),
                src == old(field_iterator).spec_source(),
                field_iterator.spec_context() == ctx,
                field_iterator.spec_fields() == fields,
                field_iterator.spec_source() == src,
                start == 0 ==> (spec_read_values(ctx.1, src, fields, ctx.2, ctx.0, field_iterator.spec_next())
                    matches Ok(s) && record@ == spec_record_of(s)),
                start == 0 ==> field_iterator.spec_next() <= fields.len(),
            decreases fields.len() - field_iterator.spec_next(),
        {
            let ghost k = field_iterator.spec_next();
            match field_iterator.read_next_field() {
                None => {
                    proof {
                        assert(false);
                    }
                    return Ok(record);
                },
                Some(Err(e)) => {
                    proof {
                        if start == 0 {
                            assert(spec_read_values(ctx.1, src, fields, ctx.2, ctx.0, k + 1) == Err::<Seq<(Seq<char>, ValueModel)>, (int, ReadFailure)>((k, failure_of(e.kind))));
                            lemma_read_values_err(ctx.1, src, fields, ctx.2, ctx.0, k + 1, fields.len() as int);
                        }
                    }
                    return Err(e);
                },
                Some(Ok(NamedValue { name, value })) => {
                    let ghost s = spec_read_values(ctx.1, src, fields, ctx.2, ctx.0, k)->Ok_0;
                    record.insert(String::from_str(name), value);
                    proof {
                        if start == 0 {
                            let named = s.push((fields[k].name@, value@));
                            assert(named.drop_last() =~= s);
                        }
                    }
                },
            }
        }
        Ok(record)
    }
}

impl WritableRecord for Record {
    open spec fn spec_write(&self, fields: Seq<FieldInfo>, encoding: DynEncoding) -> WriteOutcome {
        match spec_write_values(encoding, self@, fields, fields.len() as int) {
            Ok(b) => WriteOutcome::Writes(b, fields.len() as int),
            Err(_) => WriteOutcome::Fails,
        }
    }

    fn write_using(&self, field_writer: &mut FieldWriter<'_>) -> (r: Result<(), FieldError>)
        ensures
            final(field_writer).spec_fields() == old(field_writer).spec_fields(),
            final(field_writer).spec_encoding() == old(field_writer).spec_encoding(),
            old(field_writer).spec_next() == 0 ==> {
                let fields = old(field_writer).spec_fields();
                let expected = spec_write_values(
                    old(field_writer).spec_encoding(),
                    self@,
                    fields,
                    fields.len() as int,
                );
                &&& expected matches Ok(b) ==> (r is Ok && final(field_writer).spec_written()
                    == old(field_writer).spec_written() + b && final(field_writer).spec_next()
                    == fields.len())
                &&& expected is Err ==> r is Err
            },
    {
        let ghost start = old(field_writer).spec_next();
        let ghost fields = old(field_writer).spec_fields();
        let ghost enc = old(field_writer).spec_encoding();
        let ghost written = old(field_writer).spec_written();
        while !field_writer.all_fields_were_written()
            invariant
                start == old(field_writer).spec_next(),
                fields == old(field_writer).spec_fields(),
                enc == old(field_writer).spec_encoding(),
                written == old(field_writer).spec_written(),
                field_writer.spec_fields() == fields,
                field_writer.spec_encoding() == enc,
                start == 0 ==> field_writer.spec_next() <= fields.len(),
                start == 0 ==> (spec_write_values(enc, self@, fields, field_writer.spec_next()) matches Ok(b)
                    && field_writer.spec_written() == written + b),
            decreases fields.len() - field_writer.spec_next(),
        {
            let ghost k = field_writer.spec_next();
            let name = match field_writer.next_field_name() {
                None => {
                    proof {
                        assert(false);
                    }
                    return Ok(());
                },
                Some(n) => n,
            };
            let value = match self.get(name) {
                Some(v) => v,
                None => {
                    proof {
                        if start == 0 {
                            lemma_write_values_err(enc, self@, fields, k + 1, fields.len() as int);
                        }
                    }
                    return Err(
                        FieldError::without_context(
                            ErrorKind::Message(String::from_str("Could not find field in the record map")),
                        ),
                    );
                },
            };
            match field_writer.write_next_field_value(value) {
                Ok(()) => {
                    proof {
                        if start == 0 {
                            let b = spec_write_values(enc, self@, fields, k)->Ok_0;
                            let w = spec_written_value(enc, value@, fields[k].field_type)->Ok_0;
                            assert(written + b + spec_field_bytes(w, fields[k]) =~= written + (b + spec_field_bytes(w, fields[k])));
                        }
                    }
                },
                Err(e) => {
                    proof {
                        if start == 0 {
                            lemma_write_values_err(enc, self@, fields, k + 1, fields.len() as int);
                        }
                    }
                    return Err(e);
                },
            }
        }
        Ok(())
    }
}

} // verus!
