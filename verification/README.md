# dbase

Reading and writing of dBase III / FoxPro `.dbf` tables, verified with Verus.

The library (`src/`) works on tables held in memory as bytes. Every codec
states in its contract the exact bytes it reads or produces, over
mathematical models of headers, field descriptors and field values:

- `header`, `field`: the 32-byte header and the 32-byte field descriptors;
- `value`, `types`: field values (character, numeric, float, logical, date,
  integer, double, currency, date-time, memo) and the calendar arithmetic of
  Julian day numbers;
- `reading`: `Reader`, records read one by one or all at once;
- `writing`: `TableWriterBuilder` and `TableWriter`;
- `file`: `File`, a table read and modified in place;
- `memo`: memo files (`.dbt` / `.fpt`);
- `encoding`, `whatwg`: text encodings (ASCII, UTF-8, GBK and the encodings
  of `encoding_rs`, chosen by name);
- `message`: the messages that say what an error is;
- `roundtrip`, `table_law`: proofs that what is written reads back as
  itself, field by field and table by table.

Calls into `byteorder`, `time`, `encoding_rs` and `codepage` stand behind
small trusted wrappers whose contracts say what those crates document.

`app/` holds what stays outside the proofs: files on disk, memo files next
to a table, and conversions between stored numbers and floating point.
