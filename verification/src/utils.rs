//! Replay-record ingestion and small helpers. A record file is CSV with a
//! header row; each following record carries three non-negative integer
//! fields `(sender_index, receiver_index, amount)`. A missing or unparsable
//! field defaults to `0`; a malformed field never aborts ingestion.

use vstd::prelude::*;

use vstd::arithmetic::div_mod::lemma_fundamental_div_mod;

verus! {

/// Joins two string slices into one owned string.
pub fn concatenate_strings(str1: &str, str2: &str) -> (r: String)
    ensures
        r@ == str1@ + str2@,
{
    let s = String::from_str(str1);
    s.concat(str2)
}

/// The record file could not be read as CSV at all.
#[derive(Clone, Copy, PartialEq, Eq, Structural, Debug)]
pub enum CsvError {
    Malformed,
}

/// The records (after the header row) that the CSV reader yields for these
/// bytes: a sequence of records, each a sequence of byte fields.
pub uninterp spec fn csv_records_of(data: Seq<u8>) -> Seq<Seq<Seq<u8>>>;

/// Whether the CSV reader accepts these bytes as a whole.
pub uninterp spec fn csv_parse_ok(data: Seq<u8>) -> bool;

/// Relies on csv::Reader::byte_records with the default reader settings:
/// it yields the file's records in order, treating the first row as a
/// header and skipping it, and what it yields depends on the bytes alone.
#[verifier::external_body]
fn read_csv_records(data: &[u8]) -> (r: Result<Vec<Vec<Vec<u8>>>, CsvError>)
    ensures
        r is Ok <==> csv_parse_ok(data@),
        (r matches Ok(v) ==> v.deep_view() == csv_records_of(data@)),
{
    let mut rdr = csv::ReaderBuilder::new().from_reader(data);
    let mut out: Vec<Vec<Vec<u8>>> = Vec::new();
    for rec in rdr.byte_records() {
        match rec {
            Ok(rec) => out.push(rec.iter().map(|f| f.to_vec()).collect()),
            Err(_) => return Err(CsvError::Malformed),
        }
    }
    Ok(out)
}

/// An ASCII decimal digit.
pub open spec fn is_digit(b: u8) -> bool {
    48 <= b <= 57
}

/// The number the bytes spell in decimal, most significant digit first.
pub open spec fn digits_value(s: Seq<u8>) -> int
    decreases s.len(),
{
    if s.len() == 0 {
        0
    } else {
        digits_value(s.drop_last()) * 10 + (s.last() - 48)
    }
}

/// The number a field stands for: its decimal value when it is non-empty,
/// all digits, and in range; `0` for anything else.
pub open spec fn parsed_field(s: Seq<u8>) -> usize {
    if s.len() > 0 && (forall|i: int| 0 <= i < s.len() ==> is_digit(s[i])) && digits_value(s)
        <= usize::MAX {
        digits_value(s) as usize
    } else {
        0
    }
}

/// Trailing digits never shrink a non-negative decimal value.
proof fn lemma_digits_prefix(s: Seq<u8>, i: int)
    requires
        0 <= i <= s.len(),
        digits_value(s.subrange(0, i)) >= 0,
        forall|j: int| i <= j < s.len() ==> is_digit(s[j]),
    ensures
        digits_value(s) >= digits_value(s.subrange(0, i)),
    decreases s.len() - i,
{
    if i == s.len() {
        assert(s.subrange(0, i) =~= s);
    } else {
        assert(s.subrange(0, i + 1).drop_last() =~= s.subrange(0, i));
        assert(s.subrange(0, i + 1).last() == s[i]);
        lemma_digits_prefix(s, i + 1);
    }
}

/// Parses one field, defaulting to `0` when it is empty, holds a non-digit,
/// or spells a number too large for the machine.
pub fn parse_field_or_zero(s: &Vec<u8>) -> (r: usize)
    ensures
        r == parsed_field(s@),
{
    if s.len() == 0 {
        return 0;
    }
    let mut acc: usize = 0;
    let mut i: usize = 0;
    proof {
        assert(s@.subrange(0, 0) =~= Seq::<u8>::empty());
    }
    while i < s.len()
        invariant
            i <= s.len(),
            s@.len() > 0,
            forall|j: int| 0 <= j < i ==> is_digit(s@[j]),
            acc == digits_value(s@.subrange(0, i as int)),
        decreases s.len() - i,
    {
        let b = s[i];
        if b < 48 || b > 57 {
            return 0;
        }
        let d = (b - 48) as usize;
        proof {
            assert(s@.subrange(0, i as int + 1).drop_last() =~= s@.subrange(0, i as int));
            assert(s@.subrange(0, i as int + 1).last() == s@[i as int]);
            lemma_fundamental_div_mod((usize::MAX - d) as int, 10);
        }
        if acc > (usize::MAX - d) / 10 {
            proof {
                if forall|j: int| 0 <= j < s@.len() ==> is_digit(s@[j]) {
                    lemma_digits_prefix(s@, i as int + 1);
                }
            }
            return 0;
        }
        acc = acc * 10 + d;
        i = i + 1;
    }
    proof {
        assert(s@.subrange(0, s@.len() as int) =~= s@);
    }
    acc
}

/// The value of the record's column `j`, with `0` for a missing column.
pub open spec fn col_value(rec: Seq<Seq<u8>>, j: int) -> usize {
    if 0 <= j < rec.len() {
        parsed_field(rec[j])
    } else {
        0
    }
}

/// The `(sender_index, receiver_index, amount)` triple a record stands for.
pub open spec fn row_value(rec: Seq<Seq<u8>>) -> (usize, usize, usize) {
    (col_value(rec, 0), col_value(rec, 1), col_value(rec, 2))
}

/// Parses one record's first three fields, each defaulting to `0`.
pub fn parse_row(rec: &Vec<Vec<u8>>) -> (r: (usize, usize, usize))
    ensures
        r == row_value(rec.deep_view()),
{
    proof {
        assert forall|j: int| 0 <= j < rec@.len() implies rec.deep_view()[j] =~= rec@[j]@ by {}
    }
    let a = if rec.len() > 0 {
        parse_field_or_zero(&rec[0])
    } else {
        0
    };
    let b = if rec.len() > 1 {
        parse_field_or_zero(&rec[1])
    } else {
        0
    };
    let c = if rec.len() > 2 {
        parse_field_or_zero(&rec[2])
    } else {
        0
    };
    (a, b, c)
}

/// Reads a whole record file, already loaded as bytes: the header row is
/// skipped and every following record yields one index triple, unparsable
/// fields defaulting to `0`. Only a file the CSV reader cannot process at
/// all is an error; no single row ever aborts ingestion.
pub fn read_csv_with_header(data: &[u8]) -> (r: Result<Vec<(usize, usize, usize)>, CsvError>)
    ensures
        r is Ok <==> csv_parse_ok(data@),
        (r matches Ok(rows) ==> rows@ == csv_records_of(data@).map_values(
            |rec: Seq<Seq<u8>>| row_value(rec),
        )),
{
    let records = match read_csv_records(data) {
        Ok(v) => v,
        Err(e) => {
            return Err(e);
        },
    };
    let ghost model = csv_records_of(data@);
    let mut rows: Vec<(usize, usize, usize)> = Vec::new();
    let mut i: usize = 0;
    while i < records.len()
        invariant
            i <= records.len(),
            records.deep_view() == model,
            records@.len() == model.len(),
            rows@ == model.subrange(0, i as int).map_values(|rec: Seq<Seq<u8>>| row_value(rec)),
        decreases records.len() - i,
    {
        let row = parse_row(&records[i]);
        proof {
            assert(records[i as int].deep_view() == model[i as int]);
        }
        rows.push(row);
        proof {
            assert(model.subrange(0, i as int + 1).map_values(|rec: Seq<Seq<u8>>| row_value(rec))
                =~= model.subrange(0, i as int).map_values(|rec: Seq<Seq<u8>>| row_value(rec))
                + seq![row_value(model[i as int])]);
        }
        i = i + 1;
    }
    proof {
        assert(model.subrange(0, model.len() as int) =~= model);
    }
    Ok(rows)
}

} // verus!
