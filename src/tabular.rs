use vstd::prelude::*;
use crate::error::ExporterError;

verus! {

#[verifier::external_type_specification]
#[verifier::external_body]
pub struct ExCsvError(csv::Error);

/// The rows that a headerless CSV reader finds in `b`, in order: `Some` with
/// the row's fields, or `None` where the row could not be read.
pub uninterp spec fn csv_rows(b: Seq<u8>) -> Seq<Option<Seq<Seq<char>>>>;

/// The character sequences of a row's fields.
pub open spec fn fields_of(f: Seq<String>) -> Seq<Seq<char>> {
    f.map_values(|s: String| s@)
}

/// What a parsed row says: its fields, or `None` for a row in error.
pub open spec fn row_model(r: Result<Vec<String>, ExporterError>) -> Option<Seq<Seq<char>>> {
    match r {
        Ok(f) => Some(fields_of(f@)),
        Err(_) => None,
    }
}

pub open spec fn rows_model(rows: Seq<Result<Vec<String>, ExporterError>>) -> Seq<Option<Seq<Seq<char>>>> {
    rows.map_values(|r: Result<Vec<String>, ExporterError>| row_model(r))
}

/// Relies on `csv::ReaderBuilder` with `has_headers(false)`, `Reader::records`
/// and `StringRecord::iter`: one entry per row of `b`, with the row's fields
/// or the reader's error for that row.
#[verifier::external_body]
fn read_csv_rows(b: &[u8]) -> (r: Vec<Result<Vec<String>, csv::Error>>)
    ensures
        r@.len() == csv_rows(b@).len(),
        forall|i: int|
            0 <= i < r@.len() ==> match #[trigger] r@[i] {
                Ok(f) => csv_rows(b@)[i] == Some(fields_of(f@)),
                Err(_) => csv_rows(b@)[i] is None,
            },
{
    let mut rdr = csv::ReaderBuilder::new().has_headers(false).from_reader(b);
    rdr.records().map(|row| row.map(|rec| rec.iter().map(|f| f.to_string()).collect())).collect()
}

/// Splits the tool's output into rows of fields. No header row is expected;
/// a row that cannot be read yields `ExporterError::Parse` in its place and
/// reading goes on with the next row.
pub fn parse(raw: &[u8]) -> (r: Vec<Result<Vec<String>, ExporterError>>)
    ensures
        rows_model(r@) == csv_rows(raw@),
        forall|i: int| 0 <= i < r@.len() && (#[trigger] r@[i]) is Err ==> r@[i]->Err_0 == ExporterError::Parse,
{
    let mut rows = read_csv_rows(raw);
    let ghost all = rows@;
    let mut out: Vec<Result<Vec<String>, ExporterError>> = Vec::new();
    while rows.len() > 0
        invariant
            all.len() == csv_rows(raw@).len(),
            forall|i: int|
                0 <= i < all.len() ==> match #[trigger] all[i] {
                    Ok(f) => csv_rows(raw@)[i] == Some(fields_of(f@)),
                    Err(_) => csv_rows(raw@)[i] is None,
                },
            out@.len() + rows@.len() == all.len(),
            rows@ == all.skip(out@.len() as int),
            rows_model(out@) == csv_rows(raw@).take(out@.len() as int),
            forall|i: int| 0 <= i < out@.len() && (#[trigger] out@[i]) is Err ==> out@[i]->Err_0 == ExporterError::Parse,
        decreases rows@.len(),
    {
        let ghost k = out@.len() as int;
        let row = rows.remove(0);
        assert(row == all[k]);
        let item = match row {
            Ok(f) => Ok(f),
            Err(_) => Err(ExporterError::Parse),
        };
        out.push(item);
        proof {
            assert(rows@ =~= all.skip(k + 1));
            assert(rows_model(out@) =~= csv_rows(raw@).take(k + 1));
        }
    }
    assert(rows_model(out@) =~= csv_rows(raw@));
    out
}

} // verus!
