use vstd::prelude::*;
use crate::catalog::METRIC_COUNT;
use crate::error::ExporterError;
use crate::tabular::fields_of;
use crate::trim::{trim_of, trimmed};

verus! {

/// One GPU's readings: its index and name, used as labels, and the raw value
/// of each catalog metric that its row provides, in catalog order.
pub struct GpuSample {
    pub index: String,
    pub name: String,
    pub values: Vec<String>,
}

/// The abstract content of a `GpuSample`.
pub struct SampleModel {
    pub index: Seq<char>,
    pub name: Seq<char>,
    pub values: Seq<Seq<char>>,
}

impl View for GpuSample {
    type V = SampleModel;

    open spec fn view(&self) -> SampleModel {
        SampleModel { index: self.index@, name: self.name@, values: fields_of(self.values@) }
    }
}

impl GpuSample {
    /// Value `i` belongs to catalog entry `i`, so there are no more values
    /// than catalog entries.
    pub open spec fn wf(&self) -> bool {
        self.values@.len() <= METRIC_COUNT
    }
}

/// Number of metric values that a row with `n` fields provides: its fields
/// after the name and index, up to the catalog's length.
pub open spec fn metric_fields(n: int) -> int {
    if n - 2 < METRIC_COUNT {
        n - 2
    } else {
        METRIC_COUNT as int
    }
}

/// The sample of a row with at least two fields: field 0 is the name, field 1
/// the index (trimmed), field `2 + i` the value of catalog entry `i`; fields
/// beyond the catalog are ignored.
pub open spec fn sample_of(rec: Seq<Seq<char>>) -> SampleModel {
    SampleModel {
        index: trim_of(rec[1]),
        name: rec[0],
        values: rec.subrange(2, 2 + metric_fields(rec.len() as int)),
    }
}

/// Maps a row's fields onto the catalog. A row without both a name and an
/// index is refused with `ExporterError::Mapping`; a row with fewer metric
/// columns than the catalog maps the columns that it has.
pub fn map_record(record: &Vec<String>) -> (r: Result<GpuSample, ExporterError>)
    ensures
        match r {
            Ok(s) => record@.len() >= 2 && s.wf() && s@ == sample_of(fields_of(record@)),
            Err(e) => record@.len() < 2 && e == ExporterError::Mapping,
        },
{
    if record.len() < 2 {
        return Err(ExporterError::Mapping);
    }
    let name = record[0].clone();
    let index = trimmed(&record[1]);
    let end: usize = if record.len() - 2 < METRIC_COUNT {
        record.len()
    } else {
        METRIC_COUNT + 2
    };
    let ghost rec = fields_of(record@);
    let mut values: Vec<String> = Vec::new();
    let mut j: usize = 2;
    while j < end
        invariant
            2 <= j <= end <= record@.len(),
            end == 2 + metric_fields(record@.len() as int),
            rec == fields_of(record@),
            values@.len() == j - 2,
            fields_of(values@) == rec.subrange(2, j as int),
        decreases end - j,
    {
        let v = record[j].clone();
        values.push(v);
        assert(rec[j as int] == record@[j as int]@);
        assert(values@[j - 2]@ == rec[j as int]);
        assert(fields_of(values@) =~= rec.subrange(2, j as int + 1));
        j = j + 1;
    }
    let s = GpuSample { index, name, values };
    assert(s@.values =~= sample_of(rec).values);
    Ok(s)
}

} // verus!
