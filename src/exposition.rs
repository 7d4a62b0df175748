use vstd::prelude::*;
use vstd::seq_lib::lemma_flatten_concat;
use crate::catalog::{catalog, metric_name, METRIC_COUNT};
use crate::error::ExporterError;
use crate::sample::{map_record, sample_of, GpuSample, SampleModel};
use crate::tabular::{csv_rows, fields_of, parse, row_model, rows_model};

verus! {

broadcast use vstd::seq_lib::group_seq_properties;

/// One exposition line: `metric{gpu="index", name="name"} value` and a newline.
/// Label values are inserted as they are, without escaping.
pub open spec fn metric_line(metric: Seq<char>, index: Seq<char>, name: Seq<char>, value: Seq<char>) -> Seq<char> {
    metric + "{gpu=\""@ + index + "\", name=\""@ + name + "\"} "@ + value + "\n"@
}

/// The lines of one sample, in catalog order.
pub open spec fn sample_lines(s: SampleModel) -> Seq<Seq<char>> {
    Seq::new(s.values.len(), |j: int| metric_line(catalog()[j], s.index, s.name, s.values[j]))
}

/// The lines of all samples: samples in order, each in catalog order.
pub open spec fn exposition_lines(ss: Seq<SampleModel>) -> Seq<Seq<char>> {
    ss.map_values(|s: SampleModel| sample_lines(s)).flatten()
}

/// The rendered text: the lines of `exposition_lines`, one after another.
pub open spec fn exposition_text(ss: Seq<SampleModel>) -> Seq<char> {
    exposition_lines(ss).flatten()
}

pub open spec fn samples_view(ss: Seq<GpuSample>) -> Seq<SampleModel> {
    ss.map_values(|s: GpuSample| s@)
}

/// A row that was read and holds at least a name and an index.
pub open spec fn row_valid(r: Option<Seq<Seq<char>>>) -> bool {
    r is Some && r->0.len() >= 2
}

/// The error that an invalid row raises.
pub open spec fn row_error(r: Option<Seq<Seq<char>>>) -> ExporterError {
    if r is None {
        ExporterError::Parse
    } else {
        ExporterError::Mapping
    }
}

/// The position of the first invalid row.
pub open spec fn first_bad_row(rows: Seq<Option<Seq<Seq<char>>>>) -> int {
    choose|i: int|
        0 <= i < rows.len() && !row_valid(rows[i]) && forall|j: int| 0 <= j < i ==> row_valid(#[trigger] rows[j])
}

/// The samples of a whole report: one per row when every row is valid, else
/// the error of the first invalid row (one bad row fails the whole report).
pub open spec fn samples_of(rows: Seq<Option<Seq<Seq<char>>>>) -> Result<Seq<SampleModel>, ExporterError> {
    if forall|i: int| 0 <= i < rows.len() ==> row_valid(#[trigger] rows[i]) {
        Ok(rows.map_values(|r: Option<Seq<Seq<char>>>| sample_of(r->0)))
    } else {
        Err(row_error(rows[first_bad_row(rows)]))
    }
}

pub proof fn lemma_first_bad_row(rows: Seq<Option<Seq<Seq<char>>>>, i: int)
    requires
        0 <= i < rows.len(),
        !row_valid(rows[i]),
        forall|j: int| 0 <= j < i ==> row_valid(#[trigger] rows[j]),
    ensures
        first_bad_row(rows) == i,
{
    let k = first_bad_row(rows);
    assert(0 <= k < rows.len() && !row_valid(rows[k]));
    if k < i {
        assert(row_valid(rows[k]));
    }
    if k > i {
        assert(row_valid(rows[i]));
    }
}

/// Appends one exposition line to `out`.
fn append_line(out: &mut String, metric: &str, index: &String, name: &String, value: &String)
    ensures
        final(out)@ == old(out)@ + metric_line(metric@, index@, name@, value@),
{
    out.append(metric);
    out.append("{gpu=\"");
    out.append(index.as_str());
    out.append("\", name=\"");
    out.append(name.as_str());
    out.append("\"} ");
    out.append(value.as_str());
    out.append("\n");
    assert(final(out)@ =~= old(out)@ + metric_line(metric@, index@, name@, value@));
}

/// Renders the samples: for each sample in order, one line per value, in
/// catalog order.
pub fn render(samples: &Vec<GpuSample>) -> (r: String)
    requires
        forall|i: int| 0 <= i < samples@.len() ==> (#[trigger] samples@[i]).wf(),
    ensures
        r@ == exposition_text(samples_view(samples@)),
{
    let ghost view = samples_view(samples@);
    let mut out = String::new();
    let mut i: usize = 0;
    assert(exposition_lines(view.take(0)) =~= Seq::<Seq<char>>::empty());
    while i < samples.len()
        invariant
            i <= samples@.len(),
            view == samples_view(samples@),
            forall|k: int| 0 <= k < samples@.len() ==> (#[trigger] samples@[k]).wf(),
            out@ == exposition_text(view.take(i as int)),
        decreases samples@.len() - i,
    {
        let s = &samples[i];
        let ghost before = out@;
        let ghost lines = sample_lines(s@);
        let mut j: usize = 0;
        assert(lines.take(0) =~= Seq::<Seq<char>>::empty());
        while j < s.values.len()
            invariant
                j <= s.values@.len() <= METRIC_COUNT,
                lines == sample_lines(s@),
                out@ == before + lines.take(j as int).flatten(),
            decreases s.values@.len() - j,
        {
            append_line(&mut out, metric_name(j), &s.index, &s.name, &s.values[j]);
            proof {
                assert(lines.take(j as int + 1) =~= lines.take(j as int).push(lines[j as int]));
                lines.take(j as int).lemma_flatten_push(lines[j as int]);
            }
            j = j + 1;
        }
        proof {
            assert(lines.take(j as int) =~= lines);
            let m = view.take(i as int).map_values(|t: SampleModel| sample_lines(t));
            assert(view.take(i as int + 1).map_values(|t: SampleModel| sample_lines(t)) =~= m.push(lines));
            m.lemma_flatten_push(lines);
            lemma_flatten_concat(exposition_lines(view.take(i as int)), lines);
            assert(exposition_lines(view.take(i as int)) + lines =~= exposition_lines(view.take(i as int + 1)));
        }
        i = i + 1;
    }
    assert(view.take(i as int) =~= view);
    out
}

/// Maps and renders every row of a report. The first row in error fails the
/// whole report: a row that could not be read with `ExporterError::Parse`, a
/// row without name or index with `ExporterError::Mapping`.
pub fn exposition_from_rows(rows: &Vec<Result<Vec<String>, ExporterError>>) -> (r: Result<String, ExporterError>)
    ensures
        match samples_of(rows_model(rows@)) {
            Ok(ss) => r is Ok && r->Ok_0@ == exposition_text(ss),
            Err(e) => r == Err::<String, ExporterError>(e),
        },
{
    let ghost m = rows_model(rows@);
    let mut samples: Vec<GpuSample> = Vec::new();
    let mut i: usize = 0;
    while i < rows.len()
        invariant
            i <= rows@.len(),
            m == rows_model(rows@),
            m.len() == rows@.len(),
            forall|j: int| 0 <= j < i ==> row_valid(#[trigger] m[j]),
            samples@.len() == i,
            forall|k: int| 0 <= k < samples@.len() ==> (#[trigger] samples@[k]).wf(),
            samples_view(samples@) =~= m.take(i as int).map_values(|r: Option<Seq<Seq<char>>>| sample_of(r->0)),
        decreases rows@.len() - i,
    {
        match &rows[i] {
            Err(_) => {
                proof {
                    lemma_first_bad_row(m, i as int);
                }
                return Err(ExporterError::Parse);
            },
            Ok(fields) => {
                match map_record(fields) {
                    Err(e) => {
                        proof {
                            lemma_first_bad_row(m, i as int);
                        }
                        return Err(e);
                    },
                    Ok(s) => {
                        let ghost prev = samples@;
                        let ghost sv = s@;
                        samples.push(s);
                        proof {
                            assert(m[i as int] == row_model(rows@[i as int]));
                            assert(m[i as int]->0 == fields_of(fields@));
                            assert(samples@[i as int]@ == sample_of(m[i as int]->0));
                            assert(row_valid(m[i as int]));
                            assert(samples@ == prev.push(samples@[i as int]));
                            assert(samples_view(samples@) =~= samples_view(prev).push(sv));
                            assert(m.take(i as int + 1).map_values(|r: Option<Seq<Seq<char>>>| sample_of(r->0))
                                =~= m.take(i as int).map_values(|r: Option<Seq<Seq<char>>>| sample_of(r->0)).push(
                                sample_of(m[i as int]->0),
                            ));
                        }
                    },
                }
            },
        }
        i = i + 1;
    }
    assert(m.take(i as int) =~= m);
    Ok(render(&samples))
}

/// Parses, maps and renders the query tool's output.
pub fn gpu_exposition(raw: &[u8]) -> (r: Result<String, ExporterError>)
    ensures
        match samples_of(csv_rows(raw@)) {
            Ok(ss) => r is Ok && r->Ok_0@ == exposition_text(ss),
            Err(e) => r == Err::<String, ExporterError>(e),
        },
{
    let rows = parse(raw);
    exposition_from_rows(&rows)
}

} // verus!
