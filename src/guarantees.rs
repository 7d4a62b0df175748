use vstd::prelude::*;
use crate::catalog::{catalog, METRIC_COUNT};
use crate::error::ExporterError;
use crate::exposition::{
    exposition_lines, exposition_text, first_bad_row, lemma_first_bad_row, metric_line, row_error, row_valid, sample_lines,
    samples_of,
};
use crate::sample::{sample_of, SampleModel};
use crate::scrape::gpu_section;
use crate::tabular::csv_rows;
use crate::trim::{lemma_trim_idempotent, trim_end_of, trim_of, trim_start_of};

verus! {

proof fn lemma_flatten_uniform<A>(xs: Seq<Seq<A>>, k: int)
    requires
        k >= 0,
        forall|i: int| 0 <= i < xs.len() ==> (#[trigger] xs[i]).len() == k,
    ensures
        xs.flatten().len() == xs.len() * k,
        forall|i: int, j: int|
            0 <= i < xs.len() && 0 <= j < k ==> xs.flatten()[i * k + j] == #[trigger] xs[i][j],
    decreases xs.len(),
{
    if xs.len() > 0 {
        let rest = xs.drop_first();
        lemma_flatten_uniform(rest, k);
        assert(xs.flatten() == xs[0] + rest.flatten());
        assert(xs.len() * k == k + rest.len() * k) by (nonlinear_arith)
            requires
                rest.len() == xs.len() - 1,
        ;
        assert forall|i: int, j: int| 0 <= i < xs.len() && 0 <= j < k implies xs.flatten()[i * k + j]
            == #[trigger] xs[i][j] by {
            if i > 0 {
                assert(i * k + j == k + ((i - 1) * k + j)) by (nonlinear_arith);
                let m = i - 1;
                assert(m * k + k <= rest.len() * k) by (nonlinear_arith)
                    requires
                        0 <= m,
                        m + 1 <= rest.len(),
                        k >= 0,
                ;
                assert(0 <= (i - 1) * k) by (nonlinear_arith)
                    requires
                        i >= 1,
                        k >= 0,
                ;
                assert(rest[i - 1] == xs[i]);
            } else {
                assert(i * k == 0) by (nonlinear_arith)
                    requires
                        i == 0,
                ;
            }
        }
    }
}

/// A report whose rows were all read and hold exactly the name, the index and
/// one column per catalog entry renders as one line per row and catalog
/// entry: rows in order, and within a row the catalog in order.
pub proof fn lemma_full_rows_render(raw: Seq<u8>)
    requires
        forall|i: int|
            0 <= i < csv_rows(raw).len() ==> (#[trigger] csv_rows(raw)[i]) is Some
                && csv_rows(raw)[i]->0.len() == METRIC_COUNT + 2,
    ensures
        samples_of(csv_rows(raw)) is Ok,
        exposition_lines(samples_of(csv_rows(raw))->Ok_0).len() == csv_rows(raw).len() * METRIC_COUNT,
        forall|i: int, j: int|
            0 <= i < csv_rows(raw).len() && 0 <= j < METRIC_COUNT ==> exposition_lines(
                samples_of(csv_rows(raw))->Ok_0,
            )[i * METRIC_COUNT + j] == metric_line(
                catalog()[j],
                trim_of(csv_rows(raw)[i]->0[1]),
                csv_rows(raw)[i]->0[0],
                #[trigger] csv_rows(raw)[i]->0[2 + j],
            ),
{
    let rows = csv_rows(raw);
    assert forall|i: int| 0 <= i < rows.len() implies row_valid(#[trigger] rows[i]) by {}
    let ss = samples_of(rows)->Ok_0;
    let per = ss.map_values(|s| sample_lines(s));
    assert forall|i: int| 0 <= i < per.len() implies (#[trigger] per[i]).len() == METRIC_COUNT by {
        assert(ss[i] == sample_of(rows[i]->0));
    }
    lemma_flatten_uniform(per, METRIC_COUNT as int);
    assert forall|i: int, j: int| 0 <= i < rows.len() && 0 <= j < METRIC_COUNT implies exposition_lines(ss)[i
        * METRIC_COUNT + j] == metric_line(
        catalog()[j],
        trim_of(rows[i]->0[1]),
        rows[i]->0[0],
        #[trigger] rows[i]->0[2 + j],
    ) by {
        assert(ss[i] == sample_of(rows[i]->0));
        assert(per[i] == sample_lines(ss[i]));
        assert(per[i][j] == metric_line(catalog()[j], ss[i].index, ss[i].name, ss[i].values[j]));
    }
}

/// A lone row with a name, an index and fewer metric columns than the catalog
/// is no error: it renders one line for each column that it has, naming the
/// first catalog entries in order.
pub proof fn lemma_partial_row_render(rec: Seq<Seq<char>>)
    requires
        2 <= rec.len() <= METRIC_COUNT + 2,
    ensures
        samples_of(seq![Some(rec)]) == Ok::<Seq<SampleModel>, ExporterError>(seq![sample_of(rec)]),
        exposition_lines(seq![sample_of(rec)]).len() == rec.len() - 2,
        forall|j: int|
            0 <= j < rec.len() - 2 ==> #[trigger] exposition_lines(seq![sample_of(rec)])[j] == metric_line(
                catalog()[j],
                trim_of(rec[1]),
                rec[0],
                rec[2 + j],
            ),
{
    let rows = seq![Some(rec)];
    assert(row_valid(rows[0]));
    assert(rows.map_values(|r: Option<Seq<Seq<char>>>| sample_of(r->0)) =~= seq![sample_of(rec)]);
    let per = seq![sample_of(rec)].map_values(|s| sample_lines(s));
    assert(per =~= seq![sample_lines(sample_of(rec))]);
    per.lemma_flatten_singleton();
}

/// When the first row in error is read but lacks a name or an index, the
/// report fails with `ExporterError::Mapping`, and a scrape of it serves the
/// registry's text alone.
pub proof fn lemma_short_row_degrades(tool: Result<Vec<u8>, ExporterError>, i: int)
    requires
        tool is Ok,
        0 <= i < csv_rows(tool->Ok_0@).len(),
        csv_rows(tool->Ok_0@)[i] is Some,
        csv_rows(tool->Ok_0@)[i]->0.len() < 2,
        forall|j: int| 0 <= j < i ==> row_valid(#[trigger] csv_rows(tool->Ok_0@)[j]),
    ensures
        samples_of(csv_rows(tool->Ok_0@)) == Err::<Seq<SampleModel>, ExporterError>(ExporterError::Mapping),
        gpu_section(tool) == Seq::<u8>::empty(),
{
    let rows = csv_rows(tool->Ok_0@);
    let k = first_bad_row(rows);
    assert(0 <= k < rows.len() && !row_valid(rows[k]));
    if k < i {
        assert(row_valid(rows[k]));
    }
    if k > i {
        assert(row_valid(rows[i]));
    }
}

/// `b` is row `a` with its index field, if it has one, replaced by the
/// trimmed index.
pub open spec fn index_pretrimmed(a: Option<Seq<Seq<char>>>, b: Option<Seq<Seq<char>>>) -> bool {
    match a {
        None => b is None,
        Some(rec) => b == Some(
            if rec.len() >= 2 {
                rec.update(1, trim_of(rec[1]))
            } else {
                rec
            },
        ),
    }
}

spec fn same_row_result(a: Option<Seq<Seq<char>>>, b: Option<Seq<Seq<char>>>) -> bool {
    &&& row_valid(a) == row_valid(b)
    &&& row_error(a) == row_error(b)
    &&& row_valid(a) ==> sample_of(a->0) == sample_of(b->0)
}

proof fn lemma_pretrimmed_row(a: Option<Seq<Seq<char>>>, b: Option<Seq<Seq<char>>>)
    requires
        index_pretrimmed(a, b) || a == b,
    ensures
        same_row_result(a, b),
{
    if a != b && a is Some && a->0.len() >= 2 {
        let x = a->0;
        let y = b->0;
        lemma_trim_idempotent(x[1]);
        assert(sample_of(x).values =~= sample_of(y).values);
    }
}

proof fn lemma_all_valid_same(r1: Seq<Option<Seq<Seq<char>>>>, r2: Seq<Option<Seq<Seq<char>>>>)
    requires
        r1.len() == r2.len(),
        forall|i: int| 0 <= i < r1.len() ==> same_row_result(#[trigger] r1[i], r2[i]),
        forall|i: int| 0 <= i < r1.len() ==> row_valid(#[trigger] r1[i]),
    ensures
        samples_of(r1) == samples_of(r2),
{
    assert forall|i: int| 0 <= i < r2.len() implies row_valid(#[trigger] r2[i]) by {
        assert(same_row_result(r1[i], r2[i]));
    }
    assert(r1.map_values(|r: Option<Seq<Seq<char>>>| sample_of(r->0)) =~= r2.map_values(
        |r: Option<Seq<Seq<char>>>| sample_of(r->0),
    )) by {
        assert forall|i: int| 0 <= i < r1.len() implies sample_of(#[trigger] r1[i]->0) == sample_of(r2[i]->0) by {
            assert(same_row_result(r1[i], r2[i]));
        }
    }
}

proof fn lemma_bad_row_same(r1: Seq<Option<Seq<Seq<char>>>>, r2: Seq<Option<Seq<Seq<char>>>>, k: int)
    requires
        r1.len() == r2.len(),
        forall|i: int| 0 <= i < r1.len() ==> same_row_result(#[trigger] r1[i], r2[i]),
        0 <= k < r1.len(),
        !row_valid(r1[k]),
        forall|j: int| 0 <= j < k ==> row_valid(#[trigger] r1[j]),
    ensures
        samples_of(r1) == samples_of(r2),
{
    assert forall|j: int| 0 <= j < k implies row_valid(#[trigger] r2[j]) by {
        assert(same_row_result(r1[j], r2[j]));
    }
    assert(same_row_result(r1[k], r2[k]));
    lemma_first_bad_row(r1, k);
    lemma_first_bad_row(r2, k);
    assert(!row_valid(r2[k]));
}

proof fn lemma_first_bad_exists(rows: Seq<Option<Seq<Seq<char>>>>, i: int)
    requires
        0 <= i < rows.len(),
        !row_valid(rows[i]),
    ensures
        0 <= first_bad_row(rows) < rows.len(),
        !row_valid(rows[first_bad_row(rows)]),
        forall|j: int| 0 <= j < first_bad_row(rows) ==> row_valid(#[trigger] rows[j]),
    decreases i,
{
    if forall|j: int| 0 <= j < i ==> row_valid(#[trigger] rows[j]) {
        lemma_first_bad_row(rows, i);
    } else {
        let j = choose|j: int| 0 <= j < i && !row_valid(#[trigger] rows[j]);
        lemma_first_bad_exists(rows, j);
    }
}

/// Two outputs of the tool that differ only in that some rows of the second
/// have their index field already trimmed give the same result: the same
/// samples, hence the same rendering, or the same error.
pub proof fn lemma_pretrimmed_index_same_result(raw1: Seq<u8>, raw2: Seq<u8>)
    requires
        csv_rows(raw1).len() == csv_rows(raw2).len(),
        forall|i: int|
            0 <= i < csv_rows(raw1).len() ==> index_pretrimmed(#[trigger] csv_rows(raw1)[i], csv_rows(raw2)[i])
                || csv_rows(raw1)[i] == csv_rows(raw2)[i],
    ensures
        samples_of(csv_rows(raw1)) == samples_of(csv_rows(raw2)),
{
    let r1 = csv_rows(raw1);
    let r2 = csv_rows(raw2);
    assert forall|i: int| 0 <= i < r1.len() implies same_row_result(#[trigger] r1[i], r2[i]) by {
        lemma_pretrimmed_row(r1[i], r2[i]);
    }
    if forall|i: int| 0 <= i < r1.len() ==> row_valid(#[trigger] r1[i]) {
        lemma_all_valid_same(r1, r2);
    } else {
        let i = choose|i: int| 0 <= i < r1.len() && !row_valid(#[trigger] r1[i]);
        lemma_first_bad_exists(r1, i);
        lemma_bad_row_same(r1, r2, first_bad_row(r1));
    }
}

/// Number of newline characters in `s`.
pub open spec fn newline_count(s: Seq<char>) -> nat
    decreases s.len(),
{
    if s.len() == 0 {
        0
    } else {
        (if s.last() == '\n' {
            1nat
        } else {
            0nat
        }) + newline_count(s.drop_last())
    }
}

/// `s` holds no newline character.
pub open spec fn no_newline(s: Seq<char>) -> bool {
    forall|k: int| 0 <= k < s.len() ==> s[k] != '\n'
}

proof fn lemma_newline_count_add(a: Seq<char>, b: Seq<char>)
    ensures
        newline_count(a + b) == newline_count(a) + newline_count(b),
    decreases b.len(),
{
    if b.len() > 0 {
        assert((a + b).drop_last() =~= a + b.drop_last());
        assert((a + b).last() == b.last());
        lemma_newline_count_add(a, b.drop_last());
    } else {
        assert(a + b =~= a);
    }
}

proof fn lemma_no_newline_count(s: Seq<char>)
    requires
        no_newline(s),
    ensures
        newline_count(s) == 0,
    decreases s.len(),
{
    if s.len() > 0 {
        lemma_no_newline_count(s.drop_last());
    }
}

proof fn lemma_trim_keeps_no_newline(s: Seq<char>)
    requires
        no_newline(s),
    ensures
        no_newline(trim_of(s)),
{
    lemma_trim_start_keeps_no_newline(s);
    lemma_trim_end_keeps_no_newline(trim_start_of(s));
}

proof fn lemma_trim_start_keeps_no_newline(s: Seq<char>)
    requires
        no_newline(s),
    ensures
        no_newline(trim_start_of(s)),
    decreases s.len(),
{
    if s.len() > 0 {
        lemma_trim_start_keeps_no_newline(s.drop_first());
    }
}

proof fn lemma_trim_end_keeps_no_newline(s: Seq<char>)
    requires
        no_newline(s),
    ensures
        no_newline(trim_end_of(s)),
    decreases s.len(),
{
    if s.len() > 0 {
        lemma_trim_end_keeps_no_newline(s.drop_last());
    }
}

proof fn lemma_catalog_no_newline(j: int)
    requires
        0 <= j < METRIC_COUNT,
    ensures
        no_newline(catalog()[j]),
{
    reveal_strlit("nvidia_fan_speed");
    reveal_strlit("nvidia_temperature_gpu");
    reveal_strlit("nvidia_clocks_gr");
    reveal_strlit("nvidia_clocks_sm");
    reveal_strlit("nvidia_clocks_mem");
    reveal_strlit("nvidia_power_draw");
    reveal_strlit("nvidia_utilization_gpu");
    reveal_strlit("nvidia_utilization_memory");
    reveal_strlit("nvidia_memory_total");
    reveal_strlit("nvidia_memory_free");
    reveal_strlit("nvidia_memory_used");
}

/// A line whose metric name and label and value texts hold no newline holds
/// exactly one: the one that ends it.
pub proof fn lemma_line_one_newline(metric: Seq<char>, index: Seq<char>, name: Seq<char>, value: Seq<char>)
    requires
        no_newline(metric),
        no_newline(index),
        no_newline(name),
        no_newline(value),
    ensures
        newline_count(metric_line(metric, index, name, value)) == 1,
        metric_line(metric, index, name, value).last() == '\n',
{
    reveal_strlit("{gpu=\"");
    reveal_strlit("\", name=\"");
    reveal_strlit("\"} ");
    reveal_strlit("\n");
    let p1 = "{gpu=\""@;
    let p2 = "\", name=\""@;
    let p3 = "\"} "@;
    let nl = "\n"@;
    assert(no_newline(p1));
    assert(no_newline(p2));
    assert(no_newline(p3));
    lemma_no_newline_count(metric);
    lemma_no_newline_count(index);
    lemma_no_newline_count(name);
    lemma_no_newline_count(value);
    lemma_no_newline_count(p1);
    lemma_no_newline_count(p2);
    lemma_no_newline_count(p3);
    assert(newline_count(nl) == 1) by {
        assert(nl.len() == 1);
        assert(nl[0] == '\n');
        assert(nl.last() == '\n');
        assert(newline_count(nl.drop_last()) == 0);
    }
    lemma_newline_count_add(metric, p1);
    lemma_newline_count_add(metric + p1, index);
    lemma_newline_count_add(metric + p1 + index, p2);
    lemma_newline_count_add(metric + p1 + index + p2, name);
    lemma_newline_count_add(metric + p1 + index + p2 + name, p3);
    lemma_newline_count_add(metric + p1 + index + p2 + name + p3, value);
    lemma_newline_count_add(metric + p1 + index + p2 + name + p3 + value, nl);
}

proof fn lemma_flatten_newlines(xs: Seq<Seq<char>>)
    requires
        forall|p: int| 0 <= p < xs.len() ==> newline_count(#[trigger] xs[p]) == 1,
    ensures
        newline_count(xs.flatten()) == xs.len(),
    decreases xs.len(),
{
    if xs.len() > 0 {
        lemma_flatten_newlines(xs.drop_first());
        lemma_newline_count_add(xs[0], xs.drop_first().flatten());
    }
}

/// A report of `N` rows that were all read, each with exactly the name, the
/// index and one column per catalog entry, and with no newline inside any
/// field, renders as a text with exactly one newline per row and catalog
/// entry: `N * 11` newlines in all.
pub proof fn lemma_full_rows_newlines(raw: Seq<u8>)
    requires
        forall|i: int|
            0 <= i < csv_rows(raw).len() ==> (#[trigger] csv_rows(raw)[i]) is Some
                && csv_rows(raw)[i]->0.len() == METRIC_COUNT + 2,
        forall|i: int, k: int|
            0 <= i < csv_rows(raw).len() && 0 <= k < METRIC_COUNT + 2 ==> no_newline(
                #[trigger] csv_rows(raw)[i]->0[k],
            ),
    ensures
        samples_of(csv_rows(raw)) is Ok,
        newline_count(exposition_text(samples_of(csv_rows(raw))->Ok_0)) == csv_rows(raw).len() * METRIC_COUNT,
{
    let rows = csv_rows(raw);
    lemma_full_rows_render(raw);
    let lines = exposition_lines(samples_of(rows)->Ok_0);
    assert forall|p: int| 0 <= p < lines.len() implies newline_count(#[trigger] lines[p]) == 1 by {
        let i = p / 11;
        let j = p % 11;
        assert(p == i * 11 + j);
        assert(0 <= i < rows.len()) by (nonlinear_arith)
            requires
                p == i * 11 + j,
                0 <= j < 11,
                0 <= p < rows.len() * 11,
        ;
        let rec = rows[i]->0;
        assert(lines[i * METRIC_COUNT + j] == metric_line(catalog()[j], trim_of(rec[1]), rec[0], rec[2 + j]));
        assert(no_newline(rec[1]));
        assert(no_newline(rec[0]));
        assert(no_newline(rec[2 + j]));
        lemma_trim_keeps_no_newline(rec[1]);
        lemma_catalog_no_newline(j);
        lemma_line_one_newline(catalog()[j], trim_of(rec[1]), rec[0], rec[2 + j]);
    }
    lemma_flatten_newlines(lines);
}

} // verus!
