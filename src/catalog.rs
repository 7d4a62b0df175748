use vstd::prelude::*;

verus! {

/// Number of metric columns that follow the name and index columns.
pub const METRIC_COUNT: usize = 11;

/// The metric names, in the order of the columns requested from the tool
/// after the two identifying columns.
pub open spec fn catalog() -> Seq<Seq<char>> {
    seq![
        "nvidia_fan_speed"@,
        "nvidia_temperature_gpu"@,
        "nvidia_clocks_gr"@,
        "nvidia_clocks_sm"@,
        "nvidia_clocks_mem"@,
        "nvidia_power_draw"@,
        "nvidia_utilization_gpu"@,
        "nvidia_utilization_memory"@,
        "nvidia_memory_total"@,
        "nvidia_memory_free"@,
        "nvidia_memory_used"@,
    ]
}

/// The tool's column identifiers, in the order in which they are requested:
/// name, index, then one column per catalog entry.
pub open spec fn query_columns() -> Seq<Seq<char>> {
    seq![
        "name"@,
        "index"@,
        "fan.speed"@,
        "temperature.gpu"@,
        "clocks.gr"@,
        "clocks.sm"@,
        "clocks.mem"@,
        "power.draw"@,
        "utilization.gpu"@,
        "utilization.memory"@,
        "memory.total"@,
        "memory.free"@,
        "memory.used"@,
    ]
}

/// The catalog name of metric `i`.
pub fn metric_name(i: usize) -> (r: &'static str)
    requires
        i < METRIC_COUNT,
    ensures
        r@ == catalog()[i as int],
{
    match i {
        0 => "nvidia_fan_speed",
        1 => "nvidia_temperature_gpu",
        2 => "nvidia_clocks_gr",
        3 => "nvidia_clocks_sm",
        4 => "nvidia_clocks_mem",
        5 => "nvidia_power_draw",
        6 => "nvidia_utilization_gpu",
        7 => "nvidia_utilization_memory",
        8 => "nvidia_memory_total",
        9 => "nvidia_memory_free",
        _ => "nvidia_memory_used",
    }
}

/// The tool's identifier of column `i` of a report row.
pub fn query_column(i: usize) -> (r: &'static str)
    requires
        i < METRIC_COUNT + 2,
    ensures
        r@ == query_columns()[i as int],
{
    match i {
        0 => "name",
        1 => "index",
        2 => "fan.speed",
        3 => "temperature.gpu",
        4 => "clocks.gr",
        5 => "clocks.sm",
        6 => "clocks.mem",
        7 => "power.draw",
        8 => "utilization.gpu",
        9 => "utilization.memory",
        10 => "memory.total",
        11 => "memory.free",
        _ => "memory.used",
    }
}

/// `cols` joined with commas.
pub open spec fn comma_joined(cols: Seq<Seq<char>>) -> Seq<char>
    decreases cols.len(),
{
    if cols.len() == 0 {
        Seq::empty()
    } else if cols.len() == 1 {
        cols[0]
    } else {
        comma_joined(cols.drop_last()) + ","@ + cols.last()
    }
}

/// The arguments with which the query tool is run: the column selection,
/// then the output format (comma-separated, no header row, no units).
pub fn query_arguments() -> (r: Vec<String>)
    ensures
        r@.len() == 2,
        r@[0]@ == "--query-gpu="@ + comma_joined(query_columns()),
        r@[1]@ == "--format=csv,noheader,nounits"@,
{
    let mut sel = String::from_str("--query-gpu=");
    let mut i: usize = 0;
    while i < METRIC_COUNT + 2
        invariant
            i <= METRIC_COUNT + 2,
            sel@ == "--query-gpu="@ + comma_joined(query_columns().take(i as int)),
        decreases METRIC_COUNT + 2 - i,
    {
        if i > 0 {
            sel.append(",");
        }
        sel.append(query_column(i));
        proof {
            let cols = query_columns().take(i as int + 1);
            assert(cols.drop_last() =~= query_columns().take(i as int));
            assert(cols.last() == query_columns()[i as int]);
            if i == 0 {
                assert(cols.len() == 1);
            }
        }
        i = i + 1;
    }
    assert(query_columns().take(13) =~= query_columns());
    let mut r: Vec<String> = Vec::new();
    r.push(sel);
    r.push(String::from_str("--format=csv,noheader,nounits"));
    r
}

} // verus!
