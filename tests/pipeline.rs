use nvidia_smi_exporter::catalog::{metric_name, query_arguments, query_column, METRIC_COUNT};
use nvidia_smi_exporter::error::ExporterError;
use nvidia_smi_exporter::exposition::{exposition_from_rows, gpu_exposition, render};
use nvidia_smi_exporter::sample::{map_record, GpuSample};
use nvidia_smi_exporter::scrape::{compose_body, home_page, scrape_body, tool_result};
use nvidia_smi_exporter::tabular::parse;

const T4_ROW: &str = "NVIDIA Tesla T4, 0, 30, 45, 300, 1500, 5000, 70.5, 25, 10, 16384, 12000, 4384";

fn fields(v: &[&str]) -> Vec<String> {
    v.iter().map(|s| s.to_string()).collect()
}

fn lines_of(text: &str) -> Vec<String> {
    text.split_inclusive('\n').map(|s| s.to_string()).collect()
}

#[test]
fn full_rows_give_eleven_lines_each_in_order() {
    let raw = "A,0,1,2,3,4,5,6,7,8,9,10,11\nB,1,21,22,23,24,25,26,27,28,29,30,31\n";
    let text = gpu_exposition(raw.as_bytes()).unwrap();
    let lines = lines_of(&text);
    assert_eq!(lines.len(), 2 * 11);
    for i in 0..2 {
        for j in 0..11 {
            let line = &lines[i * 11 + j];
            let (name, gpu) = if i == 0 { ("A", "0") } else { ("B", "1") };
            let value = if i == 0 { j + 1 } else { j + 21 };
            assert_eq!(line, &format!("{}{{gpu=\"{}\", name=\"{}\"}} {}\n", metric_name(j), gpu, name, value));
        }
    }
}

#[test]
fn index_label_is_trimmed() {
    let s = map_record(&fields(&["GPU", " 0", "30"])).unwrap();
    assert_eq!(s.index, "0");
    let again = map_record(&fields(&["GPU", &s.index, "30"])).unwrap();
    assert_eq!(again.index, "0");
    let text = gpu_exposition("GPU, 0,30\n".as_bytes()).unwrap();
    assert_eq!(text, "nvidia_fan_speed{gpu=\"0\", name=\"GPU\"} 30\n");
}

#[test]
fn index_label_trims_both_ends() {
    let s = map_record(&fields(&["GPU", "\t 3 \t", "1"])).unwrap();
    assert_eq!(s.index, "3");
}

#[test]
fn partial_row_maps_available_columns() {
    let text = gpu_exposition("G,0,1,2,3,4,5\n".as_bytes()).unwrap();
    let lines = lines_of(&text);
    assert_eq!(lines.len(), 5);
    for j in 0..5 {
        assert!(lines[j].starts_with(&format!("{}{{", metric_name(j))));
    }
}

#[test]
fn name_and_index_only_gives_no_lines() {
    assert_eq!(gpu_exposition("G,0\n".as_bytes()), Ok(String::new()));
}

#[test]
fn extra_columns_are_ignored() {
    let s = map_record(&fields(&["G", "0", "1", "2", "3", "4", "5", "6", "7", "8", "9", "10", "11", "12", "13"])).unwrap();
    assert_eq!(s.values.len(), METRIC_COUNT);
    assert_eq!(s.values[10], "11");
}

#[test]
fn missing_index_is_a_mapping_error() {
    assert!(matches!(map_record(&fields(&["G"])), Err(ExporterError::Mapping)));
    assert!(matches!(map_record(&Vec::new()), Err(ExporterError::Mapping)));
    assert_eq!(gpu_exposition("lonely\n".as_bytes()), Err(ExporterError::Mapping));
}

#[test]
fn short_row_scrape_serves_registry_only() {
    let registry = b"# registry\nup 1\n".to_vec();
    let body = scrape_body(registry.clone(), Ok(b"lonely\n".to_vec()));
    assert_eq!(body, registry);
}

#[test]
fn tool_failure_scrape_serves_registry_only() {
    let registry = b"# registry\nup 1\n".to_vec();
    assert_eq!(scrape_body(registry.clone(), Err(ExporterError::Invocation)), registry);
    assert_eq!(tool_result(false, b"ignored".to_vec()), Err(ExporterError::Invocation));
    let failed = tool_result(false, Vec::new());
    assert_eq!(scrape_body(registry.clone(), failed), registry);
}

#[test]
fn tool_success_passes_output_on() {
    assert_eq!(tool_result(true, b"x".to_vec()), Ok(b"x".to_vec()));
    assert_eq!(tool_result(true, Vec::new()), Ok(Vec::new()));
}

#[test]
fn tesla_t4_example_lines() {
    let text = gpu_exposition("NVIDIA Tesla T4,0,30,45,300,1500,5000,70.5,25,10,16384,12000,4384\n".as_bytes()).unwrap();
    let lines = lines_of(&text);
    assert_eq!(lines.len(), 11);
    assert_eq!(lines[0], "nvidia_fan_speed{gpu=\"0\", name=\"NVIDIA Tesla T4\"} 30\n");
    assert_eq!(lines[1], "nvidia_temperature_gpu{gpu=\"0\", name=\"NVIDIA Tesla T4\"} 45\n");
    assert_eq!(lines[10], "nvidia_memory_used{gpu=\"0\", name=\"NVIDIA Tesla T4\"} 4384\n");
}

#[test]
fn tesla_t4_report_keeps_values_verbatim() {
    let text = gpu_exposition(format!("{}\n", T4_ROW).as_bytes()).unwrap();
    let lines = lines_of(&text);
    assert_eq!(lines.len(), 11);
    assert_eq!(lines[0], "nvidia_fan_speed{gpu=\"0\", name=\"NVIDIA Tesla T4\"}  30\n");
    assert_eq!(lines[1], "nvidia_temperature_gpu{gpu=\"0\", name=\"NVIDIA Tesla T4\"}  45\n");
    assert_eq!(lines[5], "nvidia_power_draw{gpu=\"0\", name=\"NVIDIA Tesla T4\"}  70.5\n");
}

#[test]
fn empty_output_is_no_error() {
    assert_eq!(gpu_exposition(b""), Ok(String::new()));
    let registry = b"r 1\n".to_vec();
    assert_eq!(scrape_body(registry.clone(), Ok(Vec::new())), registry);
}

#[test]
fn invalid_utf8_row_is_a_parse_error() {
    let raw: Vec<u8> = vec![b'G', b',', b'0', b',', 0xff, 0xfe, b'\n'];
    let rows = parse(&raw);
    assert_eq!(rows.len(), 1);
    assert_eq!(rows[0], Err(ExporterError::Parse));
    assert_eq!(gpu_exposition(&raw), Err(ExporterError::Parse));
}

#[test]
fn rows_of_unequal_length_fail_the_report() {
    let rows = parse(b"A,0,1\nB,1\n");
    assert_eq!(rows.len(), 2);
    assert_eq!(rows[0], Ok(fields(&["A", "0", "1"])));
    assert_eq!(rows[1], Err(ExporterError::Parse));
    assert_eq!(gpu_exposition(b"A,0,1\nB,1\n"), Err(ExporterError::Parse));
}

#[test]
fn parse_keeps_fields_as_received() {
    let rows = parse(b"name x, 1 ,2\n");
    assert_eq!(rows, vec![Ok(fields(&["name x", " 1 ", "2"]))]);
}

#[test]
fn quoted_field_with_comma() {
    let rows = parse(b"\"A, B\",0,7\n");
    assert_eq!(rows, vec![Ok(fields(&["A, B", "0", "7"]))]);
    assert_eq!(gpu_exposition(b"\"A, B\",0,7\n"), Ok("nvidia_fan_speed{gpu=\"0\", name=\"A, B\"} 7\n".to_string()));
}

#[test]
fn first_error_decides() {
    let rows = vec![Ok(fields(&["A", "0", "1"])), Ok(fields(&["B"])), Err(ExporterError::Parse)];
    assert_eq!(exposition_from_rows(&rows), Err(ExporterError::Mapping));
    let rows = vec![Err(ExporterError::Parse), Ok(fields(&["B"]))];
    assert_eq!(exposition_from_rows(&rows), Err(ExporterError::Parse));
}

#[test]
fn render_samples_directly() {
    let samples = vec![
        GpuSample { index: "1".to_string(), name: "X".to_string(), values: fields(&["5", "6"]) },
        GpuSample { index: "2".to_string(), name: "Y\"q".to_string(), values: fields(&["7"]) },
    ];
    assert_eq!(
        render(&samples),
        "nvidia_fan_speed{gpu=\"1\", name=\"X\"} 5\nnvidia_temperature_gpu{gpu=\"1\", name=\"X\"} 6\nnvidia_fan_speed{gpu=\"2\", name=\"Y\"q\"} 7\n"
    );
    assert_eq!(render(&Vec::new()), "");
}

#[test]
fn compose_appends_gpu_text() {
    let body = compose_body(b"r 1\n".to_vec(), Ok("g 2\n".to_string()));
    assert_eq!(body, b"r 1\ng 2\n".to_vec());
    assert_eq!(compose_body(b"r 1\n".to_vec(), Err(ExporterError::Parse)), b"r 1\n".to_vec());
    let body = compose_body(Vec::new(), Ok("é\n".to_string()));
    assert_eq!(body, "é\n".as_bytes().to_vec());
}

#[test]
fn scrape_success_appends_rendering() {
    let body = scrape_body(b"r 1\n".to_vec(), Ok(b"G,0,9\n".to_vec()));
    assert_eq!(body, b"r 1\nnvidia_fan_speed{gpu=\"0\", name=\"G\"} 9\n".to_vec());
}

#[test]
fn catalog_names_in_order() {
    let expected = [
        "nvidia_fan_speed",
        "nvidia_temperature_gpu",
        "nvidia_clocks_gr",
        "nvidia_clocks_sm",
        "nvidia_clocks_mem",
        "nvidia_power_draw",
        "nvidia_utilization_gpu",
        "nvidia_utilization_memory",
        "nvidia_memory_total",
        "nvidia_memory_free",
        "nvidia_memory_used",
    ];
    for (i, name) in expected.iter().enumerate() {
        assert_eq!(metric_name(i), *name);
    }
    assert_eq!(query_column(0), "name");
    assert_eq!(query_column(12), "memory.used");
}

#[test]
fn query_arguments_are_fixed() {
    let args = query_arguments();
    assert_eq!(
        args,
        vec![
            "--query-gpu=name,index,fan.speed,temperature.gpu,clocks.gr,clocks.sm,clocks.mem,power.draw,utilization.gpu,utilization.memory,memory.total,memory.free,memory.used".to_string(),
            "--format=csv,noheader,nounits".to_string(),
        ]
    );
}

#[test]
fn home_page_links_metrics() {
    let page = home_page();
    assert!(page.starts_with("<html>"));
    assert!(page.contains("<a href='/metrics'>Metrics</a>"));
}

#[test]
fn errors_describe_themselves() {
    assert_eq!(ExporterError::Invocation.describe(), "failed to run the GPU query tool");
    assert_eq!(ExporterError::Parse.describe(), "malformed row in the GPU query output");
    assert_eq!(ExporterError::Mapping.describe(), "row without GPU name or index");
}

#[test]
fn pretrimmed_index_gives_same_output() {
    let a = gpu_exposition(b"G, 0 ,1,2\nH,\t1,3,4\n");
    let b = gpu_exposition(b"G,0,1,2\nH,1,3,4\n");
    assert_eq!(a, b);
    assert!(a.is_ok());
    assert_eq!(gpu_exposition(b"G, 0\nx\n"), gpu_exposition(b"G,0\nx\n"));
}

#[test]
fn full_rows_newline_count() {
    let raw = "A,0,1,2,3,4,5,6,7,8,9,10,11\nB,1,1,2,3,4,5,6,7,8,9,10,11\nC,2,1,2,3,4,5,6,7,8,9,10,11\n";
    let text = gpu_exposition(raw.as_bytes()).unwrap();
    assert_eq!(text.matches('\n').count(), 3 * 11);
    assert!(text.ends_with('\n'));
}
