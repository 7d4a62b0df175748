use vstd::prelude::*;
use vstd::utf8::encode_utf8;
use crate::error::ExporterError;
use crate::exposition::{exposition_text, gpu_exposition, samples_of};
use crate::tabular::csv_rows;

verus! {

/// The outcome of running the query tool, once it has been started: its
/// standard output when it exited successfully, else
/// `ExporterError::Invocation`. Empty output is no error.
pub fn tool_result(exit_success: bool, stdout: Vec<u8>) -> (r: Result<Vec<u8>, ExporterError>)
    ensures
        exit_success ==> r == Ok::<Vec<u8>, ExporterError>(stdout),
        !exit_success ==> r == Err::<Vec<u8>, ExporterError>(ExporterError::Invocation),
{
    if exit_success {
        Ok(stdout)
    } else {
        Err(ExporterError::Invocation)
    }
}

/// The bytes that the GPU pipeline adds to a scrape: the rendered text of the
/// tool's output, or nothing when any stage failed.
pub open spec fn gpu_section(tool: Result<Vec<u8>, ExporterError>) -> Seq<u8> {
    match tool {
        Ok(raw) => match samples_of(csv_rows(raw@)) {
            Ok(ss) => encode_utf8(exposition_text(ss)),
            Err(_) => Seq::empty(),
        },
        Err(_) => Seq::empty(),
    }
}

/// The body of a scrape: the registry's text, followed by the GPU text when
/// the GPU pipeline succeeded. On failure the body is the registry's text
/// alone.
pub fn compose_body(registry: Vec<u8>, gpu: Result<String, ExporterError>) -> (r: Vec<u8>)
    ensures
        r@ == registry@ + match gpu {
            Ok(t) => encode_utf8(t@),
            Err(_) => Seq::empty(),
        },
{
    let mut out = registry;
    match gpu {
        Ok(t) => {
            let bytes = t.as_str().as_bytes();
            let ghost start = out@;
            let mut k: usize = 0;
            while k < bytes.len()
                invariant
                    k <= bytes@.len(),
                    bytes@ == encode_utf8(t@),
                    out@ == start + bytes@.take(k as int),
                decreases bytes@.len() - k,
            {
                out.push(bytes[k]);
                assert(bytes@.take(k as int + 1) =~= bytes@.take(k as int).push(bytes@[k as int]));
                k = k + 1;
            }
            assert(bytes@.take(k as int) =~= bytes@);
            out
        },
        Err(_) => {
            assert(out@ =~= out@ + Seq::<u8>::empty());
            out
        },
    }
}

/// Handles one scrape: given the registry's text and the outcome of running
/// the query tool, returns the body to serve. Any failure of the GPU pipeline
/// leaves the registry's text alone in the body.
pub fn scrape_body(registry: Vec<u8>, tool: Result<Vec<u8>, ExporterError>) -> (r: Vec<u8>)
    ensures
        r@ == registry@ + gpu_section(tool),
{
    let gpu = match &tool {
        Ok(raw) => gpu_exposition(raw.as_slice()),
        Err(e) => Err(*e),
    };
    compose_body(registry, gpu)
}

/// The informational page served at the root path, with a link to the
/// metrics endpoint.
pub fn home_page() -> (r: String)
    ensures
        r@ == "<html>
        <head><title>Nvidia SMI exporter</title></head>
        <body>
        <h1>Nvidia SMI exporter</h1>
        <p><a href='/metrics'>Metrics</a></p>
        </body>
        </html>"@,
{
    String::from_str(
        "<html>
        <head><title>Nvidia SMI exporter</title></head>
        <body>
        <h1>Nvidia SMI exporter</h1>
        <p><a href='/metrics'>Metrics</a></p>
        </body>
        </html>",
    )
}

} // verus!
