use line_fanout::output_stream::{
    drain_all, format_record, process_result, OutputAction, OutputStreamOption,
};
use line_fanout::splitter::split_line;
use line_fanout::sub_process::SubProcessResult;

fn success(output: &[u8]) -> SubProcessResult {
    SubProcessResult {
        success: true,
        input: b"in\n".to_vec(),
        output: output.to_vec(),
        cmd: vec!["cat".to_string()],
    }
}

fn failure(output: &[u8]) -> SubProcessResult {
    SubProcessResult {
        success: false,
        input: b"in\n".to_vec(),
        output: output.to_vec(),
        cmd: vec!["cat".to_string()],
    }
}

fn options(delim: &str, suppress_fail: bool) -> OutputStreamOption {
    OutputStreamOption { output_delimiter: delim.as_bytes().to_vec(), suppress_fail }
}

#[test]
fn format_record_joins_lines_with_delimiter() {
    let record = format_record(&b"a\nb\nc\n".to_vec(), &b" ".to_vec());
    assert_eq!(record, b"a b c".to_vec());
}

#[test]
fn format_record_strips_exactly_one_trailing_line_break() {
    let record = format_record(&b"a\n\n".to_vec(), &b" ".to_vec());
    assert_eq!(record, b"a ".to_vec());
}

#[test]
fn format_record_empty_output() {
    let record = format_record(&Vec::new(), &b" ".to_vec());
    assert_eq!(record, Vec::<u8>::new());
}

#[test]
fn format_record_single_line_break() {
    let record = format_record(&b"\n".to_vec(), &b" ".to_vec());
    assert_eq!(record, Vec::<u8>::new());
}

#[test]
fn format_record_without_trailing_line_break() {
    let record = format_record(&b"a\nb".to_vec(), &b", ".to_vec());
    assert_eq!(record, b"a, b".to_vec());
}

#[test]
fn round_trip_of_an_echoing_subprocess() {
    // An input line "a,b,c" with delimiter "," becomes the subprocess input
    // "a\nb\nc\n"; a subprocess that echoes it verbatim yields, with output
    // delimiter " ", the output record "a b c".
    let line = b"a,b,c\n".to_vec();
    let payload = split_line(&line, &b",".to_vec());
    assert_eq!(payload, b"a\nb\nc\n".to_vec());
    let echoed = payload.clone();
    let record = format_record(&echoed, &b" ".to_vec());
    assert_eq!(record, b"a b c".to_vec());
}

#[test]
fn process_result_emits_formatted_record_on_success() {
    match process_result(success(b"x\ny\n"), &options(" ", false)) {
        OutputAction::Emit(record) => assert_eq!(record, b"x y".to_vec()),
        OutputAction::Abort(_) => panic!("success must not abort"),
    }
}

#[test]
fn process_result_emits_empty_record_on_suppressed_failure() {
    match process_result(failure(b"boom\n"), &options(" ", true)) {
        OutputAction::Emit(record) => assert_eq!(record, Vec::<u8>::new()),
        OutputAction::Abort(_) => panic!("suppressed failure must not abort"),
    }
}

#[test]
fn process_result_aborts_with_diagnostic_on_failure() {
    let expected = failure(b"boom").error_msg();
    match process_result(failure(b"boom"), &options(" ", false)) {
        OutputAction::Emit(_) => panic!("failure must abort"),
        OutputAction::Abort(msg) => assert_eq!(msg, expected),
    }
}

#[test]
fn drain_keeps_records_in_dispatch_order() {
    let results = vec![success(b"first\n"), success(b"second\n"), success(b"third\n")];
    let records = drain_all(results, &options(" ", false)).expect("all jobs succeeded");
    assert_eq!(
        records,
        vec![b"first".to_vec(), b"second".to_vec(), b"third".to_vec()]
    );
}

#[test]
fn drain_of_empty_input_yields_no_records() {
    let records = drain_all(Vec::new(), &options(" ", false)).expect("nothing to fail");
    assert_eq!(records, Vec::<Vec<u8>>::new());
}

#[test]
fn drain_aborts_at_first_failure() {
    let expected = failure(b"boom\n").error_msg();
    let results = vec![success(b"ok\n"), failure(b"boom\n"), success(b"later\n")];
    let err = drain_all(results, &options(" ", false)).expect_err("one job failed");
    assert_eq!(err, expected);
}

#[test]
fn drain_suppresses_failures_with_one_record_per_job() {
    let results = vec![success(b"ok\n"), failure(b"boom\n"), success(b"later\n")];
    let records = drain_all(results, &options(" ", true)).expect("failures suppressed");
    assert_eq!(
        records,
        vec![b"ok".to_vec(), Vec::new(), b"later".to_vec()]
    );
}
