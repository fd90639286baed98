use cyclebench::args::parse_iterations;
use cyclebench::counters::{counter_specs, BenchError, CounterGroup};
use cyclebench::decimal::push_dec;
use cyclebench::output::CsvSink;
use cyclebench::procstat::cpu_user_value;
use cyclebench::row::{format_row, header_row, TrialResult};
use cyclebench::runner::run;

const HEADER: &str = "result,time_elapsed_ms,rdtscp,cpu_cycles,instructions,cache_references,\
                      cache_missed,branch_instructions,branch_misses,ref_cpu_cycles,cpu_clock,\
                      task_clock,page_faults,context_switches,cpu_migrations,page_faults_min,\
                      page_faults_maj";

fn memory_lines(sink: CsvSink) -> Vec<String> {
    match sink {
        CsvSink::Memory(lines) => lines,
        CsvSink::Console(_) => panic!("expected a memory sink"),
    }
}

#[test]
fn decimal_rendering() {
    let mut s = String::new();
    push_dec(&mut s, 0);
    assert_eq!(s, "0");
    let mut s = String::new();
    push_dec(&mut s, 12345);
    assert_eq!(s, "12345");
    let mut s = String::new();
    push_dec(&mut s, u64::MAX as u128);
    assert_eq!(s, "18446744073709551615");
}

#[test]
fn iteration_argument_accepts_numbers() {
    assert_eq!(parse_iterations("0"), Ok(0));
    assert_eq!(parse_iterations("1000"), Ok(1000));
    assert_eq!(parse_iterations("+42"), Ok(42));
    assert_eq!(parse_iterations("18446744073709551615"), Ok(u64::MAX));
}

#[test]
fn iteration_argument_rejects_malformed_text() {
    assert_eq!(parse_iterations("abc"), Err(BenchError::MalformedArgument));
    assert_eq!(parse_iterations(""), Err(BenchError::MalformedArgument));
    assert_eq!(parse_iterations("+"), Err(BenchError::MalformedArgument));
    assert_eq!(parse_iterations("12x"), Err(BenchError::MalformedArgument));
    assert_eq!(parse_iterations("-1"), Err(BenchError::MalformedArgument));
    assert_eq!(
        parse_iterations("99999999999999999999"),
        Err(BenchError::MalformedArgument)
    );
}

#[test]
fn header_matches_column_list() {
    assert_eq!(header_row(), HEADER);
    assert_eq!(counter_specs().len(), 14);
    assert_eq!(counter_specs()[3].name(), "cache_missed");
}

#[test]
fn row_text_is_exact() {
    let tr = TrialResult {
        result: 42,
        elapsed_ms: 7,
        cycles: 1234,
        counts: (0..14u64).collect(),
    };
    let row = format_row(&tr);
    assert_eq!(row, "42,7,1234,0,1,2,3,4,5,6,7,8,9,10,11,12,13");
    assert_eq!(
        row.split(',').count(),
        header_row().split(',').count()
    );
    assert!(row.starts_with("42,"));
}

#[test]
fn zero_iterations_emit_exactly_the_header() {
    let mut sink = CsvSink::memory();
    let r = run(0, None, || 42u64, || 0u64, &mut sink);
    assert!(r.is_ok());
    let lines = memory_lines(sink);
    assert_eq!(lines.len(), 1);
    assert_eq!(lines[0], HEADER);
}

#[test]
fn one_iteration_emits_one_row_or_fails_after_the_header() {
    // Opening hardware counters needs OS permission; either way the header
    // is already out and every emitted row is well-formed.
    let mut sink = CsvSink::memory();
    let r = run(1, None, || 42u64, || 0u64, &mut sink);
    let lines = memory_lines(sink);
    assert_eq!(lines[0], HEADER);
    match r {
        Ok(_) => {
            assert_eq!(lines.len(), 2);
            assert!(lines[1].starts_with("42,"));
            assert_eq!(lines[1].split(',').count(), HEADER.split(',').count());
        }
        Err(e) => {
            assert_ne!(e, BenchError::MalformedArgument);
            assert_eq!(lines.len(), 1);
        }
    }
}

#[test]
fn invalid_pinning_core_is_not_fatal() {
    // with no trials at all, an unrepresentable core id still succeeds,
    // and the failure is surfaced in the returned flag
    let mut sink = CsvSink::memory();
    assert_eq!(run(0, Some(usize::MAX), || 7u64, || 0u64, &mut sink), Ok(false));
    assert_eq!(memory_lines(sink), vec![HEADER.to_string()]);
    let mut sink = CsvSink::memory();
    assert_eq!(run(0, None, || 7u64, || 0u64, &mut sink), Ok(true));
    let mut sink = CsvSink::memory();
    let r = run(2, Some(usize::MAX), || 7u64, || 0u64, &mut sink);
    if let Ok(flag) = r {
        assert!(!flag);
    }
    let lines = memory_lines(sink);
    assert_eq!(lines[0], HEADER);
    // a plausible-looking but absent core is also non-fatal
    let mut sink = CsvSink::memory();
    let r = run(2, Some(1023), || 7u64, || 0u64, &mut sink);
    let lines = memory_lines(sink);
    assert_eq!(lines[0], HEADER);
    match r {
        Ok(_) => {
            assert_eq!(lines.len(), 3);
            for line in &lines[1..] {
                assert!(line.starts_with("7,"));
                assert_eq!(line.split(',').count(), HEADER.split(',').count());
            }
        }
        Err(_) => assert_eq!(lines.len(), 1),
    }
}

#[test]
fn counter_group_lifecycle() {
    // Counters may be unavailable here (privilege, hardware); both outcomes
    // are covered by the group's contract.
    match CounterGroup::open(&counter_specs()) {
        Ok(mut group) => {
            assert!(group.enable().is_ok());
            // enabling twice is a state error
            assert_eq!(group.enable(), Err(BenchError::CounterStateError));
            // reading before a disable is a state error
            assert_eq!(group.read(), Err(BenchError::CounterStateError));
            assert!(group.disable().is_ok());
            // disabling twice is a state error
            assert_eq!(group.disable(), Err(BenchError::CounterStateError));
            let counts = group.read().expect("read after disable");
            assert_eq!(counts.len(), 14);
        }
        Err(e) => assert_eq!(e, BenchError::CounterUnavailable),
    }
}

#[test]
fn cpu_user_finds_the_core_line() {
    let lines: Vec<String> = vec![
        "cpu  100 2 3".to_string(),
        "cpu0 11 2 3".to_string(),
        "cpu3 42 9 1".to_string(),
    ];
    assert_eq!(cpu_user_value(&lines, 3), Some(42));
    assert_eq!(cpu_user_value(&lines, 0), Some(11));
    assert_eq!(cpu_user_value(&lines, 7), None);
}

#[test]
fn cpu_user_failures_are_explicit() {
    let bad: Vec<String> = vec!["cpu3 notanumber 1".to_string()];
    assert_eq!(cpu_user_value(&bad, 3), None);
    let bare: Vec<String> = vec!["cpu3".to_string(), "cpu3 5".to_string()];
    assert_eq!(cpu_user_value(&bare, 3), Some(5));
    let none: Vec<String> = Vec::new();
    assert_eq!(cpu_user_value(&none, 3), None);
}
