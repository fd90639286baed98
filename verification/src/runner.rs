//! The measurement itself: one trial runs the workload inside a strictly
//! ordered bracket (counters enabled, cycle timestamp, workload, cycle
//! timestamp, counters disabled, counters read), and the benchmark loop
//! streams one header row plus one data row per trial to a sink.

use crate::counters::BenchError;
use crate::counters::CounterGroup;
use crate::counters::counter_specs;
use crate::counters::spec_counter_list;
use crate::decimal::field_count;
use crate::output::CsvSink;
use crate::row::TrialResult;
use crate::row::format_row;
use crate::row::row_chars;
use crate::row::header_chars;
use crate::row::header_row;
use crate::row::lemma_rows_match_header;
use vstd::prelude::*;

verus! {

#[verifier::external_type_specification]
#[verifier::external_body]
pub struct ExInstant(std::time::Instant);

/// Relies on std::time::Instant::now: an opaque reading of a monotonic
/// wall clock.
#[verifier::external_body]
fn clock_start() -> (r: std::time::Instant) {
    std::time::Instant::now()
}

/// Relies on std::time::Instant::elapsed (and Duration::as_millis to make
/// the value plain): whole milliseconds since `start` was taken.
#[verifier::external_body]
fn clock_elapsed_ms(start: &std::time::Instant) -> (r: u128) {
    start.elapsed().as_millis()
}

/// Relies on core_affinity::set_for_current: best-effort pinning of the
/// current thread to the given logical CPU; reports whether it took hold.
/// The id must fit the OS cpu set (libc's CPU_SET indexes the set with it,
/// out of bounds for 1024 and up).
#[verifier::external_body]
fn set_affinity(core: usize) -> (ok: bool)
    requires
        core < 1024,
{
    core_affinity::set_for_current(core_affinity::CoreId { id: core })
}

/// Run exactly one measured trial: open the counter group, record the
/// wall-clock start, enable the counters, bracket the workload call with
/// the two cycle-timestamp reads, disable the counters, and read them.
/// The counter window strictly contains the timestamp bracket, and the
/// bracket covers only the workload call. Any counter failure aborts the
/// trial; the group's handles are released on every exit path.
///
/// The cycle delta is the difference of the two timestamp reads; the
/// counter never wraps within one trial, so a wrapped (descending) pair
/// is reported as zero rather than inventing a huge delta.
///
/// Each trial opens its own group: a read reports counts accumulated
/// since the group was opened, so a group shared across trials would make
/// later rows cumulative and the trials incomparable.
pub fn run_trial<W: Fn() -> u64, T: Fn() -> u64>(workload: &W, tsc: &T) -> (r: Result<
    TrialResult,
    BenchError,
>)
    requires
        call_requires(*workload, ()),
        call_requires(*tsc, ()),
    ensures
        r is Ok ==> r->Ok_0.counts@.len() == spec_counter_list().len(),
        r is Ok ==> call_ensures(*workload, (), r->Ok_0.result),
        r is Ok ==> exists|t0: u64, t1: u64|
            call_ensures(*tsc, (), t0) && call_ensures(*tsc, (), t1) && r->Ok_0.cycles as int == (
            if t1 >= t0 {
                t1 - t0
            } else {
                0
            }),
        r is Err ==> r->Err_0 != BenchError::MalformedArgument,
{
    let kinds = counter_specs();
    let mut group = match CounterGroup::open(&kinds) {
        Ok(g) => g,
        Err(e) => {
            return Err(e);
        },
    };
    let started = clock_start();
    if let Err(e) = group.enable() {
        return Err(e);
    }
    let t0 = (tsc)();
    let result = (workload)();
    let t1 = (tsc)();
    if let Err(e) = group.disable() {
        return Err(e);
    }
    let elapsed_ms = clock_elapsed_ms(&started);
    let counts = match group.read() {
        Ok(c) => c,
        Err(e) => {
            return Err(e);
        },
    };
    let cycles = if t1 >= t0 {
        t1 - t0
    } else {
        0
    };
    Ok(TrialResult { result, elapsed_ms, cycles, counts })
}

/// A line some trial of `workload` could have produced: the CSV rendering
/// of a result the workload can return, with one cell per configured
/// counter.
pub open spec fn is_trial_row<W: Fn() -> u64>(workload: W, line: Seq<char>) -> bool {
    exists|v: u64, e: u128, c: u64, counts: Seq<u64>|
        call_ensures(workload, (), v) && counts.len() == spec_counter_list().len() && line
            == row_chars(v as int, e as int, c as int, counts)
}

/// Drive `iterations` trials and stream the output: first the header row,
/// then, immediately after each trial, its data row — so on a mid-run
/// counter failure every completed trial's row has already been emitted.
///
/// The contract pins the output shape: exactly one header plus one row
/// per completed trial, every row with as many fields as the header, and
/// a full run emits exactly `iterations` data rows. A run of zero trials
/// touches no counter and always succeeds. Pinning is requested once,
/// before any trial; its outcome is surfaced in the returned flag (true
/// without a request, false for an id the OS cpu set cannot hold) and
/// never affects the rows.
pub fn run<W: Fn() -> u64, T: Fn() -> u64>(
    iterations: u64,
    pin_core: Option<usize>,
    workload: W,
    tsc: T,
    out: &mut CsvSink,
) -> (r: Result<bool, BenchError>)
    requires
        call_requires(workload, ()),
        call_requires(tsc, ()),
    ensures
        old(out)@.len() < final(out)@.len() <= old(out)@.len() + 1 + iterations,
        forall|i: int| 0 <= i < old(out)@.len() ==> final(out)@[i] == old(out)@[i],
        final(out)@[old(out)@.len() as int] == header_chars(),
        forall|i: int|
            old(out)@.len() < i < final(out)@.len() ==> field_count(#[trigger] final(out)@[i])
                == field_count(header_chars()),
        forall|i: int|
            old(out)@.len() < i < final(out)@.len() ==> is_trial_row(
                workload,
                #[trigger] final(out)@[i],
            ),
        r is Ok ==> final(out)@.len() == old(out)@.len() + 1 + iterations,
        iterations == 0 ==> r is Ok,
        pin_core is None ==> (r is Ok ==> r->Ok_0),
        pin_core is Some && pin_core->Some_0 >= 1024 ==> (r is Ok ==> !r->Ok_0),
        r is Err ==> r->Err_0 != BenchError::MalformedArgument,
{
    let pinned = match pin_core {
        Some(core) => if core < 1024 {
            set_affinity(core)
        } else {
            // an id the OS cpu set cannot even hold is a pinning failure,
            // reported like any other and never fatal
            false
        },
        None => true,
    };
    out.push_line(header_row());
    let mut done: u64 = 0;
    while done < iterations
        invariant
            done <= iterations,
            call_requires(workload, ()),
            call_requires(tsc, ()),
            pin_core is None ==> pinned,
            pin_core is Some && pin_core->Some_0 >= 1024 ==> !pinned,
            out@.len() == old(out)@.len() + 1 + done,
            forall|i: int| 0 <= i < old(out)@.len() ==> out@[i] == old(out)@[i],
            out@[old(out)@.len() as int] == header_chars(),
            forall|i: int|
                old(out)@.len() < i < out@.len() ==> field_count(#[trigger] out@[i])
                    == field_count(header_chars()),
            forall|i: int|
                old(out)@.len() < i < out@.len() ==> is_trial_row(workload, #[trigger] out@[i]),
        decreases iterations - done,
    {
        let tr = match run_trial(&workload, &tsc) {
            Ok(tr) => tr,
            Err(e) => {
                return Err(e);
            },
        };
        let line = format_row(&tr);
        proof {
            assert(call_ensures(workload, (), tr.result) && tr.counts@.len()
                == spec_counter_list().len() && line@ == row_chars(
                tr.result as int,
                tr.elapsed_ms as int,
                tr.cycles as int,
                tr.counts@,
            ));
            assert(is_trial_row(workload, line@));
            lemma_rows_match_header(
                tr.result as int,
                tr.elapsed_ms as int,
                tr.cycles as int,
                tr.counts@,
            );
        }
        out.push_line(line);
        done = done + 1;
    }
    Ok(pinned)
}

} // verus!
