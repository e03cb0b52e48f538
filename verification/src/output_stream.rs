//! The output sequencer and formatter.
//!
//! The sequencer consumes job results strictly in dispatch order and turns
//! each into one output record: on success the captured output, normalized
//! by [`format_record`]; on a suppressed failure an empty record, so that
//! output line `i` still corresponds to input line `i`; on an unsuppressed
//! failure a fatal abort carrying the job's diagnostic. [`process_result`]
//! decides the action for one job, [`drain_all`] is the whole drain with its
//! writes returned instead of performed, and the lemmas at the end state the
//! ordering and failure-policy laws of the drain.

use crate::splitter::LINE_BREAK;
use crate::sub_process::{error_msg_spec, SubProcessResult, SubProcessResultView};
use vstd::prelude::*;

verus! {

/// Options of the output stream.
pub struct OutputStreamOption {
    /// The bytes that join the lines of one job's captured output into a
    /// single output record.
    pub output_delimiter: Vec<u8>,
    /// Keep going past failed jobs instead of aborting the run.
    pub suppress_fail: bool,
}

/// `s` with exactly one trailing line break removed, if it ends in one.
pub open spec fn chomp(s: Seq<u8>) -> Seq<u8> {
    if s.len() > 0 && s.last() == LINE_BREAK {
        s.drop_last()
    } else {
        s
    }
}

/// `s` with every line break replaced by the delimiter `d`.
pub open spec fn joined_lines(s: Seq<u8>, d: Seq<u8>) -> Seq<u8>
    decreases s.len(),
{
    if s.len() == 0 {
        Seq::empty()
    } else if s.first() == LINE_BREAK {
        d + joined_lines(s.drop_first(), d)
    } else {
        seq![s.first()] + joined_lines(s.drop_first(), d)
    }
}

/// The output record one job result contributes: its normalized output on
/// success, nothing on a (suppressed) failure.
pub open spec fn record_spec(r: SubProcessResultView, d: Seq<u8>) -> Seq<u8> {
    if r.success {
        joined_lines(chomp(r.output), d)
    } else {
        Seq::empty()
    }
}

/// Normalizes one job's captured output into one output record: exactly one
/// trailing line break is removed, and every remaining line break becomes
/// the output delimiter. The record's own terminator is written separately.
pub fn format_record(output: &Vec<u8>, delim: &Vec<u8>) -> (record: Vec<u8>)
    ensures
        record@ == joined_lines(chomp(output@), delim@),
{
    let mut end = output.len();
    if end > 0 && output[end - 1] == LINE_BREAK {
        end = end - 1;
    }
    let ghost chomped = chomp(output@);
    proof {
        assert(chomped =~= output@.take(end as int));
    }
    let mut record: Vec<u8> = Vec::new();
    proof {
        assert(chomped.skip(0) =~= chomped);
        assert(Seq::<u8>::empty() + joined_lines(chomped, delim@) =~= joined_lines(
            chomped,
            delim@,
        ));
    }
    let mut i: usize = 0;
    while i < end
        invariant
            0 <= i <= end <= output@.len(),
            chomped == output@.take(end as int),
            joined_lines(chomped, delim@) == record@ + joined_lines(
                chomped.skip(i as int),
                delim@,
            ),
        decreases end - i,
    {
        proof {
            assert(chomped.skip(i as int).first() == output@[i as int]);
            assert(chomped.skip(i as int).drop_first() =~= chomped.skip(i as int + 1));
        }
        if output[i] == LINE_BREAK {
            let mut j: usize = 0;
            let ghost record_before = record@;
            while j < delim.len()
                invariant
                    0 <= j <= delim@.len(),
                    record@ == record_before + delim@.take(j as int),
                decreases delim@.len() - j,
            {
                record.push(delim[j]);
                proof {
                    assert(record_before + delim@.take(j as int + 1) =~= record_before
                        + delim@.take(j as int) + seq![delim@[j as int]]);
                }
                j = j + 1;
            }
            proof {
                assert(record@ =~= record_before + delim@);
            }
        } else {
            record.push(output[i]);
        }
        i = i + 1;
    }
    proof {
        assert(chomped.skip(end as int).len() == 0);
        assert(record@ + Seq::<u8>::empty() =~= record@);
    }
    record
}

/// The action the output sequencer takes for one job result.
pub enum OutputAction {
    /// Write these bytes to the output stream, then one line terminator.
    Emit(Vec<u8>),
    /// Abort the whole run fatally with this diagnostic.
    Abort(String),
}

/// Decides the sequencer's action for one job result: emit the formatted
/// record on success, emit an empty record on a suppressed failure — one
/// output line per input line either way — and abort with the job's
/// diagnostic on an unsuppressed failure.
pub fn process_result(result: SubProcessResult, option: &OutputStreamOption) -> (action:
    OutputAction)
    ensures
        result@.success || option.suppress_fail ==> (action matches OutputAction::Emit(rec)
            && rec@ == record_spec(result@, option.output_delimiter@)),
        !result@.success && !option.suppress_fail ==> (action matches OutputAction::Abort(msg)
            && msg@ == error_msg_spec(result@)),
{
    if result.success {
        let record = format_record(&result.output, &option.output_delimiter);
        OutputAction::Emit(record)
    } else if option.suppress_fail {
        OutputAction::Emit(Vec::new())
    } else {
        OutputAction::Abort(result.error_msg())
    }
}

/// What draining the queue yields, job result by job result in dispatch
/// order: the output records of the whole run, or the diagnostic of the
/// first failed job when failures are not suppressed — later jobs are then
/// never consumed.
pub open spec fn drain_spec(
    results: Seq<SubProcessResultView>,
    suppress_fail: bool,
    d: Seq<u8>,
) -> Result<Seq<Seq<u8>>, Seq<char>>
    decreases results.len(),
{
    if results.len() == 0 {
        Ok(Seq::empty())
    } else if !results.first().success && !suppress_fail {
        Err(error_msg_spec(results.first()))
    } else {
        match drain_spec(results.drop_first(), suppress_fail, d) {
            Ok(records) => Ok(seq![record_spec(results.first(), d)] + records),
            Err(e) => Err(e),
        }
    }
}

/// An executable drain result seen as its mathematical shape.
pub open spec fn drain_view(r: Result<Vec<Vec<u8>>, String>) -> Result<Seq<Seq<u8>>, Seq<char>> {
    match r {
        Ok(records) => Ok(records.deep_view()),
        Err(msg) => Err(msg@),
    }
}

/// The output sequencer with its writes returned instead of performed:
/// consumes the job results strictly in dispatch order and returns the
/// output records of the run, or the diagnostic of the first failed job
/// when failures are not suppressed.
pub fn drain_all(results: Vec<SubProcessResult>, option: &OutputStreamOption) -> (r: Result<
    Vec<Vec<u8>>,
    String,
>)
    ensures
        drain_view(r) == drain_spec(
            results.deep_view(),
            option.suppress_fail,
            option.output_delimiter@,
        ),
{
    let ghost all = results.deep_view();
    let ghost d = option.output_delimiter@;
    let mut remaining = results;
    let mut records: Vec<Vec<u8>> = Vec::new();
    proof {
        assert(records.deep_view() =~= Seq::<Seq<u8>>::empty());
        let dr = drain_spec(all, option.suppress_fail, d);
        if dr is Ok {
            assert(records.deep_view() + dr->Ok_0 =~= dr->Ok_0);
        }
    }
    while remaining.len() > 0
        invariant
            drain_spec(all, option.suppress_fail, d) == (match drain_spec(
                remaining.deep_view(),
                option.suppress_fail,
                d,
            ) {
                Ok(rest) => Ok::<Seq<Seq<u8>>, Seq<char>>(records.deep_view() + rest),
                Err(e) => Err::<Seq<Seq<u8>>, Seq<char>>(e),
            }),
            d == option.output_delimiter@,
            all == results.deep_view(),
        decreases remaining@.len(),
    {
        let ghost before = remaining.deep_view();
        let ghost records_before = records.deep_view();
        let result = remaining.remove(0);
        proof {
            assert(result@ == before.first());
            assert(remaining.deep_view() =~= before.drop_first());
        }
        match process_result(result, option) {
            OutputAction::Emit(record) => {
                records.push(record);
                proof {
                    assert(record.deep_view() =~= record@);
                    assert(records.deep_view() =~= records_before + seq![record@]);
                    let dr = drain_spec(remaining.deep_view(), option.suppress_fail, d);
                    if dr is Ok {
                        let rest = dr->Ok_0;
                        assert(records_before + (seq![record_spec(before.first(), d)] + rest)
                            =~= (records_before + seq![record@]) + rest);
                    }
                }
            },
            OutputAction::Abort(msg) => {
                return Err(msg);
            },
        }
    }
    proof {
        assert(remaining.deep_view().len() == 0);
        assert(records.deep_view() + Seq::<Seq<u8>>::empty() =~= records.deep_view());
    }
    Ok(records)
}

/// Ordering: whenever the drain completes — every job succeeded, or
/// failures are suppressed — it emits exactly one output record per job,
/// and record `i` is the record of job `i`. Records leave in the order the
/// jobs were dispatched, whatever order the subprocesses finished in.
pub proof fn lemma_output_ordering(
    results: Seq<SubProcessResultView>,
    suppress_fail: bool,
    d: Seq<u8>,
)
    requires
        suppress_fail || forall|i: int| 0 <= i < results.len() ==> results[i].success,
    ensures
        drain_spec(results, suppress_fail, d) == Ok::<Seq<Seq<u8>>, Seq<char>>(
            Seq::new(results.len(), |i: int| record_spec(results[i], d)),
        ),
    decreases results.len(),
{
    let records = Seq::new(results.len(), |i: int| record_spec(results[i], d));
    if results.len() == 0 {
        assert(records =~= Seq::<Seq<u8>>::empty());
    } else {
        let tail = results.drop_first();
        assert(forall|i: int| 0 <= i < tail.len() ==> tail[i] == results[i + 1]);
        lemma_output_ordering(tail, suppress_fail, d);
        let tail_records = Seq::new(tail.len(), |i: int| record_spec(tail[i], d));
        assert(records =~= seq![record_spec(results.first(), d)] + tail_records);
    }
}

/// The position of the first failed job.
pub open spec fn first_failure(results: Seq<SubProcessResultView>) -> int
    decreases results.len(),
{
    if results.len() == 0 {
        0
    } else if !results.first().success {
        0
    } else {
        1 + first_failure(results.drop_first())
    }
}

/// Failure abort: when failures are not suppressed and some job failed, the
/// drain stops at the first failed job — every job before it succeeded —
/// and yields that job's diagnostic; no record of any later job is emitted.
pub proof fn lemma_failure_abort(results: Seq<SubProcessResultView>, d: Seq<u8>)
    requires
        exists|i: int| 0 <= i < results.len() && !results[i].success,
    ensures
        0 <= first_failure(results) < results.len(),
        !results[first_failure(results)].success,
        forall|j: int| 0 <= j < first_failure(results) ==> results[j].success,
        drain_spec(results, false, d) == Err::<Seq<Seq<u8>>, Seq<char>>(
            error_msg_spec(results[first_failure(results)]),
        ),
    decreases results.len(),
{
    if !results.first().success {
    } else {
        let tail = results.drop_first();
        let i = choose|i: int| 0 <= i < results.len() && !results[i].success;
        assert(0 <= i - 1 < tail.len() && !tail[i - 1].success);
        lemma_failure_abort(tail, d);
        assert(results[first_failure(results)] == tail[first_failure(tail)]);
        assert(forall|j: int| 1 <= j < first_failure(results) ==> results[j] == tail[j - 1]);
    }
}

/// Failure suppression: with failures suppressed the drain always
/// completes, with exactly one record per job, and each failed job's record
/// is empty — its output line is blank, but input line `i` still has output
/// line `i`.
pub proof fn lemma_failure_suppression(results: Seq<SubProcessResultView>, d: Seq<u8>)
    ensures
        drain_spec(results, true, d) matches Ok(records) && records.len() == results.len()
            && (forall|i: int|
            0 <= i < results.len() ==> records[i] == record_spec(results[i], d)) && (forall|i: int|
            0 <= i < results.len() && !results[i].success ==> records[i] == Seq::<u8>::empty()),
{
    lemma_output_ordering(results, true, d);
}

/// Empty input: with no jobs at all the drain completes with no records.
pub proof fn lemma_empty_input(suppress_fail: bool, d: Seq<u8>)
    ensures
        drain_spec(Seq::empty(), suppress_fail, d) == Ok::<Seq<Seq<u8>>, Seq<char>>(Seq::empty()),
{
}

} // verus!
