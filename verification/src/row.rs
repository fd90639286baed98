//! One measured trial and its CSV text. A row carries the workload result,
//! the elapsed wall-clock milliseconds, the cycle-timestamp delta, and one
//! value per configured counter, in the counter list's order; the header
//! names the same columns in the same order. The central facts proved here:
//! a row's text is pinned exactly, and header and rows always agree on the
//! number of comma-separated fields.

use crate::counters::CounterKind;
use crate::counters::spec_counter_list;
use crate::counters::counter_specs;
use crate::decimal::count_char;
use crate::decimal::dec_str;
use crate::decimal::field_count;
use crate::decimal::lemma_count_char_absent;
use crate::decimal::lemma_count_char_concat;
use crate::decimal::lemma_dec_str_digits;
use crate::decimal::lemma_digits_no_separator;
use crate::decimal::push_dec;
use vstd::prelude::*;

verus! {

/// One measured iteration. All fields are produced together by one trial.
pub struct TrialResult {
    /// What the workload returned.
    pub result: u64,
    /// Wall-clock time for the whole trial, in milliseconds.
    pub elapsed_ms: u128,
    /// Cycle-timestamp delta bracketing only the workload call.
    pub cycles: u64,
    /// One accumulated count per counter, in the counter list's order.
    pub counts: Vec<u64>,
}

/// The text of the counter cells: a leading comma before each value.
pub open spec fn counts_cells(counts: Seq<u64>) -> Seq<char>
    decreases counts.len(),
{
    if counts.len() == 0 {
        Seq::empty()
    } else {
        counts_cells(counts.drop_last()) + seq![','] + dec_str(counts.last() as int)
    }
}

/// The full text of one data row (no line terminator).
pub open spec fn row_chars(result: int, elapsed: int, cycles: int, counts: Seq<u64>) -> Seq<char> {
    dec_str(result) + seq![','] + dec_str(elapsed) + seq![','] + dec_str(cycles) + counts_cells(
        counts,
    )
}

impl TrialResult {
    /// The CSV text this trial serializes to.
    pub open spec fn row_view(&self) -> Seq<char> {
        row_chars(self.result as int, self.elapsed_ms as int, self.cycles as int, self.counts@)
    }
}

/// The text of the header's counter cells: a leading comma before each name.
pub open spec fn header_cells(kinds: Seq<CounterKind>) -> Seq<char>
    decreases kinds.len(),
{
    if kinds.len() == 0 {
        Seq::empty()
    } else {
        header_cells(kinds.drop_last()) + seq![','] + kinds.last().spec_name()
    }
}

/// The full text of the header row (no line terminator).
pub open spec fn header_chars() -> Seq<char> {
    "result"@ + seq![','] + "time_elapsed_ms"@ + seq![','] + "rdtscp"@ + header_cells(
        spec_counter_list(),
    )
}

/// A single comma counts once.
proof fn lemma_comma_cell()
    ensures
        count_char(seq![','], ',') == 1,
        count_char(seq![','], '\n') == 0,
{
    assert(seq![','].drop_last() =~= Seq::<char>::empty());
    assert(count_char(Seq::<char>::empty(), ',') == 0);
    assert(count_char(Seq::<char>::empty(), '\n') == 0);
}

/// The counter cells hold one comma per counter and no line break.
proof fn lemma_counts_cells_commas(counts: Seq<u64>)
    ensures
        count_char(counts_cells(counts), ',') == counts.len(),
        count_char(counts_cells(counts), '\n') == 0,
    decreases counts.len(),
{
    if counts.len() > 0 {
        let rest = counts.drop_last();
        lemma_counts_cells_commas(rest);
        lemma_comma_cell();
        lemma_dec_str_digits(counts.last() as int);
        lemma_digits_no_separator(dec_str(counts.last() as int));
        lemma_count_char_concat(counts_cells(rest), seq![','], ',');
        lemma_count_char_concat(
            counts_cells(rest) + seq![','],
            dec_str(counts.last() as int),
            ',',
        );
        lemma_count_char_concat(counts_cells(rest), seq![','], '\n');
        lemma_count_char_concat(
            counts_cells(rest) + seq![','],
            dec_str(counts.last() as int),
            '\n',
        );
    }
}

/// A data row has three fixed fields plus one per counter value, and no
/// line break.
pub proof fn lemma_row_fields(result: int, elapsed: int, cycles: int, counts: Seq<u64>)
    ensures
        field_count(row_chars(result, elapsed, cycles, counts)) == 3 + counts.len(),
        count_char(row_chars(result, elapsed, cycles, counts), '\n') == 0,
{
    let a = dec_str(result);
    let b = dec_str(elapsed);
    let c = dec_str(cycles);
    lemma_dec_str_digits(result);
    lemma_dec_str_digits(elapsed);
    lemma_dec_str_digits(cycles);
    lemma_digits_no_separator(a);
    lemma_digits_no_separator(b);
    lemma_digits_no_separator(c);
    lemma_comma_cell();
    lemma_counts_cells_commas(counts);
    lemma_count_char_concat(a, seq![','], ',');
    lemma_count_char_concat(a + seq![','], b, ',');
    lemma_count_char_concat(a + seq![','] + b, seq![','], ',');
    lemma_count_char_concat(a + seq![','] + b + seq![','], c, ',');
    lemma_count_char_concat(a + seq![','] + b + seq![','] + c, counts_cells(counts), ',');
    lemma_count_char_concat(a, seq![','], '\n');
    lemma_count_char_concat(a + seq![','], b, '\n');
    lemma_count_char_concat(a + seq![','] + b, seq![','], '\n');
    lemma_count_char_concat(a + seq![','] + b + seq![','], c, '\n');
    lemma_count_char_concat(a + seq![','] + b + seq![','] + c, counts_cells(counts), '\n');
}

/// No column name holds a comma or a line break.
proof fn lemma_name_no_separator(k: CounterKind)
    ensures
        count_char(k.spec_name(), ',') == 0,
        count_char(k.spec_name(), '\n') == 0,
{
    reveal_strlit("cpu_cycles");
    reveal_strlit("instructions");
    reveal_strlit("cache_references");
    reveal_strlit("cache_missed");
    reveal_strlit("branch_instructions");
    reveal_strlit("branch_misses");
    reveal_strlit("ref_cpu_cycles");
    reveal_strlit("cpu_clock");
    reveal_strlit("task_clock");
    reveal_strlit("page_faults");
    reveal_strlit("context_switches");
    reveal_strlit("cpu_migrations");
    reveal_strlit("page_faults_min");
    reveal_strlit("page_faults_maj");
    let s = k.spec_name();
    assert(forall|j: int| 0 <= j < s.len() ==> s[j] != ',' && s[j] != '\n');
    lemma_count_char_absent(s, ',');
    lemma_count_char_absent(s, '\n');
}

/// The header's counter cells hold one comma per counter and no line break.
proof fn lemma_header_cells_commas(kinds: Seq<CounterKind>)
    ensures
        count_char(header_cells(kinds), ',') == kinds.len(),
        count_char(header_cells(kinds), '\n') == 0,
    decreases kinds.len(),
{
    if kinds.len() > 0 {
        let rest = kinds.drop_last();
        lemma_header_cells_commas(rest);
        lemma_comma_cell();
        lemma_name_no_separator(kinds.last());
        lemma_count_char_concat(header_cells(rest), seq![','], ',');
        lemma_count_char_concat(header_cells(rest) + seq![','], kinds.last().spec_name(), ',');
        lemma_count_char_concat(header_cells(rest), seq![','], '\n');
        lemma_count_char_concat(header_cells(rest) + seq![','], kinds.last().spec_name(), '\n');
    }
}

/// The header has three fixed fields plus one per counter, and no line
/// break.
pub proof fn lemma_header_fields()
    ensures
        field_count(header_chars()) == 3 + spec_counter_list().len(),
        count_char(header_chars(), '\n') == 0,
{
    let a = "result"@;
    let b = "time_elapsed_ms"@;
    let c = "rdtscp"@;
    reveal_strlit("result");
    reveal_strlit("time_elapsed_ms");
    reveal_strlit("rdtscp");
    assert(forall|j: int| 0 <= j < a.len() ==> a[j] != ',' && a[j] != '\n');
    assert(forall|j: int| 0 <= j < b.len() ==> b[j] != ',' && b[j] != '\n');
    assert(forall|j: int| 0 <= j < c.len() ==> c[j] != ',' && c[j] != '\n');
    lemma_count_char_absent(a, ',');
    lemma_count_char_absent(b, ',');
    lemma_count_char_absent(c, ',');
    lemma_count_char_absent(a, '\n');
    lemma_count_char_absent(b, '\n');
    lemma_count_char_absent(c, '\n');
    lemma_comma_cell();
    lemma_header_cells_commas(spec_counter_list());
    lemma_count_char_concat(a, seq![','], ',');
    lemma_count_char_concat(a + seq![','], b, ',');
    lemma_count_char_concat(a + seq![','] + b, seq![','], ',');
    lemma_count_char_concat(a + seq![','] + b + seq![','], c, ',');
    lemma_count_char_concat(a + seq![','] + b + seq![','] + c, header_cells(spec_counter_list()), ',');
    lemma_count_char_concat(a, seq![','], '\n');
    lemma_count_char_concat(a + seq![','], b, '\n');
    lemma_count_char_concat(a + seq![','] + b, seq![','], '\n');
    lemma_count_char_concat(a + seq![','] + b + seq![','], c, '\n');
    lemma_count_char_concat(
        a + seq![','] + b + seq![','] + c,
        header_cells(spec_counter_list()),
        '\n',
    );
}

/// Header and data rows always agree on the number of fields, as long as
/// a row carries one value per configured counter.
pub proof fn lemma_rows_match_header(result: int, elapsed: int, cycles: int, counts: Seq<u64>)
    requires
        counts.len() == spec_counter_list().len(),
    ensures
        field_count(row_chars(result, elapsed, cycles, counts)) == field_count(header_chars()),
{
    lemma_row_fields(result, elapsed, cycles, counts);
    lemma_header_fields();
}

/// Append a comma to `s`.
fn push_comma(s: &mut String)
    ensures
        final(s)@ == old(s)@ + seq![','],
{
    proof {
        reveal_strlit(",");
        assert(","@ =~= seq![',']);
    }
    s.append(",");
}

/// Serialize one trial as one CSV data row (no line terminator).
pub fn format_row(tr: &TrialResult) -> (r: String)
    ensures
        r@ == tr.row_view(),
{
    let mut s = String::new();
    push_dec(&mut s, tr.result as u128);
    push_comma(&mut s);
    push_dec(&mut s, tr.elapsed_ms);
    push_comma(&mut s);
    push_dec(&mut s, tr.cycles as u128);
    let ghost prefix = s@;
    proof {
        assert(prefix + counts_cells(tr.counts@.take(0int)) =~= prefix);
    }
    let mut k: usize = 0;
    while k < tr.counts.len()
        invariant
            k <= tr.counts@.len(),
            s@ == prefix + counts_cells(tr.counts@.take(k as int)),
        decreases tr.counts@.len() - k,
    {
        push_comma(&mut s);
        push_dec(&mut s, tr.counts[k] as u128);
        proof {
            let taken = tr.counts@.take(k + 1int);
            assert(taken.drop_last() =~= tr.counts@.take(k as int));
            assert(taken.last() == tr.counts@[k as int]);
            assert(s@ =~= prefix + counts_cells(taken));
        }
        k = k + 1;
    }
    proof {
        assert(tr.counts@.take(tr.counts@.len() as int) =~= tr.counts@);
        assert(counts_cells(tr.counts@.take(0int)) =~= Seq::<char>::empty());
        assert(s@ =~= tr.row_view());
    }
    s
}

/// The header row (no line terminator): the three fixed columns, then one
/// column per counter, in the counter list's order.
pub fn header_row() -> (r: String)
    ensures
        r@ == header_chars(),
{
    let mut s = String::from_str("result");
    push_comma(&mut s);
    s.append("time_elapsed_ms");
    push_comma(&mut s);
    s.append("rdtscp");
    let kinds = counter_specs();
    let ghost prefix = s@;
    proof {
        assert(prefix + header_cells(kinds@.take(0int)) =~= prefix);
    }
    let mut k: usize = 0;
    while k < kinds.len()
        invariant
            k <= kinds@.len(),
            kinds@ == spec_counter_list(),
            s@ == prefix + header_cells(kinds@.take(k as int)),
        decreases kinds@.len() - k,
    {
        push_comma(&mut s);
        s.append(kinds[k].name());
        proof {
            let taken = kinds@.take(k + 1int);
            assert(taken.drop_last() =~= kinds@.take(k as int));
            assert(taken.last() == kinds@[k as int]);
            assert(s@ =~= prefix + header_cells(taken));
        }
        k = k + 1;
    }
    proof {
        assert(kinds@.take(kinds@.len() as int) =~= kinds@);
        assert(header_cells(kinds@.take(0int)) =~= Seq::<char>::empty());
        assert(s@ =~= header_chars());
    }
    s
}

} // verus!
