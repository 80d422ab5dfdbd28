//! The Prometheus exposition served at `/metrics`.

use vstd::prelude::*;

use crate::text::{decimal, push_decimal, string_of};

verus! {

/// Decimal notation of a signed integer.
pub open spec fn signed_decimal(i: int) -> Seq<char> {
    if i < 0 {
        seq!['-'] + decimal((-i) as nat)
    } else {
        decimal(i as nat)
    }
}

pub fn append_signed(out: &mut String, i: i64)
    ensures
        final(out)@ == old(out)@ + signed_decimal(i as int),
{
    let mut v: Vec<char> = Vec::new();
    let magnitude: u64 = if i < 0 {
        ((-(i + 1)) as u64) + 1
    } else {
        i as u64
    };
    if i < 0 {
        v.push('-');
    }
    push_decimal(&mut v, magnitude);
    proof {
        if i < 0 {
            assert(v@ =~= seq!['-'] + decimal((-i) as nat));
        } else {
            assert(v@ =~= decimal(i as nat));
        }
    }
    let s = string_of(&v);
    out.append(s.as_str());
}

pub open spec fn count_lines(counts: Seq<(String, i64)>) -> Seq<char>
    decreases counts.len(),
{
    if counts.len() == 0 {
        Seq::empty()
    } else {
        count_lines(counts.drop_last()) + "pqcas_tests_total{status=\""@ + counts.last().0@
            + "\"} "@ + signed_decimal(counts.last().1 as int) + "\n"@
    }
}

/// Tests by status and the queue depth, in the Prometheus text format.
pub open spec fn metrics_spec(counts: Seq<(String, i64)>, queued: i64) -> Seq<char> {
    "# HELP pqcas_tests_total Tests by status\n# TYPE pqcas_tests_total gauge\n"@ + count_lines(
        counts,
    ) + "# HELP pqcas_subtasks_queued Subtasks waiting for a worker\n# TYPE pqcas_subtasks_queued gauge\n"@
        + "pqcas_subtasks_queued "@ + signed_decimal(queued as int) + "\n"@
}

pub fn metrics_body(counts: &[(String, i64)], queued: i64) -> (res: String)
    ensures
        res@ == metrics_spec(counts@, queued),
{
    let mut body = String::new();
    body.append("# HELP pqcas_tests_total Tests by status\n# TYPE pqcas_tests_total gauge\n");
    let ghost head = body@;
    let mut k: usize = 0;
    while k < counts.len()
        invariant
            0 <= k <= counts@.len(),
            head == "# HELP pqcas_tests_total Tests by status\n# TYPE pqcas_tests_total gauge\n"@,
            body@ == head + count_lines(counts@.take(k as int)),
        decreases counts@.len() - k,
    {
        assert(counts@.take(k + 1).drop_last() =~= counts@.take(k as int));
        assert(counts@.take(k + 1).last() == counts@[k as int]);
        body.append("pqcas_tests_total{status=\"");
        body.append(counts[k].0.as_str());
        body.append("\"} ");
        append_signed(&mut body, counts[k].1);
        body.append("\n");
        k += 1;
    }
    assert(counts@.take(counts@.len() as int) =~= counts@);
    body.append(
        "# HELP pqcas_subtasks_queued Subtasks waiting for a worker\n# TYPE pqcas_subtasks_queued gauge\n",
    );
    body.append("pqcas_subtasks_queued ");
    append_signed(&mut body, queued);
    body.append("\n");
    body
}

} // verus!
