//! Properties of whole concatenation jobs and of the frame-boundary rule.
use vstd::prelude::*;
use crate::header::{round_up4, start_offset, xdr_int, XtcError, FRAME_PREFIX};
use crate::job::{contributions, expected_len, joined, run_failure, run_output, step};

verus! {

/// The first input of a job is copied whole, byte for byte.
pub proof fn lemma_first_input_copied_whole(data: Seq<u8>)
    ensures
        run_failure(seq![Some(data)]) is None,
        run_output(seq![Some(data)]) == data,
{
    let inputs = seq![Some(data)];
    assert(inputs.drop_last() =~= Seq::<Option<Seq<u8>>>::empty());
    assert(run_failure(inputs.drop_last()) is None);
    assert(run_output(inputs.drop_last()) == Seq::<u8>::empty());
    assert(inputs.last() == Some(data));
    assert(Seq::<u8>::empty() + data =~= data);
}

/// When an input has a valid header, its second frame starts at the size field
/// at byte 88 plus 92, rounded up to a multiple of four.
pub proof fn lemma_offset_from_size_field(data: Seq<u8>)
    requires
        start_offset(data) is Ok,
    ensures
        data.len() >= FRAME_PREFIX,
        start_offset(data)->Ok_0 == round_up4(xdr_int(data, 88) + 92),
{
}

/// A resolved start offset is a multiple of four, and lies within the input
/// after the first frame's prefix.
pub proof fn lemma_offset_aligned(data: Seq<u8>)
    requires
        start_offset(data) is Ok,
    ensures
        start_offset(data)->Ok_0 % 4 == 0,
        FRAME_PREFIX <= start_offset(data)->Ok_0 <= data.len(),
{
}

/// Resolving the start offset depends only on the input's length and on its
/// first 92 bytes; resolving the same input twice gives the same value.
pub proof fn lemma_offset_repeatable(a: Seq<u8>, b: Seq<u8>)
    requires
        a.len() == b.len(),
        a.len() >= FRAME_PREFIX ==> a.take(92) == b.take(92),
    ensures
        start_offset(a) == start_offset(b),
{
    if a.len() >= FRAME_PREFIX {
        assert(a[88] == a.take(92)[88]);
        assert(a[89] == a.take(92)[89]);
        assert(a[90] == a.take(92)[90]);
        assert(a[91] == a.take(92)[91]);
    }
}

/// A job that does not fail writes the first input whole and each later input
/// from its second frame on, in the order given, and nothing else.
pub proof fn lemma_output_is_ordered_concatenation(inputs: Seq<Option<Seq<u8>>>)
    requires
        run_failure(inputs) is None,
    ensures
        run_output(inputs) == joined(contributions(inputs)),
        forall|i: int|
            0 <= i < inputs.len() ==> step(inputs[i], i > 0) == Ok::<Seq<u8>, XtcError>(
                #[trigger] contributions(inputs)[i],
            ),
    decreases inputs.len(),
{
    if inputs.len() > 0 {
        let prior = inputs.drop_last();
        lemma_output_is_ordered_concatenation(prior);
        assert(contributions(inputs).drop_last() =~= contributions(prior));
        assert forall|i: int| 0 <= i < inputs.len() implies step(inputs[i], i > 0)
            == Ok::<Seq<u8>, XtcError>(#[trigger] contributions(inputs)[i]) by {
            if i < prior.len() {
                assert(inputs[i] == prior[i]);
                assert(step(prior[i], i > 0) == Ok::<Seq<u8>, XtcError>(contributions(prior)[i]));
            } else {
                assert(inputs[i] == inputs.last());
            }
        }
    }
}

/// A job that does not fail writes as many bytes as the first input holds plus,
/// for each later input, its length less the start of its second frame.
pub proof fn lemma_output_length(inputs: Seq<Option<Seq<u8>>>)
    requires
        run_failure(inputs) is None,
    ensures
        run_output(inputs).len() == expected_len(inputs),
    decreases inputs.len(),
{
    if inputs.len() > 0 {
        let prior = inputs.drop_last();
        lemma_output_length(prior);
        if inputs.len() == 1 {
            assert(prior.len() == 0);
            assert(inputs.last() == inputs[0]);
        } else {
            let d = inputs.last()->Some_0;
            assert(step(inputs.last(), true) is Ok);
            assert(start_offset(d) is Ok);
        }
    }
}

/// When input `k` cannot be read or processed and every input before it could,
/// the job fails at `k` with the output of inputs `0..k` alone: nothing of `k`
/// or of any input after it is written.
pub proof fn lemma_failure_short_circuits(inputs: Seq<Option<Seq<u8>>>, k: int)
    requires
        0 <= k < inputs.len(),
        run_failure(inputs.take(k)) is None,
        step(inputs[k], k > 0) is Err,
    ensures
        run_failure(inputs) == Some((k, step(inputs[k], k > 0)->Err_0)),
        run_output(inputs) == run_output(inputs.take(k)),
    decreases inputs.len(),
{
    let prior = inputs.drop_last();
    if inputs.len() == k + 1 {
        assert(prior =~= inputs.take(k));
    } else {
        assert(prior.take(k) =~= inputs.take(k));
        assert(prior[k] == inputs[k]);
        lemma_failure_short_circuits(prior, k);
    }
}

} // verus!
