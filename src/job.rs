//! A concatenation job: the inputs are handed over one at a time, in the
//! caller's order, and the job decides what each one adds to the output and
//! when the job has to stop.
use vstd::prelude::*;
use crate::header::{add_xtc, contribution, start_offset, XtcError};

verus! {

/// What one input adds at its place in the job. `None` stands for an input
/// that could not be read. Every input but the first loses its first frame.
pub open spec fn step(input: Option<Seq<u8>>, skip_first_frame: bool) -> Result<Seq<u8>, XtcError> {
    match input {
        Some(data) => contribution(data, skip_first_frame),
        None => Err(XtcError::InputOpen),
    }
}

/// The first input that made a job over `inputs` fail, with its index and error.
pub open spec fn run_failure(inputs: Seq<Option<Seq<u8>>>) -> Option<(int, XtcError)>
    decreases inputs.len(),
{
    if inputs.len() == 0 {
        None
    } else {
        let prior = inputs.drop_last();
        match run_failure(prior) {
            Some(f) => Some(f),
            None => match step(inputs.last(), prior.len() > 0) {
                Ok(_) => None,
                Err(e) => Some((prior.len() as int, e)),
            },
        }
    }
}

/// The bytes that a job over `inputs` writes, up to its first failure.
pub open spec fn run_output(inputs: Seq<Option<Seq<u8>>>) -> Seq<u8>
    decreases inputs.len(),
{
    if inputs.len() == 0 {
        Seq::empty()
    } else {
        let prior = inputs.drop_last();
        if run_failure(prior) is Some {
            run_output(prior)
        } else {
            match step(inputs.last(), prior.len() > 0) {
                Ok(c) => run_output(prior) + c,
                Err(_) => run_output(prior),
            }
        }
    }
}

/// The pieces of `parts` joined end to end, in order.
pub open spec fn joined(parts: Seq<Seq<u8>>) -> Seq<u8>
    decreases parts.len(),
{
    if parts.len() == 0 {
        Seq::empty()
    } else {
        joined(parts.drop_last()) + parts.last()
    }
}

/// The byte range that each input adds: all of the first input, and each later
/// one from its second frame on.
pub open spec fn contributions(inputs: Seq<Option<Seq<u8>>>) -> Seq<Seq<u8>> {
    Seq::new(
        inputs.len(),
        |i: int|
            if i == 0 {
                inputs[i]->Some_0
            } else {
                let d = inputs[i]->Some_0;
                d.subrange(start_offset(d)->Ok_0, d.len() as int)
            },
    )
}

/// The expected output length: the first input's length plus, for each later
/// input, its length less the start of its second frame.
pub open spec fn expected_len(inputs: Seq<Option<Seq<u8>>>) -> int
    decreases inputs.len(),
{
    if inputs.len() == 0 {
        0
    } else if inputs.len() == 1 {
        inputs[0]->Some_0.len() as int
    } else {
        let d = inputs.last()->Some_0;
        expected_len(inputs.drop_last()) + d.len() - start_offset(d)->Ok_0
    }
}

/// Progress of a concatenation over a fixed number of inputs.
pub struct Job {
    n_inputs: usize,
    next: usize,
    failed: bool,
    fed: Ghost<Seq<Option<Seq<u8>>>>,
}

impl Job {
    /// The inputs handed to the job so far, in order.
    pub closed spec fn inputs(self) -> Seq<Option<Seq<u8>>> {
        self.fed@
    }

    /// The number of inputs that the job was made for.
    pub closed spec fn n_inputs(self) -> nat {
        self.n_inputs as nat
    }

    /// The job's counters agree with the inputs handed over so far.
    pub closed spec fn wf(self) -> bool {
        &&& self.next == self.fed@.len()
        &&& self.next <= self.n_inputs
        &&& self.failed == run_failure(self.fed@) is Some
    }

    /// The bytes that the job has handed out for writing so far.
    pub open spec fn written(self) -> Seq<u8> {
        run_output(self.inputs())
    }

    /// A job over `n_inputs` inputs, none of them handed over yet.
    pub fn new(n_inputs: usize) -> (j: Job)
        ensures
            j.wf(),
            j.inputs() == Seq::<Option<Seq<u8>>>::empty(),
            j.n_inputs() == n_inputs,
    {
        Job { n_inputs, next: 0, failed: false, fed: Ghost(Seq::empty()) }
    }

    /// The index of the input that the job wants next; `None` once every input
    /// has been handed over or one has failed.
    pub fn next_input(&self) -> (r: Option<usize>)
        requires
            self.wf(),
        ensures
            r == (if run_failure(self.inputs()) is None && self.inputs().len() < self.n_inputs() {
                Some(self.inputs().len() as usize)
            } else {
                None::<usize>
            }),
    {
        if !self.failed && self.next < self.n_inputs {
            Some(self.next)
        } else {
            None
        }
    }

    /// Hands over the next input (`None` when it could not be read) and returns
    /// the bytes to append to the output, or the error that ends the job.
    pub fn feed(&mut self, input: Option<&[u8]>) -> (r: Result<Vec<u8>, XtcError>)
        requires
            old(self).wf(),
            run_failure(old(self).inputs()) is None,
            old(self).inputs().len() < old(self).n_inputs(),
        ensures
            final(self).wf(),
            final(self).n_inputs() == old(self).n_inputs(),
            final(self).inputs() == old(self).inputs().push(
                match input {
                    Some(d) => Some(d@),
                    None => None::<Seq<u8>>,
                },
            ),
            match step(final(self).inputs().last(), old(self).inputs().len() > 0) {
                Ok(c) => r is Ok && r->Ok_0@ == c && run_failure(final(self).inputs()) is None,
                Err(e) => r is Err && r->Err_0 == e && run_failure(final(self).inputs()) == Some(
                    (old(self).inputs().len() as int, e),
                ),
            },
            final(self).written() == old(self).written() + match r {
                Ok(bytes) => bytes@,
                Err(_) => Seq::<u8>::empty(),
            },
    {
        let ghost item = match input {
            Some(d) => Some(d@),
            None => None::<Seq<u8>>,
        };
        let ghost prior = self.fed@;
        let skip = self.next > 0;
        self.fed = Ghost(self.fed@.push(item));
        self.next = self.next + 1;
        assert(self.fed@.drop_last() =~= prior);
        match input {
            Some(data) => {
                let mut bytes: Vec<u8> = Vec::new();
                let res = add_xtc(data, &mut bytes, skip);
                assert(bytes@ =~= Seq::<u8>::empty() + bytes@);
                match res {
                    Ok(()) => {
                        assert(run_output(prior) + bytes@ =~= run_output(prior) + (Seq::<u8>::empty() + bytes@));
                        Ok(bytes)
                    },
                    Err(e) => {
                        self.failed = true;
                        assert(run_output(prior) + Seq::<u8>::empty() =~= run_output(prior));
                        Err(e)
                    },
                }
            },
            None => {
                self.failed = true;
                assert(run_output(prior) + Seq::<u8>::empty() =~= run_output(prior));
                Err(XtcError::InputOpen)
            },
        }
    }
}

} // verus!
