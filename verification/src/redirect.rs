//! What is captured of an output that is redirected into a pipe.
use vstd::prelude::*;

verus! {

/// What came out of the pipe.
#[derive(Debug)]
pub enum PipeRead {
    /// These bytes were read; there are none at the end of the stream.
    Data(Vec<u8>),
    /// Reading failed.
    Failed,
}

/// Output that was redirected, as far as it was captured.
#[derive(Debug)]
pub struct RedirectLogs {
    captured: Vec<u8>,
}

impl View for RedirectLogs {
    type V = Seq<u8>;

    closed spec fn view(&self) -> Seq<u8> {
        self.captured@
    }
}

/// Whether the reading goes on after `read`.
pub open spec fn goes_on(read: PipeRead) -> bool {
    read matches PipeRead::Data(bytes) && bytes@.len() > 0
}

/// What is captured of what came out of the pipe: all bytes up to its end or to the
/// first failure.
pub open spec fn captured_of(reads: Seq<PipeRead>) -> Seq<u8>
    decreases reads.len(),
{
    if reads.len() > 0 && goes_on(reads[0]) {
        reads[0]->Data_0@ + captured_of(reads.drop_first())
    } else {
        Seq::empty()
    }
}

impl RedirectLogs {
    /// Nothing was captured yet.
    pub fn new() -> (logs: Self)
        ensures
            logs@ == Seq::<u8>::empty(),
    {
        RedirectLogs { captured: Vec::new() }
    }

    /// Captures what came out of the pipe, and says whether the reading goes on.
    pub fn record(&mut self, read: &PipeRead) -> (more: bool)
        ensures
            more == goes_on(*read),
            final(self)@ == if goes_on(*read) {
                old(self)@ + read->Data_0@
            } else {
                old(self)@
            },
    {
        match read {
            PipeRead::Data(bytes) => {
                if bytes.len() == 0 {
                    return false;
                }
                self.captured.extend_from_slice(bytes.as_slice());
                assert(self@ =~= old(self)@ + bytes@);
                true
            },
            PipeRead::Failed => false,
        }
    }

    /// Returns the captured output as a vector of bytes.
    /// (May not be complete until redirection is finalized.)
    pub fn get_captured(&self) -> (output: Vec<u8>)
        ensures
            output@ == self@,
    {
        let mut output: Vec<u8> = Vec::new();
        output.extend_from_slice(self.captured.as_slice());
        assert(output@ =~= self@);
        output
    }

    /// Captures the rest of what comes out of the pipe, and returns the complete
    /// captured output.
    pub fn finish(self, rest: &Vec<PipeRead>) -> (output: Vec<u8>)
        ensures
            output@ == self@ + captured_of(rest@),
    {
        let mut logs = self;
        let mut at: usize = 0;
        assert(rest@.skip(0) =~= rest@);
        while at < rest.len()
            invariant
                at <= rest@.len(),
                logs@ + captured_of(rest@.skip(at as int)) == self@ + captured_of(rest@),
            decreases rest@.len() - at,
        {
            let ghost before = logs@;
            let ghost left = rest@.skip(at as int);
            if !logs.record(&rest[at]) {
                assert(captured_of(left) =~= Seq::empty());
                assert(before =~= before + captured_of(left));
                return logs.captured;
            }
            proof {
                assert(left.drop_first() =~= rest@.skip(at + 1));
                assert(before + captured_of(left) =~= logs@ + captured_of(rest@.skip(at + 1)));
            }
            at = at + 1;
        }
        assert(captured_of(rest@.skip(at as int)) =~= Seq::empty());
        assert(logs@ =~= logs@ + captured_of(rest@.skip(at as int)));
        logs.captured
    }
}

} // verus!
