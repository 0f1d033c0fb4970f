//! A file-descriptor target that discards output.
use vstd::prelude::*;

verus! {

/// Like `/dev/null`: accepts every write and keeps nothing.
#[derive(Clone, Copy, Debug, PartialEq, Eq, Structural)]
pub struct NullOutput;

impl NullOutput {
    /// The name under which this target is reported.
    pub fn name(&self) -> (r: &'static str)
        ensures
            r@ == "stderr and stdout"@,
    {
        proof {
            reveal_strlit("stderr and stdout");
        }
        "stderr and stdout"
    }

    /// Discards `bytes` and reports all of them as written.
    pub fn write(&mut self, _communicate_allowed: bool, bytes: &[u8]) -> (r: usize)
        ensures
            r == bytes@.len(),
            *final(self) == *old(self),
    {
        bytes.len()
    }

    /// A new descriptor for the same (empty) target.
    pub fn dup(&self) -> (r: NullOutput)
        ensures
            r == *self,
    {
        NullOutput
    }
}

} // verus!
