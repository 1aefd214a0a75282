use vstd::prelude::*;
use crate::ids::CodeRef;

verus! {

/// A version number of a code log; the first appended code is version 1.
pub type Version = u32;

/// An append-only log of code references, indexed by increasing version.
///
/// Version `v` (from 1) is held at `codes[v - 1]`; the current nonce is the
/// number of versions appended so far.
pub struct VersionedCodeLog {
    pub codes: Vec<CodeRef>,
}

impl VersionedCodeLog {
    pub open spec fn wf(&self) -> bool {
        self.codes@.len() <= u32::MAX
    }

    /// The highest version appended so far, 0 when none was.
    pub open spec fn nonce(&self) -> nat {
        self.codes@.len()
    }

    /// The code stored at version `v`, if any.
    pub open spec fn code_at(&self, v: int) -> Option<CodeRef> {
        if 1 <= v <= self.codes@.len() {
            Some(self.codes@[v - 1])
        } else {
            None
        }
    }

    /// An empty log.
    pub fn new() -> (r: VersionedCodeLog)
        ensures
            r.wf(),
            r.nonce() == 0,
    {
        VersionedCodeLog { codes: Vec::new() }
    }

    /// The number of versions appended so far.
    pub fn nonce_value(&self) -> (r: u32)
        requires
            self.wf(),
        ensures
            r == self.nonce(),
    {
        self.codes.len() as u32
    }

    /// Stores `code` under the next version and returns that version.
    /// Returns `None`, leaving the log unchanged, when the version counter is
    /// exhausted.
    pub fn append(&mut self, code: CodeRef) -> (r: Option<Version>)
        requires
            old(self).wf(),
        ensures
            final(self).wf(),
            old(self).nonce() < u32::MAX ==> {
                &&& r == Some((old(self).nonce() + 1) as u32)
                &&& final(self).codes@ == old(self).codes@.push(code)
            },
            old(self).nonce() >= u32::MAX ==> r is None && final(self).codes@ == old(self).codes@,
    {
        if self.codes.len() >= u32::MAX as usize {
            return None;
        }
        self.codes.push(code);
        Some(self.codes.len() as u32)
    }

    /// The code of the latest version; `None` while no code was appended.
    pub fn latest(&self) -> (r: Option<CodeRef>)
        requires
            self.wf(),
        ensures
            r == self.code_at(self.nonce() as int),
    {
        let n = self.codes.len();
        if n == 0 {
            None
        } else {
            Some(self.codes[n - 1])
        }
    }
}

} // verus!
