//! Byte counters of one transfer.

use vstd::prelude::*;

verus! {

/// How far one transfer has come: the bytes moved so far, and the size that
/// was known when it began.
#[derive(Clone, Copy, Debug, PartialEq, Eq, Structural)]
pub struct TransferProgress {
    pub bytes_transferred: usize,
    pub total_bytes: usize,
}

/// The hundredths of the whole that were moved, rounded down; nothing where
/// the whole is nothing.
pub open spec fn percent_spec(p: TransferProgress) -> int {
    if p.total_bytes == 0 {
        0
    } else {
        (p.bytes_transferred * 100) / (p.total_bytes as int)
    }
}

impl TransferProgress {
    /// A transfer of `total_bytes` bytes of which none has moved yet.
    pub fn new(total_bytes: usize) -> (p: Self)
        ensures
            p.bytes_transferred == 0,
            p.total_bytes == total_bytes,
    {
        TransferProgress { bytes_transferred: 0, total_bytes }
    }

    /// Counts `bytes_sent` more bytes as moved.
    pub fn update(&mut self, bytes_sent: usize)
        requires
            old(self).bytes_transferred + bytes_sent <= usize::MAX,
        ensures
            final(self).bytes_transferred == old(self).bytes_transferred + bytes_sent,
            final(self).total_bytes == old(self).total_bytes,
    {
        self.bytes_transferred += bytes_sent;
    }

    /// The part that was moved, in whole percent.
    pub fn percent(&self) -> (r: u128)
        ensures
            r == percent_spec(*self),
            self.total_bytes == 0 ==> r == 0,
            self.total_bytes > 0 && self.bytes_transferred == self.total_bytes ==> r == 100,
    {
        if self.total_bytes == 0 {
            0
        } else {
            let moved: u128 = self.bytes_transferred as u128;
            let whole: u128 = self.total_bytes as u128;
            assert(moved * 100 <= 0xffff_ffff_ffff_ffff * 100) by (nonlinear_arith)
                requires
                    moved <= 0xffff_ffff_ffff_ffff,
            ;
            let r = (moved * 100) / whole;
            assert(moved == whole ==> (moved * 100) / (whole as int) == 100) by (nonlinear_arith)
                requires
                    whole > 0,
            ;
            r
        }
    }

    /// Whether everything was moved.
    pub fn is_complete(&self) -> (r: bool)
        ensures
            r == (self.bytes_transferred == self.total_bytes),
    {
        self.bytes_transferred == self.total_bytes
    }
}

} // verus!
