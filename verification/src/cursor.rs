//! A text sink over a fixed byte buffer that truncates instead of failing.

use vstd::prelude::*;
use vstd::string::StringSliceAdditionalSpecFns;

verus! {

/// `target` with the bytes of `src` laid over it from index `at` on. Bytes of
/// `src` that would fall outside `target` are dropped.
pub open spec fn overlay(target: Seq<u8>, at: int, src: Seq<u8>) -> Seq<u8> {
    Seq::new(
        target.len(),
        |i: int|
            if at <= i < at + src.len() {
                src[i - at]
            } else {
                target[i]
            },
    )
}

/// The smaller of two lengths.
pub open spec fn min_len(a: int, b: int) -> int {
    if a <= b {
        a
    } else {
        b
    }
}

/// Copies the first `count` bytes of `src` into `dst` from index `at` on.
pub fn copy_bytes(dst: &mut [u8], at: usize, src: &[u8], count: usize)
    requires
        count <= src@.len(),
        at + count <= old(dst)@.len(),
    ensures
        final(dst)@ == overlay(old(dst)@, at as int, src@.take(count as int)),
{
    let ghost before = dst@;
    let end: usize = dst.len();
    let mut i: usize = 0;
    while i < count
        invariant
            i <= count <= src@.len(),
            at + count <= end,
            dst@.len() == end,
            before.len() == end,
            dst@ == overlay(before, at as int, src@.take(i as int)),
        decreases count - i,
    {
        dst[at + i] = src[i];
        i = i + 1;
    }
}

/// Writes text into `buf` from offset `idx` on. What does not fit is dropped
/// silently, so a write never fails.
pub struct DumbCursor<'a> {
    pub buf: &'a mut [u8],
    pub idx: usize,
}

impl<'a> DumbCursor<'a> {
    /// Number of bytes that can still be written.
    pub open spec fn remaining(&self) -> int {
        if self.idx <= self.buf@.len() {
            self.buf@.len() - self.idx
        } else {
            0
        }
    }

    /// Appends the bytes of `s`, as many as still fit, and moves the offset
    /// behind them. Bytes outside the written range keep their value, and
    /// the cursor goes on writing into the buffer that it was made with.
    pub fn write_str(&mut self, s: &str)
        ensures
            final(self).idx == old(self).idx + min_len(
                s.spec_bytes().len() as int,
                old(self).remaining(),
            ),
            final(self).buf@ == overlay(
                old(self).buf@,
                old(self).idx as int,
                s.spec_bytes().take(min_len(s.spec_bytes().len() as int, old(self).remaining())),
            ),
            final(final(self).buf)@ == final(old(self).buf)@,
    {
        let bytes = s.as_bytes();
        let start: usize = self.idx;
        let bytes_left: usize = if start <= self.buf.len() {
            self.buf.len() - start
        } else {
            0
        };
        let to_copy: usize = if bytes_left >= bytes.len() {
            bytes.len()
        } else {
            bytes_left
        };
        if to_copy > 0 {
            copy_bytes(self.buf, start, bytes, to_copy);
        }
        self.idx = start + to_copy;
    }
}

} // verus!
