//! The seek positions understood by every seekable handle.

use vstd::prelude::*;

verus! {

/// A readable handle: a stream of bytes with a cursor; a read yields
/// the next bytes and advances over them.
pub trait Read {
    /// The bytes of the stream.
    spec fn stream(&self) -> Seq<u8>;

    /// The cursor's offset in the stream.
    spec fn cursor(&self) -> int;

    /// What the handle's operations preserve.
    spec fn inv(&self) -> bool;

    /// Reads up to `len` bytes at the cursor: exactly the next `len`
    /// bytes of the stream, or whatever remains before its end.
    fn read(&mut self, len: usize) -> (r: Vec<u8>)
        requires
            old(self).inv(),
        ensures
            final(self).inv(),
            final(self).stream() == old(self).stream(),
            r@ == old(self).stream().subrange(
                old(self).cursor(),
                vstd::math::min(old(self).cursor() + len, old(self).stream().len() as int),
            ),
            final(self).cursor() == vstd::math::min(
                old(self).cursor() + len,
                old(self).stream().len() as int,
            ),
    ;
}

/// A seekable handle: the cursor can be repositioned absolutely or
/// relative to the cursor or the end; a target outside the stream
/// lands at its end.
pub trait Seek {
    /// The bytes of the stream.
    spec fn seek_stream(&self) -> Seq<u8>;

    /// The cursor's offset in the stream.
    spec fn seek_cursor(&self) -> int;

    /// What the handle's operations preserve.
    spec fn seek_inv(&self) -> bool;

    /// Where a seek from `off` lands in a stream of `len` bytes.
    open spec fn seek_target(off: int, from: SeekFrom, len: int) -> int {
        let t = match from {
            SeekFrom::Start(o) => o as int,
            SeekFrom::Current(d) => off + d,
            SeekFrom::End(d) => len + d,
        };
        if t < 0 || t > len {
            len
        } else {
            t
        }
    }

    /// Moves the cursor and returns the new absolute offset; a handle
    /// that refuses the move leaves the cursor where it stood.
    fn seek(&mut self, from: SeekFrom) -> (r: Result<usize, ()>)
        requires
            old(self).seek_inv(),
        ensures
            final(self).seek_inv(),
            final(self).seek_stream() == old(self).seek_stream(),
            match r {
                Ok(pos) => final(self).seek_cursor() == Self::seek_target(
                    old(self).seek_cursor(),
                    from,
                    old(self).seek_stream().len() as int,
                ) && pos == final(self).seek_cursor(),
                Err(()) => final(self).seek_cursor() == old(self).seek_cursor(),
            },
    ;
}

/// Where a seek counts from.
#[derive(Clone, Copy, Debug, PartialEq, Eq, Structural)]
pub enum SeekFrom {
    /// An absolute offset from the start of the file.
    Start(usize),
    /// An offset relative to the cursor.
    Current(isize),
    /// An offset relative to the end of the file.
    End(isize),
}

} // verus!
