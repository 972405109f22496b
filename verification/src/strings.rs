//! Zero-terminated strings as they appear in the filesystem's name
//! fields and in the system-call ABI's path arguments.

use vstd::prelude::*;

verus! {

/// Length of the zero-terminated string at `i`: the count of bytes
/// before the first zero, or to the end of the buffer when no zero
/// follows.
pub open spec fn spec_strlen(s: Seq<u8>, i: int) -> int
    decreases s.len() - i,
{
    if i < 0 || i >= s.len() {
        0
    } else if s[i] == 0 {
        0
    } else {
        1 + spec_strlen(s, i + 1)
    }
}

/// The string's length never runs past the buffer.
pub proof fn lemma_strlen_bound(s: Seq<u8>, i: int)
    requires
        0 <= i <= s.len(),
    ensures
        0 <= spec_strlen(s, i) <= s.len() - i,
    decreases s.len() - i,
{
    if i < s.len() && s[i] != 0 {
        lemma_strlen_bound(s, i + 1);
    }
}

/// Counts the bytes of the zero-terminated string at `start`.
pub fn strlen_at(bytes: &Vec<u8>, start: usize) -> (r: usize)
    requires
        start <= bytes@.len(),
    ensures
        r == spec_strlen(bytes@, start as int),
        start + r <= bytes@.len(),
    {
    proof {
        lemma_strlen_bound(bytes@, start as int);
    }
    let n = bytes.len();
    let mut i: usize = start;
    while i < n && bytes[i] != 0
        invariant
            start <= i <= n,
            n == bytes@.len(),
            spec_strlen(bytes@, start as int) == i - start + spec_strlen(bytes@, i as int),
        decreases n - i,
    {
        i += 1;
    }
    i - start
}

/// The zero-terminated string at `start`: its bytes, terminator
/// excluded; a string without a terminator ends with the buffer.
pub fn cstr_at(bytes: &Vec<u8>, start: usize) -> (r: Vec<u8>)
    requires
        start <= bytes@.len(),
    ensures
        r@ == bytes@.subrange(start as int, start + spec_strlen(bytes@, start as int)),
{
    let len = strlen_at(bytes, start);
    let n = bytes.len();
    let mut out: Vec<u8> = Vec::new();
    let mut i: usize = 0;
    while i < len
        invariant
            i <= len,
            start + len <= n,
            n == bytes@.len(),
            out@ == bytes@.subrange(start as int, start + i),
        decreases len - i,
    {
        out.push(bytes[start + i]);
        proof {
            assert(out@ =~= bytes@.subrange(start as int, start + i + 1));
        }
        i += 1;
    }
    out
}

/// The zero-terminated prefix of a fixed-size name field.
pub open spec fn spec_cstr(s: Seq<u8>) -> Seq<u8> {
    s.subrange(0, spec_strlen(s, 0))
}

/// Copies the bytes of the half-open range `start..end`.
pub fn copy_range(bytes: &Vec<u8>, start: usize, end: usize) -> (r: Vec<u8>)
    requires
        start <= end <= bytes@.len(),
    ensures
        r@ == bytes@.subrange(start as int, end as int),
{
    let mut out: Vec<u8> = Vec::new();
    let mut i: usize = start;
    while i < end
        invariant
            start <= i <= end,
            end <= bytes@.len(),
            out@ == bytes@.subrange(start as int, i as int),
        decreases end - i,
    {
        out.push(bytes[i]);
        proof {
            assert(out@ =~= bytes@.subrange(start as int, i + 1));
        }
        i += 1;
    }
    out
}

/// Whether two byte strings hold the same bytes.
pub fn bytes_eq(a: &Vec<u8>, b: &Vec<u8>) -> (r: bool)
    ensures
        r == (a@ == b@),
{
    if a.len() != b.len() {
        proof {
            assert(a@.len() != b@.len());
        }
        return false;
    }
    let n = a.len();
    let mut i: usize = 0;
    while i < n
        invariant
            i <= n,
            n == a@.len() && n == b@.len(),
            forall|j: int| 0 <= j < i ==> a@[j] == b@[j],
        decreases n - i,
    {
        if a[i] != b[i] {
            return false;
        }
        i += 1;
    }
    proof {
        assert(a@ =~= b@);
    }
    true
}

} // verus!
