//! The resident process: its table of open file handles, indexed by
//! descriptor number.
//!
//! The kernel runs exactly one user program; this is its state. OPEN
//! stores a handle in the lowest free slot, CLOSE empties a slot, READ
//! and SEEK drive the handle a slot holds.

use vstd::prelude::*;
use crate::kfs::reader::DataBlockReader;

verus! {

/// Number of file-handle slots of a process.
pub const MAX_FD: usize = 32;

/// Initial capacity reserved for the process's scratch memory.
pub const MEMORY_SIZE: usize = 10240;

/// The lowest index at or after `from` whose slot is free; the table's
/// length when every slot at or after `from` is taken.
pub open spec fn spec_first_free(files: Seq<Option<DataBlockReader>>, from: int) -> int
    decreases files.len() - from,
{
    if from < 0 || from >= files.len() {
        files.len() as int
    } else if files[from] is None {
        from
    } else {
        spec_first_free(files, from + 1)
    }
}

/// How many slots at or after `from` are free.
pub open spec fn spec_free_count(files: Seq<Option<DataBlockReader>>, from: int) -> int
    decreases files.len() - from,
{
    if from < 0 || from >= files.len() {
        0
    } else {
        (if files[from] is None {
            1int
        } else {
            0int
        }) + spec_free_count(files, from + 1)
    }
}

/// The first free slot is free, lies between `from` and the end, and
/// every slot before it is taken.
pub proof fn lemma_first_free_shape(files: Seq<Option<DataBlockReader>>, from: int)
    requires
        0 <= from <= files.len(),
    ensures
        from <= spec_first_free(files, from) <= files.len(),
        spec_first_free(files, from) < files.len() ==> files[spec_first_free(files, from)] is None,
        forall|j: int| from <= j < spec_first_free(files, from) ==> files[j] is Some,
    decreases files.len() - from,
{
    if from < files.len() && !(files[from] is None) {
        lemma_first_free_shape(files, from + 1);
    }
}

/// When every slot between `from` and `k` is taken, the first free slot
/// is not before `k`.
pub proof fn lemma_first_free_lower_bound(files: Seq<Option<DataBlockReader>>, from: int, k: int)
    requires
        0 <= from <= k <= files.len(),
        forall|j: int| from <= j < k ==> files[j] is Some,
    ensures
        spec_first_free(files, from) >= k,
    decreases k - from,
{
    lemma_first_free_shape(files, from);
    if from < k {
        lemma_first_free_lower_bound(files, from + 1, k);
    }
}

/// Filling the first free slot pushes the first free slot strictly
/// higher.
pub proof fn lemma_first_free_after_fill(
    files: Seq<Option<DataBlockReader>>,
    file: DataBlockReader,
)
    requires
        spec_first_free(files, 0) < files.len(),
    ensures
        spec_first_free(files.update(spec_first_free(files, 0), Some(file)), 0) > spec_first_free(
            files,
            0,
        ),
{
    let ff = spec_first_free(files, 0);
    lemma_first_free_shape(files, 0);
    let updated = files.update(ff, Some(file));
    assert(forall|j: int| 0 <= j <= ff ==> updated[j] is Some);
    lemma_first_free_lower_bound(updated, 0, ff + 1);
}

/// There is a free slot exactly when the free count is positive.
pub proof fn lemma_free_count_first_free(files: Seq<Option<DataBlockReader>>, from: int)
    requires
        0 <= from <= files.len(),
    ensures
        spec_free_count(files, from) > 0 <==> spec_first_free(files, from) < files.len(),
        spec_free_count(files, from) >= 0,
    decreases files.len() - from,
{
    if from < files.len() {
        lemma_free_count_first_free(files, from + 1);
    }
}

/// Filling a free slot lowers the free count by one.
pub proof fn lemma_free_count_after_fill(
    files: Seq<Option<DataBlockReader>>,
    at: int,
    file: DataBlockReader,
    from: int,
)
    requires
        0 <= from <= files.len(),
        0 <= at < files.len(),
        files[at] is None,
    ensures
        spec_free_count(files.update(at, Some(file)), from) == spec_free_count(files, from) - (
        if from <= at {
            1int
        } else {
            0int
        }),
    decreases files.len() - from,
{
    if from < files.len() {
        lemma_free_count_after_fill(files, at, file, from + 1);
    }
}

/// The resident process.
#[derive(Debug)]
pub struct Process {
    /// The open file handles, indexed by descriptor number.
    pub files: Vec<Option<DataBlockReader>>,
    /// Scratch memory of the process.
    pub memory: Vec<u8>,
    /// Top of the allocated part of the scratch memory.
    pub brk: usize,
}

impl Process {
    /// The table has its fixed size and every stored handle is well
    /// formed.
    pub open spec fn wf(&self) -> bool {
        &&& self.files@.len() == MAX_FD
        &&& forall|i: int| 0 <= i < self.files@.len() ==> match #[trigger] self.files@[i] {
            Some(r) => r.wf(),
            None => true,
        }
    }

    /// A process with no open handle.
    pub fn new() -> (p: Process)
        ensures
            p.wf(),
            p.files@.len() == MAX_FD,
            forall|i: int| 0 <= i < p.files@.len() ==> (#[trigger] p.files@[i]) is None,
            p.memory@ == seq![0u8],
            p.brk == 0,
    {
        let mut files: Vec<Option<DataBlockReader>> = Vec::new();
        let mut i: usize = 0;
        while i < MAX_FD
            invariant
                i <= MAX_FD,
                files@.len() == i,
                forall|j: int| 0 <= j < i ==> (#[trigger] files@[j]) is None,
            decreases MAX_FD - i,
        {
            files.push(None);
            i += 1;
        }
        let mut memory: Vec<u8> = Vec::with_capacity(MEMORY_SIZE);
        memory.push(0);
        Process { files, memory, brk: 0 }
    }

    /// Stores a handle in the lowest free slot and returns its
    /// descriptor number; a full table is left unchanged and reported.
    pub fn store_file(&mut self, file: DataBlockReader) -> (r: Result<u32, ()>)
        requires
            old(self).wf(),
            file.wf(),
        ensures
            final(self).wf(),
            final(self).memory@ == old(self).memory@,
            final(self).brk == old(self).brk,
            spec_first_free(old(self).files@, 0) < MAX_FD ==> r == Ok::<u32, ()>(
                spec_first_free(old(self).files@, 0) as u32,
            ) && final(self).files@ == old(self).files@.update(
                spec_first_free(old(self).files@, 0),
                Some(file),
            ),
            spec_first_free(old(self).files@, 0) == MAX_FD ==> r == Err::<u32, ()>(())
                && *final(self) == *old(self),
    {
        proof {
            lemma_first_free_shape(old(self).files@, 0);
        }
        let n = self.files.len();
        let mut i: usize = 0;
        while i < n
            invariant
                i <= n,
                n == self.files@.len(),
                n == MAX_FD,
                old(self).wf(),
                file.wf(),
                *self == *old(self),
                forall|j: int| 0 <= j < i ==> self.files@[j] is Some,
            decreases n - i,
        {
            match &self.files[i] {
                None => {
                    proof {
                        assert(self.files@[i as int] is None);
                        lemma_first_free_lower_bound(self.files@, 0, i as int);
                        lemma_first_free_shape(self.files@, 0);
                        assert(spec_first_free(self.files@, 0) == i);
                        assert(i < MAX_FD);
                    }
                    self.files[i] = Some(file);
                    proof {
                        assert(self.files@ =~= old(self).files@.update(i as int, Some(file)));
                    }
                    return Ok(i as u32);
                }
                Some(_) => {}
            }
            i += 1;
        }
        proof {
            lemma_first_free_lower_bound(self.files@, 0, n as int);
        }
        Err(())
    }

    /// The handle of a descriptor: nothing for a descriptor outside the
    /// table or an empty slot.
    pub fn get_file(&self, fd: u32) -> (r: Option<&DataBlockReader>)
        requires
            self.wf(),
        ensures
            (fd < MAX_FD && self.files@[fd as int] is Some) ==> (r matches Some(h) && *h
                == self.files@[fd as int]->0),
            !(fd < MAX_FD && self.files@[fd as int] is Some) ==> r is None,
    {
        if (fd as usize) < MAX_FD {
            match &self.files[fd as usize] {
                Some(h) => Some(h),
                None => None,
            }
        } else {
            None
        }
    }

    /// Empties the slot of a descriptor; a descriptor outside the table
    /// or an already empty slot is reported, with nothing changed.
    pub fn close_file(&mut self, fd: u32) -> (r: Result<(), ()>)
        requires
            old(self).wf(),
        ensures
            final(self).wf(),
            (fd < MAX_FD && old(self).files@[fd as int] is Some) ==> r == Ok::<(), ()>(())
                && final(self).files@ == old(self).files@.update(fd as int, None)
                && final(self).memory@ == old(self).memory@ && final(self).brk == old(self).brk,
            !(fd < MAX_FD && old(self).files@[fd as int] is Some) ==> r == Err::<(), ()>(())
                && *final(self) == *old(self),
    {
        if (fd as usize) < MAX_FD {
            let occupied = match &self.files[fd as usize] {
                Some(_) => true,
                None => false,
            };
            if occupied {
                self.files[fd as usize] = None;
                Ok(())
            } else {
                Err(())
            }
        } else {
            Err(())
        }
    }
}

impl Default for Process {
    /// The default process has no open handle.
    fn default() -> (p: Process)
        ensures
            p.wf(),
            forall|i: int| 0 <= i < p.files@.len() ==> (#[trigger] p.files@[i]) is None,
    {
        Process::new()
    }
}

} // verus!
