//! Keyboard scan-code decoding and the bounded FIFO of pending scan codes.
//!
//! The keyboard controller itself (the status and data ports) is hardware
//! outside this crate; its interrupt handler hands the raw scan code to
//! [`receive_scan`], which queues it. The system-call layer pops codes with
//! [`ScanBuffer::read`].

use vstd::prelude::*;

verus! {

/// A key of the keyboard, after scan-code decoding.
#[derive(Clone, Copy, Debug, Eq, PartialEq, Structural)]
pub enum Key {
    Esc,
    F1,
    F2,
    F3,
    F4,
    F5,
    F6,
    F7,
    F8,
    F9,
    F10,
    F11,
    F12,
    Backspace,
    Alt,
    Super,
    Home,
    PgUp,
    PgDown,
    End,
    Tab,
    LShift,
    RShift,
    Enter,
    Space,
    Ctrl,
    Suppr,
    Up,
    Down,
    Left,
    Right,
    Char(u8),
}

/// The key that a set-1 scan code selects on the US layout, ignoring the
/// released bit; `shift` selects the shifted variant of the printable keys.
pub open spec fn spec_key_of(code: u8, shift: bool) -> Option<Key> {
    match code {
        0x01 => Some(Key::Esc),
        0x02 => Some(Key::Char(if shift { 33 } else { 49 })),
        0x03 => Some(Key::Char(if shift { 64 } else { 50 })),
        0x04 => Some(Key::Char(if shift { 35 } else { 51 })),
        0x05 => Some(Key::Char(if shift { 36 } else { 52 })),
        0x06 => Some(Key::Char(if shift { 37 } else { 53 })),
        0x07 => Some(Key::Char(if shift { 94 } else { 54 })),
        0x08 => Some(Key::Char(if shift { 38 } else { 55 })),
        0x09 => Some(Key::Char(if shift { 42 } else { 56 })),
        0x0A => Some(Key::Char(if shift { 40 } else { 57 })),
        0x0B => Some(Key::Char(if shift { 41 } else { 48 })),
        0x0C => Some(Key::Char(if shift { 95 } else { 45 })),
        0x0D => Some(Key::Char(if shift { 43 } else { 61 })),
        0x0E => Some(Key::Backspace),
        0x0F => Some(Key::Tab),
        0x10 => Some(Key::Char(if shift { 81 } else { 113 })),
        0x11 => Some(Key::Char(if shift { 87 } else { 119 })),
        0x12 => Some(Key::Char(if shift { 69 } else { 101 })),
        0x13 => Some(Key::Char(if shift { 82 } else { 114 })),
        0x14 => Some(Key::Char(if shift { 84 } else { 116 })),
        0x15 => Some(Key::Char(if shift { 89 } else { 121 })),
        0x16 => Some(Key::Char(if shift { 85 } else { 117 })),
        0x17 => Some(Key::Char(if shift { 73 } else { 105 })),
        0x18 => Some(Key::Char(if shift { 79 } else { 111 })),
        0x19 => Some(Key::Char(if shift { 80 } else { 112 })),
        0x1A => Some(Key::Char(if shift { 123 } else { 91 })),
        0x1B => Some(Key::Char(if shift { 125 } else { 93 })),
        0x1C => Some(Key::Enter),
        0x1D => Some(Key::Ctrl),
        0x1E => Some(Key::Char(if shift { 65 } else { 97 })),
        0x1F => Some(Key::Char(if shift { 83 } else { 115 })),
        0x20 => Some(Key::Char(if shift { 68 } else { 100 })),
        0x21 => Some(Key::Char(if shift { 70 } else { 102 })),
        0x22 => Some(Key::Char(if shift { 71 } else { 103 })),
        0x23 => Some(Key::Char(if shift { 72 } else { 104 })),
        0x24 => Some(Key::Char(if shift { 74 } else { 106 })),
        0x25 => Some(Key::Char(if shift { 75 } else { 107 })),
        0x26 => Some(Key::Char(if shift { 76 } else { 108 })),
        0x27 => Some(Key::Char(if shift { 58 } else { 59 })),
        0x28 => Some(Key::Char(if shift { 34 } else { 39 })),
        0x29 => Some(Key::Char(if shift { 126 } else { 96 })),
        0x2A => Some(Key::LShift),
        0x2B => Some(Key::Char(if shift { 124 } else { 92 })),
        0x2C => Some(Key::Char(if shift { 90 } else { 122 })),
        0x2D => Some(Key::Char(if shift { 88 } else { 120 })),
        0x2E => Some(Key::Char(if shift { 67 } else { 99 })),
        0x2F => Some(Key::Char(if shift { 86 } else { 118 })),
        0x30 => Some(Key::Char(if shift { 66 } else { 98 })),
        0x31 => Some(Key::Char(if shift { 78 } else { 110 })),
        0x32 => Some(Key::Char(if shift { 77 } else { 109 })),
        0x33 => Some(Key::Char(if shift { 60 } else { 44 })),
        0x34 => Some(Key::Char(if shift { 62 } else { 46 })),
        0x35 => Some(Key::Char(if shift { 63 } else { 47 })),
        0x36 => Some(Key::RShift),
        0x38 => Some(Key::Alt),
        0x39 => Some(Key::Space),
        0x3B => Some(Key::F1),
        0x3C => Some(Key::F2),
        0x3D => Some(Key::F3),
        0x3E => Some(Key::F4),
        0x3F => Some(Key::F5),
        0x40 => Some(Key::F6),
        0x41 => Some(Key::F7),
        0x42 => Some(Key::F8),
        0x43 => Some(Key::F9),
        0x44 => Some(Key::F10),
        0x47 => Some(Key::Home),
        0x48 => Some(Key::Up),
        0x49 => Some(Key::PgUp),
        0x4B => Some(Key::Left),
        0x4D => Some(Key::Right),
        0x4F => Some(Key::End),
        0x50 => Some(Key::Down),
        0x51 => Some(Key::PgDown),
        0x53 => Some(Key::Suppr),
        0x57 => Some(Key::F11),
        0x58 => Some(Key::F12),
        0x5B => Some(Key::Super),
        _ => None,
    }
}

impl Key {
    /// Decodes a raw scan code: the high bit (press / release) is masked
    /// off, then the remaining code is looked up on the US layout.
    pub fn from_scan(scan: u8, shift: bool) -> (r: Option<Key>)
        ensures
            r == spec_key_of((scan & 0x7F) as u8, shift),
    {
        let code = scan & 0x7F;
        match code {
            0x01 => Some(Key::Esc),
            0x02 => Some(Key::Char(if shift { 33 } else { 49 })),
            0x03 => Some(Key::Char(if shift { 64 } else { 50 })),
            0x04 => Some(Key::Char(if shift { 35 } else { 51 })),
            0x05 => Some(Key::Char(if shift { 36 } else { 52 })),
            0x06 => Some(Key::Char(if shift { 37 } else { 53 })),
            0x07 => Some(Key::Char(if shift { 94 } else { 54 })),
            0x08 => Some(Key::Char(if shift { 38 } else { 55 })),
            0x09 => Some(Key::Char(if shift { 42 } else { 56 })),
            0x0A => Some(Key::Char(if shift { 40 } else { 57 })),
            0x0B => Some(Key::Char(if shift { 41 } else { 48 })),
            0x0C => Some(Key::Char(if shift { 95 } else { 45 })),
            0x0D => Some(Key::Char(if shift { 43 } else { 61 })),
            0x0E => Some(Key::Backspace),
            0x0F => Some(Key::Tab),
            0x10 => Some(Key::Char(if shift { 81 } else { 113 })),
            0x11 => Some(Key::Char(if shift { 87 } else { 119 })),
            0x12 => Some(Key::Char(if shift { 69 } else { 101 })),
            0x13 => Some(Key::Char(if shift { 82 } else { 114 })),
            0x14 => Some(Key::Char(if shift { 84 } else { 116 })),
            0x15 => Some(Key::Char(if shift { 89 } else { 121 })),
            0x16 => Some(Key::Char(if shift { 85 } else { 117 })),
            0x17 => Some(Key::Char(if shift { 73 } else { 105 })),
            0x18 => Some(Key::Char(if shift { 79 } else { 111 })),
            0x19 => Some(Key::Char(if shift { 80 } else { 112 })),
            0x1A => Some(Key::Char(if shift { 123 } else { 91 })),
            0x1B => Some(Key::Char(if shift { 125 } else { 93 })),
            0x1C => Some(Key::Enter),
            0x1D => Some(Key::Ctrl),
            0x1E => Some(Key::Char(if shift { 65 } else { 97 })),
            0x1F => Some(Key::Char(if shift { 83 } else { 115 })),
            0x20 => Some(Key::Char(if shift { 68 } else { 100 })),
            0x21 => Some(Key::Char(if shift { 70 } else { 102 })),
            0x22 => Some(Key::Char(if shift { 71 } else { 103 })),
            0x23 => Some(Key::Char(if shift { 72 } else { 104 })),
            0x24 => Some(Key::Char(if shift { 74 } else { 106 })),
            0x25 => Some(Key::Char(if shift { 75 } else { 107 })),
            0x26 => Some(Key::Char(if shift { 76 } else { 108 })),
            0x27 => Some(Key::Char(if shift { 58 } else { 59 })),
            0x28 => Some(Key::Char(if shift { 34 } else { 39 })),
            0x29 => Some(Key::Char(if shift { 126 } else { 96 })),
            0x2A => Some(Key::LShift),
            0x2B => Some(Key::Char(if shift { 124 } else { 92 })),
            0x2C => Some(Key::Char(if shift { 90 } else { 122 })),
            0x2D => Some(Key::Char(if shift { 88 } else { 120 })),
            0x2E => Some(Key::Char(if shift { 67 } else { 99 })),
            0x2F => Some(Key::Char(if shift { 86 } else { 118 })),
            0x30 => Some(Key::Char(if shift { 66 } else { 98 })),
            0x31 => Some(Key::Char(if shift { 78 } else { 110 })),
            0x32 => Some(Key::Char(if shift { 77 } else { 109 })),
            0x33 => Some(Key::Char(if shift { 60 } else { 44 })),
            0x34 => Some(Key::Char(if shift { 62 } else { 46 })),
            0x35 => Some(Key::Char(if shift { 63 } else { 47 })),
            0x36 => Some(Key::RShift),
            0x38 => Some(Key::Alt),
            0x39 => Some(Key::Space),
            0x3B => Some(Key::F1),
            0x3C => Some(Key::F2),
            0x3D => Some(Key::F3),
            0x3E => Some(Key::F4),
            0x3F => Some(Key::F5),
            0x40 => Some(Key::F6),
            0x41 => Some(Key::F7),
            0x42 => Some(Key::F8),
            0x43 => Some(Key::F9),
            0x44 => Some(Key::F10),
            0x47 => Some(Key::Home),
            0x48 => Some(Key::Up),
            0x49 => Some(Key::PgUp),
            0x4B => Some(Key::Left),
            0x4D => Some(Key::Right),
            0x4F => Some(Key::End),
            0x50 => Some(Key::Down),
            0x51 => Some(Key::PgDown),
            0x53 => Some(Key::Suppr),
            0x57 => Some(Key::F11),
            0x58 => Some(Key::F12),
            0x5B => Some(Key::Super),
            _ => None,
        }
    }

    /// The text byte of the key: newline for enter, space for the space
    /// bar, the character itself for a printable key, nothing otherwise.
    pub fn into_char(self) -> (r: Option<u8>)
        ensures
            r == match self {
                Key::Enter => Some(10),
                Key::Space => Some(32),
                Key::Char(c) => Some(c),
                _ => None::<u8>,
            },
    {
        match self {
            Key::Enter => Some(10),
            Key::Space => Some(32),
            Key::Char(c) => Some(c),
            _ => None,
        }
    }
}

/// The state of the two shift keys; a scan code is decoded shifted while
/// either is held down.
#[derive(Clone, Copy, Debug, PartialEq, Eq, Structural)]
pub struct Modifiers {
    pub l_shift: bool,
    pub r_shift: bool,
}

impl Modifiers {
    /// Both shift keys start released.
    pub fn new() -> (m: Modifiers)
        ensures
            !m.l_shift && !m.r_shift,
    {
        Modifiers { l_shift: false, r_shift: false }
    }

    /// Whether a shift key is held down.
    pub fn shift(&self) -> (r: bool)
        ensures
            r == (self.l_shift || self.r_shift),
    {
        self.l_shift || self.r_shift
    }

    /// Tracks a raw scan code: a press or release of a shift key updates
    /// that key's state (the high bit of the code is the released bit);
    /// every other code leaves the state unchanged.
    pub fn receive_scan(&mut self, scan: u8)
        ensures
            final(self).l_shift == if spec_key_of((scan & 0x7F) as u8, false) == Some(Key::LShift) {
                scan & 0x80 == 0
            } else {
                old(self).l_shift
            },
            final(self).r_shift == if spec_key_of((scan & 0x7F) as u8, false) == Some(Key::RShift) {
                scan & 0x80 == 0
            } else {
                old(self).r_shift
            },
    {
        let is_pressed = (scan & 0x80) == 0;
        match Key::from_scan(scan, false) {
            Some(Key::LShift) => self.l_shift = is_pressed,
            Some(Key::RShift) => self.r_shift = is_pressed,
            _ => (),
        }
    }
}

/// Capacity of the scan-code FIFO.
pub const SCAN_BUFFER_SIZE: usize = 16;

/// Circular buffer of pending scan codes, filled by the keyboard interrupt
/// and drained by the GETKEY system call.
///
/// `read` and `write` chase each other around a fixed ring; `overlap` set
/// means the writer has caught up with the reader and the ring is full.
#[derive(Debug)]
pub struct ScanBuffer {
    read: u8,
    write: u8,
    overlap: bool,
    buffer: Vec<u8>,
}

impl ScanBuffer {
    /// The ring is as long as its capacity and both cursors stay inside it.
    pub closed spec fn wf(&self) -> bool {
        &&& self.buffer@.len() == SCAN_BUFFER_SIZE
        &&& self.read < SCAN_BUFFER_SIZE
        &&& self.write < SCAN_BUFFER_SIZE
        &&& (self.overlap ==> self.read == self.write)
    }

    /// How many scan codes are queued.
    pub closed spec fn count(&self) -> int {
        if self.overlap {
            SCAN_BUFFER_SIZE as int
        } else if self.write >= self.read {
            self.write - self.read
        } else {
            self.write + SCAN_BUFFER_SIZE - self.read
        }
    }

    /// The queued scan codes, oldest first.
    pub closed spec fn pending(&self) -> Seq<u8> {
        Seq::new(self.count() as nat, |i: int| self.buffer@[(self.read + i) % (SCAN_BUFFER_SIZE as int)])
    }

    /// The count of queued scan codes is the length of the queue.
    pub proof fn lemma_count_is_pending_len(&self)
        requires
            self.wf(),
        ensures
            self.count() == self.pending().len(),
            0 <= self.count() <= SCAN_BUFFER_SIZE,
    {
    }

    /// An empty ring.
    pub fn new() -> (b: ScanBuffer)
        ensures
            b.wf(),
            b.count() == 0,
            b.pending() == Seq::<u8>::empty(),
    {
        let mut buffer: Vec<u8> = Vec::new();
        let mut i: usize = 0;
        while i < SCAN_BUFFER_SIZE
            invariant
                i <= SCAN_BUFFER_SIZE,
                buffer@.len() == i,
            decreases SCAN_BUFFER_SIZE - i,
        {
            buffer.push(0);
            i += 1;
        }
        let b = ScanBuffer { read: 0, write: 0, overlap: false, buffer };
        proof {
            assert(b.pending() =~= Seq::<u8>::empty());
        }
        b
    }

    /// Whether the ring is full: the next write would be refused.
    pub fn is_full(&self) -> (r: bool)
        requires
            self.wf(),
        ensures
            r == (self.count() == SCAN_BUFFER_SIZE),
    {
        self.overlap
    }

    /// Whether no scan code is queued.
    pub fn is_empty(&self) -> (r: bool)
        requires
            self.wf(),
        ensures
            r == (self.count() == 0),
    {
        !self.overlap && self.read == self.write
    }

    /// Queues the scan code at the tail of the ring, or returns false,
    /// changing nothing, when the ring is full.
    pub fn write(&mut self, scan: u8) -> (r: bool)
        requires
            old(self).wf(),
        ensures
            final(self).wf(),
            r == (old(self).count() < SCAN_BUFFER_SIZE),
            r ==> final(self).pending() == old(self).pending().push(scan),
            !r ==> *final(self) == *old(self),
    {
        if self.is_full() {
            false
        } else {
            let ghost before = *self;
            let w = self.write as usize;
            self.buffer[w] = scan;
            self.write = ((self.write as usize + 1) % SCAN_BUFFER_SIZE) as u8;
            self.overlap = self.write == self.read;
            proof {
                assert(self.count() == before.count() + 1);
                assert forall|i: int| 0 <= i < self.count() implies self.pending()[i] == before.pending().push(scan)[i] by {
                    let n = SCAN_BUFFER_SIZE as int;
                    assert((before.read + i) % n == if before.read + i < n { before.read + i } else { before.read + i - n });
                }
                assert(self.pending() =~= before.pending().push(scan));
            }
            true
        }
    }

    /// Pops the oldest queued scan code, or returns nothing when the ring
    /// is empty.
    pub fn read(&mut self) -> (r: Option<u8>)
        requires
            old(self).wf(),
        ensures
            final(self).wf(),
            old(self).count() == 0 ==> r is None && *final(self) == *old(self),
            old(self).count() > 0 ==> r == Some(old(self).pending()[0])
                && final(self).pending() == old(self).pending().drop_first(),
    {
        if self.is_empty() {
            None
        } else {
            let ghost before = *self;
            let scan = self.buffer[self.read as usize];
            self.read = ((self.read as usize + 1) % SCAN_BUFFER_SIZE) as u8;
            self.overlap = false;
            proof {
                assert(self.count() == before.count() - 1);
                assert forall|i: int| 0 <= i < self.count() implies self.pending()[i] == before.pending().drop_first()[i] by {
                    let n = SCAN_BUFFER_SIZE as int;
                    assert((before.read + (i + 1)) % n == (self.read + i) % n);
                }
                assert(self.pending() =~= before.pending().drop_first());
            }
            Some(scan)
        }
    }
}

/// Queues a scan code delivered by the keyboard interrupt; a code that
/// arrives while the ring is full is dropped.
pub fn receive_scan(buffer: &mut ScanBuffer, scan: u8)
    requires
        old(buffer).wf(),
    ensures
        final(buffer).wf(),
        old(buffer).count() < SCAN_BUFFER_SIZE ==> final(buffer).pending() == old(buffer).pending().push(scan),
        old(buffer).count() == SCAN_BUFFER_SIZE ==> *final(buffer) == *old(buffer),
{
    buffer.write(scan);
}

} // verus!
