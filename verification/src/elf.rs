//! Decoding and checking of 32-bit ELF objects: the header, its
//! validation, and the program-header table that names the loadable
//! segments.

use vstd::prelude::*;
use crate::io::SeekFrom;
use crate::kfs::reader::DataBlockReader;
use crate::kfs::{read_le_u16, read_le_u32, spec_le_u16, spec_le_u32};

verus! {

/// Size of the identification field at the start of the header.
pub const EI_NIDENT: usize = 16;

/// Size of the 32-bit header.
pub const ELF32_HEADER_SIZE: usize = 52;

/// Size of one 32-bit program header.
pub const ELF32_PHDR_SIZE: usize = 32;

/// Segment type of a loadable segment.
pub const PT_LOAD: u32 = 1;

/// Flag bit of an executable segment.
pub const PF_X: u32 = 0b001;

/// Flag bit of a writable segment.
pub const PF_W: u32 = 0b010;

/// Flag bit of a readable segment.
pub const PF_R: u32 = 0b100;

/// Why an object was rejected.
#[derive(Clone, Copy, Debug, PartialEq, Eq, Structural)]
pub enum Error {
    /// The file is not an ELF object: wrong magic, or too small for the
    /// header.
    NotAnELF,
    /// The file is probably too small, or an offset runs out of it.
    OutOfBounds,
    /// A value of the header is unknown.
    UnknownElf,
}

/// The word width of an object; only the 32-bit class is served.
#[derive(Clone, Copy, Debug, PartialEq, Eq, Structural)]
pub enum ElfClass {
    Class32,
}

impl ElfClass {
    /// Decodes the class byte of the identification field.
    pub fn try_from(value: u8) -> (r: Result<ElfClass, Error>)
        ensures
            value == 1 ==> r == Ok::<ElfClass, Error>(ElfClass::Class32),
            value != 1 ==> r == Err::<ElfClass, Error>(Error::UnknownElf),
    {
        match value {
            1 => Ok(ElfClass::Class32),
            _ => Err(Error::UnknownElf),
        }
    }
}

/// The byte order of an object; only least-significant-first is served.
#[derive(Clone, Copy, Debug, PartialEq, Eq, Structural)]
pub enum ElfEncoding {
    Lsb,
}

impl ElfEncoding {
    /// Decodes the encoding byte of the identification field.
    pub fn try_from(value: u8) -> (r: Result<ElfEncoding, Error>)
        ensures
            value == 1 ==> r == Ok::<ElfEncoding, Error>(ElfEncoding::Lsb),
            value != 1 ==> r == Err::<ElfEncoding, Error>(Error::UnknownElf),
    {
        match value {
            1 => Ok(ElfEncoding::Lsb),
            _ => Err(Error::UnknownElf),
        }
    }
}

/// The kind of object the file holds.
#[derive(Clone, Copy, Debug, PartialEq, Eq, Structural)]
pub enum ElfType {
    NoType,
    Rel,
    Exec,
    Dyn,
    Core,
    Num,
}

impl ElfType {
    /// Decodes the object-type field of the header.
    pub fn try_from(value: u16) -> (r: Result<ElfType, Error>)
        ensures
            r is Ok <==> value <= 5,
            value == 2 ==> r == Ok::<ElfType, Error>(ElfType::Exec),
            value > 5 ==> r == Err::<ElfType, Error>(Error::UnknownElf),
    {
        match value {
            0 => Ok(ElfType::NoType),
            1 => Ok(ElfType::Rel),
            2 => Ok(ElfType::Exec),
            3 => Ok(ElfType::Dyn),
            4 => Ok(ElfType::Core),
            5 => Ok(ElfType::Num),
            _ => Err(Error::UnknownElf),
        }
    }
}

/// The 32-bit header of an object.
#[derive(Debug)]
pub struct Elf32Header {
    /// The identification field: magic, class, encoding, version.
    pub ident: Vec<u8>,
    pub typ: u16,
    pub machine: u16,
    pub version: u32,
    /// Entry-point address of the object.
    pub entry: u32,
    /// Offset of the program-header table in the file.
    pub phoff: u32,
    /// Offset of the section-header table in the file.
    pub shoff: u32,
    pub flags: u32,
    pub ehsize: u16,
    /// Size of one program header.
    pub phentsize: u16,
    /// Number of program headers.
    pub phnum: u16,
    /// Size of one section header.
    pub shentsize: u16,
    /// Number of section headers.
    pub shnum: u16,
    pub shstrndx: u16,
}

/// The mathematical value of a header.
#[verifier::ext_equal]
pub ghost struct ElfHeaderView {
    pub ident: Seq<u8>,
    pub typ: u16,
    pub machine: u16,
    pub version: u32,
    pub entry: u32,
    pub phoff: u32,
    pub shoff: u32,
    pub flags: u32,
    pub ehsize: u16,
    pub phentsize: u16,
    pub phnum: u16,
    pub shentsize: u16,
    pub shnum: u16,
    pub shstrndx: u16,
}

impl View for Elf32Header {
    type V = ElfHeaderView;

    open spec fn view(&self) -> ElfHeaderView {
        ElfHeaderView {
            ident: self.ident@,
            typ: self.typ,
            machine: self.machine,
            version: self.version,
            entry: self.entry,
            phoff: self.phoff,
            shoff: self.shoff,
            flags: self.flags,
            ehsize: self.ehsize,
            phentsize: self.phentsize,
            phnum: self.phnum,
            shentsize: self.shentsize,
            shnum: self.shnum,
            shstrndx: self.shstrndx,
        }
    }
}

/// The header record stored at the start of the file.
pub open spec fn spec_parse_header(b: Seq<u8>) -> ElfHeaderView {
    ElfHeaderView {
        ident: b.subrange(0, 16),
        typ: spec_le_u16(b, 16),
        machine: spec_le_u16(b, 18),
        version: spec_le_u32(b, 20),
        entry: spec_le_u32(b, 24),
        phoff: spec_le_u32(b, 28),
        shoff: spec_le_u32(b, 32),
        flags: spec_le_u32(b, 36),
        ehsize: spec_le_u16(b, 40),
        phentsize: spec_le_u16(b, 42),
        phnum: spec_le_u16(b, 44),
        shentsize: spec_le_u16(b, 46),
        shnum: spec_le_u16(b, 48),
        shstrndx: spec_le_u16(b, 50),
    }
}

/// Decodes the header record at the start of `b`.
pub fn parse_header(b: &Vec<u8>) -> (r: Elf32Header)
    requires
        b@.len() >= ELF32_HEADER_SIZE,
    ensures
        r@ == spec_parse_header(b@),
{
    let ident = crate::strings::copy_range(b, 0, 16);
    let r = Elf32Header {
        ident,
        typ: read_le_u16(b, 16),
        machine: read_le_u16(b, 18),
        version: read_le_u32(b, 20),
        entry: read_le_u32(b, 24),
        phoff: read_le_u32(b, 28),
        shoff: read_le_u32(b, 32),
        flags: read_le_u32(b, 36),
        ehsize: read_le_u16(b, 40),
        phentsize: read_le_u16(b, 42),
        phnum: read_le_u16(b, 44),
        shentsize: read_le_u16(b, 46),
        shnum: read_le_u16(b, 48),
        shstrndx: read_le_u16(b, 50),
    };
    proof {
        assert(r@ =~= spec_parse_header(b@));
    }
    r
}

/// A header is sound for a file of `len` bytes: the magic, class,
/// encoding and version are the ones served, the object type is known,
/// each program header has the 32-bit size, and both header tables lie
/// inside the file.
pub open spec fn spec_header_valid(h: ElfHeaderView, len: int) -> bool {
    &&& h.ident.len() == EI_NIDENT
    &&& h.ident[0] == 0x7F && h.ident[1] == 0x45 && h.ident[2] == 0x4C && h.ident[3] == 0x46
    &&& h.ident[4] == 1
    &&& h.ident[5] == 1
    &&& h.ident[6] == 1
    &&& h.typ <= 5
    &&& h.phentsize == ELF32_PHDR_SIZE
    &&& h.phoff + h.phnum * h.phentsize <= len
    &&& h.shoff + h.shnum * h.shentsize <= len
}

/// The error a header check reports when the header is not sound: a
/// wrong magic makes the file no ELF object at all; an unserved class,
/// encoding, version, object type or program-header size is unknown;
/// what remains wrong is a header table past the end of the file.
pub open spec fn spec_header_error(h: ElfHeaderView, len: int) -> Error {
    if !(h.ident[0] == 0x7F && h.ident[1] == 0x45 && h.ident[2] == 0x4C && h.ident[3] == 0x46) {
        Error::NotAnELF
    } else if h.ident[4] != 1 || h.ident[5] != 1 || h.ident[6] != 1 || h.typ > 5 || h.phentsize
        != ELF32_PHDR_SIZE {
        Error::UnknownElf
    } else {
        Error::OutOfBounds
    }
}

impl Elf32Header {
    /// Checks the header against the file's size.
    pub fn validate(&self, len: usize) -> (r: Result<(), Error>)
        requires
            self.ident@.len() == EI_NIDENT,
        ensures
            r is Ok <==> spec_header_valid(self@, len as int),
            r is Err ==> r == Err::<(), Error>(spec_header_error(self@, len as int)),
    {
        if !(self.ident[0] == 0x7F && self.ident[1] == 0x45 && self.ident[2] == 0x4C
            && self.ident[3] == 0x46) {
            return Err(Error::NotAnELF);
        }
        if let Err(e) = ElfClass::try_from(self.ident[4]) {
            return Err(e);
        }
        if let Err(e) = ElfEncoding::try_from(self.ident[5]) {
            return Err(e);
        }
        if self.ident[6] != 1 {
            return Err(Error::UnknownElf);
        }
        if let Err(e) = ElfType::try_from(self.typ) {
            return Err(e);
        }
        if self.phentsize as usize != ELF32_PHDR_SIZE {
            return Err(Error::UnknownElf);
        }
        proof {
            let pn = self.phnum as u64;
            let pe = self.phentsize as u64;
            let sn = self.shnum as u64;
            let se = self.shentsize as u64;
            assert(pn <= 0xFFFF && pe <= 0xFFFF ==> pn * pe <= 0xFFFF * 0xFFFF)
                by (nonlinear_arith);
            assert(sn <= 0xFFFF && se <= 0xFFFF ==> sn * se <= 0xFFFF * 0xFFFF)
                by (nonlinear_arith);
        }
        if self.phoff as u64 + self.phnum as u64 * self.phentsize as u64 > len as u64 {
            return Err(Error::OutOfBounds);
        }
        if self.shoff as u64 + self.shnum as u64 * self.shentsize as u64 > len as u64 {
            return Err(Error::OutOfBounds);
        }
        Ok(())
    }
}

/// One 32-bit program header: a segment of the file and where it lives
/// in memory.
#[derive(Clone, Copy, Debug, PartialEq, Eq, Structural)]
pub struct Elf32ProgramHeader {
    /// Kind of the segment; only loadable ones are brought into memory.
    pub typ: u32,
    /// Offset of the segment's bytes in the file.
    pub offset: u32,
    /// Virtual address the segment is loaded at.
    pub vaddr: u32,
    pub paddr: u32,
    /// How many bytes the file supplies.
    pub filesz: u32,
    /// How many bytes the segment spans in memory; the tail past the
    /// file's bytes is zero-filled by the loader.
    pub memsz: u32,
    pub flags: u32,
    /// Required alignment of the segment.
    pub align: u32,
}

/// The program-header record stored at `off`.
pub open spec fn spec_parse_phdr(b: Seq<u8>, off: int) -> Elf32ProgramHeader {
    Elf32ProgramHeader {
        typ: spec_le_u32(b, off),
        offset: spec_le_u32(b, off + 4),
        vaddr: spec_le_u32(b, off + 8),
        paddr: spec_le_u32(b, off + 12),
        filesz: spec_le_u32(b, off + 16),
        memsz: spec_le_u32(b, off + 20),
        flags: spec_le_u32(b, off + 24),
        align: spec_le_u32(b, off + 28),
    }
}

/// Decodes the program-header record at `off`.
pub fn parse_phdr(b: &Vec<u8>, off: usize) -> (r: Elf32ProgramHeader)
    requires
        off + ELF32_PHDR_SIZE <= b@.len(),
    ensures
        r == spec_parse_phdr(b@, off as int),
{
    let n = b.len();
    Elf32ProgramHeader {
        typ: read_le_u32(b, off),
        offset: read_le_u32(b, off + 4),
        vaddr: read_le_u32(b, off + 8),
        paddr: read_le_u32(b, off + 12),
        filesz: read_le_u32(b, off + 16),
        memsz: read_le_u32(b, off + 20),
        flags: read_le_u32(b, off + 24),
        align: read_le_u32(b, off + 28),
    }
}

impl Elf32ProgramHeader {
    /// Whether the segment is brought into memory.
    pub fn is_load(&self) -> (r: bool)
        ensures
            r == (self.typ & PT_LOAD != 0),
    {
        self.typ & PT_LOAD != 0
    }

    /// Whether the segment's flags are the data-segment ones.
    pub fn is_data(&self) -> (r: bool)
        ensures
            r == (self.flags == (PF_X & PF_W & PF_R)),
    {
        self.flags == (PF_X & PF_W & PF_R)
    }

    /// Whether the segment's flags are the text-segment ones.
    pub fn is_text(&self) -> (r: bool)
        ensures
            r == (self.flags == (PF_X & PF_R)),
    {
        self.flags == (PF_X & PF_R)
    }
}

/// One 32-bit section header; only its address and size are read.
#[derive(Clone, Copy, Debug, PartialEq, Eq, Structural)]
pub struct Elf32SectionHeader {
    pub name: u32,
    pub typ: u32,
    pub flags: u32,
    /// Address the section lives at.
    pub addr: u32,
    pub offset: u32,
    /// Size of the section in bytes.
    pub size: u32,
    pub link: u32,
    pub info: u32,
    pub addralign: u32,
    pub entsize: u32,
}

/// The program headers of the file whose bytes are `contents`.
pub open spec fn spec_elf_phdrs(contents: Seq<u8>) -> Seq<Elf32ProgramHeader> {
    let h = spec_parse_header(contents.take(ELF32_HEADER_SIZE as int));
    Seq::new(h.phnum as nat, |k: int| spec_parse_phdr(contents, h.phoff + k * ELF32_PHDR_SIZE))
}

/// A decoded object: the validated header, and the reader over the
/// file it came from.
#[derive(Debug)]
pub struct Elf {
    /// The file the object was read from.
    pub reader: DataBlockReader,
    /// The decoded header.
    pub header: Elf32Header,
}

impl Elf {
    /// The reader is sound, the header is the file's own and holds up
    /// against the file's size.
    pub open spec fn wf(&self) -> bool {
        &&& self.reader.wf()
        &&& self.reader@.contents.len() >= ELF32_HEADER_SIZE
        &&& self.header@ == spec_parse_header(self.reader@.contents.take(ELF32_HEADER_SIZE as int))
        &&& spec_header_valid(self.header@, self.reader@.contents.len() as int)
    }

    /// Reads and checks the header of the file; the reader is left at
    /// the start of the file.
    pub fn new(reader: DataBlockReader) -> (r: Result<Elf, Error>)
        requires
            reader.wf(),
        ensures
            r is Ok <==> reader@.contents.len() >= ELF32_HEADER_SIZE && spec_header_valid(
                spec_parse_header(reader@.contents.take(ELF32_HEADER_SIZE as int)),
                reader@.contents.len() as int,
            ),
            r matches Ok(elf) ==> elf.wf() && elf.reader@.contents == reader@.contents,
            reader@.contents.len() < ELF32_HEADER_SIZE ==> r == Err::<Elf, Error>(Error::NotAnELF),
            reader@.contents.len() >= ELF32_HEADER_SIZE && r is Err ==> r == Err::<Elf, Error>(
                spec_header_error(
                    spec_parse_header(reader@.contents.take(ELF32_HEADER_SIZE as int)),
                    reader@.contents.len() as int,
                ),
            ),
    {
        let mut reader = reader;
        proof {
            reader.lemma_wf_offset();
        }
        let _ = reader.seek(SeekFrom::Start(0));
        let bytes = reader.read(ELF32_HEADER_SIZE);
        if bytes.len() < ELF32_HEADER_SIZE {
            return Err(Error::NotAnELF);
        }
        let header = parse_header(&bytes);
        let _ = reader.seek(SeekFrom::Start(0));
        let len = match Elf::len(&mut reader) {
            Ok(len) => len,
            Err(e) => {
                return Err(e);
            }
        };
        proof {
            assert(bytes@ =~= reader@.contents.take(ELF32_HEADER_SIZE as int));
        }
        match header.validate(len) {
            Ok(()) => Ok(Elf { reader, header }),
            Err(e) => Err(e),
        }
    }

    /// The size of the file: found by seeking to its end, with the
    /// cursor restored afterwards.
    pub fn len(reader: &mut DataBlockReader) -> (r: Result<usize, Error>)
        requires
            old(reader).wf(),
        ensures
            final(reader).wf(),
            final(reader)@ == old(reader)@,
            r == Ok::<usize, Error>(old(reader)@.contents.len() as usize),
    {
        proof {
            reader.lemma_wf_offset();
        }
        let pos = match reader.seek(SeekFrom::Current(0)) {
            Ok(pos) => pos,
            Err(()) => {
                return Err(Error::OutOfBounds);
            }
        };
        let size = match reader.seek(SeekFrom::End(0)) {
            Ok(size) => size,
            Err(()) => {
                return Err(Error::OutOfBounds);
            }
        };
        match reader.seek(SeekFrom::Start(pos)) {
            Ok(_) => {
                proof {
                    assert(reader@ =~= old(reader)@);
                }
                Ok(size)
            }
            Err(()) => Err(Error::OutOfBounds),
        }
    }

    /// The object's entry-point address.
    pub fn entry_point(&self) -> (r: usize)
        ensures
            r == self.header@.entry,
    {
        self.header.entry as usize
    }

    /// Decodes the program-header table.
    pub fn program_headers(&mut self) -> (r: Vec<Elf32ProgramHeader>)
        requires
            old(self).wf(),
        ensures
            final(self).wf(),
            final(self).reader@.contents == old(self).reader@.contents,
            final(self).header@ == old(self).header@,
            r@ == spec_elf_phdrs(old(self).reader@.contents),
    {
        let ghost contents = self.reader@.contents;
        let phnum = self.header.phnum as usize;
        let phoff = self.header.phoff as usize;
        let mut out: Vec<Elf32ProgramHeader> = Vec::new();
        let mut k: usize = 0;
        while k < phnum
            invariant
                k <= phnum,
                self.wf(),
                self.reader@.contents == contents,
                self.header@ == old(self).header@,
                phnum == self.header@.phnum,
                phoff == self.header@.phoff,
                phoff + phnum * ELF32_PHDR_SIZE <= contents.len(),
                out@.len() == k,
                forall|j: int| 0 <= j < k ==> #[trigger] out@[j] == spec_parse_phdr(
                    contents,
                    phoff + j * ELF32_PHDR_SIZE,
                ),
            decreases phnum - k,
        {
            proof {
                self.reader.lemma_wf_offset();
                assert((k + 1) * ELF32_PHDR_SIZE <= phnum * ELF32_PHDR_SIZE) by (nonlinear_arith)
                    requires k + 1 <= phnum;
                assert(k * ELF32_PHDR_SIZE + ELF32_PHDR_SIZE == (k + 1) * ELF32_PHDR_SIZE)
                    by (nonlinear_arith);
            }
            let off = phoff + k * ELF32_PHDR_SIZE;
            let _ = self.reader.seek(SeekFrom::Start(off));
            let bytes = self.reader.read(ELF32_PHDR_SIZE);
            proof {
                assert(bytes@ =~= contents.subrange(off as int, off + ELF32_PHDR_SIZE));
                assert(forall|j: int| 0 <= j < ELF32_PHDR_SIZE ==> #[trigger] bytes@[j]
                    == contents[off + j]);
            }
            let phdr = parse_phdr(&bytes, 0);
            proof {
                assert(phdr =~= spec_parse_phdr(contents, off as int));
            }
            out.push(phdr);
            k += 1;
        }
        proof {
            assert(out@ =~= spec_elf_phdrs(contents));
        }
        out
    }
}

/// Decodes a program-header table up front and hands its entries out
/// one by one.
#[derive(Debug)]
pub struct ElfProgramHeaderIterator {
    headers: Vec<Elf32ProgramHeader>,
    entry: usize,
}

impl ElfProgramHeaderIterator {
    /// The cursor stays within the table.
    pub closed spec fn wf(&self) -> bool {
        self.entry <= self.headers@.len()
    }

    /// The entries not yet handed out.
    pub closed spec fn remaining(&self) -> Seq<Elf32ProgramHeader> {
        self.headers@.skip(self.entry as int)
    }

    /// Decodes the whole table of the object.
    pub fn new(elf: &mut Elf) -> (r: ElfProgramHeaderIterator)
        requires
            old(elf).wf(),
        ensures
            final(elf).wf(),
            r.wf(),
            final(elf).reader@.contents == old(elf).reader@.contents,
            r.remaining() == spec_elf_phdrs(old(elf).reader@.contents),
    {
        let headers = elf.program_headers();
        let r = ElfProgramHeaderIterator { headers, entry: 0 };
        proof {
            assert(r.remaining() =~= spec_elf_phdrs(old(elf).reader@.contents));
        }
        r
    }

    /// The next entry, or nothing when the table is exhausted.
    pub fn next(&mut self) -> (r: Option<Elf32ProgramHeader>)
        requires
            old(self).wf(),
        ensures
            final(self).wf(),
            old(self).remaining().len() == 0 ==> r is None && final(self).remaining()
                == old(self).remaining(),
            old(self).remaining().len() > 0 ==> r == Some(old(self).remaining()[0]) && final(self).remaining() == old(self).remaining().drop_first(),
    {
        if self.entry < self.headers.len() {
            let phdr = self.headers[self.entry];
            self.entry += 1;
            proof {
                assert(self.remaining() =~= old(self).remaining().drop_first());
            }
            Some(phdr)
        } else {
            proof {
                assert(self.remaining() =~= old(self).remaining());
            }
            None
        }
    }
}

} // verus!
