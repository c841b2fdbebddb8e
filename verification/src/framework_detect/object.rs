//! What the headers of an executable say it links. Only two formats tell: Mach-O
//! and PE. goblin reads both.

use crate::text::texts;
use vstd::prelude::*;

verus! {

/// An executable as its headers describe it.
#[derive(Debug)]
pub enum ObjectFile {
    /// A Mach-O file for one architecture, with the libraries it links.
    MachBinary(Vec<String>),
    /// A Mach-O file for several architectures.
    MachFat,
    /// A PE file, with the library of each of its imports.
    Pe(Vec<String>),
    /// Anything else, unreadable files included.
    Other,
}

/// What an [`ObjectFile`] holds.
pub enum ObjectView {
    MachBinary(Seq<Seq<char>>),
    MachFat,
    Pe(Seq<Seq<char>>),
    Other,
}

impl View for ObjectFile {
    type V = ObjectView;

    open spec fn view(&self) -> ObjectView {
        match self {
            ObjectFile::MachBinary(libs) => ObjectView::MachBinary(texts(libs@)),
            ObjectFile::MachFat => ObjectView::MachFat,
            ObjectFile::Pe(dlls) => ObjectView::Pe(texts(dlls@)),
            ObjectFile::Other => ObjectView::Other,
        }
    }
}

// ---------------------------------------------------------------------------
// Numbers in a file
// ---------------------------------------------------------------------------

/// The four bytes from `at` on, read as a number.
pub open spec fn word_at(b: Seq<u8>, at: int, little: bool) -> int {
    if little {
        b[at] + 0x100 * b[at + 1] + 0x10000 * b[at + 2] + 0x1000000 * b[at + 3]
    } else {
        b[at + 3] + 0x100 * b[at + 2] + 0x10000 * b[at + 1] + 0x1000000 * b[at]
    }
}

/// The eight bytes from `at` on, read as a number.
pub open spec fn long_at(b: Seq<u8>, at: int, little: bool) -> int {
    if little {
        word_at(b, at, little) + 0x100000000 * word_at(b, at + 4, little)
    } else {
        word_at(b, at + 4, little) + 0x100000000 * word_at(b, at, little)
    }
}

fn read_word(b: &[u8], at: usize, little: bool) -> (r: u32)
    requires
        at + 4 <= b@.len(),
    ensures
        r == word_at(b@, at as int, little),
{
    let (a, c, d, e) = (b[at] as u32, b[at + 1] as u32, b[at + 2] as u32, b[at + 3] as u32);
    if little {
        a + 0x100 * c + 0x10000 * d + 0x1000000 * e
    } else {
        e + 0x100 * d + 0x10000 * c + 0x1000000 * a
    }
}

fn read_long(b: &[u8], at: usize, little: bool) -> (r: u64)
    requires
        at + 8 <= b@.len(),
    ensures
        r == long_at(b@, at as int, little),
{
    assert(at + 8 <= b.len());
    let first: u64 = read_word(b, at, little) as u64;
    let second: u64 = read_word(b, at + 4, little) as u64;
    if little {
        first + 0x100000000 * second
    } else {
        second + 0x100000000 * first
    }
}

// ---------------------------------------------------------------------------
// Mach-O
// ---------------------------------------------------------------------------

/// The first four bytes of the two kinds of Mach-O file and their byte orders.
pub const THIN_32: u32 = 0xfeedface;

pub const THIN_32_LITTLE: u32 = 0xcefaedfe;

pub const THIN_64: u32 = 0xfeedfacf;

pub const THIN_64_LITTLE: u32 = 0xcffaedfe;

pub const FAT: u32 = 0xcafebabe;

/// The load commands that place the program's text and its entry.
pub const COMMAND_SEGMENT: u32 = 0x1;

pub const COMMAND_SEGMENT_64: u32 = 0x19;

pub const COMMAND_MAIN: u32 = 0x80000028;

/// The file is a Mach-O file for one architecture.
pub open spec fn thin(b: Seq<u8>) -> bool {
    let magic = word_at(b, 0, false);
    magic == THIN_32 || magic == THIN_32_LITTLE || magic == THIN_64 || magic == THIN_64_LITTLE
}

/// The file stores its numbers with the lowest byte first.
pub open spec fn thin_little(b: Seq<u8>) -> bool {
    let magic = word_at(b, 0, false);
    magic == THIN_32_LITTLE || magic == THIN_64_LITTLE
}

/// Where the load commands of the file start.
pub open spec fn commands_at(b: Seq<u8>) -> int {
    let magic = word_at(b, 0, false);
    if magic == THIN_64 || magic == THIN_64_LITTLE {
        32
    } else {
        28
    }
}

/// The segment at `at` is the one that holds the program's text.
pub open spec fn named_text(b: Seq<u8>, at: int) -> bool {
    &&& b[at + 8] == 0x5f
    &&& b[at + 9] == 0x5f
    &&& b[at + 10] == 0x54
    &&& b[at + 11] == 0x45
    &&& b[at + 12] == 0x58
    &&& b[at + 13] == 0x54
    &&& b[at + 14] == 0
}

/// Where the text segment that the command at `at` places stands in memory and in
/// the file.
pub open spec fn text_at(b: Seq<u8>, little: bool, at: int) -> Option<(int, int)> {
    let command = word_at(b, at, little);
    if command == COMMAND_SEGMENT && at + 56 <= b.len() && named_text(b, at) {
        Some((word_at(b, at + 24, little), word_at(b, at + 32, little)))
    } else if command == COMMAND_SEGMENT_64 && at + 72 <= b.len() && named_text(b, at) {
        Some((long_at(b, at + 24, little), long_at(b, at + 40, little)))
    } else {
        None
    }
}

/// How far into the text the command at `at` places the program's entry.
pub open spec fn main_at(b: Seq<u8>, little: bool, at: int) -> Option<int> {
    if word_at(b, at, little) == COMMAND_MAIN && at + 24 <= b.len() {
        Some(long_at(b, at + 8, little))
    } else {
        None
    }
}

/// A command starts at `at` and ends inside the file.
pub open spec fn command_fits(b: Seq<u8>, little: bool, at: int) -> bool {
    at + 8 <= b.len() && at + word_at(b, at + 4, little) <= b.len()
}

/// The first text segment among `n` commands from `at` on.
pub open spec fn first_text(b: Seq<u8>, little: bool, at: int, n: nat) -> Option<(int, int)>
    decreases n,
{
    if n == 0 || !command_fits(b, little, at) {
        None
    } else if text_at(b, little, at) is Some {
        text_at(b, little, at)
    } else {
        first_text(b, little, at + word_at(b, at + 4, little), (n - 1) as nat)
    }
}

/// The first entry among `n` commands from `at` on.
pub open spec fn first_main(b: Seq<u8>, little: bool, at: int, n: nat) -> Option<int>
    decreases n,
{
    if n == 0 || !command_fits(b, little, at) {
        None
    } else if main_at(b, little, at) is Some {
        main_at(b, little, at)
    } else {
        first_main(b, little, at + word_at(b, at + 4, little), (n - 1) as nat)
    }
}

/// The address of the entry, where there is one, can be told in 64 bits.
pub open spec fn address_fits(main: Option<int>, text: Option<(int, int)>) -> bool {
    match (main, text) {
        (Some(entry), Some((memory, file))) => file <= memory && memory - file + entry <= u64::MAX,
        _ => true,
    }
}

/// The address of the program's entry, as the load commands place it, can be told
/// in 64 bits. A file for several architectures places none, and neither does one
/// whose header counts more commands than it has room for.
pub open spec fn entry_fits(b: Seq<u8>) -> bool {
    let little = thin_little(b);
    let n = word_at(b, 16, little);
    let size = word_at(b, 20, little);
    b.len() >= 32 && thin(b) && n <= size / 8 && size <= b.len() ==> address_fits(
        first_main(b, little, commands_at(b), n as nat),
        first_text(b, little, commands_at(b), n as nat),
    )
}

fn find_text(b: &[u8], little: bool, start: usize, n: u32) -> (r: Option<(u64, u64)>)
    requires
        start <= b@.len(),
    ensures
        match (r, first_text(b@, little, start as int, n as nat)) {
            (Some((m, f)), Some((memory, file))) => m == memory && f == file,
            (None, None) => true,
            _ => false,
        },
{
    let mut at: usize = start;
    let mut left: u32 = n;
    while left > 0
        invariant
            at <= b@.len(),
            first_text(b@, little, start as int, n as nat) == first_text(
                b@,
                little,
                at as int,
                left as nat,
            ),
        decreases left,
    {
        if b.len() - at < 8 {
            return None;
        }
        let size: usize = read_word(b, at + 4, little) as usize;
        if size > b.len() - at {
            return None;
        }
        let command: u32 = read_word(b, at, little);
        let room: usize = b.len() - at;
        let segment = command == COMMAND_SEGMENT && room >= 56;
        let segment_64 = command == COMMAND_SEGMENT_64 && room >= 72;
        if (segment || segment_64) && b[at + 8] == 0x5f && b[at + 9] == 0x5f && b[at + 10] == 0x54
            && b[at + 11] == 0x45 && b[at + 12] == 0x58 && b[at + 13] == 0x54 && b[at + 14] == 0 {
            if segment {
                return Some(
                    (read_word(b, at + 24, little) as u64, read_word(b, at + 32, little) as u64),
                );
            }
            return Some((read_long(b, at + 24, little), read_long(b, at + 40, little)));
        }
        at = at + size;
        left = left - 1;
    }
    None
}

fn find_main(b: &[u8], little: bool, start: usize, n: u32) -> (r: Option<u64>)
    requires
        start <= b@.len(),
    ensures
        match (r, first_main(b@, little, start as int, n as nat)) {
            (Some(e), Some(entry)) => e == entry,
            (None, None) => true,
            _ => false,
        },
{
    let mut at: usize = start;
    let mut left: u32 = n;
    while left > 0
        invariant
            at <= b@.len(),
            first_main(b@, little, start as int, n as nat) == first_main(
                b@,
                little,
                at as int,
                left as nat,
            ),
        decreases left,
    {
        if b.len() - at < 8 {
            return None;
        }
        let size: usize = read_word(b, at + 4, little) as usize;
        if size > b.len() - at {
            return None;
        }
        if read_word(b, at, little) == COMMAND_MAIN && b.len() - at >= 24 {
            return Some(read_long(b, at + 8, little));
        }
        at = at + size;
        left = left - 1;
    }
    None
}

/// The entry of a Mach-O file has an address.
pub fn has_entry_address(b: &[u8]) -> (r: bool)
    ensures
        r == entry_fits(b@),
{
    if b.len() < 32 {
        return true;
    }
    let magic: u32 = read_word(b, 0, false);
    let wide = magic == THIN_64 || magic == THIN_64_LITTLE;
    let little = magic == THIN_32_LITTLE || magic == THIN_64_LITTLE;
    let narrow = magic == THIN_32 || magic == THIN_32_LITTLE;
    if !(wide || narrow) {
        return true;
    }
    let n: u32 = read_word(b, 16, little);
    let size: u32 = read_word(b, 20, little);
    if n > size / 8 || size as usize > b.len() {
        return true;
    }
    let start: usize = if wide {
        32
    } else {
        28
    };
    match (find_main(b, little, start, n), find_text(b, little, start, n)) {
        (Some(entry), Some((memory, file))) => {
            file <= memory && entry <= u64::MAX - (memory - file)
        },
        _ => true,
    }
}

/// The bytes without the entries among `n` commands from `at` on: the mark by which a
/// command must be known is taken off each, which makes it one of no meaning.
pub open spec fn without_mains(b: Seq<u8>, little: bool, at: int, n: nat) -> Seq<u8>
    decreases n,
{
    if n == 0 || !command_fits(b, little, at) {
        b
    } else {
        let rest = if main_at(b, little, at) is Some {
            b.update(
                if little {
                    at + 3
                } else {
                    at
                },
                0,
            )
        } else {
            b
        };
        without_mains(rest, little, at + word_at(b, at + 4, little), (n - 1) as nat)
    }
}

/// A Mach-O file without its entry, where the address of that cannot be told. It links
/// what it linked before.
pub open spec fn without_entry(b: Seq<u8>) -> Seq<u8> {
    if entry_fits(b) {
        b
    } else {
        let little = thin_little(b);
        without_mains(b, little, commands_at(b), word_at(b, 16, little) as nat)
    }
}

/// A Mach-O file without its entry, where the address of that cannot be told.
pub fn drop_entry(b: &[u8]) -> (r: Vec<u8>)
    ensures
        r@ == without_entry(b@),
{
    let mut out: Vec<u8> = Vec::new();
    for i in 0..b.len()
        invariant
            out@ == b@.take(i as int),
    {
        out.push(b[i]);
        assert(out@ =~= b@.take(i + 1));
    }
    assert(out@ =~= b@);
    if has_entry_address(b) {
        return out;
    }
    let magic: u32 = read_word(b, 0, false);
    let little = magic == THIN_32_LITTLE || magic == THIN_64_LITTLE;
    let wide = magic == THIN_64 || magic == THIN_64_LITTLE;
    let mut left: u32 = read_word(b, 16, little);
    let mut at: usize = if wide {
        32
    } else {
        28
    };
    while left > 0
        invariant
            at <= out@.len(),
            without_entry(b@) == without_mains(out@, little, at as int, left as nat),
        decreases left,
    {
        if out.len() - at < 8 {
            return out;
        }
        let size: usize = read_word(out.as_slice(), at + 4, little) as usize;
        if size > out.len() - at {
            return out;
        }
        if read_word(out.as_slice(), at, little) == COMMAND_MAIN && out.len() - at >= 24 {
            let mark: usize = if little {
                at + 3
            } else {
                at
            };
            out.set(mark, 0);
        }
        at = at + size;
        left = left - 1;
    }
    out
}

/// What goblin reads from the bytes of a Mach-O file.
pub uninterp spec fn mach_in(bytes: Seq<u8>) -> ObjectView;

/// `goblin::mach::Mach::parse`: whether the bytes are a Mach-O file for one
/// architecture, with the names of the libraries it links, or one for several.
/// What it finds is a function of the bytes. It adds up the address of the
/// program's entry without a test, so a file whose entry has no address is left
/// out; every other read it makes is tested against the end of the file.
#[verifier::external_body]
fn parse_mach(bytes: &[u8]) -> (r: ObjectFile)
    requires
        entry_fits(bytes@),
    ensures
        r@ == mach_in(bytes@),
{
    match goblin::mach::Mach::parse(bytes) {
        Ok(goblin::mach::Mach::Binary(b)) => {
            ObjectFile::MachBinary(b.libs.iter().map(|l| l.to_string()).collect())
        },
        Ok(goblin::mach::Mach::Fat(_)) => ObjectFile::MachFat,
        Err(_) => ObjectFile::Other,
    }
}

// ---------------------------------------------------------------------------
// PE
// ---------------------------------------------------------------------------

/// Where a table of a PE image stands once it is loaded.
#[derive(Debug, Clone, Copy, PartialEq, Eq, Structural)]
pub struct PeDirectory {
    pub address: u32,
    pub size: u32,
}

/// What the optional header of a PE file says of its thread-local data.
#[derive(Debug, Clone, Copy, PartialEq, Eq, Structural)]
pub struct PeOptional {
    pub magic: u16,
    pub image_base: u64,
    pub file_alignment: u32,
    pub tls: Option<PeDirectory>,
}

/// What the header of a PE file says of the tables that follow it.
#[derive(Debug, Clone, Copy, PartialEq, Eq, Structural)]
pub struct PeHeader {
    /// Where the header stands in the file.
    pub header_at: u32,
    pub optional_size: u16,
    pub sections: u16,
    pub symbols_at: u32,
    pub symbols: u32,
    pub optional: Option<PeOptional>,
}

/// Where a section of a PE file stands in memory and in the file.
#[derive(Debug, Clone, Copy, PartialEq, Eq, Structural)]
pub struct PeSection {
    pub virtual_size: u32,
    pub virtual_address: u32,
    pub raw_size: u32,
    pub raw_at: u32,
}

/// From where to where the initial thread-local data of an image reaches in memory.
#[derive(Debug, Clone, Copy, PartialEq, Eq, Structural)]
pub struct TlsSpan {
    pub start: u64,
    pub end: u64,
}

/// The magic number of an optional header with 64-bit addresses.
pub const PE_WIDE: u16 = 0x20b;

/// What goblin reads from the bytes of a PE file.
pub uninterp spec fn pe_in(bytes: Seq<u8>) -> ObjectView;

/// What goblin reads from the bytes of a PE file as its header.
pub uninterp spec fn pe_header_in(bytes: Seq<u8>) -> Option<PeHeader>;

/// What goblin reads at `at` as the section table that a header with these numbers
/// announces.
pub uninterp spec fn pe_sections_in(
    bytes: Seq<u8>,
    at: int,
    sections: u16,
    symbols_at: u32,
    symbols: u32,
) -> Option<Seq<PeSection>>;

/// Where goblin finds an address of the loaded image in the file.
pub uninterp spec fn pe_offset(address: int, sections: Seq<PeSection>, alignment: u32) -> Option<
    int,
>;

/// What goblin reads of a table of thread-local data with 32-bit addresses.
pub uninterp spec fn tls_span_32(
    bytes: Seq<u8>,
    table: PeDirectory,
    sections: Seq<PeSection>,
    alignment: u32,
) -> Option<TlsSpan>;

/// What goblin reads of a table of thread-local data with 64-bit addresses.
pub uninterp spec fn tls_span_64(
    bytes: Seq<u8>,
    table: PeDirectory,
    sections: Seq<PeSection>,
    alignment: u32,
) -> Option<TlsSpan>;

/// `goblin::pe::header::Header::parse`: the fields of the header that say where
/// the sections and the thread-local data stand, or `None` where it reports an
/// error. What it finds is a function of the bytes.
#[verifier::external_body]
fn parse_pe_header(bytes: &[u8]) -> (r: Option<PeHeader>)
    ensures
        r == pe_header_in(bytes@),
{
    goblin::pe::header::Header::parse(bytes).ok().map(|h| PeHeader {
        header_at: h.dos_header.pe_pointer,
        optional_size: h.coff_header.size_of_optional_header,
        sections: h.coff_header.number_of_sections,
        symbols_at: h.coff_header.pointer_to_symbol_table,
        symbols: h.coff_header.number_of_symbol_table,
        optional: h.optional_header.map(|o| PeOptional {
            magic: o.standard_fields.magic,
            image_base: o.windows_fields.image_base,
            file_alignment: o.windows_fields.file_alignment,
            tls: o.data_directories.get_tls_table().map(
                |d| PeDirectory { address: d.virtual_address, size: d.size }),
        }),
    })
}

/// `goblin::pe::header::CoffHeader::sections`: the section table at `at`, or `None`
/// where it reports an error. It reads three fields of the header it is called on,
/// and what it finds is a function of those, the bytes and the place.
#[verifier::external_body]
fn parse_pe_sections(bytes: &[u8], at: usize, sections: u16, symbols_at: u32, symbols: u32) -> (r:
    Option<Vec<PeSection>>)
    ensures
        match r {
            Some(v) => pe_sections_in(bytes@, at as int, sections, symbols_at, symbols) == Some(v@),
            None => pe_sections_in(bytes@, at as int, sections, symbols_at, symbols) is None,
        },
{
    let mut header = goblin::pe::header::CoffHeader::default();
    header.number_of_sections = sections;
    header.pointer_to_symbol_table = symbols_at;
    header.number_of_symbol_table = symbols;
    let mut offset: usize = at;
    header.sections(bytes, &mut offset).ok().map(|t| t.iter().map(|s| PeSection {
        virtual_size: s.virtual_size,
        virtual_address: s.virtual_address,
        raw_size: s.size_of_raw_data,
        raw_at: s.pointer_to_raw_data,
    }).collect())
}

/// `goblin::pe::utils::find_offset` with the default options: where an address of
/// the loaded image stands in the file. Of a section it reads where it stands, and
/// what it finds is a function of the arguments. This is said of it, and of what
/// calls it, with its debug log off: a line of that log adds up where a section ends.
#[verifier::external_body]
fn find_pe_offset(address: usize, sections: &[PeSection], alignment: u32) -> (r: Option<usize>)
    ensures
        match r {
            Some(at) => pe_offset(address as int, sections@, alignment) == Some(at as int),
            None => pe_offset(address as int, sections@, alignment) is None,
        },
{
    let places: Vec<goblin::pe::section_table::SectionTable> = sections.iter().map(
        |s| goblin::pe::section_table::SectionTable {
            virtual_size: s.virtual_size,
            virtual_address: s.virtual_address,
            size_of_raw_data: s.raw_size,
            pointer_to_raw_data: s.raw_at,
            ..Default::default()
        }).collect();
    let options = goblin::pe::options::ParseOptions::default();
    goblin::pe::utils::find_offset(address, &places, alignment, &options)
}

/// `goblin::pe::tls::ImageTlsDirectory::parse` with 32-bit addresses: from where to
/// where the initial data reaches, or `None` where it reports an error. Of a section
/// it reads where it stands, and what it finds is a function of the arguments.
#[verifier::external_body]
fn parse_tls_32(bytes: &[u8], table: PeDirectory, sections: &[PeSection], alignment: u32) -> (r:
    Option<TlsSpan>)
    ensures
        r == tls_span_32(bytes@, table, sections@, alignment),
{
    let places: Vec<goblin::pe::section_table::SectionTable> = sections.iter().map(
        |s| goblin::pe::section_table::SectionTable {
            virtual_size: s.virtual_size,
            virtual_address: s.virtual_address,
            size_of_raw_data: s.raw_size,
            pointer_to_raw_data: s.raw_at,
            ..Default::default()
        }).collect();
    let at = goblin::pe::data_directories::DataDirectory {
        virtual_address: table.address, size: table.size };
    goblin::pe::tls::ImageTlsDirectory::parse::<u32>(bytes, at, &places, alignment).ok().map(
        |t| TlsSpan { start: t.start_address_of_raw_data, end: t.end_address_of_raw_data })
}

/// `goblin::pe::tls::ImageTlsDirectory::parse` with 64-bit addresses: from where to
/// where the initial data reaches, or `None` where it reports an error. Of a section
/// it reads where it stands, and what it finds is a function of the arguments.
#[verifier::external_body]
fn parse_tls_64(bytes: &[u8], table: PeDirectory, sections: &[PeSection], alignment: u32) -> (r:
    Option<TlsSpan>)
    ensures
        r == tls_span_64(bytes@, table, sections@, alignment),
{
    let places: Vec<goblin::pe::section_table::SectionTable> = sections.iter().map(
        |s| goblin::pe::section_table::SectionTable {
            virtual_size: s.virtual_size,
            virtual_address: s.virtual_address,
            size_of_raw_data: s.raw_size,
            pointer_to_raw_data: s.raw_at,
            ..Default::default()
        }).collect();
    let at = goblin::pe::data_directories::DataDirectory {
        virtual_address: table.address, size: table.size };
    goblin::pe::tls::ImageTlsDirectory::parse::<u64>(bytes, at, &places, alignment).ok().map(
        |t| TlsSpan { start: t.start_address_of_raw_data, end: t.end_address_of_raw_data })
}

/// Where the section table of a PE file stands: behind the optional header, which
/// follows the signature and the header proper.
pub open spec fn sections_at(h: PeHeader) -> int {
    h.header_at + 24 + h.optional_size
}

/// Where the initial thread-local data starts in the loaded image, from its base on,
/// where there is any and it can be told.
pub open spec fn data_address(span: TlsSpan, image_base: u64) -> Option<int> {
    if span.start != 0 && span.end != 0 && image_base <= span.start <= span.end {
        Some(span.start - image_base)
    } else {
        None
    }
}

/// Initial thread-local data that stands at a place in the file ends in the file.
pub open spec fn data_fits(span: TlsSpan, at: Option<int>, len: nat) -> bool {
    at matches Some(at) ==> at + (span.end - span.start) <= len
}

/// Where the initial thread-local data starts in the loaded image.
pub fn tls_data_address(span: TlsSpan, image_base: u64) -> (r: Option<u64>)
    ensures
        match r {
            Some(a) => data_address(span, image_base) == Some(a as int),
            None => data_address(span, image_base) is None,
        },
{
    if span.start != 0 && span.end != 0 && image_base <= span.start && span.start <= span.end {
        Some(span.start - image_base)
    } else {
        None
    }
}

/// Initial thread-local data that stands at a place in the file ends in the file.
pub fn tls_data_fits(span: TlsSpan, at: Option<usize>, len: usize) -> (r: bool)
    requires
        span.start <= span.end,
    ensures
        r == data_fits(
            span,
            match at {
                Some(a) => Some(a as int),
                None => None,
            },
            len as nat,
        ),
{
    match at {
        Some(a) => a <= len && span.end - span.start <= (len - a) as u64,
        None => true,
    }
}

/// The initial thread-local data of a PE file, where goblin comes to it, lies in the
/// file, and `usize` can tell where.
pub open spec fn tls_fits(bytes: Seq<u8>) -> bool {
    match pe_header_in(bytes) {
        Some(h) => sections_at(h) <= usize::MAX && match (
            pe_sections_in(bytes, sections_at(h), h.sections, h.symbols_at, h.symbols),
            h.optional,
        ) {
            (Some(sections), Some(o)) => match o.tls {
                Some(table) => span_fits(
                    bytes,
                    if o.magic == PE_WIDE {
                        tls_span_64(bytes, table, sections, o.file_alignment)
                    } else {
                        tls_span_32(bytes, table, sections, o.file_alignment)
                    },
                    o.image_base,
                    sections,
                    o.file_alignment,
                ),
                None => true,
            },
            _ => true,
        },
        None => true,
    }
}

/// The thread-local data that a table tells of lies in the file, where the table could
/// be read.
pub open spec fn span_fits(
    bytes: Seq<u8>,
    span: Option<TlsSpan>,
    image_base: u64,
    sections: Seq<PeSection>,
    alignment: u32,
) -> bool {
    match span {
        Some(span) => match data_address(span, image_base) {
            Some(a) => a <= usize::MAX && data_fits(
                span,
                pe_offset(a, sections, alignment),
                bytes.len(),
            ),
            None => true,
        },
        None => true,
    }
}

fn tls_is_in_file(bytes: &[u8]) -> (r: bool)
    ensures
        r == tls_fits(bytes@),
{
    let h = match parse_pe_header(bytes) {
        Some(h) => h,
        None => {
            return true;
        },
    };
    let at: u64 = h.header_at as u64 + 24 + h.optional_size as u64;
    if at > usize::MAX as u64 {
        return false;
    }
    let sections = match parse_pe_sections(
        bytes,
        at as usize,
        h.sections,
        h.symbols_at,
        h.symbols,
    ) {
        Some(sections) => sections,
        None => {
            return true;
        },
    };
    let o = match h.optional {
        Some(o) => o,
        None => {
            return true;
        },
    };
    let table = match o.tls {
        Some(table) => table,
        None => {
            return true;
        },
    };
    let span = if o.magic == PE_WIDE {
        parse_tls_64(bytes, table, sections.as_slice(), o.file_alignment)
    } else {
        parse_tls_32(bytes, table, sections.as_slice(), o.file_alignment)
    };
    let span = match span {
        Some(span) => span,
        None => {
            return true;
        },
    };
    match tls_data_address(span, o.image_base) {
        Some(a) => {
            if a > usize::MAX as u64 {
                return false;
            }
            let place = find_pe_offset(a as usize, sections.as_slice(), o.file_alignment);
            tls_data_fits(span, place, bytes.len())
        },
        None => true,
    }
}

/// `goblin::pe::PE::parse`: a PE file with the library of each of its imports, or
/// `Other` where any of its tables makes it report an error. What it finds is a
/// function of the bytes. It takes the initial thread-local data out of the file
/// without a test, so a file that this data reaches out of is left out; every other
/// read it makes is tested against the end of the file.
#[verifier::external_body]
fn parse_pe(bytes: &[u8]) -> (r: ObjectFile)
    requires
        tls_fits(bytes@),
    ensures
        r@ == pe_in(bytes@),
{
    match goblin::pe::PE::parse(bytes) {
        Ok(pe) => ObjectFile::Pe(pe.imports.iter().map(|i| i.dll.to_string()).collect()),
        Err(_) => ObjectFile::Other,
    }
}

// ---------------------------------------------------------------------------
// Either
// ---------------------------------------------------------------------------

/// How much of a file tells its format. A shorter one has none.
pub const MAGIC_ROOM: usize = 16;

/// The file is a Mach-O file.
pub open spec fn mach(b: Seq<u8>) -> bool {
    b.len() >= MAGIC_ROOM && (thin(b) || word_at(b, 0, false) == FAT)
}

/// The file is a PE file: it starts with `MZ`.
pub open spec fn pe(b: Seq<u8>) -> bool {
    b.len() >= MAGIC_ROOM && b[0] == 0x4d && b[1] == 0x5a
}

/// What the headers of an executable say. A Mach-O file whose entry has no address is
/// read without its entry. A PE file whose thread-local data reaches out of it is not
/// read.
pub open spec fn object_in(bytes: Seq<u8>) -> ObjectView {
    if mach(bytes) && entry_fits(without_entry(bytes)) {
        mach_in(without_entry(bytes))
    } else if pe(bytes) && tls_fits(bytes) {
        pe_in(bytes)
    } else {
        ObjectView::Other
    }
}

/// Read what the headers of an executable say.
pub fn parse_object(bytes: &[u8]) -> (r: ObjectFile)
    ensures
        r@ == object_in(bytes@),
{
    if bytes.len() < MAGIC_ROOM {
        return ObjectFile::Other;
    }
    let magic: u32 = read_word(bytes, 0, false);
    if magic == THIN_32 || magic == THIN_32_LITTLE || magic == THIN_64 || magic == THIN_64_LITTLE
        || magic == FAT {
        if has_entry_address(bytes) {
            return parse_mach(bytes);
        }
        let rest = drop_entry(bytes);
        if has_entry_address(rest.as_slice()) {
            return parse_mach(rest.as_slice());
        }
        return ObjectFile::Other;
    }
    if bytes[0] == 0x4d && bytes[1] == 0x5a {
        if tls_is_in_file(bytes) {
            return parse_pe(bytes);
        }
    }
    ObjectFile::Other
}

/// A file that is neither Mach-O nor PE tells nothing, whatever else it is.
pub proof fn other_formats_tell_nothing(bytes: Seq<u8>)
    requires
        !mach(bytes),
        !pe(bytes),
    ensures
        object_in(bytes) == ObjectView::Other,
{
}

// ---------------------------------------------------------------------------
// What tells a format
// ---------------------------------------------------------------------------

/// A number is the same in either byte order once its bytes are turned round.
pub proof fn byte_orders_mirror_each_other(a: u8, b: u8, c: u8, d: u8)
    ensures
        word_at(seq![a, b, c, d], 0, true) == word_at(seq![d, c, b, a], 0, false),
        word_at(seq![a, 0, 0, 0], 0, true) == a,
        word_at(seq![0, 0, 0, d], 0, true) == d * 256 * 256 * 256,
{
}

/// The first four bytes tell a Mach-O file: the two words of a file for one architecture
/// in either byte order, and that of a file for several.
pub proof fn four_bytes_tell_a_mach_file(b: Seq<u8>)
    requires
        b.len() >= 16,
    ensures
        thin(b) && thin_little(b) <==> (b[0] == 0xce || b[0] == 0xcf) && b[1] == 0xfa && b[2]
            == 0xed && b[3] == 0xfe,
        thin(b) && !thin_little(b) <==> b[0] == 0xfe && b[1] == 0xed && b[2] == 0xfa && (b[3]
            == 0xce || b[3] == 0xcf),
        mach(b) <==> thin(b) || (b[0] == 0xca && b[1] == 0xfe && b[2] == 0xba && b[3] == 0xbe),
        pe(b) <==> b[0] as char == 'M' && b[1] as char == 'Z',
{
}

/// The load commands follow the header, which is four bytes longer with 64-bit addresses.
pub proof fn commands_follow_the_header(b: Seq<u8>)
    requires
        b.len() >= 16,
        thin(b),
    ensures
        b[0] == 0xcf || b[3] == 0xcf ==> commands_at(b) == 8 * 4,
        b[0] == 0xce || b[3] == 0xce ==> commands_at(b) == 7 * 4,
{
}

/// A file shorter than what tells a format is of none.
pub proof fn a_short_file_tells_nothing(b: Seq<u8>)
    requires
        b.len() < 16,
    ensures
        object_in(b) == ObjectView::Other,
{
}

proof fn marks_are_taken_off(b: Seq<u8>, little: bool, at: int, n: nat)
    requires
        0 <= at,
    ensures
        without_mains(b, little, at, n).len() == b.len(),
        forall|i: int|
            0 <= i < b.len() ==> #[trigger] without_mains(b, little, at, n)[i] == b[i]
                || without_mains(b, little, at, n)[i] == 0,
        forall|i: int|
            0 <= i < at && i < b.len() ==> #[trigger] without_mains(b, little, at, n)[i] == b[i],
    decreases n,
{
    if n > 0 && command_fits(b, little, at) {
        let rest = if main_at(b, little, at) is Some {
            b.update(
                if little {
                    at + 3
                } else {
                    at
                },
                0,
            )
        } else {
            b
        };
        let next = at + word_at(b, at + 4, little);
        assert(next >= at) by {
            assert(word_at(b, at + 4, little) >= 0);
        }
        assert(rest.len() == b.len());
        assert forall|i: int| 0 <= i < b.len() implies #[trigger] rest[i] == b[i] || rest[i] == 0 by {
        }
        assert forall|i: int| 0 <= i < at && i < b.len() implies #[trigger] rest[i] == b[i] by {
        }
        marks_are_taken_off(rest, little, next, (n - 1) as nat);
        let all = without_mains(rest, little, next, (n - 1) as nat);
        assert(without_mains(b, little, at, n) == all);
        assert forall|i: int| 0 <= i < b.len() implies #[trigger] all[i] == b[i] || all[i] == 0 by {
            assert(all[i] == rest[i] || all[i] == 0);
        }
        assert forall|i: int| 0 <= i < at && i < b.len() implies #[trigger] all[i] == b[i] by {
            assert(all[i] == rest[i]);
        }
    }
}

/// Taking the entry out of a file leaves its length and its header as they are, and no
/// byte is changed but to nothing; a file whose entry can be told is left as it is.
pub proof fn a_file_without_entry_is_the_file(b: Seq<u8>)
    ensures
        entry_fits(b) ==> without_entry(b) == b,
        without_entry(b).len() == b.len(),
        forall|i: int|
            0 <= i < b.len() ==> #[trigger] without_entry(b)[i] == b[i] || without_entry(b)[i] == 0,
        forall|i: int| 0 <= i < 28 && i < b.len() ==> #[trigger] without_entry(b)[i] == b[i],
{
    let little = thin_little(b);
    if !entry_fits(b) {
        marks_are_taken_off(b, little, commands_at(b), word_at(b, 16, little) as nat);
    }
}

/// Initial thread-local data is told by its distance from the base of the image, and fits
/// where its last byte is still in the file.
pub proof fn thread_local_data_lies_in_the_file(span: TlsSpan, image_base: u64, at: int, len: nat)
    ensures
        data_address(span, image_base) matches Some(a) ==> image_base + a == span.start && a >= 0
            && span.start <= span.end && span.start > 0,
        0 < span.start <= span.end && image_base <= span.start ==> data_address(span, image_base)
            is Some,
        span.start < span.end ==> (data_fits(span, Some(at), len) <==> at + (span.end - span.start)
            - 1 < len),
        data_fits(span, None, len),
{
}

/// The sections follow the optional header, which follows the header of twenty bytes and
/// its signature of four.
pub proof fn sections_follow_the_headers(h: PeHeader)
    ensures
        sections_at(h) - h.optional_size - 20 - 4 == h.header_at,
{
}

/// A segment holds the program's text exactly where its name says so.
pub proof fn a_text_segment_is_named(b: Seq<u8>, at: int)
    ensures
        named_text(b, at) <==> b[at + 8] as char == '_' && b[at + 9] as char == '_' && b[at
            + 10] as char == 'T' && b[at + 11] as char == 'E' && b[at + 12] as char == 'X' && b[at
            + 13] as char == 'T' && b[at + 14] == 0,
{
}

/// The address of an entry is its distance into the text, from where the text would start
/// were the whole file in memory; it can be told exactly where that is no less than zero
/// and fits.
pub proof fn an_entry_is_told_from_the_text(entry: int, memory: int, file: int)
    requires
        0 <= entry && 0 <= memory && 0 <= file,
    ensures
        address_fits(Some(entry), Some((memory, file))) <==> memory - file >= 0 && entry + memory
            - file <= u64::MAX,
        address_fits(None, Some((memory, file))) && address_fits(Some(entry), None),
{
}

/// The first command that places an entry counts, and so does the first that places the
/// text: a search that finds none at a command goes on behind it.
pub proof fn the_first_command_counts(b: Seq<u8>, little: bool, at: int, n: nat)
    requires
        n > 0,
        at + 8 <= b.len(),
        at + word_at(b, at + 4, little) <= b.len(),
    ensures
        main_at(b, little, at) is Some ==> first_main(b, little, at, n) == main_at(b, little, at),
        text_at(b, little, at) is Some ==> first_text(b, little, at, n) == text_at(b, little, at),
        main_at(b, little, at) is None ==> first_main(b, little, at, n) == first_main(
            b,
            little,
            at + word_at(b, at + 4, little),
            (n - 1) as nat,
        ),
        text_at(b, little, at) is None ==> first_text(b, little, at, n) == first_text(
            b,
            little,
            at + word_at(b, at + 4, little),
            (n - 1) as nat,
        ),
        first_main(b, little, at, 0) is None && first_text(b, little, at, 0) is None,
{
}

/// A number of eight bytes is the lower of its halves and the higher one times two to the
/// thirty-second; where the lower one stands goes by the byte order.
pub proof fn a_long_number_has_two_halves(b: Seq<u8>, at: int)
    ensures
        long_at(b, at, true) - word_at(b, at, true) == word_at(b, at + 4, true) * 0x10000 * 0x10000,
        long_at(b, at, false) - word_at(b, at + 4, false) == word_at(b, at, false) * 0x10000
            * 0x10000,
{
}

/// A PE file is read where its header tells of no thread-local data, and where that data
/// ends in the file; one whose data reaches out of it is not.
pub proof fn thread_local_data_must_be_in_the_file(
    b: Seq<u8>,
    h: PeHeader,
    sections: Seq<PeSection>,
    o: PeOptional,
    table: PeDirectory,
    span: TlsSpan,
    at: int,
)
    requires
        pe(b),
        pe_header_in(b) == Some(h),
        sections_at(h) <= usize::MAX,
        pe_sections_in(b, sections_at(h), h.sections, h.symbols_at, h.symbols) == Some(sections),
    ensures
        h.optional is None ==> object_in(b) == pe_in(b),
        h.optional == Some(PeOptional { tls: None, ..o }) ==> object_in(b) == pe_in(b),
        h.optional == Some(PeOptional { tls: Some(table), ..o }) && span.start > 0 && o.image_base
            <= span.start <= span.end && span.start - o.image_base <= usize::MAX && (if o.magic
            == 0x20b {
            tls_span_64(b, table, sections, o.file_alignment)
        } else {
            tls_span_32(b, table, sections, o.file_alignment)
        }) == Some(span) && pe_offset(span.start - o.image_base, sections, o.file_alignment)
            == Some(at) ==> object_in(b) == (if at + (span.end - span.start) <= b.len() {
            pe_in(b)
        } else {
            ObjectView::Other
        }),
{
    assert(!mach(b));
}

} // verus!
