//! Reading a POSIX tar stream: its headers, and the entries they announce.

use vstd::prelude::*;
use vstd::slice::slice_subrange;

verus! {

/// The size of a block of a tar stream. Headers fill one block; the data of
/// an entry fills as many whole blocks as it needs.
pub const BLOCK: usize = 512;

/// Whether a byte is one of the digits `0` to `7`.
pub open spec fn is_octal_digit(b: u8) -> bool {
    48 <= b <= 55
}

/// Whether a byte may fill a numeric field around its digits.
pub open spec fn is_padding(b: u8) -> bool {
    b == 0 || b == 32
}

/// The first position at or after `i` that holds no space.
pub open spec fn skip_spaces(field: Seq<u8>, i: int) -> int
    decreases field.len() - i,
{
    if 0 <= i < field.len() && field[i] == 32 {
        skip_spaces(field, i + 1)
    } else {
        i
    }
}

/// The first position at or after `i` that holds no octal digit.
pub open spec fn digits_end(field: Seq<u8>, i: int) -> int
    decreases field.len() - i,
{
    if 0 <= i < field.len() && is_octal_digit(field[i]) {
        digits_end(field, i + 1)
    } else {
        i
    }
}

/// The number that the octal digits `field[from..to]` spell.
pub open spec fn digits_value(field: Seq<u8>, from: int, to: int) -> nat
    decreases to - from,
{
    if to <= from {
        0
    } else {
        (8 * digits_value(field, from, to - 1) + (field[to - 1] - 48)) as nat
    }
}

/// Whether `field` holds only padding from `from` on.
pub open spec fn only_padding(field: Seq<u8>, from: int) -> bool {
    forall|k: int| from <= k < field.len() ==> is_padding(#[trigger] field[k])
}

/// The number in a numeric field of a header: spaces, then at least one
/// octal digit, then only spaces and zero bytes.
pub open spec fn octal_value(field: Seq<u8>) -> Option<nat> {
    let first = skip_spaces(field, 0);
    let last = digits_end(field, first);
    if first < last && only_padding(field, last) {
        Some(digits_value(field, first, last))
    } else {
        None
    }
}

proof fn digits_end_bounds(field: Seq<u8>, i: int)
    requires
        0 <= i <= field.len(),
    ensures
        i <= digits_end(field, i) <= field.len(),
        forall|k: int| i <= k < digits_end(field, i) ==> is_octal_digit(#[trigger] field[k]),
    decreases field.len() - i,
{
    if i < field.len() && is_octal_digit(field[i]) {
        digits_end_bounds(field, i + 1);
    }
}

proof fn digits_value_grows(field: Seq<u8>, from: int, mid: int, to: int)
    requires
        0 <= from <= mid <= to <= field.len(),
        forall|k: int| from <= k < to ==> is_octal_digit(#[trigger] field[k]),
    ensures
        digits_value(field, from, mid) <= digits_value(field, from, to),
    decreases to - mid,
{
    if mid < to {
        digits_value_grows(field, from, mid, to - 1);
        assert(is_octal_digit(field[to - 1]));
    }
}

/// Reads the number in a numeric field of a header. There is none where
/// the field is not spaces, digits and padding in that order, and none
/// where the number does not fit in 64 bits.
pub fn parse_octal(field: &[u8]) -> (value: Option<u64>)
    ensures
        value == match octal_value(field@) {
            Some(v) => if v <= u64::MAX {
                Some(v as u64)
            } else {
                None
            },
            None => None,
        },
{
    let n = field.len();
    let mut i: usize = 0;
    while i < n && field[i] == 32
        invariant
            i <= n == field@.len(),
            skip_spaces(field@, 0) == skip_spaces(field@, i as int),
        decreases n - i,
    {
        i = i + 1;
    }
    let first = i;
    let mut value: u64 = 0;
    proof {
        digits_end_bounds(field@, first as int);
    }
    while i < n && 48 <= field[i] && field[i] <= 55
        invariant
            first <= i <= n == field@.len(),
            first == skip_spaces(field@, 0),
            digits_end(field@, first as int) == digits_end(field@, i as int),
            i <= digits_end(field@, first as int) <= n,
            forall|k: int|
                first <= k < digits_end(field@, first as int) ==> is_octal_digit(
                    #[trigger] field@[k],
                ),
            value == digits_value(field@, first as int, i as int),
        decreases n - i,
    {
        let digit: u64 = (field[i] - 48) as u64;
        proof {
            digits_end_bounds(field@, i + 1);
        }
        if value > (u64::MAX - 7) / 8 {
            proof {
                let last = digits_end(field@, first as int);
                digits_value_grows(field@, first as int, i + 1, last);
                assert(digits_value(field@, first as int, i + 1) > u64::MAX);
            }
            return None;
        }
        value = 8 * value + digit;
        i = i + 1;
    }
    let last = i;
    assert(last == digits_end(field@, first as int));
    if last == first {
        return None;
    }
    while i < n
        invariant
            last <= i <= n == field@.len(),
            first < last,
            first == skip_spaces(field@, 0),
            last == digits_end(field@, first as int),
            value == digits_value(field@, first as int, last as int),
            forall|k: int| last <= k < i ==> is_padding(#[trigger] field@[k]),
        decreases n - i,
    {
        if field[i] != 0 && field[i] != 32 {
            assert(!is_padding(field@[i as int]));
            return None;
        }
        i = i + 1;
    }
    Some(value)
}

/// The first position at or after `i` that holds a zero byte.
pub open spec fn text_end(field: Seq<u8>, i: int) -> int
    decreases field.len() - i,
{
    if 0 <= i < field.len() && field[i] != 0 {
        text_end(field, i + 1)
    } else {
        i
    }
}

/// The text in a field of a header: its bytes up to the first zero byte.
pub open spec fn field_text(field: Seq<u8>) -> Seq<u8> {
    field.take(text_end(field, 0))
}

proof fn text_end_bounds(field: Seq<u8>, i: int)
    requires
        0 <= i <= field.len(),
    ensures
        i <= text_end(field, i) <= field.len(),
    decreases field.len() - i,
{
    if i < field.len() && field[i] != 0 {
        text_end_bounds(field, i + 1);
    }
}

/// What byte `i` of a header counts for in the header's checksum: itself,
/// but a space where it lies in the checksum field.
pub open spec fn checksum_byte(block: Seq<u8>, i: int) -> nat {
    if 148 <= i < 156 {
        32
    } else {
        block[i] as nat
    }
}

/// The sum of what the first `n` bytes of a header count for.
pub open spec fn checksum_upto(block: Seq<u8>, n: int) -> nat
    decreases n,
{
    if n <= 0 {
        0
    } else {
        checksum_upto(block, n - 1) + checksum_byte(block, n - 1)
    }
}

/// The checksum of a header.
pub open spec fn checksum_of(block: Seq<u8>) -> nat {
    checksum_upto(block, 512)
}

/// Whether a block holds only zero bytes, as the blocks that end a stream do.
pub open spec fn is_zero_block(block: Seq<u8>) -> bool {
    forall|i: int| 0 <= i < 512 ==> #[trigger] block[i] == 0
}

/// Whether a header is in the POSIX format, in which a second field holds
/// the directories in front of the name.
pub open spec fn is_ustar(block: Seq<u8>) -> bool {
    block.subrange(257, 265) == seq![117u8, 115u8, 116u8, 97u8, 114u8, 0u8, 48u8, 48u8]
}

/// The path that a header gives its entry.
pub open spec fn entry_name(block: Seq<u8>) -> Seq<u8> {
    let name = field_text(block.subrange(0, 100));
    let prefix = field_text(block.subrange(345, 500));
    if is_ustar(block) && prefix.len() > 0 {
        prefix + seq![47u8] + name
    } else {
        name
    }
}

/// The room that `size` bytes of data take up in the stream: whole blocks.
pub open spec fn padded(size: int) -> int {
    ((size + 511) / 512) * 512
}

/// An entry of a tar stream: what its header says of it, and where its
/// data lies in the stream.
#[derive(Debug, PartialEq, Eq)]
pub struct TarEntry {
    /// The path of the entry, as the header spells it.
    pub name: Vec<u8>,
    /// The type flag of the entry.
    pub kind: u8,
    /// Where the data begins in the stream.
    pub start: usize,
    /// How many bytes of data the entry has.
    pub size: usize,
}

/// The mathematical value of a [`TarEntry`].
pub struct EntryModel {
    pub name: Seq<u8>,
    pub kind: u8,
    pub start: int,
    pub size: int,
}

impl View for TarEntry {
    type V = EntryModel;

    open spec fn view(&self) -> EntryModel {
        EntryModel {
            name: self.name@,
            kind: self.kind,
            start: self.start as int,
            size: self.size as int,
        }
    }
}

/// The views of a list of entries, in order.
pub open spec fn entries_view(list: Seq<TarEntry>) -> Seq<EntryModel> {
    list.map_values(|e: TarEntry| e@)
}

/// What stands at a block of a tar stream.
#[derive(Debug, PartialEq, Eq)]
pub enum Header {
    /// A block of zero bytes: the stream ends here.
    End,
    /// A block that is no valid header, or one whose data the stream lacks.
    Malformed,
    /// The header of an entry.
    Entry(TarEntry),
}

/// The mathematical value of a [`Header`].
pub enum HeaderModel {
    End,
    Malformed,
    Entry(EntryModel),
}

impl View for Header {
    type V = HeaderModel;

    open spec fn view(&self) -> HeaderModel {
        match self {
            Header::End => HeaderModel::End,
            Header::Malformed => HeaderModel::Malformed,
            Header::Entry(e) => HeaderModel::Entry(e@),
        }
    }
}

/// What stands at position `pos` of the stream `archive`. A header is valid
/// where its checksum field holds the checksum of the block, its size field
/// holds a number, and the stream holds the data it announces, padding
/// included.
pub open spec fn header_at(archive: Seq<u8>, pos: int) -> HeaderModel
    recommends
        0 <= pos,
        pos + 512 <= archive.len(),
{
    let block = archive.subrange(pos, pos + 512);
    if is_zero_block(block) {
        HeaderModel::End
    } else {
        match (octal_value(block.subrange(148, 156)), octal_value(block.subrange(124, 136))) {
            (Some(sum), Some(size)) => if sum == checksum_of(block) && pos + 512 + padded(
                size as int,
            ) <= archive.len() {
                HeaderModel::Entry(
                    EntryModel {
                        name: entry_name(block),
                        kind: block[156],
                        start: pos + 512,
                        size: size as int,
                    },
                )
            } else {
                HeaderModel::Malformed
            },
            _ => HeaderModel::Malformed,
        }
    }
}

/// The entries of the stream `archive` from position `pos` on, where the
/// stream is well formed from there: header after header, each followed by
/// its data, up to a block of zero bytes or the end of the stream.
pub open spec fn entries_from(archive: Seq<u8>, pos: int) -> Option<Seq<EntryModel>>
    decreases archive.len() - pos,
{
    if pos < 0 || pos > archive.len() {
        None
    } else if pos == archive.len() {
        Some(Seq::empty())
    } else if pos + 512 > archive.len() {
        None
    } else {
        match header_at(archive, pos) {
            HeaderModel::End => Some(Seq::empty()),
            HeaderModel::Malformed => None,
            HeaderModel::Entry(e) => {
                let next = e.start + padded(e.size);
                if pos < next <= archive.len() {
                    match entries_from(archive, next) {
                        Some(rest) => Some(seq![e] + rest),
                        None => None,
                    }
                } else {
                    None
                }
            },
        }
    }
}

/// The entries of the whole stream `archive`, where it is well formed.
pub open spec fn entries_of(archive: Seq<u8>) -> Option<Seq<EntryModel>> {
    entries_from(archive, 0)
}

proof fn checksum_bound(block: Seq<u8>, n: int)
    requires
        0 <= n,
    ensures
        checksum_upto(block, n) <= 255 * n,
    decreases n,
{
    if n > 0 {
        checksum_bound(block, n - 1);
    }
}

/// Appends the text of `field` to `out`.
fn copy_text(field: &[u8], out: &mut Vec<u8>)
    ensures
        final(out)@ == old(out)@ + field_text(field@),
{
    let n = field.len();
    let mut i: usize = 0;
    proof {
        text_end_bounds(field@, 0);
    }
    while i < n && field[i] != 0
        invariant
            i <= n == field@.len(),
            text_end(field@, 0) == text_end(field@, i as int),
            out@ == old(out)@ + field@.take(i as int),
        decreases n - i,
    {
        out.push(field[i]);
        assert(field@.take(i + 1) == field@.take(i as int).push(field@[i as int]));
        i = i + 1;
    }
}

/// Whether the 512 bytes at `pos` are all zero.
fn block_is_zero(archive: &[u8], pos: usize) -> (r: bool)
    requires
        pos + 512 <= archive@.len(),
    ensures
        r == is_zero_block(archive@.subrange(pos as int, pos + 512)),
{
    let len = archive.len();
    let ghost block = archive@.subrange(pos as int, pos + 512);
    let mut i: usize = 0;
    while i < 512
        invariant
            i <= 512,
            pos + 512 <= archive@.len() == len,
            block == archive@.subrange(pos as int, pos + 512),
            forall|k: int| 0 <= k < i ==> #[trigger] block[k] == 0,
        decreases 512 - i,
    {
        if archive[pos + i] != 0 {
            assert(block[i as int] != 0);
            return false;
        }
        i = i + 1;
    }
    true
}

/// The checksum of the header at `pos`.
fn block_checksum(archive: &[u8], pos: usize) -> (sum: u64)
    requires
        pos + 512 <= archive@.len(),
    ensures
        sum == checksum_of(archive@.subrange(pos as int, pos + 512)),
{
    let len = archive.len();
    let ghost block = archive@.subrange(pos as int, pos + 512);
    let mut sum: u64 = 0;
    let mut i: usize = 0;
    while i < 512
        invariant
            i <= 512,
            pos + 512 <= archive@.len() == len,
            block == archive@.subrange(pos as int, pos + 512),
            sum == checksum_upto(block, i as int),
            sum <= 255 * i,
        decreases 512 - i,
    {
        let byte: u64 = if 148 <= i && i < 156 {
            32
        } else {
            archive[pos + i] as u64
        };
        assert(byte == checksum_byte(block, i as int));
        sum = sum + byte;
        i = i + 1;
    }
    sum
}

/// Whether the header at `pos` is in the POSIX format.
fn block_is_ustar(archive: &[u8], pos: usize) -> (r: bool)
    requires
        pos + 512 <= archive@.len(),
    ensures
        r == is_ustar(archive@.subrange(pos as int, pos + 512)),
{
    // Reading the length tells that it, and so every position below it, fits in `usize`.
    let len = archive.len();
    let ghost block = archive@.subrange(pos as int, pos + 512);
    let ghost magic = seq![117u8, 115u8, 116u8, 97u8, 114u8, 0u8, 48u8, 48u8];
    let r = archive[pos + 257] == 117 && archive[pos + 258] == 115 && archive[pos + 259] == 116
        && archive[pos + 260] == 97 && archive[pos + 261] == 114 && archive[pos + 262] == 0
        && archive[pos + 263] == 48 && archive[pos + 264] == 48;
    proof {
        let field = block.subrange(257, 265);
        assert(field.len() == 8);
        assert(forall|k: int| 0 <= k < 8 ==> field[k] == archive@[pos + 257 + k]);
        if r {
            assert(field =~= magic);
        } else {
            if field == magic {
                assert(field[0] == magic[0]);
                assert(field[1] == magic[1]);
                assert(field[2] == magic[2]);
                assert(field[3] == magic[3]);
                assert(field[4] == magic[4]);
                assert(field[5] == magic[5]);
                assert(field[6] == magic[6]);
                assert(field[7] == magic[7]);
            }
        }
    }
    r
}

/// The path that the header at `pos` gives its entry.
fn block_name(archive: &[u8], pos: usize) -> (name: Vec<u8>)
    requires
        pos + 512 <= archive@.len(),
    ensures
        name@ == entry_name(archive@.subrange(pos as int, pos + 512)),
{
    // Reading the length tells that it, and so every position below it, fits in `usize`.
    let len = archive.len();
    let ghost block = archive@.subrange(pos as int, pos + 512);
    let name_field = slice_subrange(archive, pos, pos + 100);
    let prefix_field = slice_subrange(archive, pos + 345, pos + 500);
    assert(name_field@ =~= block.subrange(0, 100));
    assert(prefix_field@ =~= block.subrange(345, 500));
    let mut prefix: Vec<u8> = Vec::new();
    copy_text(prefix_field, &mut prefix);
    assert(prefix@ =~= field_text(prefix_field@));
    if block_is_ustar(archive, pos) && prefix.len() > 0 {
        prefix.push(47u8);
        copy_text(name_field, &mut prefix);
        prefix
    } else {
        let mut name: Vec<u8> = Vec::new();
        copy_text(name_field, &mut name);
        assert(name@ =~= field_text(name_field@));
        name
    }
}

/// Reads what stands at position `pos` of the stream.
pub fn read_header(archive: &[u8], pos: usize) -> (header: Header)
    requires
        pos + 512 <= archive@.len(),
    ensures
        header@ == header_at(archive@, pos as int),
{
    let len = archive.len();
    let ghost block = archive@.subrange(pos as int, pos + 512);
    if block_is_zero(archive, pos) {
        return Header::End;
    }
    let sum_field = slice_subrange(archive, pos + 148, pos + 156);
    let size_field = slice_subrange(archive, pos + 124, pos + 136);
    assert(sum_field@ =~= block.subrange(148, 156));
    assert(size_field@ =~= block.subrange(124, 136));
    proof {
        checksum_bound(block, 512);
    }
    let sum = match parse_octal(sum_field) {
        Some(sum) => sum,
        None => {
            return Header::Malformed;
        },
    };
    let size = match parse_octal(size_field) {
        Some(size) => size,
        None => {
            return Header::Malformed;
        },
    };
    if sum != block_checksum(archive, pos) {
        return Header::Malformed;
    }
    let room = len - pos - BLOCK;
    if size > room as u64 {
        return Header::Malformed;
    }
    let size = size as usize;
    let blocks = (size + (BLOCK - 1)) / BLOCK * BLOCK;
    if blocks > room {
        return Header::Malformed;
    }
    let kind = archive[pos + 156];
    assert(kind == block[156]);
    Header::Entry(TarEntry { name: block_name(archive, pos), kind, start: pos + BLOCK, size })
}

/// The entries of a tar stream, in the order of the stream. The list ends
/// at the first block of zero bytes, or at the end of the data where no
/// such block follows the last entry. A stream with a block that is no
/// valid header, or one that breaks off inside a header or inside the data
/// of an entry, has no list.
pub fn list_entries(archive: &[u8]) -> (entries: Option<Vec<TarEntry>>)
    ensures
        match entries {
            Some(list) => entries_of(archive@) == Some(entries_view(list@)),
            None => entries_of(archive@) is None,
        },
{
    let len = archive.len();
    let mut list: Vec<TarEntry> = Vec::new();
    let mut pos: usize = 0;
    assert(entries_view(list@) =~= Seq::empty());
    while pos < len
        invariant
            pos <= len == archive@.len(),
            entries_of(archive@) == match entries_from(archive@, pos as int) {
                Some(rest) => Some(entries_view(list@) + rest),
                None => None,
            },
        decreases len - pos,
    {
        if len - pos < BLOCK {
            return None;
        }
        match read_header(archive, pos) {
            Header::End => {
                assert(entries_view(list@) + Seq::<EntryModel>::empty() =~= entries_view(list@));
                return Some(list);
            },
            Header::Malformed => {
                return None;
            },
            Header::Entry(entry) => {
                let next = entry.start + (entry.size + (BLOCK - 1)) / BLOCK * BLOCK;
                proof {
                    let before = entries_view(list@);
                    let rest = entries_from(archive@, next as int);
                    assert(entries_view(list@.push(entry)) =~= before.push(entry@));
                    if let Some(tail) = rest {
                        assert(before + (seq![entry@] + tail) =~= before.push(entry@) + tail);
                    }
                }
                list.push(entry);
                pos = next;
            },
        }
    }
    assert(entries_view(list@) + Seq::<EntryModel>::empty() =~= entries_view(list@));
    Some(list)
}

} // verus!
