//! Directories and the names of their files.

use crate::bytes::{le_u16, le_u32, read_le_u16, read_le_u32};
use vstd::prelude::*;
use vstd::string::StrSliceExecFns;

verus! {

/// The size of one record of a directory.
pub const DIRECTORY_ENTRY_BYTES: usize = 32;

/// The first byte of a directory record that is free for reuse.
pub const UNUSED_ENTRY_PREFIX: u8 = 0xE5;

/// The first byte of the record that ends a directory.
pub const END_OF_DIRECTORY_PREFIX: u8 = 0;

/// The attribute byte of a record that holds a part of a long name.
pub const ATTRIBUTE_LONG_NAME: u8 = 0x0F;

/// The first byte of a long-name record that holds a whole name by itself.
pub const SINGLE_LONG_NAME_ORDER: u8 = 0x41;

/// A file found in the root directory.
#[derive(Clone, Debug)]
pub struct File {
    /// The name under which the file was found.
    pub name: String,
    /// The first cluster of the file's chain.
    pub first_cluster: u32,
    /// The size of the file in bytes.
    pub file_size: u32,
}

impl File {
    /// The size of the file in bytes.
    pub fn file_size(&self) -> (size: u32)
        ensures
            size == self.file_size,
    {
        self.file_size
    }
}

/// The length of the field of `width` bytes at `start` once the spaces at its
/// end are dropped.
pub open spec fn trimmed_len(bytes: Seq<u8>, start: int, width: int) -> int
    decreases width,
{
    if width <= 0 {
        0
    } else if bytes[start + width - 1] == 0x20 {
        trimmed_len(bytes, start, width - 1)
    } else {
        width
    }
}

/// The length of the short name in the record at `base`: the name, and the
/// extension with a dot before it where there is one.
pub open spec fn short_name_len(directory: Seq<u8>, base: int) -> int {
    let main = trimmed_len(directory, base, 8);
    let extension = trimmed_len(directory, base + 8, 3);
    if extension > 0 {
        main + 1 + extension
    } else {
        main
    }
}

/// Character `k` of the short name in the record at `base`.
pub open spec fn short_name_byte(directory: Seq<u8>, base: int, k: int) -> u8 {
    let main = trimmed_len(directory, base, 8);
    if k < main {
        directory[base + k]
    } else if k == main {
        0x2e
    } else {
        directory[base + 8 + (k - main - 1)]
    }
}

/// Whether the short name in the record at `base` is `name`.
pub open spec fn short_name_is(directory: Seq<u8>, base: int, name: Seq<char>) -> bool {
    &&& name.len() == short_name_len(directory, base)
    &&& forall|k: int|
        0 <= k < name.len() ==> (#[trigger] name[k]) as u32 == short_name_byte(directory, base, k)
}

/// Where character `k` of a long-name record lies within the record.
pub open spec fn long_name_offset(k: int) -> int {
    if k < 5 {
        1 + 2 * k
    } else if k < 11 {
        14 + 2 * (k - 5)
    } else {
        28 + 2 * (k - 11)
    }
}

/// Character `k` of the long-name record at `base`.
pub open spec fn long_name_unit(directory: Seq<u8>, base: int, k: int) -> int {
    le_u16(directory, base + long_name_offset(k))
}

/// Whether the long-name record at `base` holds the whole of `name`: it is
/// the only record of its name, its characters are those of `name`, and a
/// name of fewer than 13 characters is followed by a zero.
pub open spec fn long_name_is(directory: Seq<u8>, base: int, name: Seq<char>) -> bool {
    &&& directory[base] == SINGLE_LONG_NAME_ORDER
    &&& name.len() <= 13
    &&& forall|k: int|
        0 <= k < name.len() ==> (#[trigger] name[k]) as u32 != 0 && long_name_unit(
            directory,
            base,
            k,
        ) == name[k] as u32
    &&& name.len() < 13 ==> long_name_unit(directory, base, name.len() as int) == 0
}

/// Whether the attribute byte is that of a file: neither a directory nor a
/// volume label.
pub open spec fn is_file_attribute(attributes: u8) -> bool {
    (attributes / 8) % 4 == 0
}

/// Whether record `i` exists and the directory has not ended at or before
/// it.
pub open spec fn live(directory: Seq<u8>, i: int) -> bool {
    &&& 0 <= i
    &&& 32 * (i + 1) <= directory.len()
    &&& forall|j: int| 0 <= j <= i ==> #[trigger] directory[32 * j] != END_OF_DIRECTORY_PREFIX
}

/// Whether record `i` is the short record of a file.
pub open spec fn is_file_record(directory: Seq<u8>, i: int) -> bool {
    &&& live(directory, i)
    &&& directory[32 * i] != UNUSED_ENTRY_PREFIX
    &&& directory[32 * i + 11] != ATTRIBUTE_LONG_NAME
    &&& is_file_attribute(directory[32 * i + 11])
}

/// Whether record `i` names a file `name`: it is the short record of a file
/// with that short name, or a long-name record that holds the name and
/// stands before the short record of a file.
pub open spec fn names_file(directory: Seq<u8>, name: Seq<char>, i: int) -> bool {
    &&& live(directory, i)
    &&& directory[32 * i] != UNUSED_ENTRY_PREFIX
    &&& if directory[32 * i + 11] == ATTRIBUTE_LONG_NAME {
        long_name_is(directory, 32 * i, name) && is_file_record(directory, i + 1)
    } else {
        is_file_attribute(directory[32 * i + 11]) && short_name_is(directory, 32 * i, name)
    }
}

/// The short record of the file that record `i` names.
pub open spec fn named_record(directory: Seq<u8>, i: int) -> int {
    if directory[32 * i + 11] == ATTRIBUTE_LONG_NAME {
        i + 1
    } else {
        i
    }
}

/// The first cluster that the short record at `base` gives.
pub open spec fn record_first_cluster(directory: Seq<u8>, base: int) -> int {
    0x1_0000 * le_u16(directory, base + 20) + le_u16(directory, base + 26)
}

/// The file size that the short record at `base` gives.
pub open spec fn record_file_size(directory: Seq<u8>, base: int) -> int {
    le_u32(directory, base + 28)
}

/// Whether record `i` is the first record of `directory` that names a file
/// `name`.
pub open spec fn first_names_file(directory: Seq<u8>, name: Seq<char>, i: int) -> bool {
    &&& names_file(directory, name, i)
    &&& forall|j: int| 0 <= j < i ==> !names_file(directory, name, j)
}

/// What a search for `name` in `directory` finds: the first cluster and the
/// size of the file of the first record that names it, if any record does.
pub open spec fn search(directory: Seq<u8>, name: Seq<char>) -> Option<(u32, u32)> {
    if exists|i: int| first_names_file(directory, name, i) {
        let first = choose|i: int| first_names_file(directory, name, i);
        let base = 32 * named_record(directory, first);
        Some(
            (
                record_first_cluster(directory, base) as u32,
                record_file_size(directory, base) as u32,
            ),
        )
    } else {
        None
    }
}

/// Whether `found` is what a search for `name` in `directory` gives.
pub open spec fn is_search_result(directory: Seq<u8>, name: Seq<char>, found: Option<File>) -> bool {
    match search(directory, name) {
        Some((first_cluster, file_size)) => {
            &&& found is Some
            &&& found->Some_0.name@ == name
            &&& found->Some_0.first_cluster == first_cluster
            &&& found->Some_0.file_size == file_size
        },
        None => found is None,
    }
}

/// The first record that names a file decides what the search finds.
pub proof fn lemma_search_finds_first(directory: Seq<u8>, name: Seq<char>, i: int)
    requires
        first_names_file(directory, name, i),
    ensures
        search(directory, name) == Some(
            (
                record_first_cluster(directory, 32 * named_record(directory, i)) as u32,
                record_file_size(directory, 32 * named_record(directory, i)) as u32,
            ),
        ),
{
    let first = choose|k: int| first_names_file(directory, name, k);
    if first < i {
        assert(!names_file(directory, name, first));
    }
    if i < first {
        assert(!names_file(directory, name, i));
    }
}

/// The characters of `name` as numbers.
fn name_codes(name: &str) -> (codes: Vec<u32>)
    ensures
        codes@.len() == name@.len(),
        forall|k: int| 0 <= k < codes@.len() ==> codes@[k] == (#[trigger] name@[k]) as u32,
{
    let len: usize = name.unicode_len();
    let mut codes: Vec<u32> = Vec::new();
    let mut k: usize = 0;
    while k < len
        invariant
            k <= len,
            len == name@.len(),
            codes@.len() == k,
            forall|j: int| 0 <= j < k ==> codes@[j] == (#[trigger] name@[j]) as u32,
        decreases len - k,
    {
        let c: char = name.get_char(k);
        codes.push(c as u32);
        k += 1;
    }
    codes
}

/// The length of the field of `width` bytes at `start` without the spaces at
/// its end.
fn field_len(bytes: &[u8], start: usize, width: usize) -> (len: usize)
    requires
        start + width <= bytes@.len(),
    ensures
        len == trimmed_len(bytes@, start as int, width as int),
        len <= width,
{
    let total: usize = bytes.len();
    let mut len: usize = width;
    while len > 0 && bytes[start + len - 1] == 0x20
        invariant
            len <= width,
            start + width <= total,
            total == bytes@.len(),
            trimmed_len(bytes@, start as int, len as int) == trimmed_len(
                bytes@,
                start as int,
                width as int,
            ),
        decreases len,
    {
        len -= 1;
    }
    len
}

/// Whether the short name in the record at `base` is the name with the
/// characters `codes`.
fn short_name_matches(directory: &[u8], base: usize, codes: &Vec<u32>, Ghost(name): Ghost<
    Seq<char>,
>) -> (matches: bool)
    requires
        base + 32 <= directory@.len(),
        codes@.len() == name.len(),
        forall|k: int| 0 <= k < codes@.len() ==> codes@[k] == (#[trigger] name[k]) as u32,
    ensures
        matches == short_name_is(directory@, base as int, name),
{
    let total: usize = directory.len();
    let main: usize = field_len(directory, base, 8);
    let extension: usize = field_len(directory, base + 8, 3);
    let len: usize = if extension > 0 {
        main + 1 + extension
    } else {
        main
    };
    if codes.len() != len {
        return false;
    }
    let mut k: usize = 0;
    while k < len
        invariant
            k <= len,
            len == codes@.len(),
            len == name.len(),
            len == short_name_len(directory@, base as int),
            len <= 12,
            main == trimmed_len(directory@, base as int, 8),
            main <= 8,
            extension <= 3,
            len == if extension > 0 {
                main + 1 + extension
            } else {
                main as int
            },
            base + 32 <= total,
            total == directory@.len(),
            forall|j: int| 0 <= j < codes@.len() ==> codes@[j] == (#[trigger] name[j]) as u32,
            forall|j: int|
                0 <= j < k ==> (#[trigger] name[j]) as u32 == short_name_byte(
                    directory@,
                    base as int,
                    j,
                ),
        decreases len - k,
    {
        let expected: u8 = if k < main {
            directory[base + k]
        } else if k == main {
            0x2e
        } else {
            directory[base + 8 + (k - main - 1)]
        };
        if codes[k] != expected as u32 {
            assert(name[k as int] as u32 != short_name_byte(directory@, base as int, k as int));
            return false;
        }
        k += 1;
    }
    true
}

/// Whether the long-name record at `base` holds the whole of the name with
/// the characters `codes`.
fn long_name_matches(directory: &[u8], base: usize, codes: &Vec<u32>, Ghost(name): Ghost<
    Seq<char>,
>) -> (matches: bool)
    requires
        base + 32 <= directory@.len(),
        codes@.len() == name.len(),
        forall|k: int| 0 <= k < codes@.len() ==> codes@[k] == (#[trigger] name[k]) as u32,
    ensures
        matches == long_name_is(directory@, base as int, name),
{
    let total: usize = directory.len();
    let len: usize = codes.len();
    if directory[base] != SINGLE_LONG_NAME_ORDER || len > 13 {
        return false;
    }
    let mut k: usize = 0;
    while k < len
        invariant
            k <= len,
            len <= 13,
            len == codes@.len(),
            len == name.len(),
            base + 32 <= total,
            total == directory@.len(),
            forall|j: int| 0 <= j < codes@.len() ==> codes@[j] == (#[trigger] name[j]) as u32,
            forall|j: int|
                0 <= j < k ==> (#[trigger] name[j]) as u32 != 0 && long_name_unit(
                    directory@,
                    base as int,
                    j,
                ) == name[j] as u32,
        decreases len - k,
    {
        let unit: u16 = long_name_unit_at(directory, base, k);
        if codes[k] == 0 || codes[k] != unit as u32 {
            assert(!(name[k as int] as u32 != 0 && long_name_unit(
                directory@,
                base as int,
                k as int,
            ) == name[k as int] as u32));
            return false;
        }
        k += 1;
    }
    if len < 13 {
        let unit: u16 = long_name_unit_at(directory, base, len);
        unit == 0
    } else {
        true
    }
}

/// Character `k` of the long-name record at `base`.
fn long_name_unit_at(directory: &[u8], base: usize, k: usize) -> (unit: u16)
    requires
        base + 32 <= directory@.len(),
        k < 13,
    ensures
        unit == long_name_unit(directory@, base as int, k as int),
{
    let total: usize = directory.len();
    let offset: usize = if k < 5 {
        1 + 2 * k
    } else if k < 11 {
        14 + 2 * (k - 5)
    } else {
        28 + 2 * (k - 11)
    };
    read_le_u16(directory, base + offset)
}

/// The file that the short record at `base` describes, under the name
/// `name`.
fn file_at(directory: &[u8], base: usize, name: &str) -> (file: File)
    requires
        base + 32 <= directory@.len(),
    ensures
        file.name@ == name@,
        file.first_cluster == record_first_cluster(directory@, base as int),
        file.file_size == record_file_size(directory@, base as int),
{
    let total: usize = directory.len();
    let high: u32 = read_le_u16(directory, base + 20) as u32;
    let low: u32 = read_le_u16(directory, base + 26) as u32;
    File {
        name: name.to_owned(),
        first_cluster: high * 0x1_0000 + low,
        file_size: read_le_u32(directory, base + 28),
    }
}

/// Whether the record at `base` is the short record of a file.
fn is_file_record_at(directory: &[u8], base: usize) -> (is_file: bool)
    requires
        base + 32 <= directory@.len(),
    ensures
        is_file == (directory@[base as int] != END_OF_DIRECTORY_PREFIX && directory@[base as int]
            != UNUSED_ENTRY_PREFIX && directory@[base + 11] != ATTRIBUTE_LONG_NAME
            && is_file_attribute(directory@[base + 11])),
{
    let total: usize = directory.len();
    let first: u8 = directory[base];
    let attributes: u8 = directory[base + 11];
    first != END_OF_DIRECTORY_PREFIX && first != UNUSED_ENTRY_PREFIX && attributes
        != ATTRIBUTE_LONG_NAME && (attributes / 8) % 4 == 0
}

/// Searches the directory `directory` for the file `name`.
///
/// The records are tried in order up to the one that ends the directory.
/// Free records are passed over. A file is found by its short name, written
/// with a dot before the extension, or by a long name that one record holds.
/// Directories and volume labels are not files.
pub fn find_in_directory(directory: &[u8], name: &str) -> (found: Option<File>)
    ensures
        is_search_result(directory@, name@, found),
{
    let codes = name_codes(name);
    let total: usize = directory.len();
    let count: usize = total / DIRECTORY_ENTRY_BYTES;
    let mut i: usize = 0;
    while i < count
        invariant
            i <= count,
            total == directory@.len(),
            count == total / 32,
            codes@.len() == name@.len(),
            forall|k: int| 0 <= k < codes@.len() ==> codes@[k] == (#[trigger] name@[k]) as u32,
            forall|j: int| 0 <= j < i ==> #[trigger] directory@[32 * j] != END_OF_DIRECTORY_PREFIX,
            forall|j: int| 0 <= j < i ==> !names_file(directory@, name@, j),
        decreases count - i,
    {
        let base: usize = i * DIRECTORY_ENTRY_BYTES;
        let first: u8 = directory[base];
        if first == END_OF_DIRECTORY_PREFIX {
            assert forall|j: int| !names_file(directory@, name@, j) by {
                if j >= i && live(directory@, j) {
                    assert(directory@[32 * (i as int)] != END_OF_DIRECTORY_PREFIX);
                }
            }
            return None;
        }
        assert(live(directory@, i as int));
        if first != UNUSED_ENTRY_PREFIX {
            let attributes: u8 = directory[base + 11];
            if attributes == ATTRIBUTE_LONG_NAME {
                if i + 1 < count && long_name_matches(directory, base, &codes, Ghost(name@))
                    && is_file_record_at(directory, base + 32) {
                    assert(live(directory@, i + 1));
                    assert(names_file(directory@, name@, i as int));
                    proof {
                        lemma_search_finds_first(directory@, name@, i as int);
                    }
                    return Some(file_at(directory, base + 32, name));
                }
                assert(!names_file(directory@, name@, i as int));
            } else if (attributes / 8) % 4 == 0 && short_name_matches(
                directory,
                base,
                &codes,
                Ghost(name@),
            ) {
                assert(names_file(directory@, name@, i as int));
                proof {
                    lemma_search_finds_first(directory@, name@, i as int);
                }
                return Some(file_at(directory, base, name));
            }
        }
        i += 1;
    }
    assert forall|j: int| !names_file(directory@, name@, j) by {
        if live(directory@, j) {
            assert(j < count);
        }
    }
    None
}

} // verus!
