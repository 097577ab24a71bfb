//! The page tables with which the second stage enters long mode.
//!
//! They map the first ten gibibytes of memory onto themselves, in pages of
//! 2 MiB.

use vstd::prelude::*;

verus! {

/// The number of entries of a page table.
pub const ENTRY_COUNT: usize = 512;

/// The number of tables of the second level, each of which maps 1 GiB.
pub const LEVEL2_TABLES: usize = 10;

/// The size of a page table in bytes, which is also its alignment.
pub const PAGE_TABLE_SIZE: u64 = 4096;

/// The flags of an entry that is present and writable.
pub const PRESENT_WRITABLE: u64 = 0b11;

/// The flag of an entry that maps a large page.
pub const HUGE_PAGE: u64 = 0x80;

/// The size of a large page.
pub const LARGE_PAGE_SIZE: u64 = 0x20_0000;

/// The memory that one table of the second level maps.
pub const LEVEL2_SPAN: u64 = 0x4000_0000;

/// One page table.
#[derive(Clone, Copy, Debug)]
pub struct PageTable {
    /// The entries.
    pub entries: [u64; 512],
}

impl PageTable {
    /// The table whose entries are all 0, which maps nothing.
    pub fn empty() -> (table: PageTable)
        ensures
            forall|i: int| 0 <= i < 512 ==> table.entries@[i] == 0,
    {
        PageTable { entries: [0u64; 512] }
    }
}

/// The entry that points to the table at `address`, present and writable.
pub open spec fn table_entry(address: int) -> int {
    address + 0b11
}

/// The entry that maps the large page at `address`, present and writable.
pub open spec fn large_page_entry(address: int) -> int {
    address + 0b11 + 0x80
}

/// The page tables of all levels.
#[derive(Clone, Debug)]
pub struct PageTables {
    /// The table of the fourth level, which the processor is pointed to.
    pub level4: PageTable,
    /// The table of the third level.
    pub level3: PageTable,
    /// The tables of the second level, which hold the large pages.
    pub level2: Vec<PageTable>,
}

impl PageTables {
    /// Whether the tables map the first ten gibibytes onto themselves, when
    /// the table of the third level lies at `level3_addr` and those of the
    /// second level lie one after the other from `level2_addr` on.
    pub open spec fn identity_mapped(self, level3_addr: int, level2_addr: int) -> bool {
        &&& self.level4.entries@[0] == table_entry(level3_addr)
        &&& forall|i: int| 1 <= i < 512 ==> self.level4.entries@[i] == 0
        &&& forall|i: int|
            0 <= i < 10 ==> self.level3.entries@[i] == table_entry(level2_addr + 4096 * i)
        &&& forall|i: int| 10 <= i < 512 ==> self.level3.entries@[i] == 0
        &&& self.level2@.len() == 10
        &&& forall|i: int, j: int|
            0 <= i < 10 && 0 <= j < 512 ==> (#[trigger] self.level2@[i].entries@[j])
                == large_page_entry(0x4000_0000 * i + 0x20_0000 * j)
    }
}

/// The table of the second level with the number `index`: entry `j` maps the
/// large page at `index` GiB and `j` times 2 MiB onto itself.
fn level2_table(index: u64) -> (table: PageTable)
    requires
        index < 10,
    ensures
        forall|j: int|
            0 <= j < 512 ==> table.entries@[j] == large_page_entry(
                0x4000_0000 * index + 0x20_0000 * j,
            ),
{
    let mut table = PageTable::empty();
    let offset: u64 = index * LEVEL2_SPAN;
    let mut j: usize = 0;
    while j < ENTRY_COUNT
        invariant
            j <= 512,
            index < 10,
            offset == 0x4000_0000 * index,
            forall|k: int|
                0 <= k < j ==> table.entries@[k] == large_page_entry(
                    0x4000_0000 * index + 0x20_0000 * k,
                ),
        decreases 512 - j,
    {
        let address: u64 = offset + j as u64 * LARGE_PAGE_SIZE;
        assert(address | 0b11 | 0x80 == address + 0b11 + 0x80) by (bit_vector)
            requires
                address % 0x20_0000 == 0,
                address < 0x100_0000_0000,
        ;
        table.entries[j] = address | PRESENT_WRITABLE | HUGE_PAGE;
        j += 1;
    }
    table
}

/// Builds the page tables for a table of the third level at `level3_addr`
/// and tables of the second level from `level2_addr` on. Both addresses have
/// to be multiples of the size of a table, and all tables have to lie below
/// 4 GiB.
pub fn create_mappings(level3_addr: u64, level2_addr: u64) -> (tables: PageTables)
    requires
        level3_addr % 4096 == 0,
        level2_addr % 4096 == 0,
        level3_addr + 4096 <= 0x1_0000_0000,
        level2_addr + 10 * 4096 <= 0x1_0000_0000,
    ensures
        tables.identity_mapped(level3_addr as int, level2_addr as int),
{
    let mut level4 = PageTable::empty();
    let mut level3 = PageTable::empty();
    let mut level2: Vec<PageTable> = Vec::new();
    assert(level3_addr | 0b11 == level3_addr + 0b11) by (bit_vector)
        requires
            level3_addr % 4096 == 0,
            level3_addr < 0x1_0000_0000,
    ;
    level4.entries[0] = level3_addr | PRESENT_WRITABLE;
    let mut i: usize = 0;
    while i < LEVEL2_TABLES
        invariant
            i <= 10,
            level2_addr % 4096 == 0,
            level2_addr + 10 * 4096 <= 0x1_0000_0000,
            level2@.len() == i,
            forall|k: int|
                0 <= k < i ==> level3.entries@[k] == table_entry(level2_addr + 4096 * k),
            forall|k: int| i <= k < 512 ==> level3.entries@[k] == 0,
            forall|k: int, j: int|
                0 <= k < i && 0 <= j < 512 ==> (#[trigger] level2@[k].entries@[j])
                    == large_page_entry(0x4000_0000 * k + 0x20_0000 * j),
        decreases 10 - i,
    {
        let address: u64 = level2_addr + i as u64 * PAGE_TABLE_SIZE;
        assert(address | 0b11 == address + 0b11) by (bit_vector)
            requires
                address % 4096 == 0,
                address < 0x1_0000_0000,
        ;
        level3.entries[i] = address | PRESENT_WRITABLE;
        let table = level2_table(i as u64);
        level2.push(table);
        i += 1;
    }
    PageTables { level4, level3, level2 }
}

/// Builds the page tables, as `create_mappings` does. Installing them in the
/// processor is left to the caller.
pub fn init(level3_addr: u64, level2_addr: u64) -> (tables: PageTables)
    requires
        level3_addr % 4096 == 0,
        level2_addr % 4096 == 0,
        level3_addr + 4096 <= 0x1_0000_0000,
        level2_addr + 10 * 4096 <= 0x1_0000_0000,
    ensures
        tables.identity_mapped(level3_addr as int, level2_addr as int),
{
    create_mappings(level3_addr, level2_addr)
}

/// Every entry of the second level of identity-mapped tables is present,
/// writable and a large page, and holds the address that it maps, which is
/// a multiple of the size of a large page.
pub proof fn lemma_large_pages(tables: PageTables, level3_addr: int, level2_addr: int, i: int, j: int)
    requires
        tables.identity_mapped(level3_addr, level2_addr),
        0 <= i < 10,
        0 <= j < 512,
    ensures
        ({
            let entry = tables.level2@[i].entries@[j];
            let address = 0x4000_0000 * i + 0x20_0000 * j;
            &&& entry & 0x83 == 0x83
            &&& entry & 0xffff_ffff_ffe0_0000 == address
            &&& address % 0x20_0000 == 0
            &&& address + 0x20_0000 <= 10 * 0x4000_0000
        }),
{
    let entry: u64 = tables.level2@[i].entries@[j];
    let address: u64 = (0x4000_0000 * i + 0x20_0000 * j) as u64;
    assert(entry == address + 0x83);
    assert(entry & 0x83 == 0x83 && entry & 0xffff_ffff_ffe0_0000 == address) by (bit_vector)
        requires
            entry == address + 0x83,
            address % 0x20_0000 == 0,
            address < 0x100_0000_0000,
    ;
}

} // verus!
