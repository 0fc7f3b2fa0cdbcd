//! Planning read-only mappings of flash data partitions.
//!
//! The ESP32-S3 MMU can map regions of external SPI flash into the CPU's
//! data-bus address space (`0x3C00_0000 …`) in 64 KB pages.  The bootloader
//! only maps the application's own segments; a data partition is mapped at
//! run time into the first run of free MMU slots that is long enough.
//!
//! This module decides that mapping: which flash page it starts at, how many
//! pages it needs, which MMU slots it takes and at which virtual address the
//! requested byte then lives.  Programming the MMU is left to the caller.

use vstd::prelude::*;

verus! {

/// Base of the data-bus external memory window on ESP32-S3.
pub const EXTMEM_ORIGIN: u32 = 0x3C00_0000;

/// MMU page size: 64 KB.
pub const MMU_PAGE_SIZE: u32 = 0x1_0000;

/// Size of the DCache MMU table in 32-bit entries (0x800 bytes).
pub const MMU_TABLE_ENTRIES: usize = 512;

/// Marker bit of an unmapped MMU slot.
pub const MMU_INVALID: u32 = 0x4000;

/// Whether an MMU table entry is free (carries the invalid marker).
pub open spec fn entry_free(entry: u32) -> bool {
    entry & MMU_INVALID != 0
}

/// Number of slots a request for `count` slots actually needs: a request
/// for none is served like a request for one.
pub open spec fn slots_needed(count: nat) -> nat {
    if count == 0 {
        1
    } else {
        count
    }
}

/// Whether the `n` slots starting at `start` all lie among the first
/// `usable` entries and are all free.
pub open spec fn run_free(table: Seq<u32>, usable: int, start: int, n: int) -> bool {
    &&& 0 <= start
    &&& start + n <= usable
    &&& forall|k: int| start <= k < start + n ==> entry_free(#[trigger] table[k])
}

/// Number of entries the search may use: the bootloader keeps the last entry
/// of the table for its own flash access.
pub open spec fn usable_entries(table: Seq<u32>) -> int {
    if table.len() == 0 {
        0
    } else {
        table.len() - 1
    }
}

/// `start` begins a run of free slots long enough for `count` pages, and no
/// such run begins earlier.
pub open spec fn is_first_free_run(table: Seq<u32>, count: nat, start: int) -> bool {
    let n = slots_needed(count) as int;
    &&& run_free(table, usable_entries(table), start, n)
    &&& forall|t: int| 0 <= t < start ==> !run_free(table, usable_entries(table), t, n)
}

/// The usable part of the table holds no run of free slots long enough for
/// `count` pages.
pub open spec fn no_free_run(table: Seq<u32>, count: nat) -> bool {
    forall|t: int| !run_free(table, usable_entries(table), t, slots_needed(count) as int)
}

/// Scan the MMU table for the first contiguous run of `count` free entries
/// and return the index of its first entry, or `None` when the usable part
/// of the table holds no such run.
pub fn find_first_free_run(table: &[u32], count: usize) -> (r: Option<usize>)
    ensures
        match r {
            Some(s) => is_first_free_run(table@, count as nat, s as int),
            None => no_free_run(table@, count as nat),
        },
{
    if table.len() == 0 {
        return None;
    }
    let usable = table.len() - 1;
    let ghost n: int = slots_needed(count as nat) as int;
    let ghost u: int = usable as int;
    let mut run_start: usize = 0;
    let mut run_len: usize = 0;
    let mut i: usize = 0;
    while i < usable
        invariant
            usable == table.len() - 1,
            u == usable,
            n == slots_needed(count as nat),
            i <= usable,
            run_len <= i,
            run_len < n,
            run_len > 0 ==> run_start == i - run_len,
            // the entries of the current run are free
            forall|k: int| i - run_len <= k < i ==> entry_free(#[trigger] table@[k]),
            // the run is maximal: the entry before it is taken
            i - run_len > 0 ==> !entry_free(table@[i - run_len - 1]),
            // no run of `n` free entries ends at or before `i`
            forall|t: int| 0 <= t && t + n <= i ==> !run_free(table@, u, t, n),
        decreases usable - i,
    {
        let entry = table[i];
        if entry & MMU_INVALID != 0 {
            if run_len == 0 {
                run_start = i;
            }
            run_len = run_len + 1;
            if run_len >= count {
                proof {
                    assert(run_free(table@, u, run_start as int, n));
                    assert forall|t: int| 0 <= t < run_start implies !run_free(table@, u, t, n) by {
                        if t + n > i {
                            // such a run would contain the taken entry just before `run_start`
                            assert(t <= run_start - 1 < t + n);
                            assert(!entry_free(table@[run_start - 1]));
                        }
                    }
                }
                return Some(run_start);
            }
        } else {
            run_len = 0;
        }
        i = i + 1;
        proof {
            assert forall|t: int| 0 <= t && t + n <= i implies !run_free(table@, u, t, n) by {
                if t + n == i {
                    if run_len == 0 {
                        assert(!entry_free(table@[i - 1]));
                    } else if t < i - run_len {
                        assert(t <= i - run_len - 1 < t + n);
                        assert(!entry_free(table@[i - run_len - 1]));
                    }
                }
            }
        }
    }
    proof {
        assert forall|t: int| !run_free(table@, u, t, n) by {
            if 0 <= t && t + n <= u {
                assert(t + n <= i);
            }
        }
    }
    None
}

/// Where a flash region lands once mapped.
pub struct FlashPlan {
    /// First MMU slot of the mapping.
    pub first_slot: usize,
    /// Number of 64 KB pages to map.
    pub num_pages: u32,
    /// Flash offset of the first mapped page (64 KB aligned).
    pub page_aligned_offset: u32,
    /// Virtual address of the first mapped page.
    pub vaddr: u32,
    /// Virtual address at which the byte at the requested flash offset appears.
    pub data_addr: u32,
}

/// Number of 64 KB pages that cover `len` bytes starting `offset` bytes into
/// flash.
pub open spec fn pages_for(offset: u32, len: nat) -> nat {
    let total = (offset % MMU_PAGE_SIZE) as nat + len;
    ((total + MMU_PAGE_SIZE - 1) / (MMU_PAGE_SIZE as int)) as nat
}

/// Plan the mapping of `len` bytes of flash starting at `flash_offset`: the
/// offset is rounded down to a page boundary, enough pages are taken to
/// cover the whole region, and they go to the first run of free MMU slots.
/// `None` when the table holds no run that long.
pub fn plan_flash_mapping(table: &[u32], flash_offset: u32, len: usize) -> (r: Option<FlashPlan>)
    requires
        len > 0,
        table.len() == MMU_TABLE_ENTRIES,
        (flash_offset % MMU_PAGE_SIZE) + len <= u32::MAX,
    ensures
        match r {
            Some(p) => {
                &&& p.page_aligned_offset == flash_offset - flash_offset % MMU_PAGE_SIZE
                &&& p.num_pages == pages_for(flash_offset, len as nat)
                &&& is_first_free_run(table@, p.num_pages as nat, p.first_slot as int)
                &&& p.vaddr == EXTMEM_ORIGIN + p.first_slot * MMU_PAGE_SIZE
                &&& p.data_addr == p.vaddr + flash_offset % MMU_PAGE_SIZE
            },
            None => no_free_run(table@, pages_for(flash_offset, len as nat)),
        },
{
    let page_aligned_offset = flash_offset & !(MMU_PAGE_SIZE - 1);
    assert(flash_offset & !0xFFFFu32 == flash_offset - flash_offset % 0x1_0000) by (bit_vector);
    let intra_page = flash_offset - page_aligned_offset;
    let total_bytes: u32 = intra_page + (len as u32);
    let num_pages: u32 = total_bytes / MMU_PAGE_SIZE + if total_bytes % MMU_PAGE_SIZE != 0 {
        1
    } else {
        0
    };
    assert(num_pages == pages_for(flash_offset, len as nat));
    match find_first_free_run(table, num_pages as usize) {
        None => None,
        Some(first_slot) => {
            assert(first_slot < MMU_TABLE_ENTRIES);
            let vaddr = EXTMEM_ORIGIN + (first_slot as u32) * MMU_PAGE_SIZE;
            Some(
                FlashPlan {
                    first_slot,
                    num_pages,
                    page_aligned_offset,
                    vaddr,
                    data_addr: vaddr + intra_page,
                },
            )
        },
    }
}

} // verus!
