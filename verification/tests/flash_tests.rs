use gramslator::flash_data::{
    find_first_free_run, plan_flash_mapping, EXTMEM_ORIGIN, MMU_INVALID, MMU_PAGE_SIZE, MMU_TABLE_ENTRIES,
};

const FREE: u32 = MMU_INVALID;
const USED: u32 = 0x0000_0012;

#[test]
fn first_free_run_is_found() {
    let table = [USED, FREE, USED, FREE, FREE, FREE, USED, USED];
    assert_eq!(find_first_free_run(&table, 1), Some(1));
    assert_eq!(find_first_free_run(&table, 2), Some(3));
    assert_eq!(find_first_free_run(&table, 3), Some(3));
    assert_eq!(find_first_free_run(&table, 4), None);
}

#[test]
fn last_entry_is_reserved() {
    let table = [USED, FREE, FREE];
    assert_eq!(find_first_free_run(&table, 2), None);
    assert_eq!(find_first_free_run(&table, 1), Some(1));
    assert_eq!(find_first_free_run(&[], 1), None);
    assert_eq!(find_first_free_run(&[FREE], 1), None);
}

#[test]
fn zero_count_takes_one_slot() {
    let table = [USED, USED, FREE, FREE];
    assert_eq!(find_first_free_run(&table, 0), Some(2));
}

#[test]
fn mapping_plan() {
    let mut table = vec![FREE; MMU_TABLE_ENTRIES];
    for e in table.iter_mut().take(8) {
        *e = USED;
    }
    let plan = plan_flash_mapping(&table, 0x12345, 0x20000).unwrap();
    assert_eq!(plan.page_aligned_offset, 0x10000);
    assert_eq!(plan.num_pages, 3);
    assert_eq!(plan.first_slot, 8);
    assert_eq!(plan.vaddr, EXTMEM_ORIGIN + 8 * MMU_PAGE_SIZE);
    assert_eq!(plan.data_addr, 0x3C08_2345);
}

#[test]
fn mapping_plan_exact_pages() {
    let table = vec![FREE; MMU_TABLE_ENTRIES];
    let plan = plan_flash_mapping(&table, 0xA0_0000, 0x1_0000).unwrap();
    assert_eq!(plan.num_pages, 1);
    assert_eq!(plan.first_slot, 0);
    assert_eq!(plan.data_addr, EXTMEM_ORIGIN);
}

#[test]
fn mapping_plan_without_room() {
    let mut table = vec![USED; MMU_TABLE_ENTRIES];
    table[100] = FREE;
    assert!(plan_flash_mapping(&table, 0, 0x2_0000).is_none());
    assert_eq!(plan_flash_mapping(&table, 0, 10).unwrap().first_slot, 100);
}
