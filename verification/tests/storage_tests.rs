use cstack_sqlite::byteops::{read_u32_be, write_u32_be};
use cstack_sqlite::db::{Database, DatabaseError};
use cstack_sqlite::cursor::Cursor;
use cstack_sqlite::layout::{
    COMMON_NODE_HEADER_SIZE, EMAIL_SIZE, IS_ROOT_OFFSET, LEAF_NODE_CELL_SIZE,
    LEAF_NODE_HEADER_SIZE, LEAF_NODE_KEY_SIZE, LEAF_NODE_MAX_CELLS, LEAF_NODE_NUM_CELLS_OFFSET,
    LEAF_NODE_SPACE_FOR_CELLS, LEAF_NODE_VALUE_OFFSET, LEAF_NODE_VALUE_SIZE, NODE_TYPE_OFFSET,
    PAGER_PAGE_SIZE, PARENT_POINTER_OFFSET, ROW_SIZE, USERNAME_SIZE,
};
use cstack_sqlite::node::{Node, NodeError};
use cstack_sqlite::page::Page;
use cstack_sqlite::pager::{Pager, PagerError};
use cstack_sqlite::row::Row;
use cstack_sqlite::table::Table;

fn sample_row(id: u32) -> Row {
    Row::new(id, format!("user{id}").into_bytes(), format!("user{id}@example.com").into_bytes())
}

#[test]
fn layout_constants_have_the_documented_values() {
    assert_eq!(NODE_TYPE_OFFSET, 0);
    assert_eq!(IS_ROOT_OFFSET, 1);
    assert_eq!(PARENT_POINTER_OFFSET, 2);
    assert_eq!(COMMON_NODE_HEADER_SIZE, 6);
    assert_eq!(LEAF_NODE_NUM_CELLS_OFFSET, 6);
    assert_eq!(LEAF_NODE_HEADER_SIZE, 10);
    assert_eq!(ROW_SIZE, 4 + USERNAME_SIZE + EMAIL_SIZE);
    assert_eq!(ROW_SIZE, 291);
    assert_eq!(LEAF_NODE_KEY_SIZE, 4);
    assert_eq!(LEAF_NODE_VALUE_OFFSET, 4);
    assert_eq!(LEAF_NODE_VALUE_SIZE, 291);
    assert_eq!(LEAF_NODE_CELL_SIZE, 295);
    assert_eq!(LEAF_NODE_SPACE_FOR_CELLS, 4086);
    assert_eq!(LEAF_NODE_MAX_CELLS, 13);
    // The cell array never overruns the space after the header.
    assert!(LEAF_NODE_MAX_CELLS * LEAF_NODE_CELL_SIZE <= PAGER_PAGE_SIZE - LEAF_NODE_HEADER_SIZE);
}

#[test]
fn big_endian_words_round_trip() {
    let mut buf = vec![0u8; 8];
    write_u32_be(&mut buf, 2, 0xdeadbeef);
    assert_eq!(&buf[2..6], &[0xde, 0xad, 0xbe, 0xef]);
    assert_eq!(read_u32_be(&buf, 2), 0xdeadbeef);
}

#[test]
fn node_tag_byte_selects_the_variant() {
    let mut internal_bytes = vec![0u8; PAGER_PAGE_SIZE];
    assert!(!Page::from_bytes(internal_bytes.clone()).node_is_leaf());
    internal_bytes[NODE_TYPE_OFFSET] = 1;
    assert!(Page::from_bytes(internal_bytes).node_is_leaf());

    let fresh = Page::new();
    assert!(fresh.node_is_leaf());
    assert_eq!(fresh.cell_count(), 0);
    assert_eq!(fresh.as_bytes()[NODE_TYPE_OFFSET], 1);
}

#[test]
fn insert_before_end_shifts_cells_right() {
    let mut page = Page::new();
    let first = sample_row(10);
    let third = sample_row(30);
    let second = sample_row(20);
    page.insert(10, &first, 0).ok().unwrap();
    page.insert(30, &third, 1).ok().unwrap();
    // Open a gap at index 1: the cell that was there moves to index 2
    // unchanged, with nothing duplicated or lost.
    page.insert(20, &second, 1).ok().unwrap();
    assert_eq!(page.cell_count(), 3);
    match &page.0 {
        Node::Leaf(_) => {}
        Node::Internal(_) => panic!("leaf page read back as internal"),
    }
    assert_eq!(page.0.get_cell_key(0), 10);
    assert_eq!(page.0.get_cell_key(1), 20);
    assert_eq!(page.0.get_cell_key(2), 30);
    assert_eq!(Row::deserialize(&page.get_cell_value(0)), first);
    assert_eq!(Row::deserialize(&page.get_cell_value(1)), second);
    assert_eq!(Row::deserialize(&page.get_cell_value(2)), third);
}

#[test]
fn full_leaf_rejects_the_next_insert() {
    let mut page = Page::new();
    for i in 0..LEAF_NODE_MAX_CELLS {
        let row = sample_row(i as u32);
        page.insert(i as u32, &row, i).ok().unwrap();
    }
    let one_more = sample_row(99);
    match page.insert(99, &one_more, LEAF_NODE_MAX_CELLS) {
        Err(NodeError::NodeFullInsertError) => {}
        _ => panic!("insert into a full leaf did not fail"),
    }
    // No corruption: the thirteen rows are still intact.
    assert_eq!(page.cell_count(), LEAF_NODE_MAX_CELLS);
    for i in 0..LEAF_NODE_MAX_CELLS {
        assert_eq!(Row::deserialize(&page.get_cell_value(i)), sample_row(i as u32));
    }
}

#[test]
fn oversized_row_leaves_the_page_untouched() {
    let mut page = Page::new();
    let bad = Row::new(1, vec![b'u'; 33], b"a@b".to_vec());
    match page.insert(1, &bad, 0) {
        Err(NodeError::SerializationError(_)) => {}
        _ => panic!("oversized row inserted"),
    }
    assert_eq!(page.cell_count(), 0);
    let fresh = Page::new();
    assert_eq!(page.as_bytes(), fresh.as_bytes());
}

#[test]
fn header_accessors_read_and_write_cells() {
    let mut page = Page::new();
    let row = sample_row(5);
    page.insert(5, &row, 0).ok().unwrap();
    page.set_cell_key(77, 0);
    assert_eq!(page.0.get_cell_key(0), 77);
    assert_eq!(page.cell_count(), 1);
    page.increment_cell_count();
    assert_eq!(page.cell_count(), 2);

    let mut other = Page::new();
    other.to_vec_mut()[LEAF_NODE_NUM_CELLS_OFFSET + 3] = 2;
    assert_eq!(other.cell_count(), 2);
}

#[test]
fn corrupt_file_is_rejected_at_open() {
    match Pager::try_new(vec![0u8; PAGER_PAGE_SIZE + 1]) {
        Err(PagerError::CorruptFile) => {}
        _ => panic!("truncated file accepted"),
    }
    match Pager::try_new(vec![0u8; 123]) {
        Err(PagerError::CorruptFile) => {}
        _ => panic!("short file accepted"),
    }
    assert!(Pager::try_new(Vec::new()).is_ok());
    assert!(Pager::try_new(vec![0u8; 2 * PAGER_PAGE_SIZE]).is_ok());
}

#[test]
fn pager_creates_caches_and_counts_pages() {
    let mut pager = Pager::try_new(Vec::new()).ok().unwrap();
    assert_eq!(pager.get_page_count(), 0);
    assert_eq!(pager.get_file_len(), 0);
    assert!(!pager.page_exists(0));

    let page = pager.get_page_mut(0);
    assert!(page.node_is_leaf());
    assert_eq!(page.cell_count(), 0);
    assert!(pager.page_exists(0));
    assert_eq!(pager.get_page_count(), 1);
    // The cache is dense: touching page 2 makes pages 1 and 2 resident.
    let _ = pager.get_page_mut(2);
    assert!(pager.page_exists(1));
    assert!(pager.page_exists(2));
    assert_eq!(pager.get_page_count(), 3);
}

#[test]
fn pager_backfills_pages_from_the_file() {
    let mut file = vec![0u8; 2 * PAGER_PAGE_SIZE];
    file[0] = 1;
    file[PAGER_PAGE_SIZE] = 1;
    file[PAGER_PAGE_SIZE + 1] = 0xab;
    let mut pager = Pager::try_new(file).ok().unwrap();
    assert_eq!(pager.get_page_count(), 2);
    let page1 = pager.get_page_mut(1);
    assert!(page1.node_is_leaf());
    assert_eq!(page1.as_bytes()[1], 0xab);
    // A page past the file's extent is a fresh empty leaf.
    let page2 = pager.get_page_mut(2);
    let fresh = Page::new();
    assert_eq!(page2.as_bytes(), fresh.as_bytes());
}

#[test]
fn flush_writes_the_page_and_is_idempotent() {
    let mut pager = Pager::try_new(Vec::new()).ok().unwrap();
    let mut page = pager.get_page_mut(0);
    let row = sample_row(3);
    page.insert(3, &row, 0).ok().unwrap();
    pager.set_page(0, page);

    match pager.flush_page(7, PAGER_PAGE_SIZE) {
        Err(PagerError::FlushInvalidPage) => {}
        _ => panic!("flushing an uncached page did not fail"),
    }
    assert_eq!(pager.get_file_len(), 0);

    pager.flush_page(0, PAGER_PAGE_SIZE).ok().unwrap();
    let once = pager.file.clone();
    assert_eq!(once.len(), PAGER_PAGE_SIZE);

    // Flushing the unmodified page again leaves the file byte-identical.
    pager.flush_page(0, PAGER_PAGE_SIZE).ok().unwrap();
    assert_eq!(pager.file, once);

    // The flushed image opens as a store holding exactly that row.
    let mut table = Table::new(Pager::try_new(once).ok().unwrap());
    let fetched = table.pager.get_page_mut(0);
    assert_eq!(fetched.cell_count(), 1);
    assert_eq!(Row::deserialize(&fetched.get_cell_value(0)), row);
}

#[test]
fn partial_flush_writes_a_prefix() {
    let mut pager = Pager::try_new(Vec::new()).ok().unwrap();
    let page = pager.get_page_mut(0);
    pager.set_page(0, page);
    pager.flush_page(0, 16).ok().unwrap();
    assert_eq!(pager.get_file_len(), 16);
    assert_eq!(pager.file[0], 1);
}

#[test]
fn table_flushes_every_cached_page() {
    let pager = Pager::try_new(Vec::new()).ok().unwrap();
    let mut table = Table::new(pager);
    assert_eq!(table.get_root_page_num(), 0);
    let mut page = table.pager.get_page_mut(0);
    let row = sample_row(11);
    page.insert(11, &row, 0).ok().unwrap();
    table.pager.set_page(0, page);
    table.flush_pages().ok().unwrap();
    assert_eq!(table.pager.get_file_len(), PAGER_PAGE_SIZE);

    let reopened = Pager::try_new(table.pager.file.clone()).ok().unwrap();
    let mut reopened_table = Table::new(reopened);
    let root = reopened_table.pager.get_page_mut(0);
    assert_eq!(root.cell_count(), 1);
    assert_eq!(Row::deserialize(&root.get_cell_value(0)), row);
}

#[test]
fn cursor_walks_the_cells() {
    let pager = Pager::try_new(Vec::new()).ok().unwrap();
    let mut table = Table::new(pager);

    let empty_cursor = Cursor::start(&mut table);
    assert!(empty_cursor.end_of_table());
    assert_eq!(empty_cursor.cell_num(), 0);
    assert_eq!(empty_cursor.page(), 0);

    for i in 0..3u32 {
        let end = Cursor::end(&mut table);
        assert!(end.end_of_table());
        assert_eq!(end.cell_num(), i as usize);
        let mut page = table.pager.get_page_mut(end.page());
        let row = sample_row(i);
        page.insert(i, &row, end.cell_num()).ok().unwrap();
        table.pager.set_page(end.page(), page);
    }

    let mut cursor = Cursor::start(&mut table);
    let mut seen = Vec::new();
    while !cursor.end_of_table() {
        let page = table.pager.get_page_mut(cursor.page());
        seen.push(Row::deserialize(&page.get_cell_value(cursor.cell_num())));
        cursor.advance(&mut table);
    }
    assert_eq!(seen, vec![sample_row(0), sample_row(1), sample_row(2)]);
    assert_eq!(cursor.cell_num(), 3);
}

#[test]
fn meta_commands_are_unrecognised() {
    assert!(cstack_sqlite::meta::handle(b".tables").is_err());
    assert!(matches!(
        cstack_sqlite::meta::handle(b".anything"),
        Err(cstack_sqlite::meta::MetaHandleError::UnrecognisedCommand)
    ));
}

#[test]
fn database_rejects_a_file_with_an_unusable_root() {
    // A whole page of zeros reads as an internal root: unusable in this
    // scope.
    match Database::try_new(vec![0u8; PAGER_PAGE_SIZE]) {
        Err(DatabaseError::Corrupt) => {}
        _ => panic!("internal root accepted"),
    }
    // A root leaf whose stored cell count overruns the capacity is corrupt.
    let mut file = vec![0u8; PAGER_PAGE_SIZE];
    file[0] = 1;
    file[LEAF_NODE_NUM_CELLS_OFFSET + 3] = 14;
    match Database::try_new(file) {
        Err(DatabaseError::Corrupt) => {}
        _ => panic!("overfull root accepted"),
    }
    match Database::try_new(vec![0u8; 17]) {
        Err(DatabaseError::Corrupt) => {}
        _ => panic!("truncated file accepted"),
    }
    assert!(Database::try_new(Vec::new()).is_ok());
}
