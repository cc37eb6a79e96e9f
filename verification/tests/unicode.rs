use textmesh::unicode::{block_chars, BlockTable, UnicodeBlock};

fn block(name: &str, low: char, high: char) -> UnicodeBlock {
    UnicodeBlock { name: name.to_string(), low, high }
}

#[test]
fn basic_latin_is_the_first_128_code_points() {
    let table = BlockTable::new();
    let (low, high) = table.range("Basic Latin").unwrap();
    assert_eq!(low, '\u{0}');
    assert_eq!(high, '\u{7f}');
    let chars = block_chars(low, high);
    assert_eq!(chars.len(), 128);
    assert_eq!(chars[65], 'A');
}

#[test]
fn greek_block_is_found_by_its_name() {
    assert_eq!(BlockTable::new().range("Greek and Coptic"), Some(('\u{370}', '\u{3ff}')));
}

#[test]
fn unknown_name_finds_no_block() {
    let table = BlockTable::new();
    assert_eq!(table.range("basic latin"), None);
    assert_eq!(table.range(""), None);
    assert_eq!(table.range("High Surrogates"), None);
}

#[test]
fn table_of_a_list_finds_each_block_by_its_name() {
    let table = BlockTable::from_blocks(&vec![block("One", 'a', 'f'), block("Two", 'g', 'k')]);
    assert_eq!(table.range("One"), Some(('a', 'f')));
    assert_eq!(table.range("Two"), Some(('g', 'k')));
    assert_eq!(table.range("Three"), None);
    assert_eq!(BlockTable::from_blocks(&vec![]).range("One"), None);
}

#[test]
fn later_block_of_a_name_stands_in_the_table() {
    let list = vec![block("One", 'a', 'f'), block("Two", 'g', 'k'), block("Two", 'l', 'z')];
    let table = BlockTable::from_blocks(&list);
    assert_eq!(table.range("Two"), Some(('l', 'z')));
    assert_eq!(table.range("One"), Some(('a', 'f')));
}

#[test]
fn block_chars_rise_from_low_to_high() {
    assert_eq!(block_chars('a', 'e'), vec!['a', 'b', 'c', 'd', 'e']);
    assert_eq!(block_chars('q', 'q'), vec!['q']);
}

#[test]
fn block_chars_pass_over_the_surrogates() {
    assert_eq!(
        block_chars('\u{d7fe}', '\u{e001}'),
        vec!['\u{d7fe}', '\u{d7ff}', '\u{e000}', '\u{e001}']
    );
}

#[test]
fn block_chars_of_an_empty_range_are_none() {
    assert!(block_chars('z', 'a').is_empty());
}

#[test]
fn block_chars_reach_the_last_scalar_value() {
    assert_eq!(block_chars('\u{10fffe}', '\u{10ffff}'), vec!['\u{10fffe}', '\u{10ffff}']);
}
