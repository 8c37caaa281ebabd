use toggle_ro::attributes::READ_ONLY;
use toggle_ro::editor::{Action, Editor};

/// A table of 128 entries over a disk of 100 sectors in memory, with the
/// entries given by number and attribute field in use and all others unused.
fn table_with(entries: &[(u32, u64)]) -> gptman::GPT {
    let mut disk = std::io::Cursor::new(vec![0u8; 100 * 512]);
    let mut table = gptman::GPT::new_from(&mut disk, 512, [0xff; 16]).expect("new table");
    let mut lba = table.header.first_usable_lba;
    for (number, bits) in entries {
        table[*number] = gptman::GPTPartitionEntry {
            partition_type_guid: [0xaa; 16],
            unique_partition_guid: [*number as u8; 16],
            starting_lba: lba,
            ending_lba: lba,
            attribute_bits: *bits,
            partition_name: "data".into(),
        };
        lba += 1;
    }
    table
}

fn attribute_fields(table: &gptman::GPT) -> Vec<u64> {
    table.iter().map(|(_, entry)| entry.attribute_bits).collect()
}

#[test]
fn empty_table_finishes_at_once() {
    let table = table_with(&[]);
    let before = table.clone();
    let mut editor = Editor::new(table);
    assert_eq!(editor.action(), Action::Finish);
    assert!(!editor.is_dirty());
    assert_eq!(editor.answer(Some("y")).ok(), Some(Action::Finish));
    assert_eq!(editor.answer(None).ok(), Some(Action::Finish));
    assert!(!editor.is_dirty());
    assert_eq!(editor.into_table(), before);
}

#[test]
fn first_question_is_about_the_first_entry_in_use() {
    let editor = Editor::new(table_with(&[(3, 0), (7, READ_ONLY)]));
    assert_eq!(editor.action(), Action::Ask { number: 3, default: false });
    let editor = Editor::new(table_with(&[(1, READ_ONLY | 5)]));
    assert_eq!(editor.action(), Action::Ask { number: 1, default: true });
    let editor = Editor::new(table_with(&[(128, 0)]));
    assert_eq!(editor.action(), Action::Ask { number: 128, default: false });
}

#[test]
fn default_is_bit_60_of_the_attribute_field() {
    let editor = Editor::new(table_with(&[(1, !READ_ONLY)]));
    assert_eq!(editor.action(), Action::Ask { number: 1, default: false });
    let editor = Editor::new(table_with(&[(1, READ_ONLY)]));
    assert_eq!(editor.action(), Action::Ask { number: 1, default: true });
}

#[test]
fn default_for_entry_one_and_y_for_entry_two() {
    let table = table_with(&[(1, READ_ONLY), (2, 0)]);
    let before = table.clone();
    let mut editor = Editor::new(table);
    assert_eq!(editor.action(), Action::Ask { number: 1, default: true });
    assert_eq!(editor.answer(Some("")).ok(), Some(Action::Ask { number: 2, default: false }));
    assert!(!editor.is_dirty());
    assert_eq!(editor.answer(Some("y")).ok(), Some(Action::WriteBack));
    assert!(editor.is_dirty());
    assert_eq!(editor.action(), Action::WriteBack);

    let after = editor.into_table();
    assert_eq!(after[1], before[1]);
    assert_eq!(before[2].attribute_bits, 0);
    assert_eq!(after[2].attribute_bits, READ_ONLY);
    for (number, entry) in after.iter() {
        if number != 2 {
            assert_eq!(*entry, before[number]);
        }
    }
    let mut expected = before.clone();
    expected[2].attribute_bits = 1u64 << 60;
    assert_eq!(after, expected);
}

#[test]
fn answers_with_line_ends_as_a_terminal_gives_them() {
    let mut editor = Editor::new(table_with(&[(1, READ_ONLY), (2, 0)]));
    assert_eq!(editor.answer(Some("\n")).ok(), Some(Action::Ask { number: 2, default: false }));
    assert_eq!(editor.answer(Some("Y\n")).ok(), Some(Action::WriteBack));
    assert_eq!(editor.table()[2].attribute_bits, READ_ONLY);
}

#[test]
fn confirming_every_entry_writes_nothing() {
    let table = table_with(&[(1, READ_ONLY), (2, 0), (5, READ_ONLY | 0xff), (9, 0x0fff)]);
    let before = table.clone();
    let mut editor = Editor::new(table);
    assert_eq!(editor.answer(Some("")).ok(), Some(Action::Ask { number: 2, default: false }));
    assert_eq!(editor.answer(Some("n")).ok(), Some(Action::Ask { number: 5, default: true }));
    assert_eq!(editor.answer(Some("y")).ok(), Some(Action::Ask { number: 9, default: false }));
    assert_eq!(editor.answer(Some("  N\n")).ok(), Some(Action::Finish));
    assert!(!editor.is_dirty());
    assert_eq!(editor.action(), Action::Finish);
    assert_eq!(editor.into_table(), before);
}

#[test]
fn no_answer_asks_the_same_question_again() {
    let table = table_with(&[(4, 0)]);
    let before = table.clone();
    let mut editor = Editor::new(table);
    let question = Action::Ask { number: 4, default: false };
    assert_eq!(editor.action(), question);
    assert_eq!(editor.answer(Some("yes")).ok(), Some(question));
    assert_eq!(editor.answer(Some("maybe")).ok(), Some(question));
    assert_eq!(editor.answer(Some("0")).ok(), Some(question));
    assert_eq!(editor.answer(Some("y y")).ok(), Some(question));
    assert!(!editor.is_dirty());
    assert_eq!(*editor.table(), before);
    assert_eq!(editor.answer(Some("y")).ok(), Some(Action::WriteBack));
    assert!(editor.is_dirty());
}

#[test]
fn clearing_the_flag_keeps_the_other_bits() {
    let bits = 0xf000_0000_0000_00ffu64;
    let mut editor = Editor::new(table_with(&[(1, bits)]));
    assert_eq!(editor.action(), Action::Ask { number: 1, default: true });
    assert_eq!(editor.answer(Some("n")).ok(), Some(Action::WriteBack));
    assert_eq!(editor.table()[1].attribute_bits, 0xe000_0000_0000_00ff);
}

#[test]
fn setting_the_flag_keeps_the_other_bits() {
    let bits = 0xe000_0000_0000_00ffu64;
    let mut editor = Editor::new(table_with(&[(1, bits)]));
    assert_eq!(editor.action(), Action::Ask { number: 1, default: false });
    assert_eq!(editor.answer(Some("y")).ok(), Some(Action::WriteBack));
    assert_eq!(editor.table()[1].attribute_bits, 0xf000_0000_0000_00ff);
}

#[test]
fn unused_entries_are_skipped_and_stay_as_they_are() {
    let mut table = table_with(&[(2, 0), (6, 0)]);
    table[4].attribute_bits = 0x0123;
    table[4].starting_lba = 77;
    assert!(table[4].is_unused());
    let before = table.clone();
    let mut editor = Editor::new(table);
    assert_eq!(editor.action(), Action::Ask { number: 2, default: false });
    assert_eq!(editor.answer(Some("y")).ok(), Some(Action::Ask { number: 6, default: false }));
    assert_eq!(editor.answer(Some("y")).ok(), Some(Action::WriteBack));
    let after = editor.into_table();
    assert_eq!(after[4], before[4]);
    let changed: Vec<u32> = after
        .iter()
        .filter(|(number, entry)| **entry != before[*number])
        .map(|(number, _)| number)
        .collect();
    assert_eq!(changed, vec![2, 6]);
}

#[test]
fn entries_are_asked_in_table_order() {
    let mut editor = Editor::new(table_with(&[(9, 0), (3, 0), (128, 0), (1, 0)]));
    let mut asked: Vec<u32> = Vec::new();
    let mut action = editor.action();
    while let Action::Ask { number, .. } = action {
        asked.push(number);
        action = editor.answer(Some("")).ok().expect("a line was given");
    }
    assert_eq!(asked, vec![1, 3, 9, 128]);
    assert_eq!(action, Action::Finish);
}

#[test]
fn one_change_among_many_is_enough_to_write_back() {
    let mut editor = Editor::new(table_with(&[(1, 0), (2, READ_ONLY), (3, 0)]));
    assert_eq!(editor.answer(Some("")).ok(), Some(Action::Ask { number: 2, default: true }));
    assert_eq!(editor.answer(Some("n")).ok(), Some(Action::Ask { number: 3, default: false }));
    assert!(editor.is_dirty());
    assert_eq!(editor.answer(Some("")).ok(), Some(Action::WriteBack));
    assert_eq!(attribute_fields(editor.table())[..3], [0, 0, 0]);
}

#[test]
fn end_of_input_while_asking_is_an_error() {
    let table = table_with(&[(1, 0), (2, 0)]);
    let before = table.clone();
    let mut editor = Editor::new(table);
    let error = editor.answer(None).err().expect("the input has ended");
    assert_eq!(error.message, "end of input");
    assert_eq!(editor.action(), Action::Ask { number: 1, default: false });
    assert!(!editor.is_dirty());
    assert_eq!(*editor.table(), before);

    assert_eq!(editor.answer(Some("y")).ok(), Some(Action::Ask { number: 2, default: false }));
    let error = editor.answer(None).err().expect("the input has ended");
    assert_eq!(error.to_string(), "end of input");
    assert_eq!(editor.action(), Action::Ask { number: 2, default: false });
    assert!(editor.is_dirty());
}

#[test]
fn end_of_input_after_the_last_answer_is_no_error() {
    let mut editor = Editor::new(table_with(&[(1, 0)]));
    assert_eq!(editor.answer(Some("y")).ok(), Some(Action::WriteBack));
    assert_eq!(editor.answer(None).ok(), Some(Action::WriteBack));
    assert_eq!(editor.answer(Some("n")).ok(), Some(Action::WriteBack));
    assert_eq!(editor.table()[1].attribute_bits, READ_ONLY);
}

#[test]
fn toggling_an_entry_in_two_sessions_restores_the_table() {
    let table = table_with(&[(1, 0x0000_0000_dead_beef)]);
    let before = table.clone();
    let mut first = Editor::new(table);
    assert_eq!(first.answer(Some("y")).ok(), Some(Action::WriteBack));
    let flipped = first.into_table();
    assert_ne!(flipped, before);
    let mut second = Editor::new(flipped);
    assert_eq!(second.action(), Action::Ask { number: 1, default: true });
    assert_eq!(second.answer(Some("n")).ok(), Some(Action::WriteBack));
    assert_eq!(second.into_table(), before);
}
