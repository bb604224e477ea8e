use mikan_os::console::{ConsoleOp, ConsoleWriter};
use mikan_os::graphics::RGBResv8BitPerColorPixelWriter;

fn writer() -> RGBResv8BitPerColorPixelWriter {
    RGBResv8BitPerColorPixelWriter::new(0, 0, 800, 600, 800)
}

#[test]
fn characters_are_drawn_eight_columns_apart() {
    let w = writer();
    let mut console = ConsoleWriter::new(&w);
    let ops = console.write("ab");
    assert_eq!(
        ops,
        vec![
            ConsoleOp::Draw { character: 'a', x: 0, y: 0 },
            ConsoleOp::Draw { character: 'b', x: 8, y: 0 },
        ]
    );
}

#[test]
fn newline_moves_twenty_rows_down() {
    let w = writer();
    let mut console = ConsoleWriter::new(&w);
    let ops = console.write("a\nb");
    assert_eq!(
        ops,
        vec![
            ConsoleOp::Draw { character: 'a', x: 0, y: 0 },
            ConsoleOp::Draw { character: 'b', x: 0, y: 20 },
        ]
    );
}

#[test]
fn long_lines_wrap_after_fifteen_characters() {
    let w = writer();
    let mut console = ConsoleWriter::new(&w);
    let ops = console.write("0123456789abcdefg");
    assert_eq!(ops.len(), 17);
    assert_eq!(ops[14], ConsoleOp::Draw { character: 'e', x: 112, y: 0 });
    assert_eq!(ops[15], ConsoleOp::Draw { character: 'f', x: 0, y: 20 });
    assert_eq!(ops[16], ConsoleOp::Draw { character: 'g', x: 8, y: 20 });
}

#[test]
fn newline_in_the_last_rows_scrolls() {
    let w = writer();
    let mut console = ConsoleWriter::new(&w);
    let ops = console.write(&"\n".repeat(25));
    assert!(ops.is_empty());
    let ops = console.write("\n");
    assert_eq!(ops.len(), 60000 + 59880);
    assert_eq!(ops[0], ConsoleOp::Clear { character: '\0', x: 0, y: 0 });
    assert_eq!(ops[499], ConsoleOp::Clear { character: '\0', x: 0, y: 499 });
    assert_eq!(ops[500], ConsoleOp::Clear { character: '\0', x: 1, y: 0 });
    assert_eq!(ops[60000], ConsoleOp::Draw { character: '\0', x: 0, y: 0 });
    assert_eq!(ops[60001], ConsoleOp::Draw { character: '\0', x: 1, y: 0 });
    assert_eq!(ops[60000 + 59879], ConsoleOp::Draw { character: '\0', x: 119, y: 498 });
}

#[test]
fn scrolling_moves_characters_up_one_row() {
    let w = writer();
    let mut console = ConsoleWriter::new(&w);
    // 'x' is stored in column 0, row 20
    console.write("\nx");
    console.write(&"\n".repeat(24));
    let ops = console.write("\n");
    assert_eq!(ops[20], ConsoleOp::Clear { character: 'x', x: 0, y: 20 });
    assert_eq!(ops[60000 + 19 * 120], ConsoleOp::Draw { character: 'x', x: 0, y: 19 });
}

#[test]
fn a_character_past_the_last_row_cannot_be_written() {
    let w = writer();
    let mut console = ConsoleWriter::new(&w);
    assert!(console.can_write(&"\n".repeat(25)));
    console.write(&"\n".repeat(24));
    assert!(console.can_write("ab\n"));
    assert!(console.can_write("\n"));
    assert!(!console.can_write("\na"));
    console.write("\n");
    assert!(!console.can_write("ab"));
    assert!(console.can_write("\n\n"));
}

#[test]
fn a_character_past_the_last_column_goes_to_the_next_line() {
    let w = writer();
    let mut console = ConsoleWriter::new(&w);
    console.write("0123456789abcde");
    assert!(console.can_write("f"));
    let ops = console.write("f");
    assert_eq!(ops, vec![ConsoleOp::Draw { character: 'f', x: 0, y: 20 }]);
}

#[test]
fn the_writer_is_kept() {
    let w = writer();
    let console = ConsoleWriter::new(&w);
    assert!(std::ptr::eq(console.writer(), &w));
}
