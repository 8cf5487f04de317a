use scm_record::overlay::{
    debug_lines, draw_debug_messages, is_addressable, max_line_len, pad_line, split_lines,
    DEBUG_COLUMN,
};
use tui::buffer::{Buffer, Cell};
use tui::layout::Rect as TuiRect;
use tui::style::{Color, Style};

fn strings(items: &[&str]) -> Vec<String> {
    items.iter().map(|item| item.to_string()).collect()
}

fn row(buf: &Buffer, y: u16) -> String {
    (0..buf.area.width).map(|x| buf.get(buf.area.x + x, buf.area.y + y).symbol.clone()).collect()
}

#[test]
fn split_lines_cuts_at_each_newline() {
    assert_eq!(split_lines("one"), strings(&["one"]));
    assert_eq!(split_lines("one\ntwo"), strings(&["one", "two"]));
    assert_eq!(split_lines("one\ntwo\nthree"), strings(&["one", "two", "three"]));
}

#[test]
fn split_lines_keeps_empty_lines() {
    assert_eq!(split_lines(""), strings(&[""]));
    assert_eq!(split_lines("\n"), strings(&["", ""]));
    assert_eq!(split_lines("a\n"), strings(&["a", ""]));
    assert_eq!(split_lines("\na"), strings(&["", "a"]));
    assert_eq!(split_lines("a\n\nb"), strings(&["a", "", "b"]));
    assert_eq!(split_lines("\n\n\n"), strings(&["", "", "", ""]));
}

#[test]
fn split_lines_counts_characters_not_bytes() {
    assert_eq!(split_lines("é€\n日本\nz"), strings(&["é€", "日本", "z"]));
    assert_eq!(split_lines("a\r\nb"), strings(&["a\r", "b"]));
}

#[test]
fn split_lines_agrees_with_split() {
    for text in ["", "x", "\n", "ab\ncd", "\n\nab\n", "é\n€€\n\n日本語", "trailing\n"] {
        let expected: Vec<String> = text.split('\n').map(|line| line.to_string()).collect();
        assert_eq!(split_lines(text), expected);
    }
}

#[test]
fn debug_lines_are_the_lines_of_all_messages_in_order() {
    assert_eq!(debug_lines(&strings(&[])), strings(&[]));
    assert_eq!(debug_lines(&strings(&["one"])), strings(&["one"]));
    assert_eq!(
        debug_lines(&strings(&["one\ntwo", "", "three\n", "four"])),
        strings(&["one", "two", "", "three", "", "four"])
    );
}

#[test]
fn max_line_len_is_the_longest_byte_length() {
    assert_eq!(max_line_len(&strings(&[]), 80), 0);
    assert_eq!(max_line_len(&strings(&[""]), 80), 0);
    assert_eq!(max_line_len(&strings(&["ab", "abcd", "abc"]), 80), 4);
    assert_eq!(max_line_len(&strings(&["ééé", "abcd"]), 80), 6);
}

#[test]
fn max_line_len_is_the_width_of_the_screen_at_most() {
    assert_eq!(max_line_len(&strings(&["ab", "abcdefgh"]), 5), 5);
    assert_eq!(max_line_len(&strings(&["ab", "abcdefgh"]), 8), 8);
    assert_eq!(max_line_len(&strings(&["ab", "abcdefgh"]), 9), 8);
    assert_eq!(max_line_len(&strings(&["ab"]), 0), 0);
}

#[test]
fn pad_line_fills_up_with_spaces() {
    assert_eq!(pad_line("ab", 5), "ab   ");
    assert_eq!(pad_line("", 3), "   ");
    assert_eq!(pad_line("abc", 3), "abc");
    assert_eq!(pad_line("", 0), "");
}

#[test]
fn pad_line_leaves_a_longer_line_as_it_is() {
    assert_eq!(pad_line("abcdef", 3), "abcdef");
    assert_eq!(pad_line("abcdef", 0), "abcdef");
}

#[test]
fn pad_line_counts_bytes() {
    assert_eq!(pad_line("é", 4), "é  ");
    assert_eq!(pad_line("日本", 6), "日本");
    assert_eq!(pad_line("日本", 7), "日本 ");
}

#[test]
fn buffer_made_for_its_area_is_addressable() {
    assert!(is_addressable(&Buffer::empty(TuiRect::new(0, 0, 80, 24))));
    assert!(is_addressable(&Buffer::empty(TuiRect::new(7, 9, 80, 24))));
    assert!(is_addressable(&Buffer::empty(TuiRect::new(0, 0, 255, 257))));
    assert!(is_addressable(&Buffer::default()));
    assert!(is_addressable(&Buffer::empty(TuiRect::new(65535, 65535, 0, 0))));
    assert!(is_addressable(&Buffer::empty(TuiRect::new(65534, 65534, 1, 1))));
}

#[test]
fn buffer_with_another_number_of_cells_is_not_addressable() {
    let area = TuiRect { x: 0, y: 0, width: 10, height: 4 };
    assert!(!is_addressable(&Buffer { area, content: vec![Cell::default(); 39] }));
    assert!(!is_addressable(&Buffer { area, content: vec![Cell::default(); 41] }));
    assert!(!is_addressable(&Buffer { area, content: Vec::new() }));
    assert!(is_addressable(&Buffer { area, content: vec![Cell::default(); 40] }));
}

#[test]
fn buffer_with_more_cells_than_an_index_holds_is_not_addressable() {
    let area = TuiRect { x: 0, y: 0, width: 256, height: 257 };
    assert!(!is_addressable(&Buffer { area, content: vec![Cell::default(); 256 * 257] }));
    let area = TuiRect { x: 0, y: 0, width: 256, height: 256 };
    assert!(is_addressable(&Buffer { area, content: vec![Cell::default(); 256 * 256] }));
}

#[test]
fn buffer_that_reaches_beyond_the_coordinates_is_not_addressable() {
    let area = TuiRect { x: 65530, y: 0, width: 10, height: 1 };
    assert!(!is_addressable(&Buffer { area, content: vec![Cell::default(); 10] }));
    let area = TuiRect { x: 0, y: 65535, width: 10, height: 1 };
    assert!(!is_addressable(&Buffer { area, content: vec![Cell::default(); 10] }));
    let area = TuiRect { x: 65525, y: 65534, width: 10, height: 1 };
    assert!(is_addressable(&Buffer { area, content: vec![Cell::default(); 10] }));
}

#[test]
fn draw_debug_messages_prints_in_the_given_style() {
    let mut buf = Buffer::empty(TuiRect::new(0, 0, 56, 3));
    let style = Style::default().bg(Color::Magenta);
    draw_debug_messages(&mut buf, &strings(&["ab\ncdef", "g"]), style);
    let blank = " ".repeat(50);
    assert_eq!(row(&buf, 0), format!("{blank}ab    "));
    assert_eq!(row(&buf, 1), format!("{blank}cdef  "));
    assert_eq!(row(&buf, 2), format!("{blank}g     "));
    for y in 0..3 {
        for x in 0..56 {
            let expected = if (50..54).contains(&x) { Color::Magenta } else { Color::Reset };
            assert_eq!(buf.get(x, y).bg, expected, "cell ({x}, {y})");
        }
    }
}

#[test]
fn draw_debug_messages_starts_at_the_debug_column_of_the_buffer() {
    assert_eq!(DEBUG_COLUMN, 50);
    let mut buf = Buffer::empty(TuiRect::new(100, 10, 52, 2));
    draw_debug_messages(&mut buf, &strings(&["abc", "d"]), Style::default());
    assert_eq!(buf.get(150, 10).symbol, "a");
    assert_eq!(buf.get(151, 10).symbol, "b");
    assert_eq!(buf.get(150, 11).symbol, "d");
    assert_eq!(buf.get(149, 10).symbol, " ");
}

#[test]
fn draw_debug_messages_without_messages_changes_nothing() {
    let mut buf = Buffer::empty(TuiRect::new(0, 0, 60, 3));
    draw_debug_messages(&mut buf, &strings(&[]), Style::default().bg(Color::Magenta));
    assert_eq!(buf, Buffer::empty(TuiRect::new(0, 0, 60, 3)));
}

#[test]
fn draw_debug_messages_leaves_a_buffer_that_lacks_cells() {
    let area = TuiRect { x: 0, y: 0, width: 60, height: 2 };
    let lacking = Buffer { area, content: vec![Cell::default(); 70] };
    let mut buf = lacking.clone();
    draw_debug_messages(&mut buf, &strings(&["lost"]), Style::default().bg(Color::Magenta));
    assert_eq!(buf, lacking);
}
