use humility_cmd::dumper::Dumper;
use humility_cmd::error::Error;

fn plain(size: usize, width: usize) -> Dumper {
    Dumper { size, width, addrsize: 4, indent: 0, hanging: false, header: false, ascii: false }
}

#[test]
fn defaults_are_bytes_sixteen_to_a_row() {
    let d = Dumper::new();
    assert_eq!((d.size, d.width, d.addrsize, d.indent), (1, 16, 8, 0));
    assert!(!d.hanging && d.header && d.ascii);
    let e = Dumper::default();
    assert_eq!((e.size, e.width, e.addrsize, e.indent), (1, 16, 8, 0));
    assert!(!e.hanging && e.header && e.ascii);
}

#[test]
fn three_bytes_at_an_offset_of_three() {
    let lines = Dumper::new().dump(&[0x41, 0x42, 0x43], 0x1003).unwrap();
    assert_eq!(lines.len(), 2);
    assert_eq!(
        lines[0],
        format!("{}{}", " ".repeat(12), "  0  1  2 \\/  4  5  6  7  8  9  a  b  c  d  e  f")
    );
    let row = format!(
        "0x00001000 | {}41 42 43 {}| {}ABC{}",
        " ".repeat(9),
        " ".repeat(30),
        " ".repeat(3),
        " ".repeat(10)
    );
    assert_eq!(lines[1], row);
}

#[test]
fn words_are_little_endian_and_later_rows_hang() {
    let d = Dumper { size: 4, width: 8, addrsize: 4, indent: 2, hanging: true, header: false, ascii: false };
    let bytes = [0x78, 0x56, 0x34, 0x12, 0xff, 0, 0, 0, 1, 2, 3, 4];
    let lines = d.dump(&bytes, 0x10).unwrap();
    assert_eq!(lines, vec![
        "0x0010 | 12345678 000000ff ".to_string(),
        format!("  0x0018 | 04030201 {}", " ".repeat(9)),
    ]);
}

#[test]
fn uniform_indent_without_hanging() {
    let d = Dumper { size: 1, width: 2, addrsize: 2, indent: 3, hanging: false, header: true, ascii: true };
    let lines = d.dump(&[0x61, 0x00, 0x7f], 0).unwrap();
    assert_eq!(lines, vec![
        format!("{} \\/  1", " ".repeat(9)),
        "   0x00 | 61 00 | a.".to_string(),
        "   0x02 | 7f    | . ".to_string(),
    ]);
}

#[test]
fn hanging_header_and_first_row_are_not_indented() {
    let d = Dumper { size: 1, width: 2, addrsize: 2, indent: 3, hanging: true, header: true, ascii: false };
    let lines = d.dump(&[1, 2, 3], 0x20).unwrap();
    assert_eq!(lines, vec![
        format!("{} \\/  1", " ".repeat(6)),
        "0x20 | 01 02 ".to_string(),
        "   0x22 | 03    ".to_string(),
    ]);
}

#[test]
fn halfwords_with_a_byte_left_over() {
    let lines = plain(2, 4).dump(&[1, 2, 3], 0).unwrap();
    assert_eq!(lines, vec!["0x0000 | 0201 0003 ".to_string()]);
}

#[test]
fn sidebar_marks_what_cannot_be_printed() {
    let d = Dumper { size: 1, width: 4, addrsize: 1, indent: 0, hanging: false, header: false, ascii: true };
    let lines = d.dump(&[0x00, 0x7f, 0x20, 0x7e], 0x100).unwrap();
    assert_eq!(lines, vec!["0x100 | 00 7f 20 7e | .. ~".to_string()]);
}

#[test]
fn empty_buffer_gives_one_blank_row() {
    let lines = plain(1, 2).dump(&[], 5).unwrap();
    assert_eq!(lines, vec![format!("0x0004 | {}", " ".repeat(6))]);
}

#[test]
fn first_row_ends_at_the_row_boundary() {
    let lines = plain(1, 4).dump(&[1, 2, 3, 4, 5, 6, 7, 8, 9], 0xfe).unwrap();
    assert_eq!(lines, vec![
        "0x00fc |       01 02 ".to_string(),
        "0x0100 | 03 04 05 06 ".to_string(),
        "0x0104 | 07 08 09    ".to_string(),
    ]);
}

#[test]
fn element_size_other_than_1_2_4_is_refused() {
    for size in [0usize, 3, 5, 8] {
        assert!(matches!(plain(size, 16).dump(&[1, 2], 0), Err(Error::InvalidElementWidth)));
    }
}

#[test]
fn row_width_of_zero_is_refused() {
    assert!(matches!(plain(1, 0).dump(&[1, 2], 0), Err(Error::InvalidRowWidth)));
}

#[test]
fn hex_fields_are_aligned() {
    for size in [1usize, 2, 4] {
        for len in 0usize..40 {
            let d = Dumper { size, width: 16, addrsize: 8, indent: 0, hanging: false, header: true, ascii: false };
            let bytes: Vec<u8> = (0..len).map(|b| b as u8).collect();
            let lines = d.dump(&bytes, 0x2007).unwrap();
            let field = (16 / size) * (2 * size + 1);
            assert_eq!(lines[0].len(), 12 + field);
            for row in &lines[1..] {
                assert_eq!(row.len(), 13 + field);
            }
        }
    }
}

#[test]
fn offset_of_three_digits_widens_its_header_slot() {
    let d = Dumper { size: 1, width: 257, addrsize: 2, indent: 0, hanging: false, header: true, ascii: false };
    let lines = d.dump(&[0xab], 0).unwrap();
    assert_eq!(lines.len(), 2);
    assert_eq!(lines[0].len(), 6 + 256 * 3 + 4);
    assert!(lines[0].ends_with(" fe ff 100"));
    assert_eq!(lines[1].len(), 7 + 257 * 3);
    assert!(lines[1].starts_with("0x00 | ab "));
}
