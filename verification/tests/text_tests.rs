use chak::text::{file_to_lines, join_path, lower_hex, string_content_to_string_vec};

#[test]
fn lower_hex_two_digits_per_byte() {
    assert_eq!(lower_hex(&[0x00, 0x0a, 0xff, 0x10]), "000aff10");
    assert_eq!(lower_hex(&[]), "");
}

#[test]
fn join_path_cases() {
    assert_eq!(join_path("a", "b"), "a/b");
    assert_eq!(join_path("a/", "b"), "a/b");
    assert_eq!(join_path("", "b"), "b");
    assert_eq!(join_path("a", "/b"), "/b");
    assert_eq!(join_path("/home/u", ".chak/"), "/home/u/.chak/");
}

#[test]
fn file_lines_drop_line_endings() {
    assert_eq!(file_to_lines("a\r\nb\n\nc"), vec!["a", "b", "", "c"]);
    assert_eq!(file_to_lines("a\n"), vec!["a"]);
    assert_eq!(file_to_lines("a\r"), vec!["a\r"]);
    assert_eq!(file_to_lines(""), Vec::<String>::new());
    assert_eq!(file_to_lines("\n"), vec![""]);
}

#[test]
fn file_lines_agree_with_std() {
    let samples = ["x\ny\r\nz", "\r\n\r\n", "one", "tail\n", "a\rb\n"];
    for s in samples.iter() {
        let ours = file_to_lines(s);
        let std_lines: Vec<String> = s.lines().map(|l| l.to_string()).collect();
        assert_eq!(ours, std_lines);
    }
}

#[test]
fn string_content_lines_are_trimmed() {
    assert_eq!(
        string_content_to_string_vec("  x \n\ty\r\n\u{3000}z"),
        vec!["x", "y", "z"]
    );
    assert_eq!(string_content_to_string_vec(""), Vec::<String>::new());
}
