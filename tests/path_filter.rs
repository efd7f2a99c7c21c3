use maidsafe_utilities::path_filter::{shorten_file_path, FILE_END, FILE_START};

fn shorten(s: &str) -> String {
    String::from_utf8(shorten_file_path(s.as_bytes())).unwrap()
}

#[test]
fn markers() {
    assert_eq!(&FILE_START, b"#FS#");
    assert_eq!(&FILE_END, b"#FE#");
}

#[test]
fn keeps_last_component_of_unix_path() {
    assert_eq!(
        shorten("WARN 19:33:49.245 <main> [example::my_mod #FS#src/my_mod/main.rs#FE#:10] A warning"),
        "WARN 19:33:49.245 <main> [example::my_mod main.rs:10] A warning"
    );
}

#[test]
fn keeps_last_component_of_windows_path() {
    assert_eq!(shorten("[m #FS#C:\\src\\lib.rs#FE#:3] x"), "[m lib.rs:3] x");
}

#[test]
fn path_without_separator_stays() {
    assert_eq!(shorten("[m #FS#main.rs#FE#:1] x"), "[m main.rs:1] x");
}

#[test]
fn line_without_markers_is_unchanged() {
    assert_eq!(shorten("This is message 0"), "This is message 0");
    assert_eq!(shorten(""), "");
}

#[test]
fn line_without_end_marker_is_unchanged() {
    assert_eq!(shorten("[m #FS#src/main.rs:1] x"), "[m #FS#src/main.rs:1] x");
}

#[test]
fn only_first_path_is_shortened() {
    assert_eq!(
        shorten("#FS#a/b.rs#FE# #FS#c/d.rs#FE#"),
        "b.rs #FS#c/d.rs#FE#"
    );
}
