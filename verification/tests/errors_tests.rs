use memfs::errors::{
    IoError, CANNOT_READ, CANNOT_WRITE, NOT_AN_EXECUTABLE, NOT_FOUND, NOT_UTF8,
};
use memfs::path::Path;

#[test]
fn the_codes_are_fixed() {
    assert_eq!(CANNOT_WRITE, 101);
    assert_eq!(CANNOT_READ, 102);
    assert_eq!(NOT_FOUND, 103);
    assert_eq!(NOT_UTF8, 104);
    assert_eq!(NOT_AN_EXECUTABLE, 105);
}

#[test]
fn new_keeps_what_it_is_given() {
    let e = IoError::new("boom".to_string(), 7, Some(Path::new("/x")));
    assert_eq!(e.get_code(), 7);
    assert_eq!(e.get_message(), "boom");
    assert_eq!(e.get_file(), Some(&Path::new("/x")));
}

#[test]
fn new_without_a_file() {
    let e = IoError::new("boom".to_string(), 7, None);
    assert_eq!(e.get_code(), 7);
    assert_eq!(e.get_message(), "boom");
    assert_eq!(e.get_file(), None);
}

#[test]
fn cannot_write() {
    let e = IoError::new_cannot_write(Path::new("/etc/passwd"));
    assert_eq!(e.get_code(), 101);
    assert_eq!(e.get_message(), "Cannot write to file");
    assert_eq!(e.get_file(), Some(&Path::new("/etc/passwd")));
    assert_eq!(e.to_string(), "IO error (101): Cannot write to file");
}

#[test]
fn cannot_read() {
    let e = IoError::new_cannot_read(Path::new("/etc/shadow"));
    assert_eq!(e.get_code(), 102);
    assert_eq!(e.get_message(), "Cannot read file");
    assert_eq!(e.get_file(), Some(&Path::new("/etc/shadow")));
    assert_eq!(e.to_string(), "IO error (102): Cannot read file");
}

#[test]
fn not_found() {
    let e = IoError::new_not_found(Path::new("/nowhere"));
    assert_eq!(e.get_code(), 103);
    assert_eq!(e.get_message(), "File not found");
    assert_eq!(e.get_file(), Some(&Path::new("/nowhere")));
    assert_eq!(e.to_string(), "IO error (103): File not found");
}

#[test]
fn not_utf8() {
    let e = IoError::new_not_utf8(Path::new("/bin/blob"));
    assert_eq!(e.get_code(), 104);
    assert_eq!(e.get_message(), "File is not UTF-8");
    assert_eq!(e.get_file(), Some(&Path::new("/bin/blob")));
    assert_eq!(e.to_string(), "IO error (104): File is not UTF-8");
}

#[test]
fn not_an_executable() {
    let e = IoError::new_not_an_executable(Path::new("/bin/readme"));
    assert_eq!(e.get_code(), 105);
    assert_eq!(e.get_message(), "File is not an executable");
    assert_eq!(e.get_file(), Some(&Path::new("/bin/readme")));
    assert_eq!(e.to_string(), "IO error (105): File is not an executable");
}

#[test]
fn the_line_writes_the_code_in_decimal() {
    let line = |code: u8| IoError::new("m".to_string(), code, None).to_string();
    assert_eq!(line(0), "IO error (0): m");
    assert_eq!(line(7), "IO error (7): m");
    assert_eq!(line(9), "IO error (9): m");
    assert_eq!(line(10), "IO error (10): m");
    assert_eq!(line(42), "IO error (42): m");
    assert_eq!(line(99), "IO error (99): m");
    assert_eq!(line(100), "IO error (100): m");
    assert_eq!(line(109), "IO error (109): m");
    assert_eq!(line(110), "IO error (110): m");
    assert_eq!(line(200), "IO error (200): m");
    assert_eq!(line(255), "IO error (255): m");
}

#[test]
fn the_line_agrees_with_the_formatter_for_every_code() {
    for code in 0..=255u8 {
        let e = IoError::new("message".to_string(), code, None);
        assert_eq!(e.to_string(), format!("IO error ({}): {}", code, "message"));
    }
}

#[test]
fn the_line_keeps_the_message_as_it_is() {
    let e = IoError::new("".to_string(), 1, None);
    assert_eq!(e.to_string(), "IO error (1): ");
    let e = IoError::new("día (1): ñ".to_string(), 1, None);
    assert_eq!(e.to_string(), "IO error (1): día (1): ñ");
}

#[test]
fn errors_are_equal_by_all_they_hold() {
    let e = IoError::new_not_found(Path::new("/a"));
    assert_eq!(e, IoError::new_not_found(Path::new("/a")));
    assert_eq!(e, IoError::new("File not found".to_string(), 103, Some(Path::new("/a"))));
    assert_ne!(e, IoError::new_not_found(Path::new("/a/")));
    assert_ne!(e, IoError::new("File not found".to_string(), 104, Some(Path::new("/a"))));
    assert_ne!(e, IoError::new("file not found".to_string(), 103, Some(Path::new("/a"))));
    assert_ne!(e, IoError::new("File not found".to_string(), 103, None));
    assert_eq!(
        IoError::new("m".to_string(), 1, None),
        IoError::new("m".to_string(), 1, None)
    );
}

#[test]
fn a_cloned_error_is_equal() {
    let e = IoError::new_not_utf8(Path::new("/a"));
    let copy = e.clone();
    assert_eq!(e, copy);
    assert_eq!(copy.get_code(), 104);
    assert_eq!(copy.get_message(), "File is not UTF-8");
    assert_eq!(copy.get_file(), Some(&Path::new("/a")));
    let bare = IoError::new("m".to_string(), 1, None);
    assert_eq!(bare.clone(), bare);
}
