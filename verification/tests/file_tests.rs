use chrono::{NaiveDate, NaiveDateTime, Utc};
use memfs::errors::IoError;
use memfs::file::executable::{widen_exit_code, ExecutableFunction, ExitCode};
use memfs::file::{File, FileType, Metadata, Permissions, EXECUTABLE, READABLE, WRITABLE};
use memfs::path::Path;

fn at(day: u32, hour: u32) -> NaiveDateTime {
    NaiveDate::from_ymd_opt(2024, 2, day).unwrap().and_hms_opt(hour, 30, 15).unwrap()
}

fn plain(file_type: FileType) -> Metadata {
    Metadata::new(file_type, Permissions::default(), at(1, 0))
}

/// Counts its runs in the host's handle and answers with the number of
/// arguments it was given.
struct CountArgs;

impl ExecutableFunction<Vec<String>> for CountArgs {
    fn execute(&self, api: &mut Vec<String>, args: Vec<String>) -> ExitCode {
        let code = args.len() as ExitCode;
        api.extend(args);
        code
    }
}

struct Answer(ExitCode);

impl ExecutableFunction<()> for Answer {
    fn execute(&self, _api: &mut (), _args: Vec<String>) -> ExitCode {
        self.0
    }
}

struct Byte(u8);

impl ExecutableFunction<()> for Byte {
    fn execute(&self, _api: &mut (), _args: Vec<String>) -> ExitCode {
        widen_exit_code(self.0)
    }
}

#[test]
fn the_permission_bits() {
    assert_eq!(READABLE, 0b001);
    assert_eq!(WRITABLE, 0b010);
    assert_eq!(EXECUTABLE, 0b100);
}

#[test]
fn default_permissions_allow_nothing() {
    let p = Permissions::default();
    assert_eq!(p.get(), 0);
    assert!(!p.is_executable());
    assert!(!p.is_writable());
    assert!(!p.is_readable());
}

#[test]
fn permissions_keep_their_byte() {
    assert_eq!(Permissions::new(0).get(), 0);
    assert_eq!(Permissions::new(101).get(), 101);
    assert_eq!(Permissions::new(255).get(), 255);
}

#[test]
fn permissions_read_one_bit_each() {
    for byte in 0..=255u8 {
        let p = Permissions::new(byte);
        assert_eq!(p.is_readable(), byte & 1 != 0);
        assert_eq!(p.is_writable(), byte & 2 != 0);
        assert_eq!(p.is_executable(), byte & 4 != 0);
    }
}

#[test]
fn set_executable_touches_no_other_bit() {
    let mut p = Permissions::default();
    p.set_executable(true);
    assert!(p.is_executable());
    assert!(!p.is_writable());
    assert!(!p.is_readable());
    assert_eq!(p.get(), 0b100);
    p.set_executable(false);
    assert_eq!(p.get(), 0);
}

#[test]
fn set_writable_touches_no_other_bit() {
    let mut p = Permissions::default();
    p.set_writable(true);
    assert!(!p.is_executable());
    assert!(p.is_writable());
    assert!(!p.is_readable());
    assert_eq!(p.get(), 0b010);
    p.set_writable(false);
    assert_eq!(p.get(), 0);
}

#[test]
fn set_readable_touches_no_other_bit() {
    let mut p = Permissions::default();
    p.set_readable(true);
    assert!(!p.is_executable());
    assert!(!p.is_writable());
    assert!(p.is_readable());
    assert_eq!(p.get(), 0b001);
    p.set_readable(false);
    assert_eq!(p.get(), 0);
}

#[test]
fn setters_change_their_own_bit_of_every_byte() {
    for byte in 0..=255u8 {
        for on in [false, true] {
            let mut p = Permissions::new(byte);
            p.set_executable(on);
            assert_eq!(p.get(), if on { byte | 4 } else { byte & !4 });
            let mut p = Permissions::new(byte);
            p.set_writable(on);
            assert_eq!(p.get(), if on { byte | 2 } else { byte & !2 });
            let mut p = Permissions::new(byte);
            p.set_readable(on);
            assert_eq!(p.get(), if on { byte | 1 } else { byte & !1 });
        }
    }
}

#[test]
fn clearing_a_bit_keeps_the_bits_above() {
    let mut p = Permissions::new(101);
    p.set_executable(false);
    assert_eq!(p.get(), 97);
    p.set_writable(true);
    assert_eq!(p.get(), 99);
    p.set_readable(false);
    assert_eq!(p.get(), 98);
}

#[test]
fn setting_a_bit_twice_is_setting_it_once() {
    let mut p = Permissions::new(0b010);
    p.set_readable(true);
    p.set_readable(true);
    assert_eq!(p.get(), 0b011);
    p.set_writable(false);
    p.set_writable(false);
    assert_eq!(p.get(), 0b001);
}

#[test]
fn permissions_are_equal_by_their_byte() {
    assert_eq!(Permissions::new(5), Permissions::new(5));
    assert_ne!(Permissions::new(5), Permissions::new(13));
    assert_eq!(Permissions::default(), Permissions::new(0));
}

#[test]
fn metadata_starts_unedited() {
    let m = Metadata::new(FileType::Symlink, Permissions::new(3), at(1, 8));
    assert_eq!(m.get_file_type(), FileType::Symlink);
    assert_eq!(m.get_permissions(), Permissions::new(3));
    assert_eq!(m.get_created(), at(1, 8));
    assert_eq!(m.get_edited(), None);
}

#[test]
fn metadata_setters_overwrite_one_field() {
    let mut m = Metadata::new(FileType::File, Permissions::new(1), at(1, 8));
    m.set_permissions(Permissions::new(6));
    assert_eq!(m, Metadata::new(FileType::File, Permissions::new(6), at(1, 8)));
    m.set_file_type(FileType::Executable);
    assert_eq!(m, Metadata::new(FileType::Executable, Permissions::new(6), at(1, 8)));
    m.set_created(at(2, 9));
    assert_eq!(m, Metadata::new(FileType::Executable, Permissions::new(6), at(2, 9)));
    assert_eq!(m.get_edited(), None);
}

#[test]
fn an_edit_stays_recorded() {
    let mut m = plain(FileType::File);
    m.set_edited(at(3, 1));
    assert_eq!(m.get_edited(), Some(at(3, 1)));
    m.set_permissions(Permissions::new(7));
    m.set_file_type(FileType::Directory);
    m.set_created(at(4, 0));
    assert_eq!(m.get_edited(), Some(at(3, 1)));
    m.set_edited(at(5, 2));
    assert_eq!(m.get_edited(), Some(at(5, 2)));
    assert_eq!(m.get_file_type(), FileType::Directory);
    assert_eq!(m.get_permissions(), Permissions::new(7));
    assert_eq!(m.get_created(), at(4, 0));
}

#[test]
fn metadata_takes_the_time_of_the_clock() {
    let now = Utc::now().naive_utc();
    let m = Metadata::new(FileType::File, Permissions::default(), now);
    assert_eq!(m.get_created(), now);
    assert_eq!(m.get_created().and_utc().naive_utc(), now);
}

#[test]
fn a_file_keeps_what_it_is_made_of() {
    let f: File<()> = File::new(plain(FileType::File), vec![1, 2, 3], None);
    assert_eq!(f.get_metadata(), plain(FileType::File));
    assert_eq!(f.get_content(), &[1, 2, 3]);
    assert!(f.get_executable().is_none());
}

#[test]
fn file_setters_overwrite_one_field() {
    let mut f: File<()> = File::new(plain(FileType::File), vec![1], None);
    f.set_content(vec![9, 8]);
    assert_eq!(f.get_content(), &[9, 8]);
    assert_eq!(f.get_metadata(), plain(FileType::File));
    f.set_metadata(plain(FileType::Symlink));
    assert_eq!(f.get_metadata(), plain(FileType::Symlink));
    assert_eq!(f.get_content(), &[9, 8]);
    f.set_executable(Some(Box::new(Answer(3))));
    assert!(f.get_executable().is_some());
    assert_eq!(f.get_content(), &[9, 8]);
    assert_eq!(f.get_metadata(), plain(FileType::Symlink));
    f.set_executable(None);
    assert!(f.get_executable().is_none());
}

#[test]
fn content_as_text_decodes_utf8() {
    let f: File<()> = File::new(plain(FileType::File), "Hello world".as_bytes().to_vec(), None);
    assert_eq!(f.get_content_utf8(Path::new("/a")), Ok("Hello world"));
    let f: File<()> = File::new(plain(FileType::File), "día ñ 日本 😀".as_bytes().to_vec(), None);
    assert_eq!(f.get_content_utf8(Path::new("/a")), Ok("día ñ 日本 😀"));
    let f: File<()> = File::new(plain(FileType::File), Vec::new(), None);
    assert_eq!(f.get_content_utf8(Path::new("/a")), Ok(""));
}

#[test]
fn content_that_is_not_utf8_is_no_text() {
    let f: File<()> = File::new(plain(FileType::File), vec![0xFF], None);
    let e = f.get_content_utf8(Path::new("/bin/blob")).unwrap_err();
    assert_eq!(e.get_code(), 104);
    assert_eq!(e.get_message(), "File is not UTF-8");
    assert_eq!(e.get_file(), Some(&Path::new("/bin/blob")));
    assert_eq!(e, IoError::new_not_utf8(Path::new("/bin/blob")));
}

#[test]
fn ill_formed_utf8_is_no_text() {
    let ill: [&[u8]; 6] = [
        &[b'a', 0x80],
        &[0xC3],
        &[0xC0, 0xAF],
        &[0xED, 0xA0, 0x80],
        &[0xF4, 0x90, 0x80, 0x80],
        &[b'o', b'k', 0xE2, 0x82],
    ];
    for bytes in ill {
        let f: File<()> = File::new(plain(FileType::File), bytes.to_vec(), None);
        assert_eq!(
            f.get_content_utf8(Path::new("p")),
            Err(IoError::new_not_utf8(Path::new("p")))
        );
    }
}

#[test]
fn a_file_bound_to_nothing_cannot_be_executed() {
    let f: File<()> = File::new(plain(FileType::File), Vec::new(), None);
    let e = f.execute(&mut (), Vec::new(), Path::new("/bin/readme")).unwrap_err();
    assert_eq!(e.get_code(), 105);
    assert_eq!(e.get_message(), "File is not an executable");
    assert_eq!(e.get_file(), Some(&Path::new("/bin/readme")));
    assert_eq!(e, IoError::new_not_an_executable(Path::new("/bin/readme")));
}

#[test]
fn the_type_of_a_file_does_not_make_it_executable() {
    let f: File<()> = File::new(plain(FileType::Executable), vec![0x7F], None);
    assert_eq!(
        f.execute(&mut (), vec!["x".to_string()], Path::new("/bin/x")),
        Err(IoError::new_not_an_executable(Path::new("/bin/x")))
    );
}

#[test]
fn a_file_of_any_type_runs_what_it_is_bound_to() {
    for file_type in [FileType::Symlink, FileType::Executable, FileType::File, FileType::Directory] {
        let f: File<()> = File::new(plain(file_type), Vec::new(), Some(Box::new(Answer(-3))));
        assert_eq!(f.execute(&mut (), Vec::new(), Path::new("/x")), Ok(-3));
    }
}

#[test]
fn execute_hands_on_the_handle_and_the_arguments() {
    let f: File<Vec<String>> = File::new(plain(FileType::File), Vec::new(), Some(Box::new(CountArgs)));
    let mut seen = vec!["first".to_string()];
    let args = vec!["a".to_string(), "".to_string(), "c d".to_string()];
    assert_eq!(f.execute(&mut seen, args, Path::new("/bin/count")), Ok(3));
    assert_eq!(seen, vec!["first", "a", "", "c d"]);
    assert_eq!(f.execute(&mut seen, Vec::new(), Path::new("/bin/count")), Ok(0));
    assert_eq!(seen, vec!["first", "a", "", "c d"]);
}

#[test]
fn execute_without_a_binding_leaves_the_handle() {
    let f: File<Vec<String>> = File::new(plain(FileType::File), Vec::new(), None);
    let mut seen = vec!["first".to_string()];
    assert!(f.execute(&mut seen, vec!["a".to_string()], Path::new("/x")).is_err());
    assert_eq!(seen, vec!["first"]);
}

#[test]
fn the_bound_executable_can_be_called_directly() {
    let f: File<()> = File::new(plain(FileType::File), Vec::new(), Some(Box::new(Answer(17))));
    let bound = f.get_executable().unwrap();
    assert_eq!(bound.execute(&mut (), Vec::new()), 17);
}

#[test]
fn a_code_of_eight_bits_keeps_its_number() {
    assert_eq!(widen_exit_code(0), 0);
    assert_eq!(widen_exit_code(1), 1);
    assert_eq!(widen_exit_code(127), 127);
    assert_eq!(widen_exit_code(128), 128);
    assert_eq!(widen_exit_code(200), 200);
    assert_eq!(widen_exit_code(255), 255);
    for code in 0..=255u8 {
        assert_eq!(widen_exit_code(code), i32::from(code));
    }
}

#[test]
fn an_executable_of_eight_bits_answers_with_the_same_number() {
    let f: File<()> = File::new(plain(FileType::Executable), Vec::new(), Some(Box::new(Byte(200))));
    assert_eq!(f.execute(&mut (), Vec::new(), Path::new("/x")), Ok(200));
}

#[test]
fn file_types_are_told_apart() {
    assert_eq!(FileType::File, FileType::File);
    assert_ne!(FileType::File, FileType::Executable);
    assert_ne!(FileType::Symlink, FileType::Directory);
    let copy = FileType::Directory;
    assert_eq!(copy, FileType::Directory);
    assert_eq!(format!("{:?}", FileType::Symlink), "Symlink");
}

#[test]
fn setters_work_in_either_order() {
    for byte in [0u8, 0b101, 0b010, 101, 255] {
        for x in [false, true] {
            for w in [false, true] {
                let mut one = Permissions::new(byte);
                one.set_executable(x);
                one.set_writable(w);
                let mut other = Permissions::new(byte);
                other.set_writable(w);
                other.set_executable(x);
                assert_eq!(one, other);
                assert_eq!(one.is_executable(), x);
                assert_eq!(one.is_writable(), w);
                assert_eq!(one.is_readable(), byte & 1 != 0);
            }
        }
    }
}
