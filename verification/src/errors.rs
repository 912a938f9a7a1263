//! The errors of the store: a numeric code, a message and the path that the
//! failed operation was about.
use crate::path::Path;
use vstd::prelude::*;
use vstd::std_specs::cmp::PartialEqSpecImpl;

verus! {

/// Code of the error that says that a file cannot be written.
pub const CANNOT_WRITE: u8 = 101;

/// Code of the error that says that a file cannot be read.
pub const CANNOT_READ: u8 = 102;

/// Code of the error that says that there is no such file.
pub const NOT_FOUND: u8 = 103;

/// Code of the error that says that a file's content is not UTF-8 text.
pub const NOT_UTF8: u8 = 104;

/// Code of the error that says that a file has nothing to execute.
pub const NOT_AN_EXECUTABLE: u8 = 105;

/// What an `IoError` holds, as mathematical values.
pub struct IoErrorView {
    pub message: Seq<char>,
    pub code: u8,
    pub file: Option<Seq<char>>,
}

impl IoErrorView {
    /// What `IoError::new_cannot_write` makes.
    pub open spec fn cannot_write(file: Seq<char>) -> IoErrorView {
        IoErrorView { message: "Cannot write to file"@, code: CANNOT_WRITE, file: Some(file) }
    }

    /// What `IoError::new_cannot_read` makes.
    pub open spec fn cannot_read(file: Seq<char>) -> IoErrorView {
        IoErrorView { message: "Cannot read file"@, code: CANNOT_READ, file: Some(file) }
    }

    /// What `IoError::new_not_found` makes.
    pub open spec fn not_found(file: Seq<char>) -> IoErrorView {
        IoErrorView { message: "File not found"@, code: NOT_FOUND, file: Some(file) }
    }

    /// What `IoError::new_not_utf8` makes.
    pub open spec fn not_utf8(file: Seq<char>) -> IoErrorView {
        IoErrorView { message: "File is not UTF-8"@, code: NOT_UTF8, file: Some(file) }
    }

    /// What `IoError::new_not_an_executable` makes.
    pub open spec fn not_an_executable(file: Seq<char>) -> IoErrorView {
        IoErrorView {
            message: "File is not an executable"@,
            code: NOT_AN_EXECUTABLE,
            file: Some(file),
        }
    }

    /// The line that describes the error: the code in decimal between
    /// brackets, then the message.
    pub open spec fn line(self) -> Seq<char> {
        "IO error ("@ + decimal(self.code as nat) + "): "@ + self.message
    }
}

/// The character of the decimal digit `d`.
pub open spec fn digit(d: nat) -> char
    recommends
        d < 10,
{
    if d == 0 {
        '0'
    } else if d == 1 {
        '1'
    } else if d == 2 {
        '2'
    } else if d == 3 {
        '3'
    } else if d == 4 {
        '4'
    } else if d == 5 {
        '5'
    } else if d == 6 {
        '6'
    } else if d == 7 {
        '7'
    } else if d == 8 {
        '8'
    } else {
        '9'
    }
}

/// The decimal numeral of `n`, without leading zeros.
pub open spec fn decimal(n: nat) -> Seq<char>
    decreases n,
{
    if n < 10 {
        seq![digit(n)]
    } else {
        decimal(n / 10).push(digit(n % 10))
    }
}

/// An operation on a file that the state of the file does not allow.
#[derive(Debug, Eq)]
pub struct IoError {
    message: String,
    code: u8,
    file: Option<Path>,
}

impl View for IoError {
    type V = IoErrorView;

    closed spec fn view(&self) -> IoErrorView {
        IoErrorView {
            message: self.message@,
            code: self.code,
            file: match self.file {
                Some(path) => Some(path@),
                None => None,
            },
        }
    }
}

impl Clone for IoError {
    fn clone(&self) -> (r: Self)
        ensures
            r@ == self@,
    {
        let file = match &self.file {
            Some(path) => Some(path.clone()),
            None => None,
        };
        IoError { message: self.message.clone(), code: self.code, file }
    }
}

impl PartialEq for IoError {
    fn eq(&self, other: &Self) -> (r: bool) {
        let same_file = match (&self.file, &other.file) {
            (Some(a), Some(b)) => a == b,
            (None, None) => true,
            _ => false,
        };
        same_file && self.code == other.code && self.message == other.message
    }
}

impl PartialEqSpecImpl for IoError {
    open spec fn obeys_eq_spec() -> bool {
        true
    }

    open spec fn eq_spec(&self, other: &Self) -> bool {
        self@ == other@
    }
}

/// The one-character string of a decimal digit.
fn digit_str(d: u8) -> (r: &'static str)
    requires
        d < 10,
    ensures
        r@ == seq![digit(d as nat)],
{
    proof {
        reveal_strlit("0");
        reveal_strlit("1");
        reveal_strlit("2");
        reveal_strlit("3");
        reveal_strlit("4");
        reveal_strlit("5");
        reveal_strlit("6");
        reveal_strlit("7");
        reveal_strlit("8");
        reveal_strlit("9");
    }
    let r = if d == 0 {
        "0"
    } else if d == 1 {
        "1"
    } else if d == 2 {
        "2"
    } else if d == 3 {
        "3"
    } else if d == 4 {
        "4"
    } else if d == 5 {
        "5"
    } else if d == 6 {
        "6"
    } else if d == 7 {
        "7"
    } else if d == 8 {
        "8"
    } else {
        "9"
    };
    assert(r@ =~= seq![digit(d as nat)]);
    r
}

impl IoError {
    /// An error with the given message and code, about `file` if there is one.
    pub fn new(message: String, code: u8, file: Option<Path>) -> (e: Self)
        ensures
            e@.message == message@,
            e@.code == code,
            e@.file == match file {
                Some(path) => Some(path@),
                None => None,
            },
    {
        IoError { message, code, file }
    }

    /// The code of the error.
    pub fn get_code(&self) -> (code: u8)
        ensures
            code == self@.code,
    {
        self.code
    }

    /// The message of the error.
    pub fn get_message(&self) -> (message: &str)
        ensures
            message@ == self@.message,
    {
        self.message.as_str()
    }

    /// The path that the error is about, if it is about one.
    pub fn get_file(&self) -> (file: Option<&Path>)
        ensures
            match file {
                Some(path) => self@.file == Some(path@),
                None => self@.file is None,
            },
    {
        self.file.as_ref()
    }

    /// The file cannot be written.
    pub fn new_cannot_write(file: Path) -> (e: Self)
        ensures
            e@ == IoErrorView::cannot_write(file@),
    {
        IoError {
            message: String::from_str("Cannot write to file"),
            code: CANNOT_WRITE,
            file: Some(file),
        }
    }

    /// The file cannot be read.
    pub fn new_cannot_read(file: Path) -> (e: Self)
        ensures
            e@ == IoErrorView::cannot_read(file@),
    {
        IoError {
            message: String::from_str("Cannot read file"),
            code: CANNOT_READ,
            file: Some(file),
        }
    }

    /// There is no such file.
    pub fn new_not_found(file: Path) -> (e: Self)
        ensures
            e@ == IoErrorView::not_found(file@),
    {
        IoError {
            message: String::from_str("File not found"),
            code: NOT_FOUND,
            file: Some(file),
        }
    }

    /// The content of the file is not UTF-8 text.
    pub fn new_not_utf8(file: Path) -> (e: Self)
        ensures
            e@ == IoErrorView::not_utf8(file@),
    {
        IoError {
            message: String::from_str("File is not UTF-8"),
            code: NOT_UTF8,
            file: Some(file),
        }
    }

    /// The file has nothing to execute.
    pub fn new_not_an_executable(file: Path) -> (e: Self)
        ensures
            e@ == IoErrorView::not_an_executable(file@),
    {
        IoError {
            message: String::from_str("File is not an executable"),
            code: NOT_AN_EXECUTABLE,
            file: Some(file),
        }
    }

    /// The line that describes the error, such as
    /// `IO error (104): File is not UTF-8`.
    pub fn to_string(&self) -> (line: String)
        ensures
            line@ == self@.line(),
    {
        let code = self.code;
        let mut line = String::from_str("IO error (");
        if code >= 100 {
            line.append(digit_str(code / 100));
        }
        if code >= 10 {
            line.append(digit_str(code / 10 % 10));
        }
        line.append(digit_str(code % 10));
        proof {
            reveal_with_fuel(decimal, 3);
            assert(line@ == "IO error ("@ + decimal(code as nat));
        }
        line.append("): ");
        line.append(self.message.as_str());
        line
    }
}

} // verus!
