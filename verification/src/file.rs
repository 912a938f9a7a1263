//! Files: their type, permissions and timestamps, their content, and the
//! executable that a file may be bound to.
use crate::errors::{IoError, IoErrorView};
use crate::file::executable::{ExecutableFunction, ExitCode};
use crate::path::Path;
use chrono::NaiveDateTime;
use vstd::prelude::*;
use vstd::utf8::{decode_utf8, encode_utf8, encode_utf8_decode_utf8, valid_utf8};

pub mod executable;

verus! {

/// `chrono::NaiveDateTime`, a date and time without a time zone. It is
/// declared so that a timestamp can stand in a field and in a signature.
/// The store keeps timestamps as it is given them and never looks into one,
/// and nothing is claimed of the type.
#[verifier::external_type_specification]
#[verifier::external_body]
pub struct ExNaiveDateTime(NaiveDateTime);

/// `core::str::Utf8Error`, the error of `core::str::from_utf8`. Nothing is
/// claimed of it: the store maps it to an error of its own.
#[verifier::external_type_specification]
#[verifier::external_body]
pub struct ExUtf8Error(core::str::Utf8Error);

/// `core::str::from_utf8` is taken on trust to do what its documentation
/// says: it succeeds exactly on the byte sequences that are well-formed
/// UTF-8, and the string slice it then returns is made of the bytes it was
/// given.
pub assume_specification[ core::str::from_utf8 ](v: &[u8]) -> (r: Result<
    &str,
    core::str::Utf8Error,
>)
    ensures
        r is Ok <==> valid_utf8(v@),
        r matches Ok(s) ==> encode_utf8(s@) == v@,
;

/// What kind of entry a file is. The tag describes; it decides nothing.
#[derive(Debug, Clone, Copy, PartialEq, Eq, Structural)]
pub enum FileType {
    Symlink,
    Executable,
    File,
    Directory,
}

/// The bit of a permission byte that says that a file can be read.
pub const READABLE: u8 = 0b001;

/// The bit of a permission byte that says that a file can be written.
pub const WRITABLE: u8 = 0b010;

/// The bit of a permission byte that says that a file can be executed.
pub const EXECUTABLE: u8 = 0b100;

/// The byte `p` with the bits of `mask` set if `on`, and cleared if not.
pub open spec fn with_bits(p: u8, mask: u8, on: bool) -> u8 {
    if on {
        p | mask
    } else {
        p & !mask
    }
}

/// Setting or clearing the bits of a mask makes them what was asked for and
/// leaves every bit outside the mask as it was.
pub proof fn lemma_with_bits(p: u8, mask: u8, on: bool)
    ensures
        on ==> with_bits(p, mask, on) & mask == mask,
        !on ==> with_bits(p, mask, on) & mask == 0,
        with_bits(p, mask, on) & !mask == p & !mask,
        forall|other: u8| other & mask == 0 ==> #[trigger] (with_bits(p, mask, on) & other) == p & other,
{
    assert((p | mask) & mask == mask) by (bit_vector);
    assert((p & !mask) & mask == 0) by (bit_vector);
    assert((p | mask) & !mask == p & !mask) by (bit_vector);
    assert((p & !mask) & !mask == p & !mask) by (bit_vector);
    assert forall|other: u8| other & mask == 0 implies #[trigger] (with_bits(p, mask, on) & other)
        == p & other by {
        assert(other & mask == 0 ==> (p | mask) & other == p & other) by (bit_vector);
        assert(other & mask == 0 ==> (p & !mask) & other == p & other) by (bit_vector);
    }
}

/// Bits of masks that share no bit can be set or cleared in either order.
pub proof fn lemma_with_bits_commute(p: u8, first: u8, a: bool, second: u8, b: bool)
    requires
        first & second == 0,
    ensures
        with_bits(with_bits(p, first, a), second, b) == with_bits(with_bits(p, second, b), first, a),
{
    assert(first & second == 0 ==> (p | first) | second == (p | second) | first) by (bit_vector);
    assert(first & second == 0 ==> (p | first) & !second == (p & !second) | first) by (bit_vector);
    assert(first & second == 0 ==> (p & !first) | second == (p | second) & !first) by (bit_vector);
    assert(first & second == 0 ==> (p & !first) & !second == (p & !second) & !first)
        by (bit_vector);
}

/// The permissions of a file: one byte, of which three bits are read.
#[derive(Debug, Clone, Copy, PartialEq, Eq, Structural)]
pub struct Permissions {
    p: u8,
}

impl Default for Permissions {
    /// No permission at all.
    fn default() -> (r: Self)
        ensures
            r.get() == 0,
    {
        Permissions { p: 0 }
    }
}

impl Permissions {
    /// The permission byte.
    pub closed spec fn bits(&self) -> u8 {
        self.p
    }

    /// The executable bit is set.
    pub open spec fn spec_is_executable(&self) -> bool {
        self.bits() & EXECUTABLE != 0
    }

    /// The writable bit is set.
    pub open spec fn spec_is_writable(&self) -> bool {
        self.bits() & WRITABLE != 0
    }

    /// The readable bit is set.
    pub open spec fn spec_is_readable(&self) -> bool {
        self.bits() & READABLE != 0
    }

    /// The permissions that the byte `p` stands for.
    pub fn new(p: u8) -> (r: Self)
        ensures
            r.get() == p,
    {
        Permissions { p }
    }

    /// The permission byte.
    #[verifier::when_used_as_spec(bits)]
    pub fn get(&self) -> (p: u8)
        ensures
            p == self.bits(),
    {
        self.p
    }

    /// Says whether the executable bit is set.
    #[verifier::when_used_as_spec(spec_is_executable)]
    pub fn is_executable(&self) -> (b: bool)
        ensures
            b == self.spec_is_executable(),
    {
        self.p & EXECUTABLE != 0
    }

    /// Says whether the writable bit is set.
    #[verifier::when_used_as_spec(spec_is_writable)]
    pub fn is_writable(&self) -> (b: bool)
        ensures
            b == self.spec_is_writable(),
    {
        self.p & WRITABLE != 0
    }

    /// Says whether the readable bit is set.
    #[verifier::when_used_as_spec(spec_is_readable)]
    pub fn is_readable(&self) -> (b: bool)
        ensures
            b == self.spec_is_readable(),
    {
        self.p & READABLE != 0
    }

    /// Sets or clears the executable bit. No other bit changes.
    pub fn set_executable(&mut self, e: bool)
        ensures
            final(self).get() == with_bits(old(self).get(), EXECUTABLE, e),
            final(self).is_executable() == e,
            final(self).is_writable() == old(self).is_writable(),
            final(self).is_readable() == old(self).is_readable(),
    {
        proof {
            lemma_with_bits(self.p, EXECUTABLE, e);
            assert(WRITABLE & EXECUTABLE == 0 && READABLE & EXECUTABLE == 0) by (bit_vector);
        }
        if e {
            self.p = self.p | EXECUTABLE;
        } else {
            self.p = self.p & !EXECUTABLE;
        }
    }

    /// Sets or clears the writable bit. No other bit changes.
    pub fn set_writable(&mut self, w: bool)
        ensures
            final(self).get() == with_bits(old(self).get(), WRITABLE, w),
            final(self).is_writable() == w,
            final(self).is_executable() == old(self).is_executable(),
            final(self).is_readable() == old(self).is_readable(),
    {
        proof {
            lemma_with_bits(self.p, WRITABLE, w);
            assert(EXECUTABLE & WRITABLE == 0 && READABLE & WRITABLE == 0) by (bit_vector);
        }
        if w {
            self.p = self.p | WRITABLE;
        } else {
            self.p = self.p & !WRITABLE;
        }
    }

    /// Sets or clears the readable bit. No other bit changes.
    pub fn set_readable(&mut self, r: bool)
        ensures
            final(self).get() == with_bits(old(self).get(), READABLE, r),
            final(self).is_readable() == r,
            final(self).is_executable() == old(self).is_executable(),
            final(self).is_writable() == old(self).is_writable(),
    {
        proof {
            lemma_with_bits(self.p, READABLE, r);
            assert(EXECUTABLE & READABLE == 0 && WRITABLE & READABLE == 0) by (bit_vector);
        }
        if r {
            self.p = self.p | READABLE;
        } else {
            self.p = self.p & !READABLE;
        }
    }
}

/// What the store records about a file, apart from its content.
#[derive(Debug, Clone, Copy, PartialEq, Eq)]
pub struct Metadata {
    file_type: FileType,
    permissions: Permissions,
    created: NaiveDateTime,
    edited: Option<NaiveDateTime>,
}

impl Metadata {
    /// What kind of entry the file is said to be.
    pub closed spec fn spec_file_type(&self) -> FileType {
        self.file_type
    }

    /// The permissions of the file.
    pub closed spec fn spec_permissions(&self) -> Permissions {
        self.permissions
    }

    /// When the file was created.
    pub closed spec fn spec_created(&self) -> NaiveDateTime {
        self.created
    }

    /// When the file was last edited, if it ever was.
    pub closed spec fn spec_edited(&self) -> Option<NaiveDateTime> {
        self.edited
    }

    /// The metadata of a file that was created at `created` and has not
    /// been edited.
    pub fn new(file_type: FileType, permissions: Permissions, created: NaiveDateTime) -> (m: Self)
        ensures
            m.get_file_type() == file_type,
            m.get_permissions() == permissions,
            m.get_created() == created,
            m.get_edited() is None,
    {
        Metadata { file_type, permissions, created, edited: None }
    }

    /// What kind of entry the file is said to be.
    #[verifier::when_used_as_spec(spec_file_type)]
    pub fn get_file_type(&self) -> (file_type: FileType)
        ensures
            file_type == self.spec_file_type(),
    {
        self.file_type
    }

    /// The permissions of the file.
    #[verifier::when_used_as_spec(spec_permissions)]
    pub fn get_permissions(&self) -> (permissions: Permissions)
        ensures
            permissions == self.spec_permissions(),
    {
        self.permissions
    }

    /// When the file was created.
    #[verifier::when_used_as_spec(spec_created)]
    pub fn get_created(&self) -> (created: NaiveDateTime)
        ensures
            created == self.spec_created(),
    {
        self.created
    }

    /// When the file was last edited, if it ever was.
    #[verifier::when_used_as_spec(spec_edited)]
    pub fn get_edited(&self) -> (edited: Option<NaiveDateTime>)
        ensures
            edited == self.spec_edited(),
    {
        self.edited
    }

    /// Gives the file other permissions.
    pub fn set_permissions(&mut self, permissions: Permissions)
        ensures
            final(self).get_permissions() == permissions,
            final(self).get_file_type() == old(self).get_file_type(),
            final(self).get_created() == old(self).get_created(),
            final(self).get_edited() == old(self).get_edited(),
    {
        self.permissions = permissions;
    }

    /// Records that the file was edited at `edited`. Nothing takes the
    /// record away again.
    pub fn set_edited(&mut self, edited: NaiveDateTime)
        ensures
            final(self).get_edited() == Some(edited),
            final(self).get_file_type() == old(self).get_file_type(),
            final(self).get_permissions() == old(self).get_permissions(),
            final(self).get_created() == old(self).get_created(),
    {
        self.edited = Some(edited);
    }

    /// Says that the file is of another kind.
    pub fn set_file_type(&mut self, file_type: FileType)
        ensures
            final(self).get_file_type() == file_type,
            final(self).get_permissions() == old(self).get_permissions(),
            final(self).get_created() == old(self).get_created(),
            final(self).get_edited() == old(self).get_edited(),
    {
        self.file_type = file_type;
    }

    /// Says that the file was created at another time.
    pub fn set_created(&mut self, created: NaiveDateTime)
        ensures
            final(self).get_created() == created,
            final(self).get_file_type() == old(self).get_file_type(),
            final(self).get_permissions() == old(self).get_permissions(),
            final(self).get_edited() == old(self).get_edited(),
    {
        self.created = created;
    }
}

/// A file: its metadata, its content, and the executable it is bound to, if
/// any.
///
/// Whether a file can be executed depends on that binding alone. A file
/// whose type is `Executable` and that is bound to nothing cannot be
/// executed; a file of another type that is bound to something can.
#[verifier::reject_recursive_types(H)]
pub struct File<H> {
    metadata: Metadata,
    content: Vec<u8>,
    executable: Option<Box<dyn ExecutableFunction<H>>>,
}

impl<H> File<H> {
    /// The metadata of the file.
    pub closed spec fn spec_metadata(&self) -> Metadata {
        self.metadata
    }

    /// The bytes of the file.
    pub closed spec fn spec_content(&self) -> Seq<u8> {
        self.content@
    }

    /// The executable that the file is bound to.
    pub closed spec fn spec_executable(&self) -> Option<Box<dyn ExecutableFunction<H>>> {
        self.executable
    }

    /// A file made of its three parts.
    pub fn new(
        metadata: Metadata,
        content: Vec<u8>,
        executable: Option<Box<dyn ExecutableFunction<H>>>,
    ) -> (file: Self)
        ensures
            file.spec_metadata() == metadata,
            file.spec_content() == content@,
            file.spec_executable() == executable,
    {
        File { metadata, content, executable }
    }

    /// The metadata of the file.
    #[verifier::when_used_as_spec(spec_metadata)]
    pub fn get_metadata(&self) -> (metadata: Metadata)
        ensures
            metadata == self.spec_metadata(),
    {
        self.metadata
    }

    /// The bytes of the file.
    pub fn get_content(&self) -> (content: &[u8])
        ensures
            content@ == self.spec_content(),
    {
        self.content.as_slice()
    }

    /// The content as text. It is text exactly when it is well-formed
    /// UTF-8; content that is not gives the error `NOT_UTF8` about `path`.
    pub fn get_content_utf8(&self, path: Path) -> (r: Result<&str, IoError>)
        ensures
            r is Ok <==> valid_utf8(self.spec_content()),
            r matches Ok(text) ==> text@ == decode_utf8(self.spec_content()),
            r matches Err(e) ==> e@ == IoErrorView::not_utf8(path@),
    {
        match core::str::from_utf8(self.content.as_slice()) {
            Ok(text) => {
                proof {
                    encode_utf8_decode_utf8(text@);
                }
                Ok(text)
            },
            Err(_) => Err(IoError::new_not_utf8(path)),
        }
    }

    /// The executable that the file is bound to, if any.
    pub fn get_executable(&self) -> (executable: Option<&Box<dyn ExecutableFunction<H>>>)
        ensures
            match executable {
                Some(bound) => self.spec_executable() == Some(*bound),
                None => self.spec_executable() is None,
            },
    {
        self.executable.as_ref()
    }

    /// Gives the file other metadata.
    pub fn set_metadata(&mut self, metadata: Metadata)
        ensures
            final(self).spec_metadata() == metadata,
            final(self).spec_content() == old(self).spec_content(),
            final(self).spec_executable() == old(self).spec_executable(),
    {
        self.metadata = metadata;
    }

    /// Gives the file other content.
    pub fn set_content(&mut self, content: Vec<u8>)
        ensures
            final(self).spec_content() == content@,
            final(self).spec_metadata() == old(self).spec_metadata(),
            final(self).spec_executable() == old(self).spec_executable(),
    {
        self.content = content;
    }

    /// Binds the file to `executable`, or to nothing.
    pub fn set_executable(&mut self, executable: Option<Box<dyn ExecutableFunction<H>>>)
        ensures
            final(self).spec_executable() == executable,
            final(self).spec_metadata() == old(self).spec_metadata(),
            final(self).spec_content() == old(self).spec_content(),
    {
        self.executable = executable;
    }

    /// Runs the executable that the file is bound to, with the host's handle
    /// and `args` as they are given, and answers with its exit code. A file
    /// that is bound to nothing gives the error `NOT_AN_EXECUTABLE` about
    /// `path`, and the handle is left as it was.
    pub fn execute(&self, api: &mut H, args: Vec<String>, path: Path) -> (r: Result<
        ExitCode,
        IoError,
    >)
        ensures
            r is Ok <==> self.spec_executable() is Some,
            r matches Ok(code) ==> self.spec_executable()->0.outcome(
                *old(api),
                args.deep_view(),
                *final(api),
                code,
            ),
            r matches Err(e) ==> e@ == IoErrorView::not_an_executable(path@) && *final(api) == *old(
                api,
            ),
    {
        match &self.executable {
            Some(executable) => Ok(executable.execute(api, args)),
            None => Err(IoError::new_not_an_executable(path)),
        }
    }
}

} // verus!
