//! Opening a directory without following a reparse point on the way.
//!
//! The drive letter is resolved by opening the volume root on its own, because
//! `\??\X:` is an object-manager symbolic link and an open that refuses to
//! reparse rejects it on some Windows builds. The root handle is then verified
//! to be the root directory of a local volume, and every filesystem component
//! below it is opened relative to its parent handle, so no junction, symlink,
//! or mount point is followed.
//!
//! A [`DirectoryWalk`] decides. It says which system call comes next and reads
//! the answer; whoever drives it makes the calls.

use vstd::prelude::*;
use vstd::slice::slice_to_vec;
use crate::drive_path;
use crate::drive_path::split_local_drive_path;
use crate::error::AclError;
use crate::nt::FILE_ATTRIBUTE_NORMAL;
use crate::nt::FILE_ATTRIBUTE_REPARSE_POINT;
use crate::nt::FILE_DEVICE_DISK;
use crate::nt::FILE_DEVICE_VIRTUAL_DISK;
use crate::nt::FILE_DIRECTORY_FILE;
use crate::nt::FILE_OPEN;
use crate::nt::FILE_OPEN_IF;
use crate::nt::FILE_READ_ATTRIBUTES;
use crate::nt::FILE_REMOTE_DEVICE;
use crate::nt::FILE_SHARE_DELETE;
use crate::nt::FILE_SHARE_READ;
use crate::nt::FILE_SHARE_WRITE;
use crate::nt::FILE_TRAVERSE;
use crate::nt::INVALID_HANDLE_VALUE;
use crate::nt::OBJ_CASE_INSENSITIVE;
use crate::nt::OBJ_DONT_REPARSE;
use crate::nt::READ_CONTROL;
use crate::nt::REPARSE_TAG_NAME_SURROGATE_BIT;
use crate::nt::STATUS_REPARSE_POINT_ENCOUNTERED;
use crate::nt::WRITE_DAC;
use crate::wide_path::BACKSLASH;

verus! {

/// The arguments of one `NtCreateFile` call.
#[derive(Debug, PartialEq, Eq)]
pub struct OpenRequest {
    /// The handle that the name is relative to, or 0 for an absolute name.
    pub root_directory: isize,
    /// The name, with a NUL behind it.
    pub buffer: Vec<u16>,
    /// The length of the name in bytes.
    pub name_length: u16,
    /// The length of the buffer in bytes.
    pub maximum_length: u16,
    /// How the name is looked up.
    pub attributes: u32,
    /// The rights that the handle is to have.
    pub desired_access: u32,
    /// The attributes of a directory that is created.
    pub file_attributes: u32,
    /// What others may do while the handle is open.
    pub share_access: u32,
    /// What happens if the directory does or does not exist.
    pub create_disposition: u32,
    /// What may be opened.
    pub create_options: u32,
}

/// An [`OpenRequest`] with its buffer as a sequence.
pub struct OpenRequestView {
    pub root_directory: isize,
    pub buffer: Seq<u16>,
    pub name_length: u16,
    pub maximum_length: u16,
    pub attributes: u32,
    pub desired_access: u32,
    pub file_attributes: u32,
    pub share_access: u32,
    pub create_disposition: u32,
    pub create_options: u32,
}

impl View for OpenRequest {
    type V = OpenRequestView;

    open spec fn view(&self) -> OpenRequestView {
        OpenRequestView {
            root_directory: self.root_directory,
            buffer: self.buffer@,
            name_length: self.name_length,
            maximum_length: self.maximum_length,
            attributes: self.attributes,
            desired_access: self.desired_access,
            file_attributes: self.file_attributes,
            share_access: self.share_access,
            create_disposition: self.create_disposition,
            create_options: self.create_options,
        }
    }
}

/// The name and the NUL behind it can be counted in bytes by 16 bits.
pub open spec fn name_fits(name: Seq<u16>) -> bool {
    2 * (name.len() + 1) <= u16::MAX
}

/// The request that opens `name`, seen from the directory behind
/// `root_directory` if there is one.
pub open spec fn request_for(
    root_directory: Option<isize>,
    name: Seq<u16>,
    desired_access: u32,
    create_disposition: u32,
    attributes: u32,
) -> Result<OpenRequestView, AclError> {
    if name_fits(name) {
        Ok(
            OpenRequestView {
                root_directory: match root_directory {
                    Some(handle) => handle,
                    None => 0,
                },
                buffer: name.push(0),
                name_length: (2 * name.len()) as u16,
                maximum_length: (2 * (name.len() + 1)) as u16,
                attributes,
                desired_access,
                file_attributes: FILE_ATTRIBUTE_NORMAL,
                share_access: FILE_SHARE_READ | FILE_SHARE_WRITE | FILE_SHARE_DELETE,
                create_disposition,
                create_options: FILE_DIRECTORY_FILE,
            },
        )
    } else {
        Err(AclError::NameTooLong)
    }
}

/// A request, or why there is none, seen as sequences.
pub open spec fn request_view(request: Result<OpenRequest, AclError>) -> Result<
    OpenRequestView,
    AclError,
> {
    match request {
        Ok(request) => Ok(request@),
        Err(error) => Err(error),
    }
}

/// Prepares the open of a directory by name.
pub fn nt_open(
    root_directory: Option<isize>,
    name: &[u16],
    desired_access: u32,
    create_disposition: u32,
    attributes: u32,
) -> (request: Result<OpenRequest, AclError>)
    ensures
        request_view(request) == request_for(
            root_directory,
            name@,
            desired_access,
            create_disposition,
            attributes,
        ),
{
    if name.len() > 32766 {
        return Err(AclError::NameTooLong);
    }
    let name_length: u16 = (name.len() * 2) as u16;
    let maximum_length: u16 = ((name.len() + 1) * 2) as u16;
    let mut buffer: Vec<u16> = slice_to_vec(name);
    buffer.push(0);
    Ok(
        OpenRequest {
            root_directory: match root_directory {
                Some(handle) => handle,
                None => 0,
            },
            buffer,
            name_length,
            maximum_length,
            attributes,
            desired_access,
            file_attributes: FILE_ATTRIBUTE_NORMAL,
            share_access: FILE_SHARE_READ | FILE_SHARE_WRITE | FILE_SHARE_DELETE,
            create_disposition,
            create_options: FILE_DIRECTORY_FILE,
        },
    )
}

/// A handle that stands for an open object.
pub open spec fn usable(handle: isize) -> bool {
    handle != 0 && handle != INVALID_HANDLE_VALUE
}

/// The handle that an open gave, or why it gave none.
pub open spec fn opened(status: i32, os_error: u32, handle: isize) -> Result<isize, AclError> {
    if status == STATUS_REPARSE_POINT_ENCOUNTERED {
        Err(AclError::ReparsePoint)
    } else if status < 0 {
        Err(AclError::OpenFailed { os_error })
    } else if usable(handle) {
        Ok(handle)
    } else {
        Err(AclError::InvalidHandle)
    }
}

/// Reads the outcome of an open. `os_error` is the system error code for
/// `status`, and only looked at where `status` is a failure.
pub fn nt_opened(status: i32, os_error: u32, handle: isize) -> (outcome: Result<isize, AclError>)
    ensures
        outcome == opened(status, os_error, handle),
{
    if status < 0 {
        if status == STATUS_REPARSE_POINT_ENCOUNTERED {
            return Err(AclError::ReparsePoint);
        }
        return Err(AclError::OpenFailed { os_error });
    }
    if handle == 0 || handle == INVALID_HANDLE_VALUE {
        return Err(AclError::InvalidHandle);
    }
    Ok(handle)
}

/// A disk of this machine, physical or virtual.
pub open spec fn local_disk(device_type: u32, characteristics: u32) -> bool {
    &&& device_type == FILE_DEVICE_DISK || device_type == FILE_DEVICE_VIRTUAL_DISK
    &&& characteristics & FILE_REMOTE_DEVICE == 0
}

/// Whether the device behind a drive letter is a local disk.
pub open spec fn device_accepted(
    status: i32,
    os_error: u32,
    device_type: u32,
    characteristics: u32,
) -> Result<(), AclError> {
    if status < 0 {
        Err(AclError::DeviceQueryFailed { os_error })
    } else if local_disk(device_type, characteristics) {
        Ok(())
    } else {
        Err(AclError::NotLocalVolume)
    }
}

/// Accepts the device behind a drive letter if it is a local disk, so that a
/// drive letter mapped to a network share is rejected.
pub fn require_local_disk(
    status: i32,
    os_error: u32,
    device_type: u32,
    characteristics: u32,
) -> (outcome: Result<(), AclError>)
    ensures
        outcome == device_accepted(status, os_error, device_type, characteristics),
{
    if status < 0 {
        return Err(AclError::DeviceQueryFailed { os_error });
    }
    if (device_type == FILE_DEVICE_DISK || device_type == FILE_DEVICE_VIRTUAL_DISK)
        && characteristics & FILE_REMOTE_DEVICE == 0 {
        Ok(())
    } else {
        Err(AclError::NotLocalVolume)
    }
}

/// How many bytes of a file name record come before the name.
pub const FILE_NAME_HEADER_LEN: usize = 4;

/// The size of the buffer for a file name record: the length of the name, and
/// room for 1024 code units.
pub const FILE_NAME_BUFFER_LEN: usize = 2052;

/// Four bytes as a number, least significant byte first.
pub open spec fn u32_of_bytes(bytes: Seq<u8>) -> nat {
    (bytes[0] + 0x100 * bytes[1] + 0x1_0000 * bytes[2] + 0x100_0000 * bytes[3]) as nat
}

/// Pairs of bytes as code units, least significant byte first. A last byte
/// without a partner is left out.
pub open spec fn units_of_bytes(bytes: Seq<u8>) -> Seq<u16> {
    Seq::new(bytes.len() / 2, |i: int| (bytes[2 * i] + 0x100 * bytes[2 * i + 1]) as u16)
}

/// The name in a file name record, which is the length of the name in bytes
/// followed by the name.
pub open spec fn recorded_name(record: Seq<u8>) -> Result<Seq<u16>, AclError> {
    let len = u32_of_bytes(record);
    if FILE_NAME_HEADER_LEN + len <= record.len() {
        Ok(
            units_of_bytes(
                record.subrange(FILE_NAME_HEADER_LEN as int, FILE_NAME_HEADER_LEN + len),
            ),
        )
    } else {
        Err(AclError::RootNameTruncated)
    }
}

/// The path of a handle relative to its volume, or why it is not known.
pub open spec fn volume_relative_name(ok: i32, os_error: u32, record: Seq<u8>) -> Result<
    Seq<u16>,
    AclError,
> {
    if ok == 0 {
        Err(AclError::RootNameQueryFailed { os_error })
    } else {
        recorded_name(record)
    }
}

/// Reads the path of a handle relative to its volume (`\` for a volume root)
/// from the answer to a file name query. Windows stores numbers with the least
/// significant byte first.
pub fn handle_volume_relative_name(ok: i32, os_error: u32, record: &[u8]) -> (name: Result<
    Vec<u16>,
    AclError,
>)
    requires
        record@.len() >= FILE_NAME_HEADER_LEN,
    ensures
        match name {
            Ok(name) => volume_relative_name(ok, os_error, record@) == Ok::<Seq<u16>, AclError>(
                name@,
            ),
            Err(error) => volume_relative_name(ok, os_error, record@) == Err::<Seq<u16>, AclError>(
                error,
            ),
        },
{
    if ok == 0 {
        return Err(AclError::RootNameQueryFailed { os_error });
    }
    let total: usize = record.len();
    let len: u32 = record[0] as u32 + 0x100 * (record[1] as u32) + 0x1_0000 * (record[2] as u32)
        + 0x100_0000 * (record[3] as u32);
    if len as usize > total - FILE_NAME_HEADER_LEN {
        return Err(AclError::RootNameTruncated);
    }
    let ghost bytes = record@.subrange(FILE_NAME_HEADER_LEN as int, FILE_NAME_HEADER_LEN + len);
    let count: usize = len as usize / 2;
    let mut name: Vec<u16> = Vec::new();
    let mut index: usize = 0;
    while index < count
        invariant
            index <= count,
            count == len / 2,
            FILE_NAME_HEADER_LEN + len <= total == record@.len(),
            bytes == record@.subrange(FILE_NAME_HEADER_LEN as int, FILE_NAME_HEADER_LEN + len),
            name@ =~= units_of_bytes(bytes).take(index as int),
        decreases count - index,
    {
        let at: usize = FILE_NAME_HEADER_LEN + 2 * index;
        let unit: u16 = record[at] as u16 + 0x100 * (record[at + 1] as u16);
        assert(bytes[2 * index] == record@[at as int]);
        assert(bytes[2 * index + 1] == record@[at + 1]);
        assert(units_of_bytes(bytes)[index as int] == unit);
        name.push(unit);
        index += 1;
    }
    assert(name@ =~= units_of_bytes(bytes));
    Ok(name)
}

/// Whether a drive letter leads to the root of a volume.
pub open spec fn root_accepted(ok: i32, os_error: u32, record: Seq<u8>) -> Result<(), AclError> {
    match volume_relative_name(ok, os_error, record) {
        Ok(name) => if name == seq![BACKSLASH] {
            Ok(())
        } else {
            Err(AclError::NotVolumeRoot)
        },
        Err(error) => Err(error),
    }
}

/// Accepts the directory behind a drive letter if it is the root of its
/// volume, so that a drive letter mapped into a subdirectory (for example with
/// `subst`) is rejected.
pub fn require_volume_root(ok: i32, os_error: u32, record: &[u8]) -> (outcome: Result<
    (),
    AclError,
>)
    requires
        record@.len() >= FILE_NAME_HEADER_LEN,
    ensures
        outcome == root_accepted(ok, os_error, record@),
{
    match handle_volume_relative_name(ok, os_error, record) {
        Ok(name) => {
            if name.len() == 1 && name[0] == BACKSLASH {
                assert(name@ =~= seq![BACKSLASH]);
                Ok(())
            } else {
                assert(name@ != seq![BACKSLASH]) by {
                    if name@ == seq![BACKSLASH] {
                        assert(name@[0] == BACKSLASH);
                    }
                }
                Err(AclError::NotVolumeRoot)
            }
        },
        Err(error) => Err(error),
    }
}

/// The object redirects name resolution elsewhere.
pub open spec fn name_surrogate(file_attributes: u32, reparse_tag: u32) -> bool {
    &&& file_attributes & FILE_ATTRIBUTE_REPARSE_POINT != 0
    &&& reparse_tag & REPARSE_TAG_NAME_SURROGATE_BIT != 0
}

/// Whether an opened component is what its name says.
pub open spec fn tag_accepted(
    ok: i32,
    os_error: u32,
    file_attributes: u32,
    reparse_tag: u32,
) -> Result<(), AclError> {
    if ok == 0 {
        Err(AclError::AttributeQueryFailed { os_error })
    } else if name_surrogate(file_attributes, reparse_tag) {
        Err(AclError::ReparsePoint)
    } else {
        Ok(())
    }
}

/// Rejects an opened component that is a junction, a symlink or a mount point.
pub fn reject_name_surrogate(
    ok: i32,
    os_error: u32,
    file_attributes: u32,
    reparse_tag: u32,
) -> (outcome: Result<(), AclError>)
    ensures
        outcome == tag_accepted(ok, os_error, file_attributes, reparse_tag),
{
    if ok == 0 {
        return Err(AclError::AttributeQueryFailed { os_error });
    }
    if file_attributes & FILE_ATTRIBUTE_REPARSE_POINT == 0 || reparse_tag
        & REPARSE_TAG_NAME_SURROGATE_BIT == 0 {
        Ok(())
    } else {
        Err(AclError::ReparsePoint)
    }
}

/// Whether the root of a volume is no reparse point of any kind.
pub open spec fn root_tag_accepted(ok: i32, os_error: u32, file_attributes: u32) -> Result<
    (),
    AclError,
> {
    if ok == 0 {
        Err(AclError::AttributeQueryFailed { os_error })
    } else if file_attributes & FILE_ATTRIBUTE_REPARSE_POINT != 0 {
        Err(AclError::ReparsePoint)
    } else {
        Ok(())
    }
}

/// Rejects the root of a volume if it is a reparse point, whatever its tag.
pub fn reject_reparse_root(ok: i32, os_error: u32, file_attributes: u32) -> (outcome: Result<
    (),
    AclError,
>)
    ensures
        outcome == root_tag_accepted(ok, os_error, file_attributes),
{
    if ok == 0 {
        return Err(AclError::AttributeQueryFailed { os_error });
    }
    if file_attributes & FILE_ATTRIBUTE_REPARSE_POINT == 0 {
        Ok(())
    } else {
        Err(AclError::ReparsePoint)
    }
}

/// What the last directory of a path is opened for.
#[derive(Clone, Copy, Debug, PartialEq, Eq, Structural)]
pub enum Leaf {
    /// It is created if it does not exist, and its access control list is
    /// going to be written.
    OpenOrCreate,
    /// It must exist, and its access control list is only read.
    ReadExisting,
}

impl Leaf {
    /// The rights that the last handle is to have. Writing an access control
    /// list can be rejected for a handle that has no right but that one.
    pub open spec fn access(self) -> u32 {
        match self {
            Leaf::OpenOrCreate => READ_CONTROL | WRITE_DAC | FILE_READ_ATTRIBUTES,
            Leaf::ReadExisting => READ_CONTROL | FILE_READ_ATTRIBUTES,
        }
    }

    /// What happens if the last directory does not exist.
    pub open spec fn disposition(self) -> u32 {
        match self {
            Leaf::OpenOrCreate => FILE_OPEN_IF,
            Leaf::ReadExisting => FILE_OPEN,
        }
    }

    fn desired_access(&self) -> (access: u32)
        ensures
            access == self.access(),
    {
        match *self {
            Leaf::OpenOrCreate => READ_CONTROL | WRITE_DAC | FILE_READ_ATTRIBUTES,
            Leaf::ReadExisting => READ_CONTROL | FILE_READ_ATTRIBUTES,
        }
    }

    fn create_disposition(&self) -> (disposition: u32)
        ensures
            disposition == self.disposition(),
    {
        match *self {
            Leaf::OpenOrCreate => FILE_OPEN_IF,
            Leaf::ReadExisting => FILE_OPEN,
        }
    }
}

/// Where a walk stands. A number is the index of a component.
#[derive(Clone, Copy, Debug, PartialEq, Eq, Structural)]
pub enum Phase {
    /// The drive root is to be opened.
    OpenRoot,
    /// The device behind the drive root is to be asked for.
    CheckDevice,
    /// The name of the drive root within its volume is to be asked for.
    CheckRootName,
    /// The reparse tag of the drive root is to be asked for.
    CheckRootTag,
    /// A component is to be opened relative to its parent.
    OpenComponent(usize),
    /// The reparse tag of a component is to be asked for.
    CheckComponentTag(usize),
    /// The last directory is open and has been checked.
    Finished,
}

/// The next thing to do.
#[derive(Debug, PartialEq, Eq)]
pub enum Action {
    /// Open a directory.
    Open(OpenRequest),
    /// Ask for the device behind a handle.
    QueryDevice { handle: isize },
    /// Ask for the name of a handle within its volume.
    QueryName { handle: isize },
    /// Ask for the attributes and the reparse tag of a handle.
    QueryTag { handle: isize },
    /// Nothing: the handle is that of the last directory.
    Done { handle: isize },
}

/// An [`Action`] with its request as sequences.
pub enum ActionView {
    Open(OpenRequestView),
    QueryDevice { handle: isize },
    QueryName { handle: isize },
    QueryTag { handle: isize },
    Done { handle: isize },
}

impl View for Action {
    type V = ActionView;

    open spec fn view(&self) -> ActionView {
        match *self {
            Action::Open(request) => ActionView::Open(request@),
            Action::QueryDevice { handle } => ActionView::QueryDevice { handle },
            Action::QueryName { handle } => ActionView::QueryName { handle },
            Action::QueryTag { handle } => ActionView::QueryTag { handle },
            Action::Done { handle } => ActionView::Done { handle },
        }
    }
}

/// An action, or why there is none, seen as sequences.
pub open spec fn action_view(action: Result<Action, AclError>) -> Result<ActionView, AclError> {
    match action {
        Ok(action) => Ok(action@),
        Err(error) => Err(error),
    }
}

/// What came back from an action. `os_error` is the system error code of a
/// call that failed.
#[derive(Debug, PartialEq, Eq)]
pub enum Reply {
    /// An open came back with a status and a handle.
    Opened { status: i32, os_error: u32, handle: isize },
    /// A device query came back with a status and the device.
    Device { status: i32, os_error: u32, device_type: u32, characteristics: u32 },
    /// A name query came back with success or failure and a file name record.
    Name { ok: i32, os_error: u32, record: Vec<u8> },
    /// A tag query came back with success or failure and the attributes.
    Tag { ok: i32, os_error: u32, file_attributes: u32, reparse_tag: u32 },
}

/// `reply` is of the kind that the action in `phase` brings.
pub open spec fn answers(phase: Phase, reply: Reply) -> bool {
    match phase {
        Phase::OpenRoot => reply is Opened,
        Phase::CheckDevice => reply is Device,
        Phase::CheckRootName => reply is Name && reply->record@.len() >= FILE_NAME_HEADER_LEN,
        Phase::CheckRootTag => reply is Tag,
        Phase::OpenComponent(_) => reply is Opened,
        Phase::CheckComponentTag(_) => reply is Tag,
        Phase::Finished => false,
    }
}

/// Whether a walk goes on after a reply. The root of a volume must be no
/// reparse point at all; a component must not redirect name resolution.
pub open spec fn reply_accepted(phase: Phase, reply: Reply) -> Result<(), AclError> {
    match reply {
        Reply::Opened { status, os_error, handle } => match opened(status, os_error, handle) {
            Ok(_) => Ok(()),
            Err(error) => Err(error),
        },
        Reply::Device { status, os_error, device_type, characteristics } => device_accepted(
            status,
            os_error,
            device_type,
            characteristics,
        ),
        Reply::Name { ok, os_error, record } => root_accepted(ok, os_error, record@),
        Reply::Tag { ok, os_error, file_attributes, reparse_tag } => if phase is CheckRootTag {
            root_tag_accepted(ok, os_error, file_attributes)
        } else {
            tag_accepted(ok, os_error, file_attributes, reparse_tag)
        },
    }
}

/// A [`DirectoryWalk`] as sequences.
pub struct WalkView {
    pub drive_root: Seq<u16>,
    pub components: Seq<Seq<u16>>,
    pub leaf: Leaf,
    pub phase: Phase,
    pub handle: isize,
}

impl WalkView {
    /// There is a component to open, the walk stands at one of them, and once
    /// the drive root is open there is a handle.
    pub open spec fn valid(self) -> bool {
        &&& 0 < self.components.len() <= usize::MAX
        &&& match self.phase {
            Phase::OpenComponent(index) => index < self.components.len(),
            Phase::CheckComponentTag(index) => index < self.components.len(),
            _ => true,
        }
        &&& self.phase is OpenRoot || usable(self.handle)
    }

    /// The component is the last one.
    pub open spec fn is_leaf(self, index: int) -> bool {
        index == self.components.len() - 1
    }

    /// The rights that the handle of a component is to have.
    pub open spec fn component_access(self, index: int) -> u32 {
        if self.is_leaf(index) {
            self.leaf.access()
        } else {
            FILE_TRAVERSE | FILE_READ_ATTRIBUTES
        }
    }

    /// What happens if a component does not exist.
    pub open spec fn component_disposition(self, index: int) -> u32 {
        if self.is_leaf(index) {
            self.leaf.disposition()
        } else {
            FILE_OPEN
        }
    }

    /// The open that comes next, where one does.
    pub open spec fn next_request(self) -> Result<OpenRequestView, AclError> {
        match self.phase {
            Phase::OpenComponent(index) => request_for(
                Some(self.handle),
                self.components[index as int],
                self.component_access(index as int),
                self.component_disposition(index as int),
                OBJ_CASE_INSENSITIVE | OBJ_DONT_REPARSE,
            ),
            _ => request_for(
                None,
                self.drive_root,
                FILE_TRAVERSE | FILE_READ_ATTRIBUTES,
                FILE_OPEN,
                OBJ_CASE_INSENSITIVE,
            ),
        }
    }

    /// The next thing to do.
    pub open spec fn next_action(self) -> Result<ActionView, AclError> {
        match self.phase {
            Phase::CheckDevice => Ok(ActionView::QueryDevice { handle: self.handle }),
            Phase::CheckRootName => Ok(ActionView::QueryName { handle: self.handle }),
            Phase::CheckRootTag => Ok(ActionView::QueryTag { handle: self.handle }),
            Phase::CheckComponentTag(_) => Ok(ActionView::QueryTag { handle: self.handle }),
            Phase::Finished => Ok(ActionView::Done { handle: self.handle }),
            _ => match self.next_request() {
                Ok(request) => Ok(ActionView::Open(request)),
                Err(error) => Err(error),
            },
        }
    }

    /// The phase after this one.
    pub open spec fn next_phase(self) -> Phase {
        match self.phase {
            Phase::OpenRoot => Phase::CheckDevice,
            Phase::CheckDevice => Phase::CheckRootName,
            Phase::CheckRootName => Phase::CheckRootTag,
            Phase::CheckRootTag => Phase::OpenComponent(0),
            Phase::OpenComponent(index) => Phase::CheckComponentTag(index),
            Phase::CheckComponentTag(index) => if self.is_leaf(index as int) {
                Phase::Finished
            } else {
                Phase::OpenComponent((index + 1) as usize)
            },
            Phase::Finished => Phase::Finished,
        }
    }

    /// The walk after a reply.
    pub open spec fn after(self, reply: Reply) -> Result<WalkView, AclError> {
        match reply_accepted(self.phase, reply) {
            Ok(_) => Ok(
                WalkView {
                    phase: self.next_phase(),
                    handle: match reply {
                        Reply::Opened { handle, .. } => handle,
                        _ => self.handle,
                    },
                    ..self
                },
            ),
            Err(error) => Err(error),
        }
    }
}

/// The walk that a path starts.
pub open spec fn walk_of(path: Seq<u16>, leaf: Leaf) -> Result<WalkView, AclError> {
    match drive_path::split_of(path) {
        Ok((drive_root, components)) => if components.len() == 0 {
            Err(AclError::NoDirectoryComponent)
        } else {
            Ok(
                WalkView {
                    drive_root,
                    components,
                    leaf,
                    phase: Phase::OpenRoot,
                    handle: 0,
                },
            )
        },
        Err(error) => Err(error),
    }
}

/// A walk, or why there is none, seen as sequences.
pub open spec fn walk_view(walk: Result<DirectoryWalk, AclError>) -> Result<WalkView, AclError> {
    match walk {
        Ok(walk) => Ok(walk@),
        Err(error) => Err(error),
    }
}

/// A way from a drive root down to a directory.
#[derive(Debug, PartialEq, Eq)]
pub struct DirectoryWalk {
    drive_root: Vec<u16>,
    components: Vec<Vec<u16>>,
    leaf: Leaf,
    phase: Phase,
    handle: isize,
}

impl View for DirectoryWalk {
    type V = WalkView;

    closed spec fn view(&self) -> WalkView {
        WalkView {
            drive_root: self.drive_root@,
            components: drive_path::name_views(self.components@),
            leaf: self.leaf,
            phase: self.phase,
            handle: self.handle,
        }
    }
}

/// Prepares the open of `\??\X:\`, by which the object manager resolves the
/// drive letter. The handle is not to be used before the checks that follow
/// have passed: that it is a local disk, the root of its volume, and no reparse
/// point.
pub fn open_verified_volume_root(drive_root: &[u16]) -> (request: Result<OpenRequest, AclError>)
    ensures
        request_view(request) == request_for(
            None,
            drive_root@,
            FILE_TRAVERSE | FILE_READ_ATTRIBUTES,
            FILE_OPEN,
            OBJ_CASE_INSENSITIVE,
        ),
{
    nt_open(
        None,
        drive_root,
        FILE_TRAVERSE | FILE_READ_ATTRIBUTES,
        FILE_OPEN,
        OBJ_CASE_INSENSITIVE,
    )
}

/// Prepares the open of a component relative to its parent, following no
/// reparse point.
pub fn open_component(
    parent: isize,
    name: &[u16],
    desired_access: u32,
    create_disposition: u32,
) -> (request: Result<OpenRequest, AclError>)
    ensures
        request_view(request) == request_for(
            Some(parent),
            name@,
            desired_access,
            create_disposition,
            OBJ_CASE_INSENSITIVE | OBJ_DONT_REPARSE,
        ),
{
    nt_open(
        Some(parent),
        name,
        desired_access,
        create_disposition,
        OBJ_CASE_INSENSITIVE | OBJ_DONT_REPARSE,
    )
}

fn start_walk(path: &[u16], leaf: Leaf) -> (walk: Result<DirectoryWalk, AclError>)
    ensures
        walk_view(walk) == walk_of(path@, leaf),
        walk is Ok ==> walk->Ok_0@.valid(),
{
    match split_local_drive_path(path) {
        Ok((drive_root, components)) => {
            if components.len() == 0 {
                return Err(AclError::NoDirectoryComponent);
            }
            Ok(DirectoryWalk { drive_root, components, leaf, phase: Phase::OpenRoot, handle: 0 })
        },
        Err(error) => Err(error),
    }
}

/// Starts to open or create the final directory of `path` without following a
/// reparse point in any filesystem path component.
///
/// Parent directories must already exist; only the final directory is created.
pub fn open_or_create_no_reparse(path: &[u16]) -> (walk: Result<DirectoryWalk, AclError>)
    ensures
        walk_view(walk) == walk_of(path@, Leaf::OpenOrCreate),
        walk is Ok ==> walk->Ok_0@.valid(),
{
    start_walk(path, Leaf::OpenOrCreate)
}

/// Starts to open the existing directory `path` in order to read its access
/// control list, without following a reparse point in any filesystem path
/// component.
pub fn open_existing_no_reparse_for_read_control(path: &[u16]) -> (walk: Result<
    DirectoryWalk,
    AclError,
>)
    ensures
        walk_view(walk) == walk_of(path@, Leaf::ReadExisting),
        walk is Ok ==> walk->Ok_0@.valid(),
{
    start_walk(path, Leaf::ReadExisting)
}

impl DirectoryWalk {
    /// The next thing to do, or why the walk ends here.
    pub fn action(&self) -> (action: Result<Action, AclError>)
        requires
            self@.valid(),
        ensures
            action_view(action) == self@.next_action(),
    {
        match self.phase {
            Phase::OpenRoot => match open_verified_volume_root(self.drive_root.as_slice()) {
                Ok(request) => Ok(Action::Open(request)),
                Err(error) => Err(error),
            },
            Phase::CheckDevice => Ok(Action::QueryDevice { handle: self.handle }),
            Phase::CheckRootName => Ok(Action::QueryName { handle: self.handle }),
            Phase::CheckRootTag => Ok(Action::QueryTag { handle: self.handle }),
            Phase::OpenComponent(index) => {
                let is_leaf: bool = index == self.components.len() - 1;
                let access: u32 = if is_leaf {
                    self.leaf.desired_access()
                } else {
                    FILE_TRAVERSE | FILE_READ_ATTRIBUTES
                };
                let disposition: u32 = if is_leaf {
                    self.leaf.create_disposition()
                } else {
                    FILE_OPEN
                };
                assert(self@.components[index as int] == self.components@[index as int]@);
                match open_component(
                    self.handle,
                    self.components[index].as_slice(),
                    access,
                    disposition,
                ) {
                    Ok(request) => Ok(Action::Open(request)),
                    Err(error) => Err(error),
                }
            },
            Phase::CheckComponentTag(_) => Ok(Action::QueryTag { handle: self.handle }),
            Phase::Finished => Ok(Action::Done { handle: self.handle }),
        }
    }

    /// Goes on after the reply to the last action, or says why the walk ends
    /// here.
    pub fn step(self, reply: Reply) -> (walk: Result<DirectoryWalk, AclError>)
        requires
            self@.valid(),
            answers(self@.phase, reply),
        ensures
            walk_view(walk) == self@.after(reply),
            walk is Ok ==> walk->Ok_0@.valid(),
    {
        let mut walk = self;
        match reply {
            Reply::Opened { status, os_error, handle } => {
                match nt_opened(status, os_error, handle) {
                    Ok(handle) => {
                        walk.handle = handle;
                    },
                    Err(error) => return Err(error),
                }
            },
            Reply::Device { status, os_error, device_type, characteristics } => {
                match require_local_disk(status, os_error, device_type, characteristics) {
                    Ok(_) => {},
                    Err(error) => return Err(error),
                }
            },
            Reply::Name { ok, os_error, record } => {
                match require_volume_root(ok, os_error, record.as_slice()) {
                    Ok(_) => {},
                    Err(error) => return Err(error),
                }
            },
            Reply::Tag { ok, os_error, file_attributes, reparse_tag } => {
                let outcome: Result<(), AclError> = match walk.phase {
                    Phase::CheckRootTag => reject_reparse_root(ok, os_error, file_attributes),
                    _ => reject_name_surrogate(ok, os_error, file_attributes, reparse_tag),
                };
                match outcome {
                    Ok(_) => {},
                    Err(error) => return Err(error),
                }
            },
        }
        walk.phase = match walk.phase {
            Phase::OpenRoot => Phase::CheckDevice,
            Phase::CheckDevice => Phase::CheckRootName,
            Phase::CheckRootName => Phase::CheckRootTag,
            Phase::CheckRootTag => Phase::OpenComponent(0),
            Phase::OpenComponent(index) => Phase::CheckComponentTag(index),
            Phase::CheckComponentTag(index) => {
                if index == walk.components.len() - 1 {
                    Phase::Finished
                } else {
                    Phase::OpenComponent(index + 1)
                }
            },
            Phase::Finished => Phase::Finished,
        };
        Ok(walk)
    }
}

} // verus!
