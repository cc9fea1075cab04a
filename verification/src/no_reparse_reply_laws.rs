//! What holds of every request and of every reply of a walk, in the numbers of
//! the system calls themselves.

use vstd::prelude::*;
use crate::error::AclError;
use crate::no_reparse_dir;
use crate::no_reparse_dir::Action;
use crate::no_reparse_dir::ActionView;
use crate::no_reparse_dir::DirectoryWalk;
use crate::no_reparse_dir::OpenRequest;
use crate::no_reparse_dir::OpenRequestView;
use crate::no_reparse_dir::Phase;
use crate::no_reparse_dir::Reply;
use crate::no_reparse_dir::WalkView;

verus! {

/// A request opens exactly the name it is given, from exactly the directory it is
/// given, and a NUL stands behind the name. Both lengths count bytes, the second
/// one with the NUL, so a name of more than 32766 units has no request.
pub proof fn law_request_carries_the_whole_name(
    directory: Option<isize>,
    name: Seq<u16>,
    desired_access: u32,
    create_disposition: u32,
    attributes: u32,
)
    ensures
        ({
            let request = no_reparse_dir::request_for(
                directory,
                name,
                desired_access,
                create_disposition,
                attributes,
            );
            &&& request is Ok <==> name.len() <= 32766
            &&& request is Err ==> request->Err_0 is NameTooLong
            &&& request matches Ok(request) ==> {
                &&& request.buffer.len() == name.len() + 1
                &&& request.buffer.drop_last() == name
                &&& request.buffer.last() == 0
                &&& request.name_length == 2 * name.len()
                &&& request.maximum_length == 2 * name.len() + 2
                &&& directory is None ==> request.root_directory == 0
                &&& directory is Some ==> request.root_directory == directory->Some_0
                &&& request.desired_access == desired_access
                &&& request.create_disposition == create_disposition
                &&& request.attributes == attributes
                &&& request.file_attributes == 0x80
                &&& request.share_access == 7
                &&& request.create_options == 1
            }
        }),
{
    assert(1u32 | 2u32 | 4u32 == 7u32) by (bit_vector);
    assert(name.push(0).drop_last() =~= name);
}

/// Two names that are asked for in the same request are the same name.
pub proof fn law_different_names_make_different_requests(
    directory: Option<isize>,
    first: Seq<u16>,
    second: Seq<u16>,
    desired_access: u32,
    create_disposition: u32,
    attributes: u32,
)
    requires
        first.len() <= 32766,
        no_reparse_dir::request_for(
            directory,
            first,
            desired_access,
            create_disposition,
            attributes,
        ) == no_reparse_dir::request_for(
            directory,
            second,
            desired_access,
            create_disposition,
            attributes,
        ),
    ensures
        first == second,
{
    law_request_carries_the_whole_name(
        directory,
        first,
        desired_access,
        create_disposition,
        attributes,
    );
    law_request_carries_the_whole_name(
        directory,
        second,
        desired_access,
        create_disposition,
        attributes,
    );
}

/// What a walk keeps from reply to reply, and the one thing it may take over.
pub open spec fn goes_on(walk: WalkView, next: Result<WalkView, AclError>, handle: isize) -> bool {
    next matches Ok(next) && next.drive_root == walk.drive_root && next.components
        == walk.components && next.leaf == walk.leaf && next.handle == handle
}

/// An open lets the walk go on with its handle exactly if its status is no failure
/// and the handle is neither 0 nor -1. The status of a reparse point is told apart
/// from all other failures, whose system error is kept.
pub proof fn law_open_reply(walk: WalkView, status: i32, os_error: u32, handle: isize)
    ensures
        ({
            let next = walk.after(Reply::Opened { status, os_error, handle });
            let outcome = no_reparse_dir::opened(status, os_error, handle);
            &&& status >= 0 && handle != 0 && handle != -1 ==> goes_on(walk, next, handle)
                && outcome == Ok::<isize, AclError>(handle)
            &&& status >= 0 && (handle == 0 || handle == -1) ==> next == Err::<WalkView, AclError>(
                AclError::InvalidHandle,
            ) && outcome == Err::<isize, AclError>(AclError::InvalidHandle)
            &&& status == -1073740533 ==> next == Err::<WalkView, AclError>(AclError::ReparsePoint)
                && outcome == Err::<isize, AclError>(AclError::ReparsePoint)
            &&& status < 0 && status != -1073740533 ==> next == Err::<WalkView, AclError>(
                AclError::OpenFailed { os_error },
            ) && outcome == Err::<isize, AclError>(AclError::OpenFailed { os_error })
        }),
{
}

/// A device lets the walk go on exactly if it could be asked for, is a disk or a
/// virtual disk, and is not remote. No other bit of its characteristics matters.
pub proof fn law_device_reply(
    walk: WalkView,
    status: i32,
    os_error: u32,
    device_type: u32,
    characteristics: u32,
)
    ensures
        ({
            let next = walk.after(
                Reply::Device { status, os_error, device_type, characteristics },
            );
            let outcome = no_reparse_dir::device_accepted(
                status,
                os_error,
                device_type,
                characteristics,
            );
            let local = (device_type == 7 || device_type == 0x24) && characteristics & 0x10 == 0;
            &&& status < 0 ==> next == Err::<WalkView, AclError>(
                AclError::DeviceQueryFailed { os_error },
            ) && outcome == Err::<(), AclError>(AclError::DeviceQueryFailed { os_error })
            &&& status >= 0 && local ==> goes_on(walk, next, walk.handle) && outcome == Ok::<
                (),
                AclError,
            >(())
            &&& status >= 0 && !local ==> next == Err::<WalkView, AclError>(
                AclError::NotLocalVolume,
            ) && outcome == Err::<(), AclError>(AclError::NotLocalVolume)
        }),
{
}

/// Whatever else is said of a device, the remote bit alone gets it refused, and
/// its characteristics without that bit do not matter.
pub proof fn law_remote_device_is_refused(
    walk: WalkView,
    os_error: u32,
    status: i32,
    device_type: u32,
    characteristics: u32,
)
    requires
        status >= 0,
    ensures
        walk.after(
            Reply::Device {
                status,
                os_error,
                device_type,
                characteristics: characteristics | 0x10,
            },
        ) == Err::<WalkView, AclError>(AclError::NotLocalVolume),
        walk.after(
            Reply::Device {
                status,
                os_error,
                device_type,
                characteristics: characteristics & !0x10u32,
            },
        ) == walk.after(Reply::Device { status, os_error, device_type, characteristics: 0 }),
{
    assert((characteristics | 0x10) & 0x10 != 0) by (bit_vector);
    assert((characteristics & !0x10u32) & 0x10 == 0) by (bit_vector);
    assert(0u32 & 0x10u32 == 0) by (bit_vector);
}

/// The length in bytes that a file name record starts with, least significant byte
/// first.
pub open spec fn stated_length(record: Seq<u8>) -> int {
    record[0] + 256 * record[1] + 65536 * record[2] + 16777216 * record[3]
}

/// A file name record holds half as many units as its length says bytes, each of
/// two bytes, least significant byte first. A record that is shorter than it says
/// holds no name.
pub proof fn law_record_holds_its_units(ok: i32, os_error: u32, record: Seq<u8>)
    requires
        record.len() >= 4,
    ensures
        ({
            let name = no_reparse_dir::volume_relative_name(ok, os_error, record);
            let len = stated_length(record);
            &&& ok == 0 ==> name == Err::<Seq<u16>, AclError>(
                AclError::RootNameQueryFailed { os_error },
            )
            &&& ok != 0 && 4 + len > record.len() ==> name == Err::<Seq<u16>, AclError>(
                AclError::RootNameTruncated,
            )
            &&& ok != 0 && 4 + len <= record.len() ==> {
                &&& name is Ok
                &&& name->Ok_0.len() == len / 2
                &&& forall|i: int|
                    0 <= i < len / 2 ==> #[trigger] name->Ok_0[i] as int == record[4 + 2 * i] + 256
                        * record[5 + 2 * i]
            }
        }),
{
    let len = stated_length(record);
    assert(no_reparse_dir::u32_of_bytes(record) == len);
    if ok != 0 && 4 + len <= record.len() {
        let bytes = record.subrange(4, 4 + len);
        let name = no_reparse_dir::volume_relative_name(ok, os_error, record)->Ok_0;
        assert(name == no_reparse_dir::units_of_bytes(bytes));
        assert forall|i: int| 0 <= i < len / 2 implies #[trigger] name[i] as int == record[4 + 2
            * i] + 256 * record[5 + 2 * i] by {
            assert(bytes[2 * i] == record[4 + 2 * i]);
            assert(bytes[2 * i + 1] == record[5 + 2 * i]);
        }
    }
}

/// The name of a volume root is one backslash and nothing else. A name query lets
/// the walk go on exactly if it came back with that name.
pub proof fn law_name_reply(walk: WalkView, ok: i32, os_error: u32, record: Vec<u8>)
    requires
        record@.len() >= 4,
    ensures
        ({
            let next = walk.after(Reply::Name { ok, os_error, record });
            let outcome = no_reparse_dir::root_accepted(ok, os_error, record@);
            let len = stated_length(record@);
            let root = len / 2 == 1 && record@[4] == 0x5C && record@[5] == 0;
            &&& ok == 0 ==> next == Err::<WalkView, AclError>(
                AclError::RootNameQueryFailed { os_error },
            ) && outcome == Err::<(), AclError>(AclError::RootNameQueryFailed { os_error })
            &&& ok != 0 && 4 + len > record@.len() ==> next == Err::<WalkView, AclError>(
                AclError::RootNameTruncated,
            ) && outcome == Err::<(), AclError>(AclError::RootNameTruncated)
            &&& ok != 0 && 4 + len <= record@.len() && root ==> goes_on(walk, next, walk.handle)
                && outcome == Ok::<(), AclError>(())
            &&& ok != 0 && 4 + len <= record@.len() && !root ==> next == Err::<WalkView, AclError>(
                AclError::NotVolumeRoot,
            ) && outcome == Err::<(), AclError>(AclError::NotVolumeRoot)
        }),
{
    let len = stated_length(record@);
    law_record_holds_its_units(ok, os_error, record@);
    if ok != 0 && 4 + len <= record@.len() {
        let name = no_reparse_dir::volume_relative_name(ok, os_error, record@)->Ok_0;
        if len / 2 == 1 {
            assert(name[0] as int == record@[4] + 256 * record@[5]);
            if name[0] == 0x5C {
                assert(name =~= seq![0x5Cu16]);
            }
        }
        if name == seq![0x5Cu16] {
            assert(name.len() == 1 && name[0] == 0x5C);
        }
    }
}

/// The drive root lets the walk go on exactly if it could be asked about and is no
/// reparse point, whatever its tag and its other attributes.
pub proof fn law_root_tag_reply(
    walk: WalkView,
    ok: i32,
    os_error: u32,
    file_attributes: u32,
    reparse_tag: u32,
)
    requires
        walk.phase is CheckRootTag,
    ensures
        ({
            let next = walk.after(Reply::Tag { ok, os_error, file_attributes, reparse_tag });
            let outcome = no_reparse_dir::root_tag_accepted(ok, os_error, file_attributes);
            &&& ok == 0 ==> next == Err::<WalkView, AclError>(
                AclError::AttributeQueryFailed { os_error },
            ) && outcome == Err::<(), AclError>(AclError::AttributeQueryFailed { os_error })
            &&& ok != 0 && file_attributes & 0x400 == 0 ==> goes_on(walk, next, walk.handle)
                && outcome == Ok::<(), AclError>(())
            &&& ok != 0 && file_attributes & 0x400 != 0 ==> next == Err::<WalkView, AclError>(
                AclError::ReparsePoint,
            ) && outcome == Err::<(), AclError>(AclError::ReparsePoint)
        }),
{
}

/// A component lets the walk go on exactly if it could be asked about and is no
/// reparse point with a tag that stands for another name.
pub proof fn law_component_tag_reply(
    walk: WalkView,
    ok: i32,
    os_error: u32,
    file_attributes: u32,
    reparse_tag: u32,
)
    requires
        walk.phase is CheckComponentTag,
    ensures
        ({
            let next = walk.after(Reply::Tag { ok, os_error, file_attributes, reparse_tag });
            let outcome = no_reparse_dir::tag_accepted(ok, os_error, file_attributes, reparse_tag);
            let redirects = file_attributes & 0x400 != 0 && reparse_tag & 0x2000_0000 != 0;
            &&& ok == 0 ==> next == Err::<WalkView, AclError>(
                AclError::AttributeQueryFailed { os_error },
            ) && outcome == Err::<(), AclError>(AclError::AttributeQueryFailed { os_error })
            &&& ok != 0 && !redirects ==> goes_on(walk, next, walk.handle) && outcome == Ok::<
                (),
                AclError,
            >(())
            &&& ok != 0 && redirects ==> next == Err::<WalkView, AclError>(AclError::ReparsePoint)
                && outcome == Err::<(), AclError>(AclError::ReparsePoint)
        }),
{
}

/// Whatever else is said of a directory, the reparse attribute gets a drive root
/// refused, and a component too where the tag has the bit of a name surrogate.
pub proof fn law_surrogate_is_refused(
    walk: WalkView,
    ok: i32,
    os_error: u32,
    file_attributes: u32,
    reparse_tag: u32,
)
    requires
        ok != 0,
        walk.phase is CheckRootTag || walk.phase is CheckComponentTag,
    ensures
        walk.after(
            Reply::Tag {
                ok,
                os_error,
                file_attributes: file_attributes | 0x400,
                reparse_tag: reparse_tag | 0x2000_0000,
            },
        ) == Err::<WalkView, AclError>(AclError::ReparsePoint),
        walk.after(
            Reply::Tag {
                ok,
                os_error,
                file_attributes: file_attributes & !0x400u32,
                reparse_tag,
            },
        ) is Ok,
        walk.after(
            Reply::Tag {
                ok,
                os_error,
                file_attributes: file_attributes | 0x400,
                reparse_tag: reparse_tag & !0x2000_0000u32,
            },
        ) is Ok <==> walk.phase is CheckComponentTag,
{
    assert((file_attributes | 0x400) & 0x400 != 0) by (bit_vector);
    assert((file_attributes & !0x400u32) & 0x400 == 0) by (bit_vector);
    assert((reparse_tag | 0x2000_0000) & 0x2000_0000 != 0) by (bit_vector);
    assert((reparse_tag & !0x2000_0000u32) & 0x2000_0000 == 0) by (bit_vector);
}

/// Each phase is answered by the replies of one kind and by no others. A finished
/// walk is answered by none.
pub proof fn law_phases_and_their_replies(phase: Phase, reply: Reply)
    ensures
        phase is OpenRoot || phase is OpenComponent ==> (no_reparse_dir::answers(phase, reply)
            <==> reply is Opened),
        phase is CheckDevice ==> (no_reparse_dir::answers(phase, reply) <==> reply is Device),
        phase is CheckRootName ==> (no_reparse_dir::answers(phase, reply) <==> reply is Name
            && reply->record@.len() >= 4),
        phase is CheckRootTag || phase is CheckComponentTag ==> (no_reparse_dir::answers(
            phase,
            reply,
        ) <==> reply is Tag),
        phase is Finished ==> !no_reparse_dir::answers(phase, reply),
{
}

/// A walk that goes on turns to the next check of the drive root, to the tag of
/// the component it has opened, to the component below, or to its end.
pub proof fn law_phases_follow_one_another(walk: WalkView, reply: Reply)
    requires
        walk.valid(),
        walk.after(reply) is Ok,
    ensures
        ({
            let next = walk.after(reply)->Ok_0.phase;
            let last = walk.components.len() - 1;
            &&& walk.phase is OpenRoot ==> next is CheckDevice
            &&& walk.phase is CheckDevice ==> next is CheckRootName
            &&& walk.phase is CheckRootName ==> next is CheckRootTag
            &&& walk.phase is CheckRootTag ==> next == Phase::OpenComponent(0)
            &&& walk.phase matches Phase::OpenComponent(index) ==> next
                == Phase::CheckComponentTag(index)
            &&& walk.phase matches Phase::CheckComponentTag(index) ==> (if index as int == last {
                next is Finished
            } else {
                next matches Phase::OpenComponent(below) && below as int == index + 1
            })
        }),
{
}

/// The views of requests keep every part of them.
pub proof fn law_request_views_keep_everything(request: OpenRequest, error: AclError)
    ensures
        request@.root_directory == request.root_directory,
        request@.buffer == request.buffer@,
        request@.name_length == request.name_length,
        request@.maximum_length == request.maximum_length,
        request@.attributes == request.attributes,
        request@.desired_access == request.desired_access,
        request@.file_attributes == request.file_attributes,
        request@.share_access == request.share_access,
        request@.create_disposition == request.create_disposition,
        request@.create_options == request.create_options,
        no_reparse_dir::request_view(Ok(request)) == Ok::<OpenRequestView, AclError>(request@),
        no_reparse_dir::request_view(Err(error)) == Err::<OpenRequestView, AclError>(error),
{
}

/// The views of actions keep their kind and every part of them.
pub proof fn law_action_views_keep_everything(
    request: OpenRequest,
    handle: isize,
    action: Action,
    error: AclError,
)
    ensures
        Action::Open(request)@ == ActionView::Open(request@),
        (Action::QueryDevice { handle })@ == (ActionView::QueryDevice { handle }),
        (Action::QueryName { handle })@ == (ActionView::QueryName { handle }),
        (Action::QueryTag { handle })@ == (ActionView::QueryTag { handle }),
        (Action::Done { handle })@ == (ActionView::Done { handle }),
        no_reparse_dir::action_view(Ok(action)) == Ok::<ActionView, AclError>(action@),
        no_reparse_dir::action_view(Err(error)) == Err::<ActionView, AclError>(error),
{
}

/// The view of a walk that could not be started or could not go on is its error.
pub proof fn law_walk_views_keep_everything(walk: DirectoryWalk, error: AclError)
    ensures
        no_reparse_dir::walk_view(Ok(walk)) == Ok::<WalkView, AclError>(walk@),
        no_reparse_dir::walk_view(Err(error)) == Err::<WalkView, AclError>(error),
{
}

} // verus!
