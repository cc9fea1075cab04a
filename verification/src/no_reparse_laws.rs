//! What holds of every walk to a directory, whatever the system answers.

use vstd::prelude::*;
use crate::drive_path;
use crate::drive_path_laws;
use crate::error::AclError;
use crate::no_reparse_dir;
use crate::no_reparse_dir::ActionView;
use crate::no_reparse_dir::Leaf;
use crate::no_reparse_dir::OpenRequestView;
use crate::no_reparse_dir::Phase;
use crate::no_reparse_dir::Reply;
use crate::no_reparse_dir::WalkView;
use crate::no_reparse_reply_laws;
use crate::nt::FILE_ATTRIBUTE_REPARSE_POINT;
use crate::nt::FILE_OPEN;
use crate::nt::OBJ_DONT_REPARSE;
use crate::nt::STATUS_REPARSE_POINT_ENCOUNTERED;
use crate::nt::WRITE_DAC;
use crate::wide_path;
use crate::wide_path::BACKSLASH;
use crate::wide_path_laws;

verus! {

/// A walk that has not opened anything yet.
pub open spec fn fresh(walk: WalkView) -> bool {
    walk.valid() && walk.phase is OpenRoot
}

/// Where a walk stands after a series of replies, each of which answered the
/// action before it and let the walk go on.
pub open spec fn walked(start: WalkView, replies: Seq<Reply>) -> Option<WalkView>
    decreases replies.len(),
{
    if replies.len() == 0 {
        Some(start)
    } else {
        match walked(start, replies.drop_last()) {
            Some(walk) => if walk.next_action() is Ok && no_reparse_dir::answers(
                walk.phase,
                replies.last(),
            ) {
                match walk.after(replies.last()) {
                    Ok(next) => Some(next),
                    Err(_) => None,
                }
            } else {
                None
            },
            None => None,
        }
    }
}

/// The phase after `count` replies on the way to the last of `depth`
/// components.
pub open spec fn phase_after(count: int, depth: nat) -> Phase {
    if count == 0 {
        Phase::OpenRoot
    } else if count == 1 {
        Phase::CheckDevice
    } else if count == 2 {
        Phase::CheckRootName
    } else if count == 3 {
        Phase::CheckRootTag
    } else if count < 4 + 2 * depth {
        if count % 2 == 0 {
            Phase::OpenComponent(((count - 4) / 2) as usize)
        } else {
            Phase::CheckComponentTag(((count - 4) / 2) as usize)
        }
    } else {
        Phase::Finished
    }
}

/// Which of the first `count` replies brought the handle that a walk holds.
pub open spec fn last_open(count: int) -> int {
    if count <= 4 {
        0
    } else if count % 2 == 0 {
        count - 2
    } else {
        count - 1
    }
}

/// The reply answers the action of its phase and lets the walk go on.
pub open spec fn passes(phase: Phase, reply: Reply) -> bool {
    no_reparse_dir::answers(phase, reply) && no_reparse_dir::reply_accepted(phase, reply) is Ok
}

proof fn lemma_walked(start: WalkView, replies: Seq<Reply>)
    requires
        fresh(start),
        walked(start, replies) is Some,
    ensures
        ({
            let walk = walked(start, replies)->Some_0;
            let depth = start.components.len();
            &&& walk.valid()
            &&& replies.len() <= 4 + 2 * depth
            &&& walk.drive_root == start.drive_root
            &&& walk.components == start.components
            &&& walk.leaf == start.leaf
            &&& walk.phase == phase_after(replies.len() as int, depth)
            &&& replies.len() > 0 ==> last_open(replies.len() as int) < replies.len()
                && replies[last_open(replies.len() as int)] is Opened && walk.handle
                == replies[last_open(replies.len() as int)]->handle
            &&& forall|j: int|
                0 <= j < replies.len() ==> passes(phase_after(j, depth), #[trigger] replies[j])
        }),
    decreases replies.len(),
{
    if replies.len() > 0 {
        let before = replies.drop_last();
        let reply = replies.last();
        lemma_walked(start, before);
        let walk = walked(start, before)->Some_0;
        let depth = start.components.len();
        let count = before.len() as int;
        assert forall|j: int| 0 <= j < replies.len() implies passes(
            phase_after(j, depth),
            #[trigger] replies[j],
        ) by {
            if j < count {
                assert(before[j] == replies[j]);
            }
        }
        if count > 0 {
            assert(before[last_open(count)] == replies[last_open(count)]);
        }
    }
}

/// A walk that ends with a directory has had every handle on the way checked:
/// the drive letter led to the root directory of a local volume that is no
/// reparse point, every component was opened, and none of them redirects name
/// resolution. The handle at the end is that of the last component.
pub proof fn law_finished_walk_has_checked_every_handle(start: WalkView, replies: Seq<Reply>)
    requires
        fresh(start),
        walked(start, replies) is Some,
        walked(start, replies)->Some_0.phase is Finished,
    ensures
        ({
            let depth = start.components.len() as int;
            &&& replies.len() == 4 + 2 * depth
            &&& replies[0] matches Reply::Opened { status, handle, .. } && status >= 0
                && no_reparse_dir::usable(handle)
            &&& replies[1] matches Reply::Device { status, device_type, characteristics, .. }
                && status >= 0 && no_reparse_dir::local_disk(device_type, characteristics)
            &&& replies[2] matches Reply::Name { ok, record, .. } && ok != 0
                && no_reparse_dir::recorded_name(record@) == Ok::<Seq<u16>, AclError>(
                seq![BACKSLASH],
            )
            &&& replies[3] matches Reply::Tag { ok, file_attributes, .. } && ok != 0
                && file_attributes & FILE_ATTRIBUTE_REPARSE_POINT == 0
            &&& forall|i: int|
                0 <= i < depth ==> (#[trigger] replies[4 + 2 * i] matches Reply::Opened {
                    status,
                    handle,
                    ..
                } && status >= 0 && no_reparse_dir::usable(handle))
            &&& forall|i: int|
                0 <= i < depth ==> (#[trigger] replies[5 + 2 * i] matches Reply::Tag {
                    ok,
                    file_attributes,
                    reparse_tag,
                    ..
                } && ok != 0 && !no_reparse_dir::name_surrogate(file_attributes, reparse_tag))
            &&& walked(start, replies)->Some_0.next_action() == Ok::<ActionView, AclError>(
                ActionView::Done { handle: replies[2 + 2 * depth]->handle },
            )
        }),
{
    lemma_walked(start, replies);
    let depth = start.components.len();
    assert(passes(phase_after(0, depth), replies[0]));
    assert(passes(phase_after(1, depth), replies[1]));
    assert(passes(phase_after(2, depth), replies[2]));
    assert(passes(phase_after(3, depth), replies[3]));
    assert forall|i: int| 0 <= i < depth implies (#[trigger] replies[4 + 2 * i] matches Reply::Opened {
        status,
        handle,
        ..
    } && status >= 0 && no_reparse_dir::usable(handle)) by {
        assert(passes(phase_after(4 + 2 * i, depth), replies[4 + 2 * i]));
    }
    assert forall|i: int| 0 <= i < depth implies (#[trigger] replies[5 + 2 * i] matches Reply::Tag {
        ok,
        file_attributes,
        reparse_tag,
        ..
    } && ok != 0 && !no_reparse_dir::name_surrogate(file_attributes, reparse_tag)) by {
        assert(passes(phase_after(5 + 2 * i, depth), replies[5 + 2 * i]));
    }
}

/// Good answers are all it takes: where every name fits a counted string and
/// every reply passes, the walk ends with the last directory.
pub proof fn law_good_replies_finish_the_walk(start: WalkView, replies: Seq<Reply>)
    requires
        fresh(start),
        no_reparse_dir::name_fits(start.drive_root),
        forall|i: int|
            0 <= i < start.components.len() ==> no_reparse_dir::name_fits(
                #[trigger] start.components[i],
            ),
        replies.len() == 4 + 2 * start.components.len(),
        forall|j: int|
            0 <= j < replies.len() ==> passes(
                phase_after(j, start.components.len()),
                #[trigger] replies[j],
            ),
    ensures
        walked(start, replies) is Some,
        walked(start, replies)->Some_0.phase is Finished,
{
    lemma_prefix_is_walked(start, replies, replies.len() as int);
    assert(replies.take(replies.len() as int) =~= replies);
}

proof fn lemma_prefix_is_walked(start: WalkView, replies: Seq<Reply>, count: int)
    requires
        fresh(start),
        no_reparse_dir::name_fits(start.drive_root),
        forall|i: int|
            0 <= i < start.components.len() ==> no_reparse_dir::name_fits(
                #[trigger] start.components[i],
            ),
        replies.len() == 4 + 2 * start.components.len(),
        forall|j: int|
            0 <= j < replies.len() ==> passes(
                phase_after(j, start.components.len()),
                #[trigger] replies[j],
            ),
        0 <= count <= replies.len(),
    ensures
        walked(start, replies.take(count)) is Some,
        walked(start, replies.take(count))->Some_0.phase == phase_after(
            count,
            start.components.len(),
        ),
    decreases count,
{
    let taken = replies.take(count);
    if count > 0 {
        lemma_prefix_is_walked(start, replies, count - 1);
        assert(taken.drop_last() =~= replies.take(count - 1));
        let walk = walked(start, taken.drop_last())->Some_0;
        lemma_walked(start, taken.drop_last());
        assert(taken.last() == replies[count - 1]);
        assert(passes(walk.phase, replies[count - 1]));
        assert(walk.next_action() is Ok);
        lemma_walked(start, taken);
    }
}

/// A component is opened relative to the directory that was opened and checked
/// just before, by its name alone, and without following a reparse point.
pub proof fn law_component_is_opened_from_its_checked_parent(
    start: WalkView,
    replies: Seq<Reply>,
    index: usize,
)
    requires
        fresh(start),
        walked(start, replies) is Some,
        walked(start, replies)->Some_0.phase == Phase::OpenComponent(index),
    ensures
        ({
            let parent = if index == 0 {
                0
            } else {
                2 + 2 * index as int
            };
            let walk = walked(start, replies)->Some_0;
            &&& replies.len() == 4 + 2 * index
            &&& replies[parent] is Opened
            &&& replies.last() matches Reply::Tag { ok, file_attributes, reparse_tag, .. } && ok
                != 0 && !no_reparse_dir::name_surrogate(file_attributes, reparse_tag)
            &&& match walk.next_action() {
                Ok(ActionView::Open(request)) => {
                    &&& request.root_directory == replies[parent]->handle
                    &&& request.buffer == start.components[index as int].push(0)
                    &&& request.attributes & OBJ_DONT_REPARSE != 0
                },
                Ok(_) => false,
                Err(error) => error is NameTooLong && !no_reparse_dir::name_fits(
                    start.components[index as int],
                ),
            }
        }),
{
    lemma_walked(start, replies);
    let depth = start.components.len();
    let count = replies.len() as int;
    assert(passes(phase_after(count - 1, depth), replies[count - 1]));
    assert((0x40u32 | 0x1000u32) & 0x1000u32 != 0) by (bit_vector);
}

/// Only the drive root is opened in a way that could follow a reparse point,
/// and only by the name that the object manager has for it.
pub proof fn law_only_the_drive_root_may_reparse(walk: WalkView)
    requires
        walk.valid(),
        walk.next_action() is Ok,
        walk.next_action()->Ok_0 is Open,
        walk.next_action()->Ok_0->Open_0.attributes & OBJ_DONT_REPARSE == 0,
    ensures
        walk.phase is OpenRoot,
        walk.next_action()->Ok_0->Open_0.root_directory == 0,
        walk.next_action()->Ok_0->Open_0.buffer == walk.drive_root.push(0),
{
    assert((0x40u32 | 0x1000u32) & 0x1000u32 != 0) by (bit_vector);
}

/// No directory but the last one is ever created, and none at all on the way
/// to a directory that is only read.
pub proof fn law_only_the_final_directory_is_created(walk: WalkView)
    requires
        walk.valid(),
        walk.next_action() is Ok,
        walk.next_action()->Ok_0 is Open,
        walk.next_action()->Ok_0->Open_0.create_disposition != FILE_OPEN,
    ensures
        walk.leaf is OpenOrCreate,
        walk.phase == Phase::OpenComponent((walk.components.len() - 1) as usize),
{
}

/// Only the handle at the end of a walk can have the right to change an access
/// control list, and it has that right only if the directory is going to be
/// locked: reading a directory cannot modify it.
pub proof fn law_only_the_final_handle_may_change_the_list(walk: WalkView)
    requires
        walk.valid(),
        walk.next_action() is Ok,
        walk.next_action()->Ok_0 is Open,
    ensures
        walk.next_action()->Ok_0->Open_0.desired_access & WRITE_DAC != 0 <==> {
            &&& walk.leaf is OpenOrCreate
            &&& walk.phase == Phase::OpenComponent((walk.components.len() - 1) as usize)
        },
{
    assert((0x20u32 | 0x80u32) & 0x4_0000u32 == 0) by (bit_vector);
    assert((0x2_0000u32 | 0x80u32) & 0x4_0000u32 == 0) by (bit_vector);
    assert((0x2_0000u32 | 0x4_0000u32 | 0x80u32) & 0x4_0000u32 != 0) by (bit_vector);
}

/// A walk to a directory that is only read creates nothing and asks for no right
/// to change an access control list, whatever the system answers.
pub proof fn law_reading_changes_nothing(start: WalkView, replies: Seq<Reply>)
    requires
        fresh(start),
        start.leaf is ReadExisting,
        walked(start, replies) is Some,
    ensures
        match walked(start, replies)->Some_0.next_action() {
            Ok(ActionView::Open(request)) => {
                &&& request.create_disposition == FILE_OPEN
                &&& request.desired_access & WRITE_DAC == 0
            },
            _ => true,
        },
{
    lemma_walked(start, replies);
    let walk = walked(start, replies)->Some_0;
    if walk.next_action() is Ok && walk.next_action()->Ok_0 is Open {
        law_only_the_final_handle_may_change_the_list(walk);
    }
}

/// Opening a directory to lock it and opening it to read it go the same way: a
/// path is accepted for both or for neither, and leads to the same names.
pub proof fn law_reading_takes_the_way_of_locking(path: Seq<u16>)
    ensures
        no_reparse_dir::walk_of(path, Leaf::ReadExisting) == match no_reparse_dir::walk_of(
            path,
            Leaf::OpenOrCreate,
        ) {
            Ok(walk) => Ok::<WalkView, AclError>(WalkView { leaf: Leaf::ReadExisting, ..walk }),
            Err(error) => Err::<WalkView, AclError>(error),
        },
{
}

/// A reparse point ends the walk, whether the open met it, the drive root turns
/// out to be one, or a component turns out to be one that redirects name
/// resolution.
pub proof fn law_reparse_point_ends_the_walk(walk: WalkView, reply: Reply)
    requires
        walk.valid(),
        no_reparse_dir::answers(walk.phase, reply),
        (reply matches Reply::Opened { status, .. } && status == STATUS_REPARSE_POINT_ENCOUNTERED)
            || (reply matches Reply::Tag { ok, file_attributes, reparse_tag, .. } && ok != 0
            && (no_reparse_dir::name_surrogate(file_attributes, reparse_tag) || (walk.phase
            is CheckRootTag && file_attributes & FILE_ATTRIBUTE_REPARSE_POINT != 0))),
    ensures
        walk.after(reply) == Err::<WalkView, AclError>(AclError::ReparsePoint),
{
}

/// A drive letter that leads to anything but the root directory of a local
/// volume ends the walk before a component is opened.
pub proof fn law_redirected_drive_letter_ends_the_walk(walk: WalkView, reply: Reply)
    requires
        walk.valid(),
        no_reparse_dir::answers(walk.phase, reply),
    ensures
        (reply matches Reply::Device { status, device_type, characteristics, .. } && status >= 0
            && !no_reparse_dir::local_disk(device_type, characteristics)) ==> walk.after(reply)
            == Err::<WalkView, AclError>(AclError::NotLocalVolume),
        (reply matches Reply::Name { ok, record, .. } && ok != 0
            && no_reparse_dir::recorded_name(record@) is Ok
            && no_reparse_dir::recorded_name(record@)->Ok_0 != seq![BACKSLASH]) ==> walk.after(
            reply,
        ) == Err::<WalkView, AclError>(AclError::NotVolumeRoot),
{
}

/// A code unit as two bytes, least significant byte first.
pub open spec fn unit_bytes(units: Seq<u16>) -> Seq<u8> {
    Seq::new(
        2 * units.len(),
        |i: int|
            if i % 2 == 0 {
                (units[i / 2] % 0x100) as u8
            } else {
                (units[i / 2] / 0x100) as u8
            },
    )
}

/// A number as four bytes, least significant byte first.
pub open spec fn length_bytes(len: nat) -> Seq<u8> {
    seq![
        (len % 0x100) as u8,
        (len / 0x100 % 0x100) as u8,
        (len / 0x1_0000 % 0x100) as u8,
        (len / 0x100_0000 % 0x100) as u8,
    ]
}

/// A file name record gives back the name that was put into it, whatever
/// follows the name.
#[verifier::spinoff_prover]
#[verifier::rlimit(40)]
pub proof fn law_file_name_record_gives_back_its_name(name: Seq<u16>, rest: Seq<u8>)
    requires
        2 * name.len() <= u32::MAX,
    ensures
        no_reparse_dir::recorded_name(length_bytes(2 * name.len()) + unit_bytes(name) + rest)
            == Ok::<Seq<u16>, AclError>(name),
{
    let len = 2 * name.len();
    let record = length_bytes(len) + unit_bytes(name) + rest;
    assert(record[0] == (len % 0x100) as u8);
    assert(record[1] == (len / 0x100 % 0x100) as u8);
    assert(record[2] == (len / 0x1_0000 % 0x100) as u8);
    assert(record[3] == (len / 0x100_0000 % 0x100) as u8);
    assert(no_reparse_dir::u32_of_bytes(record) == len);
    let bytes = record.subrange(4, 4 + len as int);
    assert(bytes =~= unit_bytes(name));
    assert forall|i: int| 0 <= i < name.len() implies no_reparse_dir::units_of_bytes(bytes)[i]
        == name[i] by {
        assert(bytes[2 * i] == (name[i] % 0x100) as u8);
        assert(bytes[2 * i + 1] == (name[i] / 0x100) as u8);
    }
    assert(no_reparse_dir::units_of_bytes(bytes) =~= name);
}

/// A path holds no more names than code units.
proof fn lemma_body_is_no_longer_than_its_units(body: Seq<u16>, verbatim: bool)
    ensures
        wide_path::body_components(body, verbatim).len() <= body.len(),
    decreases body.len(),
{
    if body.len() > 0 {
        wide_path::lemma_name_len_bound(body, verbatim);
        lemma_body_is_no_longer_than_its_units(
            wide_path::after_name(body, verbatim),
            verbatim,
        );
    }
}

/// Every accepted path with a directory in it starts a fresh walk down plain
/// names from the root of a drive, and the name of that root always fits.
pub proof fn law_walk_starts_at_a_drive_root(path: Seq<u16>, leaf: Leaf)
    requires
        no_reparse_dir::walk_of(path, leaf) is Ok,
        path.len() <= usize::MAX,
    ensures
        ({
            let walk = no_reparse_dir::walk_of(path, leaf)->Ok_0;
            &&& fresh(walk)
            &&& walk.leaf == leaf
            &&& no_reparse_dir::name_fits(walk.drive_root)
            &&& walk.next_action() is Ok
            &&& forall|i: int|
                0 <= i < walk.components.len() ==> drive_path::plain(
                    #[trigger] walk.components[i],
                )
        }),
{
    drive_path_laws::law_accepted_path_holds_plain_names_only(path);
    let (prefix, len) = wide_path::prefix_of(path)->Some_0;
    let rest = path.skip(len as int);
    let body = if wide_path::starts_with_root(rest) {
        rest.skip(1)
    } else {
        rest
    };
    let components = wide_path::components_of(path);
    lemma_body_is_no_longer_than_its_units(body, prefix.verbatim());
    assert(components.len() <= 2 + body.len());
    assert(components.skip(2).len() == no_reparse_dir::walk_of(path, leaf)->Ok_0.components.len());
}

/// A path starts a walk from the root it splits into, down all the names it splits
/// into and no others. One without names, or one that is rejected, starts none.
pub proof fn law_walk_goes_down_every_name(path: Seq<u16>, leaf: Leaf)
    ensures
        match drive_path::split_of(path) {
            Ok((root, names)) => {
                let walk = no_reparse_dir::walk_of(path, leaf);
                &&& names.len() == 0 ==> walk == Err::<WalkView, AclError>(
                    AclError::NoDirectoryComponent,
                )
                &&& names.len() > 0 ==> {
                    &&& walk is Ok
                    &&& walk->Ok_0.drive_root == root
                    &&& walk->Ok_0.components == names
                    &&& walk->Ok_0.leaf == leaf
                    &&& walk->Ok_0.phase is OpenRoot
                }
            },
            Err(error) => no_reparse_dir::walk_of(path, leaf) == Err::<WalkView, AclError>(error),
        },
{
}

/// The open of one directory: by a name of at most 32766 units with a NUL behind
/// it, counted in bytes, for sharing in every way, and for directories only.
pub open spec fn opens(
    directory: isize,
    name: Seq<u16>,
    access: u32,
    disposition: u32,
    attributes: u32,
) -> Result<ActionView, AclError> {
    if name.len() <= 32766 {
        Ok(
            ActionView::Open(
                OpenRequestView {
                    root_directory: directory,
                    buffer: name.push(0),
                    name_length: (2 * name.len()) as u16,
                    maximum_length: (2 * name.len() + 2) as u16,
                    attributes,
                    desired_access: access,
                    file_attributes: 0x80,
                    share_access: 7,
                    create_disposition: disposition,
                    create_options: 1,
                },
            ),
        )
    } else {
        Err(AclError::NameTooLong)
    }
}

/// The rights that the last handle of a walk is to have.
pub open spec fn leaf_access(leaf: Leaf) -> u32 {
    if leaf is OpenOrCreate {
        0x6_0080
    } else {
        0x2_0080
    }
}

/// Whether the last directory of a walk is created where it does not exist.
pub open spec fn leaf_disposition(leaf: Leaf) -> u32 {
    if leaf is OpenOrCreate {
        3
    } else {
        1
    }
}

/// What a walk from `root` down `names` does after `replies`. First it opens the
/// drive root by its own name and asks for its device, its name and its tag. Then
/// it opens each name from the handle of the one before and asks for the tag of
/// what it opened. The last name is opened for the purpose of the walk, all others
/// only to pass through. The handle at the end is that of the last name.
pub open spec fn nth_action(
    root: Seq<u16>,
    names: Seq<Seq<u16>>,
    leaf: Leaf,
    replies: Seq<Reply>,
) -> Result<ActionView, AclError> {
    let count = replies.len() as int;
    let depth = names.len() as int;
    let index = (count - 4) / 2;
    if count == 0 {
        opens(0, root, 0xA0, 1, 0x40)
    } else if count == 1 {
        Ok(ActionView::QueryDevice { handle: replies[0]->handle })
    } else if count == 2 {
        Ok(ActionView::QueryName { handle: replies[0]->handle })
    } else if count == 3 {
        Ok(ActionView::QueryTag { handle: replies[0]->handle })
    } else if count == 4 + 2 * depth {
        Ok(ActionView::Done { handle: replies[2 + 2 * depth]->handle })
    } else if count % 2 == 1 {
        Ok(ActionView::QueryTag { handle: replies[count - 1]->handle })
    } else {
        opens(
            if index == 0 {
                replies[0]->handle
            } else {
                replies[count - 2]->handle
            },
            names[index],
            if index == depth - 1 {
                leaf_access(leaf)
            } else {
                0xA0
            },
            if index == depth - 1 {
                leaf_disposition(leaf)
            } else {
                1
            },
            0x1040,
        )
    }
}

/// What a walk does next depends on nothing but its root, its names, its purpose,
/// how many replies there were, and the handle that was opened last.
pub proof fn law_walk_does_one_thing_after_another(start: WalkView, replies: Seq<Reply>)
    requires
        fresh(start),
        walked(start, replies) is Some,
    ensures
        replies.len() <= 4 + 2 * start.components.len(),
        walked(start, replies)->Some_0.next_action() == nth_action(
            start.drive_root,
            start.components,
            start.leaf,
            replies,
        ),
{
    lemma_walked(start, replies);
    lemma_request_numbers();
    let walk = walked(start, replies)->Some_0;
    let count = replies.len() as int;
    let depth = start.components.len() as int;
    if count >= 4 && count < 4 + 2 * depth && count % 2 == 0 {
        let index = (count - 4) / 2;
        assert(walk.phase == Phase::OpenComponent(index as usize));
        assert(walk.handle == replies[last_open(count)]->handle);
    }
}

proof fn lemma_request_numbers()
    ensures
        1u32 | 2u32 | 4u32 == 7u32,
        0x20u32 | 0x80u32 == 0xA0u32,
        0x40u32 | 0x1000u32 == 0x1040u32,
        0x2_0000u32 | 0x4_0000u32 | 0x80u32 == 0x6_0080u32,
        0x2_0000u32 | 0x80u32 == 0x2_0080u32,
{
    assert(1u32 | 2u32 | 4u32 == 7u32) by (bit_vector);
    assert(0x20u32 | 0x80u32 == 0xA0u32) by (bit_vector);
    assert(0x40u32 | 0x1000u32 == 0x1040u32) by (bit_vector);
    assert(0x2_0000u32 | 0x4_0000u32 | 0x80u32 == 0x6_0080u32) by (bit_vector);
    assert(0x2_0000u32 | 0x80u32 == 0x2_0080u32) by (bit_vector);
}

/// A walk to a path that was spelled from a drive letter and names opens the root
/// of that drive and then those names, one by one and all of them. It ends with
/// the handle that the open of the last name brought.
pub proof fn law_spelled_path_is_walked_name_by_name(
    drive: u16,
    names: Seq<Seq<u16>>,
    verbatim: bool,
    leaf: Leaf,
    replies: Seq<Reply>,
)
    requires
        wide_path_laws::letter(drive),
        0 < names.len() <= usize::MAX,
        forall|i: int|
            0 <= i < names.len() ==> drive_path_laws::harmless_name(#[trigger] names[i]),
        ({
            let path = drive_path_laws::drive_head(drive, 0x5C, verbatim)
                + drive_path_laws::joined(names);
            walked(no_reparse_dir::walk_of(path, leaf)->Ok_0, replies) is Some
        }),
    ensures
        ({
            let path = drive_path_laws::drive_head(drive, 0x5C, verbatim)
                + drive_path_laws::joined(names);
            let start = no_reparse_dir::walk_of(path, leaf);
            &&& start is Ok
            &&& replies.len() <= 4 + 2 * names.len()
            &&& walked(start->Ok_0, replies)->Some_0.next_action() == nth_action(
                drive_path_laws::object_root(drive),
                names,
                leaf,
                replies,
            )
        }),
{
    let path = drive_path_laws::drive_head(drive, 0x5C, verbatim) + drive_path_laws::joined(names);
    drive_path_laws::law_harmless_names_come_back(drive, names, verbatim);
    law_walk_goes_down_every_name(path, leaf);
    law_walk_does_one_thing_after_another(
        no_reparse_dir::walk_of(path, leaf)->Ok_0,
        replies,
    );
}

/// The reply in place `place` of a walk is a good one: the open
/// brought a handle, the device is a local disk, the drive root is called by a
/// single backslash and is no reparse point, and no name stands for another.
pub open spec fn good_reply(place: int, reply: Reply) -> bool {
    if place == 1 {
        reply matches Reply::Device { status, device_type, characteristics, .. } && status >= 0
            && (device_type == 7 || device_type == 0x24) && characteristics & 0x10 == 0
    } else if place == 2 {
        reply matches Reply::Name { ok, record, .. } && ok != 0 && record@.len() >= 4 && {
            let len = no_reparse_reply_laws::stated_length(record@);
            4 + len <= record@.len() && len / 2 == 1 && record@[4] == 0x5C && record@[5] == 0
        }
    } else if place == 3 {
        reply matches Reply::Tag { ok, file_attributes, .. } && ok != 0 && file_attributes & 0x400
            == 0
    } else if place % 2 == 0 {
        reply matches Reply::Opened { status, handle, .. } && status >= 0 && handle != 0 && handle
            != -1
    } else {
        reply matches Reply::Tag { ok, file_attributes, reparse_tag, .. } && ok != 0 && (
        file_attributes & 0x400 == 0 || reparse_tag & 0x2000_0000 == 0)
    }
}

proof fn lemma_good_reply_passes(walk: WalkView, place: int, depth: nat, reply: Reply)
    requires
        0 <= place < 4 + 2 * depth,
        depth <= usize::MAX,
        walk.phase == phase_after(place, depth),
    ensures
        passes(phase_after(place, depth), reply) <==> good_reply(place, reply),
{
    match reply {
        Reply::Opened { status, os_error, handle } => {
            no_reparse_reply_laws::law_open_reply(walk, status, os_error, handle);
        },
        Reply::Device { status, os_error, device_type, characteristics } => {
            no_reparse_reply_laws::law_device_reply(
                walk,
                status,
                os_error,
                device_type,
                characteristics,
            );
        },
        Reply::Name { ok, os_error, record } => {
            if record@.len() >= 4 {
                no_reparse_reply_laws::law_name_reply(walk, ok, os_error, record);
            }
        },
        Reply::Tag { .. } => {},
    }
    no_reparse_reply_laws::law_phases_and_their_replies(phase_after(place, depth), reply);
}

/// Where every name is of at most 32766 units, a walk goes on through exactly those
/// replies that are good, each in its place, and after the last of them it is
/// finished.
pub proof fn law_walk_goes_on_exactly_with_good_replies(start: WalkView, replies: Seq<Reply>)
    requires
        fresh(start),
        start.drive_root.len() <= 32766,
        forall|i: int|
            0 <= i < start.components.len() ==> (#[trigger] start.components[i]).len() <= 32766,
    ensures
        walked(start, replies) is Some <==> replies.len() <= 4 + 2 * start.components.len()
            && forall|j: int| 0 <= j < replies.len() ==> good_reply(j, #[trigger] replies[j]),
        walked(start, replies) is Some ==> (walked(start, replies)->Some_0.phase is Finished
            <==> replies.len() == 4 + 2 * start.components.len()),
    decreases replies.len(),
{
    let depth = start.components.len();
    if walked(start, replies) is Some {
        lemma_walked(start, replies);
    }
    if replies.len() > 0 {
        let before = replies.drop_last();
        let count = before.len() as int;
        law_walk_goes_on_exactly_with_good_replies(start, before);
        assert forall|j: int| 0 <= j < count implies before[j] == #[trigger] replies[j] by {}
        assert(replies[count] == replies.last());
        if walked(start, before) is Some {
            lemma_walked(start, before);
            let walk = walked(start, before)->Some_0;
            if count < 4 + 2 * depth {
                lemma_good_reply_passes(walk, count, depth, replies.last());
                assert(walk.next_action() is Ok);
                assert(walked(start, replies) is Some <==> good_reply(count, replies[count]));
            }
        }
        if replies.len() <= 4 + 2 * depth && forall|j: int|
            0 <= j < replies.len() ==> good_reply(j, #[trigger] replies[j]) {
            assert forall|j: int| 0 <= j < before.len() implies good_reply(
                j,
                #[trigger] before[j],
            ) by {
                assert(good_reply(j, replies[j]));
            }
        }
        if walked(start, replies) is Some {
            assert forall|j: int| 0 <= j < replies.len() implies good_reply(
                j,
                #[trigger] replies[j],
            ) by {
                if j < count {
                    assert(good_reply(j, before[j]));
                }
            }
        }
    }
}

} // verus!
