//! What holds of taking a path apart, whatever the path, in the numbers of the
//! code units themselves.

use vstd::prelude::*;
use crate::wide_path;
use crate::wide_path::Component;
use crate::wide_path::ComponentView;
use crate::wide_path::Prefix;

verus! {

/// A backslash or a slash.
pub open spec fn slash(unit: u16) -> bool {
    unit == 0x5C || unit == 0x2F
}

/// A unit that ends a name: a backslash, and outside of verbatim paths a slash.
pub open spec fn ends_name(unit: u16, verbatim: bool) -> bool {
    unit == 0x5C || (unit == 0x2F && !verbatim)
}

/// No unit of `name` ends a name.
pub open spec fn unbroken(name: Seq<u16>, verbatim: bool) -> bool {
    forall|i: int| 0 <= i < name.len() ==> !ends_name(#[trigger] name[i], verbatim)
}

/// One of the letters `A` to `Z` and `a` to `z`.
pub open spec fn letter(unit: u16) -> bool {
    (0x41 <= unit && unit <= 0x5A) || (0x61 <= unit && unit <= 0x7A)
}

/// The capital of a letter.
pub open spec fn capital(unit: u16) -> u8 {
    if unit <= 0x5A {
        unit as u8
    } else {
        (unit - 0x20) as u8
    }
}

/// `X:\` or `X:/`, at the start of `path`.
pub open spec fn drive_headed(path: Seq<u16>) -> bool {
    path.len() >= 3 && letter(path[0]) && path[1] == 0x3A && slash(path[2])
}

/// `\\?\`, at the start of `path`.
pub open spec fn verbatim_led(path: Seq<u16>) -> bool {
    path.len() >= 4 && path[0] == 0x5C && path[1] == 0x5C && path[2] == 0x3F && path[3] == 0x5C
}

/// A name goes on to the first separator, or to the end where there is none.
pub proof fn law_name_ends_at_the_first_separator(units: Seq<u16>, verbatim: bool)
    ensures
        ({
            let len = wide_path::name_len(units, verbatim) as int;
            &&& len <= units.len()
            &&& unbroken(units.take(len), verbatim)
            &&& len < units.len() ==> ends_name(units[len], verbatim)
            &&& wide_path::after_name(units, verbatim) == if len < units.len() {
                units.skip(len + 1)
            } else {
                Seq::<u16>::empty()
            }
        }),
    decreases units.len(),
{
    if units.len() > 0 && !ends_name(units[0], verbatim) {
        let rest = units.skip(1);
        law_name_ends_at_the_first_separator(rest, verbatim);
        let len = wide_path::name_len(units, verbatim) as int;
        let fewer = rest.take(len - 1);
        assert forall|i: int| 0 <= i < len implies !ends_name(
            #[trigger] units.take(len)[i],
            verbatim,
        ) by {
            if i > 0 {
                assert(fewer[i - 1] == units[i]);
            }
        }
        if len < units.len() {
            assert(rest[len - 1] == units[len]);
        }
    }
}

/// An unbroken name that is followed by a separator or by nothing is read whole.
pub proof fn law_unbroken_name_is_read_whole(name: Seq<u16>, rest: Seq<u16>, verbatim: bool)
    requires
        unbroken(name, verbatim),
        rest.len() == 0 || ends_name(rest[0], verbatim),
    ensures
        wide_path::name_len(name + rest, verbatim) == name.len(),
{
    let units = name + rest;
    law_name_ends_at_the_first_separator(units, verbatim);
    let len = wide_path::name_len(units, verbatim) as int;
    if len < name.len() {
        assert(units[len] == name[len]);
    } else if len > name.len() {
        assert(units.take(len)[name.len() as int] == rest[0]);
    }
}

/// What a name between separators stands for: nothing where it is empty, the
/// current directory where it is one dot of a verbatim path (and nothing where
/// it is one dot of another path), the parent directory where it is two dots,
/// and itself otherwise.
pub open spec fn piece(name: Seq<u16>, verbatim: bool) -> Seq<ComponentView> {
    if name.len() == 0 || (name.len() == 1 && name[0] == 0x2E && !verbatim) {
        Seq::empty()
    } else if name.len() == 1 && name[0] == 0x2E {
        seq![ComponentView::CurDir]
    } else if name.len() == 2 && name[0] == 0x2E && name[1] == 0x2E {
        seq![ComponentView::ParentDir]
    } else {
        seq![ComponentView::Normal(name)]
    }
}

proof fn lemma_piece(name: Seq<u16>, verbatim: bool)
    ensures
        wide_path::component_of_name(name, verbatim) == piece(name, verbatim),
{
    if name.len() == 1 && name[0] == 0x2E {
        assert(name =~= seq![0x2Eu16]);
    }
    if name.len() == 2 && name[0] == 0x2E && name[1] == 0x2E {
        assert(name =~= seq![0x2Eu16, 0x2Eu16]);
    }
    if name == seq![0x2Eu16] {
        assert(name[0] == 0x2E);
    }
    if name == seq![0x2Eu16, 0x2Eu16] {
        assert(name[0] == 0x2E && name[1] == 0x2E);
    }
}

/// A body without a separator is a single name.
pub proof fn law_body_of_one_name(name: Seq<u16>, verbatim: bool)
    requires
        unbroken(name, verbatim),
    ensures
        wide_path::body_components(name, verbatim) == piece(name, verbatim),
{
    if name.len() > 0 {
        law_unbroken_name_is_read_whole(name, Seq::empty(), verbatim);
        assert(name + Seq::<u16>::empty() =~= name);
        assert(name.take(name.len() as int) =~= name);
        lemma_piece(name, verbatim);
        assert(wide_path::body_components(wide_path::after_name(name, verbatim), verbatim)
            =~= Seq::empty());
        assert(piece(name, verbatim) + Seq::<ComponentView>::empty() =~= piece(name, verbatim));
    }
}

/// A separator divides a body: what stands before it and what stands behind it
/// are read apart from each other.
pub proof fn law_separator_divides_a_body(
    first: Seq<u16>,
    separator: u16,
    rest: Seq<u16>,
    verbatim: bool,
)
    requires
        ends_name(separator, verbatim),
    ensures
        wide_path::body_components(first + seq![separator] + rest, verbatim)
            == wide_path::body_components(first, verbatim) + wide_path::body_components(
            rest,
            verbatim,
        ),
    decreases first.len(),
{
    let whole = first + seq![separator] + rest;
    let len = wide_path::name_len(first, verbatim) as int;
    law_name_ends_at_the_first_separator(first, verbatim);
    let name = first.take(len);
    let tail = whole.skip(len);
    assert(whole =~= name + tail);
    if len < first.len() {
        assert(tail[0] == first[len]);
    } else {
        assert(tail[0] == separator);
    }
    law_unbroken_name_is_read_whole(name, tail, verbatim);
    assert(wide_path::name_len(whole, verbatim) == len);
    assert(whole.take(len) =~= name);
    let later = wide_path::after_name(first, verbatim);
    if len < first.len() {
        law_separator_divides_a_body(later, separator, rest, verbatim);
        assert(wide_path::after_name(whole, verbatim) =~= later + seq![separator] + rest);
        assert(wide_path::body_components(whole, verbatim) =~= wide_path::body_components(
            first,
            verbatim,
        ) + wide_path::body_components(rest, verbatim));
    } else {
        assert(wide_path::after_name(whole, verbatim) =~= rest);
        assert(later =~= Seq::<u16>::empty());
        lemma_piece(name, verbatim);
        if first.len() > 0 {
            assert(name =~= first);
            law_body_of_one_name(first, verbatim);
        } else {
            assert(piece(name, verbatim) =~= Seq::empty());
        }
        assert(wide_path::body_components(whole, verbatim) =~= wide_path::body_components(
            first,
            verbatim,
        ) + wide_path::body_components(rest, verbatim));
    }
}

/// A prefix names a drive exactly where a letter and a colon stand, at the start
/// of the path or, up to the end or a separator, behind `\\?\`. It keeps the
/// letter as a capital.
pub proof fn law_drive_prefix_is_a_letter_and_a_colon(path: Seq<u16>)
    ensures
        path.len() >= 2 && letter(path[0]) && path[1] == 0x3A ==> wide_path::prefix_of(path)
            == Some((Prefix::Disk(capital(path[0])), 2nat)),
        wide_path::prefix_of(path) matches Some((Prefix::Disk(_), _)) ==> path.len() >= 2
            && letter(path[0]) && path[1] == 0x3A,
        verbatim_led(path) && path.len() >= 6 && letter(path[4]) && path[5] == 0x3A && (path.len()
            == 6 || slash(path[6])) ==> wide_path::prefix_of(path) == Some(
            (Prefix::VerbatimDisk(capital(path[4])), 6nat),
        ),
        wide_path::prefix_of(path) matches Some((Prefix::VerbatimDisk(_), _)) ==> verbatim_led(path)
            && path.len() >= 6 && letter(path[4]) && path[5] == 0x3A && (path.len() == 6 || slash(
            path[6],
        )),
{
}

/// `UNC` and a separator, at position 4 of `path`.
pub open spec fn says_unc(path: Seq<u16>) -> bool {
    path.len() >= 8 && path[4] == 0x55 && path[5] == 0x4E && path[6] == 0x43 && slash(path[7])
}

/// Behind `\\?\` stands a drive, a server with the share that may follow it, or
/// some other name, and the prefix ends with it.
pub proof fn law_verbatim_prefixes(path: Seq<u16>)
    requires
        verbatim_led(path),
    ensures
        says_unc(path) ==> ({
            let rest = path.skip(8);
            let server = wide_path::name_len(rest, true);
            let share = wide_path::name_len(wide_path::after_name(rest, true), true);
            wide_path::prefix_of(path) == Some(
                (
                    Prefix::VerbatimUnc,
                    if share == 0 {
                        8 + server
                    } else {
                        9 + server + share
                    },
                ),
            )
        }),
        !says_unc(path) && !(path.len() >= 6 && letter(path[4]) && path[5] == 0x3A && (path.len()
            == 6 || slash(path[6]))) ==> wide_path::prefix_of(path) == Some(
            (Prefix::Verbatim, 4 + wide_path::name_len(path.skip(4), true)),
        ),
{
    let rest = path.skip(4);
    if says_unc(path) {
        assert(rest.skip(4) =~= path.skip(8));
    }
}

/// `\\.\` in front of a device, with either separator.
pub open spec fn device_led(path: Seq<u16>) -> bool {
    path.len() >= 4 && slash(path[0]) && slash(path[1]) && path[2] == 0x2E && slash(path[3])
}

/// Two separators start a network path if a server and a share follow, and a
/// device path if a dot follows. They are no prefix otherwise, and no other path
/// has one.
pub proof fn law_other_prefixes(path: Seq<u16>)
    requires
        !verbatim_led(path),
    ensures
        device_led(path) ==> wide_path::prefix_of(path) == Some(
            (Prefix::DeviceNs, 4 + wide_path::name_len(path.skip(4), false)),
        ),
        path.len() >= 2 && slash(path[0]) && slash(path[1]) && !device_led(path) ==> ({
            let rest = path.skip(2);
            let server = wide_path::name_len(rest, false);
            let share = wide_path::name_len(wide_path::after_name(rest, false), false);
            wide_path::prefix_of(path) == if server == 0 || share == 0 {
                None
            } else {
                Some((Prefix::Unc, 3 + server + share))
            }
        }),
        !(path.len() >= 2 && slash(path[0]) && slash(path[1])) && !(path.len() >= 2 && letter(
            path[0],
        ) && path[1] == 0x3A) ==> wide_path::prefix_of(path) is None,
{
}

/// A server and a share behind two separators make a network path, whatever
/// follows the share.
pub proof fn law_server_and_share_make_a_network_path(
    first: u16,
    second: u16,
    server: Seq<u16>,
    third: u16,
    share: Seq<u16>,
    rest: Seq<u16>,
)
    requires
        slash(first),
        slash(second),
        slash(third),
        server.len() > 0,
        share.len() > 0,
        unbroken(server, false),
        unbroken(share, false),
        rest.len() == 0 || slash(rest[0]),
        server != seq![0x2Eu16],
        !verbatim_led(seq![first, second] + server + seq![third] + share + rest),
    ensures
        wide_path::prefix_of(seq![first, second] + server + seq![third] + share + rest) == Some(
            (Prefix::Unc, (3 + server.len() + share.len()) as nat),
        ),
{
    let path = seq![first, second] + server + seq![third] + share + rest;
    let tail = seq![third] + share + rest;
    assert(path.skip(2) =~= server + tail);
    law_unbroken_name_is_read_whole(server, tail, false);
    assert((server + tail).skip(server.len() as int + 1) =~= share + rest);
    law_unbroken_name_is_read_whole(share, rest, false);
    if device_led(path) {
        assert(path[2] == server[0]);
        if server.len() > 1 {
            assert(path[3] == server[1]);
        } else {
            assert(server =~= seq![0x2Eu16]);
        }
    }
    law_other_prefixes(path);
}

/// A path is absolute exactly if it starts with a drive and a separator, or has
/// a prefix other than a bare drive.
pub proof fn law_absolute_paths(path: Seq<u16>)
    ensures
        wide_path::absolute(path) <==> drive_headed(path) || (wide_path::prefix_of(path) is Some
            && !(path.len() >= 2 && letter(path[0]) && path[1] == 0x3A)),
{
    if path.len() >= 3 {
        assert(path.skip(2)[0] == path[2]);
    }
}

/// The prefix comes first, then the root directory if a separator follows (or if
/// the prefix is that of a network or device path), then the rest, read in the
/// way of the prefix.
pub proof fn law_components_follow_the_prefix(path: Seq<u16>)
    requires
        wide_path::prefix_of(path) is Some,
    ensures
        ({
            let (prefix, len) = wide_path::prefix_of(path)->Some_0;
            let verbatim = match prefix {
                Prefix::Verbatim => true,
                Prefix::VerbatimUnc => true,
                Prefix::VerbatimDisk(_) => true,
                Prefix::DeviceNs => false,
                Prefix::Unc => false,
                Prefix::Disk(_) => false,
            };
            let components = wide_path::components_of(path);
            let rest = path.skip(len as int);
            &&& prefix.verbatim() == verbatim
            &&& prefix.drive() == match prefix {
                Prefix::VerbatimDisk(drive) => Some(drive),
                Prefix::Disk(drive) => Some(drive),
                _ => None,
            }
            &&& components.len() > 0
            &&& components[0] == ComponentView::Prefix(prefix)
            &&& rest.len() > 0 && slash(rest[0]) ==> components.skip(1) == seq![
                ComponentView::RootDir,
            ] + wide_path::body_components(rest.skip(1), verbatim)
            &&& !(rest.len() > 0 && slash(rest[0])) ==> components.skip(1) == match prefix {
                Prefix::Unc => seq![ComponentView::RootDir],
                Prefix::DeviceNs => seq![ComponentView::RootDir],
                _ => Seq::<ComponentView>::empty(),
            } + wide_path::body_components(rest, verbatim)
        }),
{
    let (prefix, len) = wide_path::prefix_of(path)->Some_0;
    let after = wide_path::components_after_prefix(path.skip(len as int), prefix);
    assert(wide_path::components_of(path).skip(1) =~= after);
    assert(after =~= Seq::<ComponentView>::empty() + after);
}

/// A path without a prefix starts with the root directory if a separator comes
/// first, and with the current directory if a dot on its own does.
pub proof fn law_components_without_a_prefix(path: Seq<u16>)
    requires
        wide_path::prefix_of(path) is None,
    ensures
        path.len() > 0 && slash(path[0]) ==> wide_path::components_of(path) == seq![
            ComponentView::RootDir,
        ] + wide_path::body_components(path.skip(1), false),
        path.len() > 0 && path[0] == 0x2E && (path.len() == 1 || slash(path[1]))
            ==> wide_path::components_of(path) == seq![ComponentView::CurDir]
            + wide_path::body_components(path.skip(1), false),
        path.len() == 0 || (!slash(path[0]) && !(path[0] == 0x2E && (path.len() == 1 || slash(
            path[1],
        )))) ==> wide_path::components_of(path) == wide_path::body_components(path, false),
{
}

/// The view of a component keeps its kind and its name, and the views of a list
/// are those of its components, in order.
pub proof fn law_component_views_keep_everything(components: Seq<Component>, index: int)
    requires
        0 <= index < components.len(),
    ensures
        wide_path::component_views(components).len() == components.len(),
        wide_path::component_views(components)[index] == match components[index] {
            Component::Prefix(prefix) => ComponentView::Prefix(prefix),
            Component::RootDir => ComponentView::RootDir,
            Component::CurDir => ComponentView::CurDir,
            Component::ParentDir => ComponentView::ParentDir,
            Component::Normal(name) => ComponentView::Normal(name@),
        },
{
}

} // verus!
