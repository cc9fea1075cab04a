//! What holds of splitting a drive path, whatever the path.

use vstd::prelude::*;
use crate::drive_path;
use crate::error::AclError;
use crate::wide_path;
use crate::wide_path::BACKSLASH;
use crate::wide_path::COLON;
use crate::wide_path::ComponentView;
use crate::wide_path::QUESTION;
use crate::wide_path::SLASH;
use crate::wide_path_laws;

verus! {

/// Names as the components that stand for them.
pub open spec fn normal_components(names: Seq<Seq<u16>>) -> Seq<ComponentView> {
    names.map_values(|name: Seq<u16>| ComponentView::Normal(name))
}

/// Names with a backslash between them.
pub open spec fn joined(names: Seq<Seq<u16>>) -> Seq<u16>
    decreases names.len(),
{
    if names.len() == 0 {
        Seq::empty()
    } else if names.len() == 1 {
        names[0]
    } else {
        names[0] + seq![BACKSLASH] + joined(names.skip(1))
    }
}

/// `\\?\`
pub open spec fn verbatim_lead() -> Seq<u16> {
    seq![BACKSLASH, BACKSLASH, QUESTION, BACKSLASH]
}

/// `X:\` and the names below it.
pub open spec fn spelled(drive: u16, names: Seq<Seq<u16>>) -> Seq<u16> {
    seq![drive, COLON, BACKSLASH] + joined(names)
}

proof fn lemma_plain_names_are_components(components: Seq<ComponentView>)
    requires
        drive_path::plain_names(components) is Ok,
    ensures
        components =~= normal_components(drive_path::plain_names(components)->Ok_0),
        forall|i: int|
            0 <= i < components.len() ==> drive_path::plain(
                #[trigger] drive_path::plain_names(components)->Ok_0[i],
            ),
    decreases components.len(),
{
    if components.len() > 0 {
        let rest = components.skip(1);
        lemma_plain_names_are_components(rest);
        let names = drive_path::plain_names(components)->Ok_0;
        let later = drive_path::plain_names(rest)->Ok_0;
        assert(names =~= seq![components[0]->Normal_0] + later);
        assert forall|i: int| 0 <= i < components.len() implies drive_path::plain(
            #[trigger] names[i],
        ) && components[i] == ComponentView::Normal(names[i]) by {
            if i > 0 {
                assert(names[i] == later[i - 1]);
                assert(rest[i - 1] == components[i]);
                assert(rest[i - 1] == normal_components(later)[i - 1]);
            }
        }
    }
}

/// An accepted path is a drive letter, the root of that drive, and nothing but
/// plain names below it: no `.` or `..`, no separator, stream or device
/// delimiter or NUL within a name. What comes out is the drive root that the
/// object manager knows, and these names in order.
pub proof fn law_accepted_path_holds_plain_names_only(path: Seq<u16>)
    requires
        drive_path::split_of(path) is Ok,
    ensures
        ({
            let (root, names) = drive_path::split_of(path)->Ok_0;
            let components = wide_path::components_of(path);
            let letter = drive_path::leading_drive(components)->Some_0;
            &&& drive_path::leading_drive(components) is Some
            &&& 0x41 <= letter <= 0x5A
            &&& root == drive_path::nt_drive_root(letter)
            &&& components.len() >= 2 && components[1] is RootDir
            &&& components.skip(2) == normal_components(names)
            &&& forall|i: int|
                0 <= i < names.len() ==> drive_path::plain(#[trigger] names[i])
        }),
{
    let components = wide_path::components_of(path);
    lemma_plain_names_are_components(components.skip(2));
    let letter = drive_path::leading_drive(components)->Some_0;
    assert(wide_path::prefix_of(path) is Some);
}

/// A separator ends a name that holds none.
proof fn lemma_name_len_of_join(name: Seq<u16>, rest: Seq<u16>, verbatim: bool)
    requires
        forall|i: int|
            0 <= i < name.len() ==> !wide_path::separates(#[trigger] name[i], verbatim),
        rest.len() == 0 || wide_path::separates(rest[0], verbatim),
    ensures
        wide_path::name_len(name + rest, verbatim) == name.len(),
    decreases name.len(),
{
    let units = name + rest;
    if name.len() == 0 {
        assert(units =~= rest);
    } else {
        assert(units[0] == name[0]);
        assert(units.skip(1) =~= name.skip(1) + rest);
        lemma_name_len_of_join(name.skip(1), rest, verbatim);
    }
}

proof fn lemma_plain_component(name: Seq<u16>, verbatim: bool)
    requires
        drive_path::plain(name),
    ensures
        wide_path::component_of_name(name, verbatim) == seq![ComponentView::Normal(name)],
        forall|i: int|
            0 <= i < name.len() ==> !wide_path::separates(#[trigger] name[i], verbatim),
{
    assert forall|i: int| 0 <= i < name.len() implies !wide_path::separates(
        #[trigger] name[i],
        verbatim,
    ) by {
        assert(!drive_path::delimits(name[i]));
    }
}

proof fn lemma_body_of_joined(names: Seq<Seq<u16>>, verbatim: bool)
    requires
        forall|i: int| 0 <= i < names.len() ==> drive_path::plain(#[trigger] names[i]),
    ensures
        wide_path::body_components(joined(names), verbatim) =~= normal_components(names),
    decreases names.len(),
{
    if names.len() > 0 {
        let name = names[0];
        let later = names.skip(1);
        let body = joined(names);
        let rest = if names.len() == 1 {
            Seq::empty()
        } else {
            seq![BACKSLASH] + joined(later)
        };
        assert(drive_path::plain(name));
        assert forall|i: int| 0 <= i < later.len() implies drive_path::plain(
            #[trigger] later[i],
        ) by {
            assert(later[i] == names[i + 1]);
        }
        lemma_plain_component(name, verbatim);
        assert(body =~= name + rest);
        lemma_name_len_of_join(name, rest, verbatim);
        assert(body.take(name.len() as int) =~= name);
        lemma_body_of_joined(later, verbatim);
        if names.len() > 1 {
            assert(body.skip(name.len() as int + 1) =~= joined(later));
        } else {
            assert(later =~= Seq::empty());
            assert(wide_path::after_name(body, verbatim) =~= Seq::<u16>::empty());
        }
        assert(normal_components(names) =~= seq![ComponentView::Normal(name)] + normal_components(
            later,
        ));
    }
}

proof fn lemma_names_of_normal_components(names: Seq<Seq<u16>>)
    requires
        forall|i: int| 0 <= i < names.len() ==> drive_path::plain(#[trigger] names[i]),
    ensures
        drive_path::plain_names(normal_components(names)) == Ok::<
            Seq<Seq<u16>>,
            AclError,
        >(names),
    decreases names.len(),
{
    let components = normal_components(names);
    if names.len() > 0 {
        let later = names.skip(1);
        assert forall|i: int| 0 <= i < later.len() implies drive_path::plain(
            #[trigger] later[i],
        ) by {
            assert(later[i] == names[i + 1]);
        }
        lemma_names_of_normal_components(later);
        assert(components.skip(1) =~= normal_components(later));
        assert(drive_path::plain(names[0]));
        assert(seq![names[0]] + later =~= names);
    } else {
        assert(names =~= Seq::empty());
    }
}

/// How a path that starts with a drive letter and a separator splits.
proof fn lemma_split_of_drive_path(path: Seq<u16>)
    requires
        wide_path::starts_with_drive(path),
        wide_path::starts_with_root(path.skip(2)),
    ensures
        drive_path::split_of(path) == drive_path::split_of_components(
            true,
            seq![
                ComponentView::Prefix(
                    wide_path::Prefix::Disk(wide_path::drive_of_unit(path[0])),
                ),
                ComponentView::RootDir,
            ] + wide_path::body_components(path.skip(3), false),
        ),
{
    assert(path.skip(2).skip(1) =~= path.skip(3));
    assert(wide_path::components_of(path) =~= seq![
        ComponentView::Prefix(
            wide_path::Prefix::Disk(wide_path::drive_of_unit(path[0])),
        ),
        ComponentView::RootDir,
    ] + wide_path::body_components(path.skip(3), false));
}

/// How the verbatim spelling of such a path splits.
proof fn lemma_split_of_verbatim_drive_path(path: Seq<u16>)
    requires
        wide_path::starts_with_drive(path),
        wide_path::starts_with_root(path.skip(2)),
    ensures
        drive_path::split_of(verbatim_lead() + path)
            == drive_path::split_of_components(
            true,
            seq![
                ComponentView::Prefix(
                    wide_path::Prefix::VerbatimDisk(
                        wide_path::drive_of_unit(path[0]),
                    ),
                ),
                ComponentView::RootDir,
            ] + wide_path::body_components(path.skip(3), true),
        ),
{
    let long = verbatim_lead() + path;
    assert(long.skip(4) =~= path);
    assert(long.skip(6) =~= path.skip(2));
    assert(path.skip(2)[0] == path[2]);
    assert(path.skip(2).skip(1) =~= path.skip(3));
    assert(wide_path::components_of(long) =~= seq![
        ComponentView::Prefix(
            wide_path::Prefix::VerbatimDisk(wide_path::drive_of_unit(path[0])),
        ),
        ComponentView::RootDir,
    ] + wide_path::body_components(path.skip(3), true));
}

/// Splitting gives back what was joined: a drive letter, a backslash and plain
/// names with backslashes between them split into that drive and these names,
/// both as they stand and in the verbatim spelling.
pub proof fn law_splitting_undoes_joining(drive: u16, names: Seq<Seq<u16>>)
    requires
        wide_path::is_drive_unit(drive),
        forall|i: int| 0 <= i < names.len() ==> drive_path::plain(#[trigger] names[i]),
    ensures
        drive_path::split_of(spelled(drive, names)) == Ok::<
            (Seq<u16>, Seq<Seq<u16>>),
            AclError,
        >((drive_path::nt_drive_root(wide_path::drive_of_unit(drive)), names)),
        drive_path::split_of(verbatim_lead() + spelled(drive, names))
            == drive_path::split_of(spelled(drive, names)),
{
    let path = spelled(drive, names);
    assert(path.skip(2)[0] == BACKSLASH);
    assert(path.skip(3) =~= joined(names));
    lemma_split_of_drive_path(path);
    lemma_split_of_verbatim_drive_path(path);
    lemma_body_of_joined(names, false);
    lemma_body_of_joined(names, true);
    lemma_names_of_normal_components(names);
    let letter = wide_path::drive_of_unit(drive);
    let disk = seq![
        ComponentView::Prefix(wide_path::Prefix::Disk(letter)),
        ComponentView::RootDir,
    ] + normal_components(names);
    let verbatim_disk = seq![
        ComponentView::Prefix(wide_path::Prefix::VerbatimDisk(letter)),
        ComponentView::RootDir,
    ] + normal_components(names);
    assert(disk.skip(2) =~= normal_components(names));
    assert(verbatim_disk.skip(2) =~= normal_components(names));
}

proof fn lemma_plain_names_of_parts(first: Seq<ComponentView>, rest: Seq<ComponentView>)
    requires
        drive_path::plain_names(first + rest) is Ok,
    ensures
        drive_path::plain_names(first) is Ok,
        drive_path::plain_names(rest) is Ok,
    decreases first.len(),
{
    let whole = first + rest;
    if first.len() == 0 {
        assert(whole =~= rest);
    } else {
        assert(whole[0] == first[0]);
        assert(whole.skip(1) =~= first.skip(1) + rest);
        lemma_plain_names_of_parts(first.skip(1), rest);
    }
}

/// Where a verbatim name holds no slash, it ends at the same place in both
/// spellings.
proof fn lemma_name_len_without_slash(units: Seq<u16>)
    requires
        forall|i: int|
            0 <= i < wide_path::name_len(units, true) ==> #[trigger] units[i] != SLASH,
    ensures
        wide_path::name_len(units, false) == wide_path::name_len(units, true),
    decreases units.len(),
{
    if units.len() > 0 && !wide_path::separates(units[0], true) {
        let rest = units.skip(1);
        assert(units[0] != SLASH);
        assert forall|i: int| 0 <= i < wide_path::name_len(rest, true) implies
            #[trigger] rest[i] != SLASH by {
            wide_path::lemma_name_len_bound(rest, true);
            assert(rest[i] == units[i + 1]);
        }
        lemma_name_len_without_slash(rest);
    }
}

proof fn lemma_verbatim_body_reads_the_same(body: Seq<u16>)
    requires
        drive_path::plain_names(wide_path::body_components(body, true)) is Ok,
    ensures
        wide_path::body_components(body, false) == wide_path::body_components(
            body,
            true,
        ),
    decreases body.len(),
{
    if body.len() > 0 {
        let len = wide_path::name_len(body, true);
        wide_path::lemma_name_len_bound(body, true);
        let name = body.take(len as int);
        let first = wide_path::component_of_name(name, true);
        let rest = wide_path::after_name(body, true);
        lemma_plain_names_of_parts(first, wide_path::body_components(rest, true));
        if name.len() > 0 {
            assert(first.len() == 1);
            assert(first[0] is Normal);
            assert(drive_path::plain(name));
            lemma_plain_component(name, false);
        }
        assert forall|i: int| 0 <= i < len implies #[trigger] body[i] != SLASH by {
            assert(!drive_path::delimits(name[i]));
        }
        lemma_name_len_without_slash(body);
        lemma_verbatim_body_reads_the_same(rest);
    }
}

/// A path that is accepted in its verbatim spelling (`\\?\C:\...`) is accepted
/// without `\\?\` too, and names the same directory.
pub proof fn law_verbatim_path_names_the_same_directory(path: Seq<u16>)
    requires
        drive_path::split_of(verbatim_lead() + path) is Ok,
    ensures
        drive_path::split_of(path) == drive_path::split_of(verbatim_lead() + path),
{
    let long = verbatim_lead() + path;
    assert(long.skip(4) =~= path);
    assert(wide_path::starts_verbatim(long));
    assert(wide_path::starts_with_drive(path));
    assert(long.skip(6) =~= path.skip(2));
    if path.len() == 2 {
        assert(path.skip(2).len() == 0);
        assert(wide_path::components_of(long).len() == 1);
        assert(false);
    }
    assert(path.skip(2)[0] == path[2]);
    lemma_split_of_verbatim_drive_path(path);
    lemma_split_of_drive_path(path);
    let body = path.skip(3);
    let letter = wide_path::drive_of_unit(path[0]);
    let verbatim_disk = seq![
        ComponentView::Prefix(wide_path::Prefix::VerbatimDisk(letter)),
        ComponentView::RootDir,
    ] + wide_path::body_components(body, true);
    let disk = seq![
        ComponentView::Prefix(wide_path::Prefix::Disk(letter)),
        ComponentView::RootDir,
    ] + wide_path::body_components(body, false);
    assert(verbatim_disk.skip(2) =~= wide_path::body_components(body, true));
    lemma_verbatim_body_reads_the_same(body);
    assert(disk.skip(2) =~= wide_path::body_components(body, false));
}

/// A unit that a plain name may hold: any but NUL, slash, colon and backslash.
pub open spec fn harmless(unit: u16) -> bool {
    unit != 0 && unit != 0x2F && unit != 0x3A && unit != 0x5C
}

/// A name that is neither empty nor one or two dots, of harmless units only.
pub open spec fn harmless_name(name: Seq<u16>) -> bool {
    &&& name.len() > 0
    &&& !(name.len() == 1 && name[0] == 0x2E)
    &&& !(name.len() == 2 && name[0] == 0x2E && name[1] == 0x2E)
    &&& forall|i: int| 0 <= i < name.len() ==> harmless(#[trigger] name[i])
}

/// Only four units, the empty name and the two dot names are refused: every
/// other name is plain.
pub proof fn law_only_four_units_are_refused(name: Seq<u16>)
    ensures
        drive_path::plain(name) <==> harmless_name(name),
{
    if name.len() == 1 && name[0] == 0x2E {
        assert(name =~= seq![0x2Eu16]);
    }
    if name.len() == 2 && name[0] == 0x2E && name[1] == 0x2E {
        assert(name =~= seq![0x2Eu16, 0x2Eu16]);
    }
    if name == seq![0x2Eu16] {
        assert(name[0] == 0x2E);
    }
    if name == seq![0x2Eu16, 0x2Eu16] {
        assert(name[0] == 0x2E && name[1] == 0x2E);
    }
    if drive_path::plain(name) {
        assert forall|i: int| 0 <= i < name.len() implies harmless(#[trigger] name[i]) by {
            assert(!drive_path::delimits(name[i]));
        }
    }
    if harmless_name(name) {
        assert forall|i: int| 0 <= i < name.len() implies !drive_path::delimits(
            #[trigger] name[i],
        ) by {
            assert(harmless(name[i]));
        }
    }
}

/// A plain name stays plain with one more unit at any place exactly if that unit
/// is none of the four.
pub proof fn law_plain_name_takes_any_harmless_unit(name: Seq<u16>, at: int, unit: u16)
    requires
        drive_path::plain(name),
        0 <= at <= name.len(),
    ensures
        drive_path::plain(name.take(at) + seq![unit] + name.skip(at)) <==> unit != 0 && unit != 0x2F
            && unit != 0x3A && unit != 0x5C,
{
    let longer = name.take(at) + seq![unit] + name.skip(at);
    law_only_four_units_are_refused(name);
    law_only_four_units_are_refused(longer);
    assert(longer[at] == unit);
    assert forall|i: int| 0 <= i < name.len() implies longer[if i < at {
        i
    } else {
        i + 1
    }] == #[trigger] name[i] by {}
    if harmless(unit) {
        assert forall|i: int| 0 <= i < longer.len() implies harmless(#[trigger] longer[i]) by {
            if i < at {
                assert(longer[i] == name[i]);
            } else if i > at {
                assert(longer[i] == name[i - 1]);
            }
        }
        if longer.len() == 2 && longer[0] == 0x2E && longer[1] == 0x2E {
            assert(name[0] == 0x2E);
        }
    }
}

/// A drive and its root, in either spelling.
pub open spec fn drive_head(drive: u16, separator: u16, verbatim: bool) -> Seq<u16> {
    if verbatim {
        seq![0x5Cu16, 0x5C, 0x3F, 0x5C, drive, 0x3A, separator]
    } else {
        seq![drive, 0x3Au16, separator]
    }
}

/// `\??\X:\` for the capital of a letter.
pub open spec fn object_root(drive: u16) -> Seq<u16> {
    seq![0x5Cu16, 0x3F, 0x3F, 0x5C, wide_path_laws::capital(drive) as u16, 0x3A, 0x5C]
}

/// What one more name makes of a split path.
pub open spec fn grown(
    split: Result<(Seq<u16>, Seq<Seq<u16>>), AclError>,
    name: Seq<u16>,
    verbatim: bool,
) -> Result<(Seq<u16>, Seq<Seq<u16>>), AclError> {
    match split {
        Err(error) => Err(error),
        Ok((root, names)) => if name.len() == 0 || (name.len() == 1 && name[0] == 0x2E
            && !verbatim) {
            Ok((root, names))
        } else if (name.len() == 1 && name[0] == 0x2E) || (name.len() == 2 && name[0] == 0x2E
            && name[1] == 0x2E) {
            Err(AclError::DotComponent)
        } else if exists|i: int| 0 <= i < name.len() && !harmless(#[trigger] name[i]) {
            Err(AclError::InvalidComponent)
        } else {
            Ok((root, names.push(name)))
        },
    }
}

proof fn lemma_plain_names_of_two_parts(first: Seq<ComponentView>, rest: Seq<ComponentView>)
    ensures
        drive_path::plain_names(first + rest) == match (
            drive_path::plain_names(first),
            drive_path::plain_names(rest),
        ) {
            (Err(error), _) => Err::<Seq<Seq<u16>>, AclError>(error),
            (_, Err(error)) => Err::<Seq<Seq<u16>>, AclError>(error),
            (Ok(names), Ok(later)) => Ok::<Seq<Seq<u16>>, AclError>(names + later),
        },
    decreases first.len(),
{
    let whole = first + rest;
    if first.len() == 0 {
        assert(whole =~= rest);
        match drive_path::plain_names(rest) {
            Ok(later) => {
                assert(Seq::<Seq<u16>>::empty() + later =~= later);
            },
            Err(_) => {},
        }
    } else {
        assert(whole[0] == first[0]);
        assert(whole.skip(1) =~= first.skip(1) + rest);
        lemma_plain_names_of_two_parts(first.skip(1), rest);
        match (drive_path::plain_names(first.skip(1)), drive_path::plain_names(rest)) {
            (Ok(names), Ok(later)) => {
                if first[0] is Normal {
                    let name = first[0]->Normal_0;
                    assert(seq![name] + (names + later) =~= (seq![name] + names) + later);
                }
            },
            _ => {},
        }
    }
}

proof fn lemma_plain_names_of_one(component: ComponentView)
    ensures
        drive_path::plain_names(seq![component]) == match component {
            ComponentView::Normal(name) => if harmless_name(name) {
                Ok::<Seq<Seq<u16>>, AclError>(seq![name])
            } else {
                Err::<Seq<Seq<u16>>, AclError>(AclError::InvalidComponent)
            },
            _ => Err::<Seq<Seq<u16>>, AclError>(AclError::DotComponent),
        },
{
    let one = seq![component];
    assert(one.skip(1) =~= Seq::empty());
    assert(drive_path::plain_names(one.skip(1)) == Ok::<Seq<Seq<u16>>, AclError>(Seq::empty()));
    match component {
        ComponentView::Normal(name) => {
            law_only_four_units_are_refused(name);
            assert(seq![name] + Seq::<Seq<u16>>::empty() =~= seq![name]);
        },
        _ => {},
    }
}

proof fn lemma_plain_names_of_piece(name: Seq<u16>, verbatim: bool)
    ensures
        drive_path::plain_names(wide_path_laws::piece(name, verbatim)) == if name.len() == 0 || (
        name.len() == 1 && name[0] == 0x2E && !verbatim) {
            Ok::<Seq<Seq<u16>>, AclError>(Seq::empty())
        } else if (name.len() == 1 && name[0] == 0x2E) || (name.len() == 2 && name[0] == 0x2E
            && name[1] == 0x2E) {
            Err::<Seq<Seq<u16>>, AclError>(AclError::DotComponent)
        } else if exists|i: int| 0 <= i < name.len() && !harmless(#[trigger] name[i]) {
            Err::<Seq<Seq<u16>>, AclError>(AclError::InvalidComponent)
        } else {
            Ok::<Seq<Seq<u16>>, AclError>(seq![name])
        },
{
    if wide_path_laws::piece(name, verbatim).len() == 1 {
        lemma_plain_names_of_one(wide_path_laws::piece(name, verbatim)[0]);
        assert(wide_path_laws::piece(name, verbatim) =~= seq![
            wide_path_laws::piece(name, verbatim)[0],
        ]);
    }
}

/// The result of splitting a drive path is that of reading what follows its head.
proof fn lemma_split_of_head_and_body(drive: u16, separator: u16, verbatim: bool, body: Seq<u16>)
    requires
        wide_path_laws::letter(drive),
        wide_path_laws::slash(separator),
    ensures
        drive_path::split_of(drive_head(drive, separator, verbatim) + body)
            == match drive_path::plain_names(wide_path::body_components(body, verbatim)) {
            Ok(names) => Ok::<(Seq<u16>, Seq<Seq<u16>>), AclError>((object_root(drive), names)),
            Err(error) => Err::<(Seq<u16>, Seq<Seq<u16>>), AclError>(error),
        },
        wide_path::components_of(drive_head(drive, separator, verbatim) + body) == seq![
            ComponentView::Prefix(
                if verbatim {
                    wide_path::Prefix::VerbatimDisk(wide_path_laws::capital(drive))
                } else {
                    wide_path::Prefix::Disk(wide_path_laws::capital(drive))
                },
            ),
            ComponentView::RootDir,
        ] + wide_path::body_components(body, verbatim),
{
    let short = drive_head(drive, separator, false) + body;
    assert(short.skip(2)[0] == separator);
    assert(short.skip(3) =~= body);
    let path = drive_head(drive, separator, verbatim) + body;
    let len: int = if verbatim {
        6
    } else {
        2
    };
    wide_path_laws::law_drive_prefix_is_a_letter_and_a_colon(path);
    assert(path.skip(len)[0] == separator);
    assert(path.skip(len).skip(1) =~= body);
    wide_path_laws::law_components_follow_the_prefix(path);
    let components = wide_path::components_of(path);
    let below = wide_path::body_components(body, verbatim);
    assert(components =~= seq![components[0]] + components.skip(1));
    assert(components =~= seq![components[0], ComponentView::RootDir] + below);
    assert(components.skip(2) =~= below);
    wide_path_laws::law_absolute_paths(path);
    assert(drive_path::nt_drive_root(wide_path_laws::capital(drive)) =~= object_root(drive));
}

/// A drive and its root on their own split into that root and no name.
pub proof fn law_drive_root_has_no_names(drive: u16, separator: u16, verbatim: bool)
    requires
        wide_path_laws::letter(drive),
        wide_path_laws::slash(separator),
    ensures
        drive_path::split_of(drive_head(drive, separator, verbatim)) == Ok::<
            (Seq<u16>, Seq<Seq<u16>>),
            AclError,
        >((object_root(drive), Seq::empty())),
{
    lemma_split_of_head_and_body(drive, separator, verbatim, Seq::empty());
    assert(drive_head(drive, separator, verbatim) + Seq::<u16>::empty() =~= drive_head(
        drive,
        separator,
        verbatim,
    ));
}

/// The first name below a drive root is added to none.
pub proof fn law_first_name_is_split_off(
    drive: u16,
    separator: u16,
    verbatim: bool,
    name: Seq<u16>,
)
    requires
        wide_path_laws::letter(drive),
        wide_path_laws::slash(separator),
        wide_path_laws::unbroken(name, verbatim),
    ensures
        drive_path::split_of(drive_head(drive, separator, verbatim) + name) == grown(
            Ok((object_root(drive), Seq::empty())),
            name,
            verbatim,
        ),
{
    lemma_split_of_head_and_body(drive, separator, verbatim, name);
    wide_path_laws::law_body_of_one_name(name, verbatim);
    lemma_plain_names_of_piece(name, verbatim);
    assert(Seq::<Seq<u16>>::empty().push(name) =~= seq![name]);
}

/// A separator and one more name add that name to the split of a drive path, or
/// give the error that the name deserves; a path that was rejected before stays
/// rejected for the same reason. Nothing else about the path matters.
pub proof fn law_path_grows_name_by_name(
    drive: u16,
    separator: u16,
    verbatim: bool,
    body: Seq<u16>,
    next: u16,
    name: Seq<u16>,
)
    requires
        wide_path_laws::letter(drive),
        wide_path_laws::slash(separator),
        wide_path_laws::ends_name(next, verbatim),
        wide_path_laws::unbroken(name, verbatim),
    ensures
        drive_path::split_of(drive_head(drive, separator, verbatim) + body + seq![next] + name)
            == grown(
            drive_path::split_of(drive_head(drive, separator, verbatim) + body),
            name,
            verbatim,
        ),
{
    let head = drive_head(drive, separator, verbatim);
    let longer = body + seq![next] + name;
    lemma_split_of_head_and_body(drive, separator, verbatim, body);
    lemma_split_of_head_and_body(drive, separator, verbatim, longer);
    assert(head + body + seq![next] + name =~= head + longer);
    wide_path_laws::law_separator_divides_a_body(body, next, name, verbatim);
    wide_path_laws::law_body_of_one_name(name, verbatim);
    let first = wide_path::body_components(body, verbatim);
    lemma_plain_names_of_two_parts(first, wide_path_laws::piece(name, verbatim));
    lemma_plain_names_of_piece(name, verbatim);
    match drive_path::plain_names(first) {
        Ok(names) => {
            assert(names + seq![name] =~= names.push(name));
            assert(names + Seq::<Seq<u16>>::empty() =~= names);
        },
        Err(_) => {},
    }
}

/// A path that does not start with a drive letter, a colon and a separator, with
/// or without `\\?\` in front, is rejected: for its missing root if it ends at
/// the colon behind `\\?\`, for its prefix if it has one, and as not absolute
/// otherwise.
pub proof fn law_other_paths_are_rejected(path: Seq<u16>)
    requires
        !wide_path_laws::drive_headed(path),
        !(wide_path_laws::verbatim_led(path) && wide_path_laws::drive_headed(path.skip(4))),
    ensures
        drive_path::split_of(path) == Err::<(Seq<u16>, Seq<Seq<u16>>), AclError>(
            if wide_path_laws::verbatim_led(path) && path.len() == 6 && wide_path_laws::letter(
                path[4],
            ) && path[5] == 0x3A {
                AclError::NotRooted
            } else if path.len() >= 2 && wide_path_laws::slash(path[0]) && wide_path_laws::slash(
                path[1],
            ) && wide_path::prefix_of(path) is Some {
                AclError::NotLocalDisk
            } else {
                AclError::NotAbsolute
            },
        ),
{
    wide_path_laws::law_absolute_paths(path);
    wide_path_laws::law_drive_prefix_is_a_letter_and_a_colon(path);
    if path.len() >= 3 {
        assert(path.skip(2)[0] == path[2]);
    }
    if wide_path_laws::verbatim_led(path) {
        wide_path_laws::law_verbatim_prefixes(path);
        let rest = path.skip(4);
        if path.len() >= 7 {
            assert(rest[2] == path[6]);
        }
        if path.len() >= 6 {
            assert(rest[0] == path[4] && rest[1] == path[5]);
        }
    } else {
        wide_path_laws::law_other_prefixes(path);
    }
    if wide_path::prefix_of(path) is Some {
        wide_path_laws::law_components_follow_the_prefix(path);
        let components = wide_path::components_of(path);
        let (prefix, len) = wide_path::prefix_of(path)->Some_0;
        if prefix is VerbatimDisk {
            assert(path.len() == 6);
            assert(path.skip(6) =~= Seq::<u16>::empty());
            assert(components.skip(1) =~= Seq::empty());
            assert(components.len() == 1);
        }
    }
}

/// Names with backslashes between them, behind a drive letter, a colon and a
/// backslash (with or without `\\?\` in front), come back from the split, each of them whole and in order, whatever
/// harmless units they hold.
pub proof fn law_harmless_names_come_back(drive: u16, names: Seq<Seq<u16>>, verbatim: bool)
    requires
        wide_path_laws::letter(drive),
        forall|i: int| 0 <= i < names.len() ==> harmless_name(#[trigger] names[i]),
    ensures
        drive_path::split_of(drive_head(drive, 0x5C, verbatim) + joined(names)) == Ok::<
            (Seq<u16>, Seq<Seq<u16>>),
            AclError,
        >((object_root(drive), names)),
{
    assert forall|i: int| 0 <= i < names.len() implies drive_path::plain(#[trigger] names[i]) by {
        law_only_four_units_are_refused(names[i]);
    }
    lemma_joined_names_come_back(drive, names, verbatim);
}

proof fn lemma_joined_names_come_back(drive: u16, names: Seq<Seq<u16>>, verbatim: bool)
    requires
        wide_path_laws::letter(drive),
        forall|i: int| 0 <= i < names.len() ==> drive_path::plain(#[trigger] names[i]),
    ensures
        drive_path::split_of(drive_head(drive, 0x5C, verbatim) + joined(names)) == Ok::<
            (Seq<u16>, Seq<Seq<u16>>),
            AclError,
        >((object_root(drive), names)),
{
    lemma_split_of_head_and_body(drive, 0x5C, verbatim, joined(names));
    lemma_body_of_joined(names, verbatim);
    lemma_names_of_normal_components(names);
}

/// A backslash stands between two names and nowhere else in what is joined.
pub proof fn law_joining_puts_a_backslash_between_names(names: Seq<Seq<u16>>, name: Seq<u16>)
    ensures
        joined(Seq::empty()) == Seq::<u16>::empty(),
        joined(seq![name]) == name,
        names.len() > 0 ==> joined(names.push(name)) == joined(names) + seq![0x5Cu16] + name,
    decreases names.len(),
{
    if names.len() > 0 {
        let all = names.push(name);
        if names.len() == 1 {
            assert(all.skip(1) =~= seq![name]);
        } else {
            assert(all.skip(1) =~= names.skip(1).push(name));
            law_joining_puts_a_backslash_between_names(names.skip(1), name);
        }
        assert(joined(all) =~= joined(names) + seq![0x5Cu16] + name);
    }
}

/// A list of components that starts with a drive and its root grows by one
/// component as a path grows by one name. Without that start it is rejected.
pub proof fn law_components_grow_one_by_one(
    prefix: wide_path::Prefix,
    letter: u8,
    below: Seq<ComponentView>,
    component: ComponentView,
)
    requires
        prefix == wide_path::Prefix::Disk(letter) || prefix == wide_path::Prefix::VerbatimDisk(
            letter,
        ),
        0x41 <= letter <= 0x5A || 0x61 <= letter <= 0x7A,
    ensures
        ({
            let start = seq![ComponentView::Prefix(prefix), ComponentView::RootDir];
            let root = seq![0x5Cu16, 0x3F, 0x3F, 0x5C, letter as u16, 0x3A, 0x5C];
            let before = drive_path::split_of_components(true, start + below);
            &&& drive_path::split_of_components(true, start) == Ok::<
                (Seq<u16>, Seq<Seq<u16>>),
                AclError,
            >((root, Seq::empty()))
            &&& drive_path::split_of_components(true, start + below.push(component))
                == match before {
                Err(error) => Err::<(Seq<u16>, Seq<Seq<u16>>), AclError>(error),
                Ok((root, names)) => match component {
                    ComponentView::Normal(name) => if harmless_name(name) {
                        Ok::<(Seq<u16>, Seq<Seq<u16>>), AclError>((root, names.push(name)))
                    } else {
                        Err::<(Seq<u16>, Seq<Seq<u16>>), AclError>(AclError::InvalidComponent)
                    },
                    _ => Err::<(Seq<u16>, Seq<Seq<u16>>), AclError>(AclError::DotComponent),
                },
            }
        }),
{
    let start = seq![ComponentView::Prefix(prefix), ComponentView::RootDir];
    assert(start.skip(2) =~= Seq::empty());
    assert((start + below).skip(2) =~= below);
    assert((start + below.push(component)).skip(2) =~= below + seq![component]);
    lemma_plain_names_of_two_parts(below, seq![component]);
    lemma_plain_names_of_one(component);
    assert(drive_path::nt_drive_root(letter) =~= seq![
        0x5Cu16,
        0x3F,
        0x3F,
        0x5C,
        letter as u16,
        0x3A,
        0x5C,
    ]);
    match drive_path::plain_names(below) {
        Ok(names) => {
            if component is Normal {
                assert(names + seq![component->Normal_0] =~= names.push(component->Normal_0));
            }
        },
        Err(_) => {},
    }
}

/// Components that do not start with a drive and its root are rejected, for what
/// is wrong first.
pub proof fn law_components_need_a_drive_and_its_root(
    components: Seq<ComponentView>,
    letter: u8,
)
    ensures
        drive_path::split_of_components(false, components) == Err::<
            (Seq<u16>, Seq<Seq<u16>>),
            AclError,
        >(AclError::NotAbsolute),
        components.len() == 0 || !(components[0] matches ComponentView::Prefix(prefix) && (
        prefix is Disk || prefix is VerbatimDisk)) ==> drive_path::split_of_components(
            true,
            components,
        ) == Err::<(Seq<u16>, Seq<Seq<u16>>), AclError>(AclError::NotLocalDisk),
        components.len() > 0 && (components[0] == ComponentView::Prefix(
            wide_path::Prefix::Disk(letter),
        ) || components[0] == ComponentView::Prefix(wide_path::Prefix::VerbatimDisk(letter))) ==> {
            let split = drive_path::split_of_components(true, components);
            &&& !(0x41 <= letter <= 0x5A || 0x61 <= letter <= 0x7A) ==> split == Err::<
                (Seq<u16>, Seq<Seq<u16>>),
                AclError,
            >(AclError::InvalidDriveLetter)
            &&& (0x41 <= letter <= 0x5A || 0x61 <= letter <= 0x7A) && (components.len() == 1 || !(
            components[1] is RootDir)) ==> split == Err::<(Seq<u16>, Seq<Seq<u16>>), AclError>(
                AclError::NotRooted,
            )
        },
{
}

/// A path that starts with a drive and its root is rooted at that drive, whose
/// letter comes out as a capital, and its relative part is all that follows.
pub proof fn law_drive_letter_and_what_is_below(
    drive: u16,
    separator: u16,
    verbatim: bool,
    body: Seq<u16>,
)
    requires
        wide_path_laws::letter(drive),
        wide_path_laws::slash(separator),
    ensures
        ({
            let path = drive_head(drive, separator, verbatim) + body;
            let components = wide_path::components_of(path);
            &&& drive_path::rooted_at_drive(path)
            &&& drive_path::leading_drive(components) == Some(wide_path_laws::capital(drive))
            &&& components.skip(2) == wide_path::body_components(body, verbatim)
            &&& drive_path::letter_and_relative(path) == Some(
                (
                    wide_path_laws::capital(drive) as char,
                    wide_path::body_components(body, verbatim),
                ),
            )
        }),
{
    lemma_split_of_head_and_body(drive, separator, verbatim, body);
    let path = drive_head(drive, separator, verbatim) + body;
    let components = wide_path::components_of(path);
    assert(components[0] is Prefix);
    assert(components[1] is RootDir);
    assert(components.skip(2) =~= wide_path::body_components(body, verbatim));
}

/// No path but one that starts with a drive letter, a colon and a separator, with
/// or without `\\?\` in front, is rooted at a drive.
pub proof fn law_only_a_drive_and_its_root_are_rooted(path: Seq<u16>)
    requires
        drive_path::rooted_at_drive(path),
    ensures
        wide_path_laws::drive_headed(path) || (wide_path_laws::verbatim_led(path)
            && wide_path_laws::drive_headed(path.skip(4))),
{
    let components = wide_path::components_of(path);
    if wide_path::prefix_of(path) is None {
        wide_path_laws::law_components_without_a_prefix(path);
        if path.len() > 0 && wide_path_laws::slash(path[0]) {
            assert(components[0] is RootDir);
        } else if path.len() > 0 && path[0] == 0x2E && (path.len() == 1 || wide_path_laws::slash(
            path[1],
        )) {
            assert(components[0] is CurDir);
        } else {
            lemma_body_holds_names_only(path, false);
        }
    } else {
        let (prefix, len) = wide_path::prefix_of(path)->Some_0;
        let rest = path.skip(len as int);
        wide_path_laws::law_components_follow_the_prefix(path);
        wide_path_laws::law_drive_prefix_is_a_letter_and_a_colon(path);
        if !(rest.len() > 0 && wide_path_laws::slash(rest[0])) {
            let below = wide_path::body_components(rest, prefix.verbatim());
            lemma_body_holds_names_only(rest, prefix.verbatim());
            assert(components.skip(1) =~= below);
            assert(components.skip(1)[0] == components[1]);
            assert(below[0] is RootDir);
        }
        assert(rest[0] == path[len as int]);
        if prefix is VerbatimDisk {
            let tail = path.skip(4);
            assert(tail[0] == path[4] && tail[1] == path[5] && tail[2] == path[6]);
        }
    }
}

proof fn lemma_body_holds_names_only(body: Seq<u16>, verbatim: bool)
    ensures
        forall|i: int|
            0 <= i < wide_path::body_components(body, verbatim).len() ==> !(
            #[trigger] wide_path::body_components(body, verbatim)[i] is RootDir)
                && !(wide_path::body_components(body, verbatim)[i] is Prefix),
    decreases body.len(),
{
    if body.len() > 0 {
        wide_path::lemma_name_len_bound(body, verbatim);
        let rest = wide_path::after_name(body, verbatim);
        lemma_body_holds_names_only(rest, verbatim);
        let name = body.take(wide_path::name_len(body, verbatim) as int);
        let first = wide_path::component_of_name(name, verbatim);
        let later = wide_path::body_components(rest, verbatim);
        assert forall|i: int| 0 <= i < wide_path::body_components(body, verbatim).len() implies !(
        #[trigger] wide_path::body_components(body, verbatim)[i] is RootDir)
            && !(wide_path::body_components(body, verbatim)[i] is Prefix) by {
            if i >= first.len() {
                assert((first + later)[i] == later[i - first.len()]);
            }
        }
    }
}

/// The views of a split path keep its root and every name.
pub proof fn law_split_views_keep_everything(root: Vec<u16>, names: Vec<Vec<u16>>)
    ensures
        drive_path::split_view(Ok((root, names))) is Ok,
        drive_path::split_view(Ok((root, names)))->Ok_0.0 == root@,
        drive_path::split_view(Ok((root, names)))->Ok_0.1.len() == names@.len(),
        forall|i: int|
            0 <= i < names@.len() ==> #[trigger] drive_path::split_view(
                Ok((root, names)),
            )->Ok_0.1[i] == names@[i]@,
        forall|error: AclError| #[trigger]
            drive_path::split_view(Err(error)) == Err::<(Seq<u16>, Seq<Seq<u16>>), AclError>(error),
{
}

/// The letter that is found is one of `M` to `Z`, no drive has it, and every
/// letter behind it up to `Z` is taken. None is found only if all are taken.
pub proof fn law_last_free_letter_is_found(existing: Seq<char>)
    ensures
        match drive_path::last_unused(existing, 0x5A) {
            Some(letter) => {
                &&& 0x4D <= letter as int <= 0x5A
                &&& !existing.contains(letter)
                &&& forall|later: char|
                    letter as int + 1 <= later as int <= 0x5A ==> #[trigger] existing.contains(
                        later,
                    )
            },
            None => forall|letter: char|
                0x4D <= letter as int <= 0x5A ==> #[trigger] existing.contains(letter),
        },
{
    lemma_last_unused(existing, 0x5A);
}

proof fn lemma_last_unused(existing: Seq<char>, start: u8)
    requires
        0x4C <= start <= 0x5A,
    ensures
        match drive_path::last_unused(existing, start) {
            Some(letter) => {
                &&& 0x4D <= letter as int <= start
                &&& !existing.contains(letter)
                &&& forall|later: char|
                    letter as int + 1 <= later as int <= start ==> #[trigger] existing.contains(
                        later,
                    )
            },
            None => forall|letter: char|
                0x4D <= letter as int <= start ==> #[trigger] existing.contains(letter),
        },
    decreases start,
{
    if start >= 0x4D && existing.contains(start as char) {
        lemma_last_unused(existing, (start - 1) as u8);
        assert forall|later: char| later as int == start implies #[trigger] existing.contains(
            later,
        ) by {
            assert(later == start as char);
        }
    }
}

/// Taking a letter that is not the last free one changes nothing; taking that one
/// makes the last free letter an earlier one.
pub proof fn law_taken_letter_is_not_found_again(existing: Seq<char>, taken: char)
    ensures
        drive_path::last_unused(existing, 0x5A) != Some(taken) ==> drive_path::last_unused(
            existing.push(taken),
            0x5A,
        ) == drive_path::last_unused(existing, 0x5A),
        drive_path::last_unused(existing, 0x5A) == Some(taken) ==> (drive_path::last_unused(
            existing.push(taken),
            0x5A,
        ) matches Some(letter) ==> letter < taken),
{
    let after = existing.push(taken);
    law_last_free_letter_is_found(existing);
    law_last_free_letter_is_found(after);
    assert(after.last() == taken);
    assert(after.contains(taken));
    assert forall|letter: char| #[trigger]
        existing.contains(letter) implies after.contains(letter) by {
        let i = choose|i: int| 0 <= i < existing.len() && existing[i] == letter;
        assert(after[i] == letter);
    }
    assert forall|letter: char| letter != taken && #[trigger]
        after.contains(letter) implies existing.contains(letter) by {
        let i = choose|i: int| 0 <= i < after.len() && after[i] == letter;
        assert(existing[i] == letter);
    }
    match drive_path::last_unused(existing, 0x5A) {
        Some(letter) => {
            assert(letter != taken ==> !after.contains(letter));
            match drive_path::last_unused(after, 0x5A) {
                Some(other) => {
                    if letter < other {
                        assert(existing.contains(other));
                    }
                    if letter != taken && other < letter {
                        assert(after.contains(letter));
                    }
                },
                None => {
                    assert(0x4D <= letter as int <= 0x5A);
                    assert(after.contains(letter));
                },
            }
        },
        None => {
            match drive_path::last_unused(after, 0x5A) {
                Some(other) => {
                    assert(existing.contains(other));
                },
                None => {},
            }
        },
    }
}

} // verus!
