//! Absolute paths on a local drive, taken apart into the drive root and the
//! names below it.

use vstd::prelude::*;
use vstd::slice::slice_to_vec;
use crate::error::AclError;
use crate::wide_path;
use crate::wide_path::BACKSLASH;
use crate::wide_path::COLON;
use crate::wide_path::Component;
use crate::wide_path::ComponentView;
use crate::wide_path::DOT;
use crate::wide_path::QUESTION;
use crate::wide_path::SLASH;
use crate::wide_path::components;
use crate::wide_path::is_absolute;

verus! {

/// The units that would let a name reach past a single directory entry: NUL,
/// both separators, and the stream and device delimiter.
pub open spec fn delimits(unit: u16) -> bool {
    unit == 0 || unit == SLASH || unit == COLON || unit == BACKSLASH
}

/// A name that can only mean a directory entry of its parent.
pub open spec fn plain(name: Seq<u16>) -> bool {
    &&& name.len() > 0
    &&& name != seq![DOT]
    &&& name != seq![DOT, DOT]
    &&& forall|i: int| 0 <= i < name.len() ==> !delimits(#[trigger] name[i])
}

/// The code units of a list of names.
pub open spec fn name_views(names: Seq<Vec<u16>>) -> Seq<Seq<u16>> {
    names.map_values(|name: Vec<u16>| name@)
}

/// `\??\X:\`, the name by which the object manager knows a drive root.
pub open spec fn nt_drive_root(letter: u8) -> Seq<u16> {
    seq![BACKSLASH, QUESTION, QUESTION, BACKSLASH, letter as u16, COLON, BACKSLASH]
}

/// The names that components stand for, or what is wrong with the first one
/// that is no plain name.
pub open spec fn plain_names(components: Seq<ComponentView>) -> Result<Seq<Seq<u16>>, AclError>
    decreases components.len(),
{
    if components.len() == 0 {
        Ok(Seq::empty())
    } else {
        match components[0] {
            ComponentView::Normal(name) => if plain(name) {
                match plain_names(components.skip(1)) {
                    Ok(names) => Ok(seq![name] + names),
                    Err(error) => Err(error),
                }
            } else {
                Err(AclError::InvalidComponent)
            },
            _ => Err(AclError::DotComponent),
        }
    }
}

/// The drive letter that a list of components starts with.
pub open spec fn leading_drive(components: Seq<ComponentView>) -> Option<u8> {
    if components.len() > 0 {
        match components[0] {
            ComponentView::Prefix(prefix) => prefix.drive(),
            _ => None,
        }
    } else {
        None
    }
}

/// The letter is one of `A` to `Z` or `a` to `z`.
pub open spec fn is_ascii_letter(letter: u8) -> bool {
    0x41 <= letter <= 0x5A || 0x61 <= letter <= 0x7A
}

/// The drive root and the names below it that components stand for.
pub open spec fn split_of_components(absolute: bool, components: Seq<ComponentView>) -> Result<
    (Seq<u16>, Seq<Seq<u16>>),
    AclError,
> {
    if !absolute {
        Err(AclError::NotAbsolute)
    } else {
        match leading_drive(components) {
            None => Err(AclError::NotLocalDisk),
            Some(letter) => if !is_ascii_letter(letter) {
                Err(AclError::InvalidDriveLetter)
            } else if !(components.len() > 1 && components[1] is RootDir) {
                Err(AclError::NotRooted)
            } else {
                match plain_names(components.skip(2)) {
                    Ok(names) => Ok((nt_drive_root(letter), names)),
                    Err(error) => Err(error),
                }
            },
        }
    }
}

/// The drive root and the names below it that a path stands for.
pub open spec fn split_of(path: Seq<u16>) -> Result<(Seq<u16>, Seq<Seq<u16>>), AclError> {
    split_of_components(
        wide_path::absolute(path),
        wide_path::components_of(path),
    )
}

/// A split path, seen as sequences.
pub open spec fn split_view(split: Result<(Vec<u16>, Vec<Vec<u16>>), AclError>) -> Result<
    (Seq<u16>, Seq<Seq<u16>>),
    AclError,
> {
    match split {
        Ok((root, names)) => Ok((root@, name_views(names@))),
        Err(error) => Err(error),
    }
}

/// A component is opened as a single relative name, so it must not contain a
/// separator, a stream or device delimiter, or a NUL, and must not be `.` or
/// `..` (verbatim paths keep those).
pub fn is_plain_component(name: &[u16]) -> (answer: bool)
    ensures
        answer == plain(name@),
{
    if name.len() == 0 {
        return false;
    }
    if name.len() == 1 && name[0] == DOT {
        assert(name@ =~= seq![DOT]);
        return false;
    }
    if name.len() == 2 && name[0] == DOT && name[1] == DOT {
        assert(name@ =~= seq![DOT, DOT]);
        return false;
    }
    let mut index: usize = 0;
    while index < name.len()
        invariant
            index <= name@.len(),
            forall|i: int| 0 <= i < index ==> !delimits(#[trigger] name@[i]),
        decreases name@.len() - index,
    {
        let unit: u16 = name[index];
        if unit == 0 || unit == SLASH || unit == COLON || unit == BACKSLASH {
            assert(delimits(name@[index as int]));
            return false;
        }
        index += 1;
    }
    assert(name@ != seq![DOT]) by {
        if name@ == seq![DOT] {
            assert(name@[0] == DOT);
        }
    }
    assert(name@ != seq![DOT, DOT]) by {
        if name@ == seq![DOT, DOT] {
            assert(name@[0] == DOT && name@[1] == DOT);
        }
    }
    true
}

fn drive_root(letter: u8) -> (root: Vec<u16>)
    ensures
        root@ == nt_drive_root(letter),
{
    let root: Vec<u16> = vec![
        BACKSLASH,
        QUESTION,
        QUESTION,
        BACKSLASH,
        letter as u16,
        COLON,
        BACKSLASH,
    ];
    assert(root@ =~= nt_drive_root(letter));
    root
}

/// Splits the components of a path into the NT drive root (`\??\X:\`) and the
/// names below it, rejecting everything that could change which object is
/// opened.
pub fn split_components(absolute: bool, components: &[Component]) -> (split: Result<
    (Vec<u16>, Vec<Vec<u16>>),
    AclError,
>)
    ensures
        split_view(split) == split_of_components(
            absolute,
            wide_path::component_views(components@),
        ),
{
    let ghost views = wide_path::component_views(components@);
    if !absolute {
        return Err(AclError::NotAbsolute);
    }
    if components.len() == 0 {
        return Err(AclError::NotLocalDisk);
    }
    assert(views[0] == components@[0]@);
    let letter: u8 = match &components[0] {
        Component::Prefix(prefix) => match prefix.drive_letter() {
            Some(letter) => letter,
            None => return Err(AclError::NotLocalDisk),
        },
        _ => return Err(AclError::NotLocalDisk),
    };
    if !((0x41 <= letter && letter <= 0x5A) || (0x61 <= letter && letter <= 0x7A)) {
        return Err(AclError::InvalidDriveLetter);
    }
    if components.len() == 1 {
        return Err(AclError::NotRooted);
    }
    assert(views[1] == components@[1]@);
    match &components[1] {
        Component::RootDir => {},
        _ => return Err(AclError::NotRooted),
    }

    let mut names: Vec<Vec<u16>> = Vec::new();
    let mut index: usize = 2;
    proof {
        lemma_nothing_before(plain_names(views.skip(2)));
        assert(name_views(names@) =~= Seq::<Seq<u16>>::empty());
    }
    while index < components.len()
        invariant
            2 <= index <= components@.len(),
            absolute,
            views == wide_path::component_views(components@),
            leading_drive(views) == Some(letter),
            is_ascii_letter(letter),
            views[1] is RootDir,
            plain_names(views.skip(2)) == prepended(
                name_views(names@),
                plain_names(views.skip(index as int)),
            ),
        decreases components@.len() - index,
    {
        let ghost rest = views.skip(index as int);
        let ghost before = name_views(names@);
        assert(rest[0] == components@[index as int]@);
        assert(rest.skip(1) =~= views.skip(index + 1));
        match &components[index] {
            Component::Normal(name) => {
                if !is_plain_component(name.as_slice()) {
                    return Err(AclError::InvalidComponent);
                }
                names.push(slice_to_vec(name.as_slice()));
                proof {
                    assert(name_views(names@) =~= before.push(name@));
                    match plain_names(rest.skip(1)) {
                        Ok(later) => {
                            assert(before + (seq![name@] + later) =~= before.push(name@) + later);
                        },
                        Err(_) => {},
                    }
                }
            },
            _ => {
                return Err(AclError::DotComponent);
            },
        }
        index += 1;
    }
    proof {
        assert(views.skip(index as int).len() == 0);
        assert(name_views(names@) + Seq::<Seq<u16>>::empty() =~= name_views(names@));
    }
    Ok((drive_root(letter), names))
}

/// A list of names put in front of what the rest of a path stands for.
spec fn prepended(names: Seq<Seq<u16>>, rest: Result<Seq<Seq<u16>>, AclError>) -> Result<
    Seq<Seq<u16>>,
    AclError,
> {
    match rest {
        Ok(later) => Ok(names + later),
        Err(error) => Err(error),
    }
}

proof fn lemma_nothing_before(rest: Result<Seq<Seq<u16>>, AclError>)
    ensures
        prepended(Seq::empty(), rest) == rest,
{
    match rest {
        Ok(later) => {
            assert(Seq::<Seq<u16>>::empty() + later =~= later);
        },
        Err(_) => {},
    }
}

/// Splits an absolute local drive path, given as UTF-16 code units, into its
/// NT drive root (`\??\X:\`) and its filesystem components, rejecting every
/// spelling that could change which object is opened.
pub fn split_local_drive_path(path: &[u16]) -> (split: Result<
    (Vec<u16>, Vec<Vec<u16>>),
    AclError,
>)
    ensures
        split_view(split) == split_of(path@),
{
    let parts: Vec<Component> = components(path);
    split_components(is_absolute(path), parts.as_slice())
}

/// `path` starts with a drive letter and the root directory of that drive.
pub open spec fn rooted_at_drive(path: Seq<u16>) -> bool {
    let components = wide_path::components_of(path);
    leading_drive(components) is Some && components.len() > 1 && components[1] is RootDir
}

/// The drive letter of a path and the components below the root of that drive,
/// where the path has both.
pub open spec fn letter_and_relative(path: Seq<u16>) -> Option<(char, Seq<ComponentView>)> {
    let components = wide_path::components_of(path);
    match leading_drive(components) {
        Some(letter) => Some((letter as char, components.skip(2))),
        None => None,
    }
}

/// The drive letter of a path and the components below the root of that
/// drive.
pub fn drive_letter_and_relative(path: &[u16]) -> (parts: (char, Vec<Component>))
    requires
        rooted_at_drive(path@),
    ensures
        Some(parts.0) == (match leading_drive(wide_path::components_of(path@)) {
            Some(letter) => Some(letter as char),
            None => None,
        }),
        wide_path::component_views(parts.1@) == wide_path::components_of(
            path@,
        ).skip(2),
        letter_and_relative(path@) == Some((parts.0, wide_path::component_views(parts.1@))),
{
    let mut parts: Vec<Component> = components(path);
    let ghost views = wide_path::component_views(parts@);
    assert(views[0] == parts@[0]@);
    assert(parts@.len() == views.len());
    let letter: u8 = match &parts[0] {
        Component::Prefix(prefix) => match prefix.drive_letter() {
            Some(letter) => letter,
            None => 0,
        },
        _ => 0,
    };
    let relative: Vec<Component> = parts.split_off(2);
    assert(wide_path::component_views(relative@) =~= views.skip(2));
    (letter as char, relative)
}

/// The last drive letter from `M` up to `letter` that no drive has.
pub open spec fn last_unused(existing: Seq<char>, letter: u8) -> Option<char>
    decreases letter,
{
    if letter < 0x4D {
        None
    } else if !existing.contains(letter as char) {
        Some(letter as char)
    } else {
        last_unused(existing, (letter - 1) as u8)
    }
}

/// The last drive letter from `M` to `Z` that no drive has, given the letters
/// of all drives there are.
pub fn unused_drive_letter(existing: &[char]) -> (letter: Option<char>)
    ensures
        match letter {
            Some(letter) => 'M' <= letter <= 'Z' && !existing@.contains(letter) && forall|later: char|
                letter < later <= 'Z' ==> existing@.contains(later),
            None => forall|later: char| 'M' <= later <= 'Z' ==> existing@.contains(later),
        },
        letter == last_unused(existing@, 0x5A),
{
    let mut letter: u8 = 0x5A;
    while letter >= 0x4D
        invariant
            0x4C <= letter <= 0x5A,
            forall|later: char| letter < later as int && later <= 'Z' ==> existing@.contains(later),
            last_unused(existing@, 0x5A) == last_unused(existing@, letter),
        decreases letter,
    {
        let candidate: char = letter as char;
        if !holds_letter(existing, candidate) {
            return Some(candidate);
        }
        letter -= 1;
    }
    None
}

fn holds_letter(letters: &[char], letter: char) -> (found: bool)
    ensures
        found == letters@.contains(letter),
{
    let mut index: usize = 0;
    while index < letters.len()
        invariant
            index <= letters@.len(),
            forall|i: int| 0 <= i < index ==> letters@[i] != letter,
        decreases letters@.len() - index,
    {
        if letters[index] == letter {
            return true;
        }
        index += 1;
    }
    false
}

} // verus!
