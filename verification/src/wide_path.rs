//! How Windows reads a path given as UTF-16 code units: an optional prefix,
//! an optional root directory, and the names between separators.

use vstd::prelude::*;
use vstd::slice::slice_subrange;

verus! {

/// `.`
pub const DOT: u16 = 0x2E;

/// `/`
pub const SLASH: u16 = 0x2F;

/// `:`
pub const COLON: u16 = 0x3A;

/// `?`
pub const QUESTION: u16 = 0x3F;

/// `\`
pub const BACKSLASH: u16 = 0x5C;

/// What stands in front of the root directory.
#[derive(Clone, Copy, Debug, PartialEq, Eq, Structural)]
pub enum Prefix {
    /// `\\?\name`
    Verbatim,
    /// `\\?\UNC\server\share`
    VerbatimUnc,
    /// `\\?\C:`, with the letter in upper case
    VerbatimDisk(u8),
    /// `\\.\device`
    DeviceNs,
    /// `\\server\share`
    Unc,
    /// `C:`, with the letter in upper case
    Disk(u8),
}

impl Prefix {
    /// After a verbatim prefix only `\` separates and `.` is a name of its own.
    pub open spec fn verbatim(self) -> bool {
        self is Verbatim || self is VerbatimUnc || self is VerbatimDisk
    }

    /// The drive letter, of the two kinds of prefix that name a drive.
    pub open spec fn drive(self) -> Option<u8> {
        match self {
            Prefix::Disk(letter) => Some(letter),
            Prefix::VerbatimDisk(letter) => Some(letter),
            _ => None,
        }
    }

    /// Whether the prefix takes what follows as it is written.
    pub fn is_verbatim(&self) -> (verbatim: bool)
        ensures
            verbatim == self.verbatim(),
    {
        match *self {
            Prefix::Verbatim => true,
            Prefix::VerbatimUnc => true,
            Prefix::VerbatimDisk(_) => true,
            _ => false,
        }
    }

    /// The drive letter, if the prefix names a drive.
    pub fn drive_letter(&self) -> (letter: Option<u8>)
        ensures
            letter == self.drive(),
    {
        match *self {
            Prefix::Disk(letter) => Some(letter),
            Prefix::VerbatimDisk(letter) => Some(letter),
            _ => None,
        }
    }
}

/// One part of a path.
#[derive(Debug, PartialEq, Eq)]
pub enum Component {
    /// What stands in front of the root directory.
    Prefix(Prefix),
    /// The root directory.
    RootDir,
    /// `.`
    CurDir,
    /// `..`
    ParentDir,
    /// The name of a file or directory.
    Normal(Vec<u16>),
}

/// A [`Component`] with its name as a sequence of code units.
pub enum ComponentView {
    Prefix(Prefix),
    RootDir,
    CurDir,
    ParentDir,
    Normal(Seq<u16>),
}

impl View for Component {
    type V = ComponentView;

    open spec fn view(&self) -> ComponentView {
        match *self {
            Component::Prefix(prefix) => ComponentView::Prefix(prefix),
            Component::RootDir => ComponentView::RootDir,
            Component::CurDir => ComponentView::CurDir,
            Component::ParentDir => ComponentView::ParentDir,
            Component::Normal(name) => ComponentView::Normal(name@),
        }
    }
}

/// The views of a list of components.
pub open spec fn component_views(components: Seq<Component>) -> Seq<ComponentView> {
    components.map_values(|component: Component| component@)
}

/// The units that end a name.
pub open spec fn separates(unit: u16, verbatim: bool) -> bool {
    unit == BACKSLASH || (!verbatim && unit == SLASH)
}

/// How many units stand before the first separator.
pub open spec fn name_len(units: Seq<u16>, verbatim: bool) -> nat
    decreases units.len(),
{
    if units.len() == 0 || separates(units[0], verbatim) {
        0
    } else {
        1 + name_len(units.skip(1), verbatim)
    }
}

/// What follows the first name and its separator.
pub open spec fn after_name(units: Seq<u16>, verbatim: bool) -> Seq<u16> {
    let len = name_len(units, verbatim);
    if len < units.len() {
        units.skip(len as int + 1)
    } else {
        Seq::empty()
    }
}

/// A drive is named by an ASCII letter.
pub open spec fn is_drive_unit(unit: u16) -> bool {
    0x41 <= unit <= 0x5A || 0x61 <= unit <= 0x7A
}

/// The drive letter in upper case.
pub open spec fn drive_of_unit(unit: u16) -> u8 {
    if unit >= 0x61 {
        (unit - 0x20) as u8
    } else {
        unit as u8
    }
}

/// `units` start with a drive letter and a colon.
pub open spec fn starts_with_drive(units: Seq<u16>) -> bool {
    units.len() >= 2 && is_drive_unit(units[0]) && units[1] == COLON
}

/// `units` start with `\\?\`, spelled with backslashes.
pub open spec fn starts_verbatim(units: Seq<u16>) -> bool {
    units.len() >= 4 && units[0] == BACKSLASH && units[1] == BACKSLASH && units[2] == QUESTION
        && units[3] == BACKSLASH
}

/// `units` start with `UNC` and a separator.
pub open spec fn starts_with_unc(units: Seq<u16>) -> bool {
    units.len() >= 4 && units[0] == 0x55 && units[1] == 0x4E && units[2] == 0x43 && separates(
        units[3],
        false,
    )
}

/// The length of a server name with the share name that may follow it.
pub open spec fn server_and_share_len(units: Seq<u16>, verbatim: bool) -> nat {
    let server = name_len(units, verbatim);
    let share = name_len(after_name(units, verbatim), verbatim);
    if share > 0 {
        server + 1 + share
    } else {
        server
    }
}

/// The prefix after `\\?\`, with the length of all of it.
pub open spec fn verbatim_prefix_of(rest: Seq<u16>) -> (Prefix, nat) {
    if starts_with_unc(rest) {
        (Prefix::VerbatimUnc, 8 + server_and_share_len(rest.skip(4), true))
    } else if starts_with_drive(rest) && (rest.len() == 2 || separates(rest[2], false)) {
        (Prefix::VerbatimDisk(drive_of_unit(rest[0])), 6)
    } else {
        (Prefix::Verbatim, 4 + name_len(rest, true))
    }
}

/// The prefix of a path with its length, if the path has one.
pub open spec fn prefix_of(path: Seq<u16>) -> Option<(Prefix, nat)> {
    if path.len() >= 2 && separates(path[0], false) && separates(path[1], false) {
        let rest = path.skip(2);
        if starts_verbatim(path) {
            Some(verbatim_prefix_of(path.skip(4)))
        } else if path.len() >= 4 && path[2] == DOT && separates(path[3], false) {
            Some((Prefix::DeviceNs, 4 + name_len(path.skip(4), false)))
        } else if name_len(rest, false) > 0 && name_len(after_name(rest, false), false) > 0 {
            Some((Prefix::Unc, 2 + server_and_share_len(rest, false)))
        } else {
            None
        }
    } else if starts_with_drive(path) {
        Some((Prefix::Disk(drive_of_unit(path[0])), 2))
    } else {
        None
    }
}

/// A separator comes first.
pub open spec fn starts_with_root(units: Seq<u16>) -> bool {
    units.len() > 0 && separates(units[0], false)
}

/// The path names one place, whatever the current drive and directory are.
pub open spec fn absolute(path: Seq<u16>) -> bool {
    match prefix_of(path) {
        Some((Prefix::Disk(_), len)) => starts_with_root(path.skip(len as int)),
        Some(_) => true,
        None => false,
    }
}

/// The component that a name between separators stands for: an empty name
/// stands for none, and neither does `.` outside of a verbatim path.
pub open spec fn component_of_name(name: Seq<u16>, verbatim: bool) -> Seq<ComponentView> {
    if name.len() == 0 {
        Seq::empty()
    } else if name == seq![DOT] {
        if verbatim {
            seq![ComponentView::CurDir]
        } else {
            Seq::empty()
        }
    } else if name == seq![DOT, DOT] {
        seq![ComponentView::ParentDir]
    } else {
        seq![ComponentView::Normal(name)]
    }
}

/// The components below the root directory.
pub open spec fn body_components(body: Seq<u16>, verbatim: bool) -> Seq<ComponentView>
    decreases body.len(),
{
    if body.len() == 0 {
        Seq::empty()
    } else {
        component_of_name(body.take(name_len(body, verbatim) as int), verbatim) + body_components(
            after_name(body, verbatim),
            verbatim,
        )
    }
}

/// What follows the prefix.
pub open spec fn components_after_prefix(rest: Seq<u16>, prefix: Prefix) -> Seq<ComponentView> {
    if starts_with_root(rest) {
        seq![ComponentView::RootDir] + body_components(rest.skip(1), prefix.verbatim())
    } else if prefix is Unc || prefix is DeviceNs {
        seq![ComponentView::RootDir] + body_components(rest, prefix.verbatim())
    } else {
        body_components(rest, prefix.verbatim())
    }
}

/// The components of a path without a prefix.
pub open spec fn components_without_prefix(path: Seq<u16>) -> Seq<ComponentView> {
    if starts_with_root(path) {
        seq![ComponentView::RootDir] + body_components(path.skip(1), false)
    } else if path.len() > 0 && path[0] == DOT && (path.len() == 1 || separates(path[1], false)) {
        seq![ComponentView::CurDir] + body_components(path.skip(1), false)
    } else {
        body_components(path, false)
    }
}

/// All components of a path, in order.
pub open spec fn components_of(path: Seq<u16>) -> Seq<ComponentView> {
    match prefix_of(path) {
        Some((prefix, len)) => seq![ComponentView::Prefix(prefix)] + components_after_prefix(
            path.skip(len as int),
            prefix,
        ),
        None => components_without_prefix(path),
    }
}

/// A name ends within the units it is read from.
pub proof fn lemma_name_len_bound(units: Seq<u16>, verbatim: bool)
    ensures
        name_len(units, verbatim) <= units.len(),
    decreases units.len(),
{
    if units.len() > 0 && !separates(units[0], verbatim) {
        lemma_name_len_bound(units.skip(1), verbatim);
    }
}

fn is_separator(unit: u16, verbatim: bool) -> (separator: bool)
    ensures
        separator == separates(unit, verbatim),
{
    unit == BACKSLASH || (!verbatim && unit == SLASH)
}

fn is_drive(unit: u16) -> (letter: bool)
    ensures
        letter == is_drive_unit(unit),
{
    (0x41 <= unit && unit <= 0x5A) || (0x61 <= unit && unit <= 0x7A)
}

fn upper_drive(unit: u16) -> (letter: u8)
    requires
        is_drive_unit(unit),
    ensures
        letter == drive_of_unit(unit),
{
    if unit >= 0x61 {
        (unit - 0x20) as u8
    } else {
        unit as u8
    }
}

fn scan_name(units: &[u16], start: usize, verbatim: bool) -> (len: usize)
    requires
        start <= units@.len(),
    ensures
        len == name_len(units@.skip(start as int), verbatim),
        start + len <= units@.len(),
{
    let mut end: usize = start;
    let ghost whole = name_len(units@.skip(start as int), verbatim);
    while end < units.len() && !is_separator(units[end], verbatim)
        invariant
            start <= end <= units@.len(),
            whole == end - start + name_len(units@.skip(end as int), verbatim),
        decreases units@.len() - end,
    {
        assert(units@.skip(end as int).skip(1) =~= units@.skip(end + 1));
        end += 1;
    }
    end - start
}

fn scan_server_and_share(units: &[u16], start: usize, verbatim: bool) -> (lens: (
    usize,
    usize,
))
    requires
        start <= units@.len(),
    ensures
        lens.0 == name_len(units@.skip(start as int), verbatim),
        lens.1 == name_len(after_name(units@.skip(start as int), verbatim), verbatim),
        start + lens.0 + (if lens.1 > 0 { 1 + lens.1 } else { 0 }) <= units@.len(),
{
    let total: usize = units.len();
    let server: usize = scan_name(units, start, verbatim);
    if start + server < total {
        let ghost rest = units@.skip(start as int);
        assert(rest.skip(server + 1) =~= units@.skip(start + server + 1));
        let share: usize = scan_name(units, start + server + 1, verbatim);
        (server, share)
    } else {
        assert(after_name(units@.skip(start as int), verbatim) =~= Seq::<u16>::empty());
        (server, 0)
    }
}

/// Reads the prefix of a path and its length in code units.
pub fn parse_prefix(path: &[u16]) -> (prefix: Option<(Prefix, usize)>)
    ensures
        match prefix {
            Some((prefix, len)) => prefix_of(path@) == Some((prefix, len as nat)) && len
                <= path@.len(),
            None => prefix_of(path@) is None,
        },
{
    if path.len() >= 2 && is_separator(path[0], false) && is_separator(path[1], false) {
        if path.len() >= 4 && path[0] == BACKSLASH && path[1] == BACKSLASH && path[2] == QUESTION
            && path[3] == BACKSLASH {
            let ghost rest = path@.skip(4);
            if path.len() >= 8 && path[4] == 0x55 && path[5] == 0x4E && path[6] == 0x43
                && is_separator(path[7], false) {
                assert(rest.skip(4) =~= path@.skip(8));
                let lens: (usize, usize) = scan_server_and_share(path, 8, true);
                let tail: usize = if lens.1 > 0 {
                    lens.0 + 1 + lens.1
                } else {
                    lens.0
                };
                Some((Prefix::VerbatimUnc, 8 + tail))
            } else if path.len() >= 6 && is_drive(path[4]) && path[5] == COLON && (path.len() == 6
                || is_separator(path[6], false)) {
                Some((Prefix::VerbatimDisk(upper_drive(path[4])), 6))
            } else {
                Some((Prefix::Verbatim, 4 + scan_name(path, 4, true)))
            }
        } else if path.len() >= 4 && path[2] == DOT && is_separator(path[3], false) {
            Some((Prefix::DeviceNs, 4 + scan_name(path, 4, false)))
        } else {
            let lens: (usize, usize) = scan_server_and_share(path, 2, false);
            if lens.0 > 0 && lens.1 > 0 {
                Some((Prefix::Unc, 2 + lens.0 + 1 + lens.1))
            } else {
                None
            }
        }
    } else if path.len() >= 2 && is_drive(path[0]) && path[1] == COLON {
        Some((Prefix::Disk(upper_drive(path[0])), 2))
    } else {
        None
    }
}

/// Whether the path names one place, whatever the current drive and directory
/// are.
pub fn is_absolute(path: &[u16]) -> (answer: bool)
    ensures
        answer == absolute(path@),
{
    match parse_prefix(path) {
        Some((Prefix::Disk(_), len)) => len < path.len() && is_separator(path[len], false),
        Some(_) => true,
        None => false,
    }
}

fn push_name(components: &mut Vec<Component>, name: &[u16], verbatim: bool)
    ensures
        component_views(final(components)@) == component_views(old(components)@)
            + component_of_name(name@, verbatim),
{
    let ghost before = components@;
    if name.len() == 0 {
        assert(component_views(components@) =~= component_views(before) + component_of_name(
            name@,
            verbatim,
        ));
    } else if name.len() == 1 && name[0] == DOT {
        assert(name@ =~= seq![DOT]);
        if verbatim {
            components.push(Component::CurDir);
        }
        assert(component_views(components@) =~= component_views(before) + component_of_name(
            name@,
            verbatim,
        ));
    } else if name.len() == 2 && name[0] == DOT && name[1] == DOT {
        assert(name@ =~= seq![DOT, DOT]);
        components.push(Component::ParentDir);
        assert(component_views(components@) =~= component_views(before) + component_of_name(
            name@,
            verbatim,
        ));
    } else {
        assert(name@ != seq![DOT]) by {
            if name@ == seq![DOT] {
                assert(name@[0] == DOT);
            }
        }
        assert(name@ != seq![DOT, DOT]) by {
            if name@ == seq![DOT, DOT] {
                assert(name@[0] == DOT && name@[1] == DOT);
            }
        }
        let units: Vec<u16> = vstd::slice::slice_to_vec(name);
        components.push(Component::Normal(units));
        assert(component_views(components@) =~= component_views(before) + component_of_name(
            name@,
            verbatim,
        ));
    }
}

fn push_body(components: &mut Vec<Component>, path: &[u16], from: usize, verbatim: bool)
    requires
        from <= path@.len(),
    ensures
        component_views(final(components)@) == component_views(old(components)@)
            + body_components(path@.skip(from as int), verbatim),
{
    let ghost before = component_views(components@);
    let ghost whole = body_components(path@.skip(from as int), verbatim);
    let mut start: usize = from;
    while start < path.len()
        invariant
            from <= start <= path@.len(),
            component_views(components@) + body_components(path@.skip(start as int), verbatim)
                =~= before + whole,
        decreases path@.len() - start,
    {
        let ghost rest = path@.skip(start as int);
        let ghost done = component_views(components@);
        let len: usize = scan_name(path, start, verbatim);
        let name: &[u16] = slice_subrange(path, start, start + len);
        assert(name@ =~= rest.take(len as int));
        push_name(components, name, verbatim);
        if start + len < path.len() {
            assert(after_name(rest, verbatim) =~= path@.skip(start + len + 1));
            start = start + len + 1;
        } else {
            assert(after_name(rest, verbatim) =~= path@.skip(path@.len() as int));
            start = path.len();
        }
        assert(body_components(rest, verbatim) == component_of_name(name@, verbatim)
            + body_components(path@.skip(start as int), verbatim));
    }
    assert(path@.skip(start as int) =~= Seq::<u16>::empty());
    assert(component_views(components@) =~= before + whole);
}

/// Takes a path apart.
pub fn components(path: &[u16]) -> (components: Vec<Component>)
    ensures
        component_views(components@) == components_of(path@),
{
    let mut components: Vec<Component> = Vec::new();
    match parse_prefix(path) {
        Some((prefix, len)) => {
            let verbatim: bool = prefix.is_verbatim();
            components.push(Component::Prefix(prefix));
            let ghost rest = path@.skip(len as int);
            if len < path.len() && is_separator(path[len], false) {
                components.push(Component::RootDir);
                assert(rest.skip(1) =~= path@.skip(len + 1));
                push_body(&mut components, path, len + 1, verbatim);
            } else {
                match prefix {
                    Prefix::Unc => components.push(Component::RootDir),
                    Prefix::DeviceNs => components.push(Component::RootDir),
                    _ => {},
                }
                push_body(&mut components, path, len, verbatim);
            }
        },
        None => {
            if path.len() > 0 && is_separator(path[0], false) {
                components.push(Component::RootDir);
                push_body(&mut components, path, 1, false);
            } else if path.len() > 0 && path[0] == DOT && (path.len() == 1 || is_separator(
                path[1],
                false,
            )) {
                components.push(Component::CurDir);
                push_body(&mut components, path, 1, false);
            } else {
                assert(path@.skip(0) =~= path@);
                push_body(&mut components, path, 0, false);
            }
        },
    }
    assert(component_views(components@) =~= components_of(path@));
    components
}

} // verus!
