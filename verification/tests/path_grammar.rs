//! How paths are taken apart.

use sandbox_acl::drive_path::{
    is_plain_component, split_components, split_local_drive_path, unused_drive_letter,
};
use sandbox_acl::error::AclError;
use sandbox_acl::wide_path::{components, is_absolute, parse_prefix, Component, Prefix};

fn wide(text: &str) -> Vec<u16> {
    text.encode_utf16().collect()
}

fn name(text: &str) -> Component {
    Component::Normal(wide(text))
}

fn split(path: &str) -> Result<(String, Vec<String>), AclError> {
    split_local_drive_path(&wide(path)).map(|(root, names)| {
        (
            String::from_utf16(&root).expect("root"),
            names.iter().map(|name| String::from_utf16(name).expect("name")).collect(),
        )
    })
}

#[test]
fn prefixes_are_told_apart() {
    for (path, prefix) in [
        (r"C:\a", Some((Prefix::Disk(b'C'), 2))),
        (r"c:a", Some((Prefix::Disk(b'C'), 2))),
        (r"1:\a", None),
        (r"a", None),
        ("", None),
        (r"\\?\c:\a", Some((Prefix::VerbatimDisk(b'C'), 6))),
        (r"\\?\C:", Some((Prefix::VerbatimDisk(b'C'), 6))),
        (r"\\?\C:x", Some((Prefix::Verbatim, 7))),
        (r"\\?\C:/x", Some((Prefix::VerbatimDisk(b'C'), 6))),
        (r"\\?\pictures\kittens", Some((Prefix::Verbatim, 12))),
        (r"\\?\", Some((Prefix::Verbatim, 4))),
        (r"\\?\UNC\server\share\x", Some((Prefix::VerbatimUnc, 20))),
        (r"\\?\UNC\server", Some((Prefix::VerbatimUnc, 14))),
        (r"//?/C:/x", Some((Prefix::Unc, 6))),
        (r"\\.\COM42\x", Some((Prefix::DeviceNs, 9))),
        (r"//./NUL", Some((Prefix::DeviceNs, 7))),
        (r"\\server\share\x", Some((Prefix::Unc, 14))),
        (r"//server/share", Some((Prefix::Unc, 14))),
        (r"\\server\", None),
        (r"\\server", None),
        (r"\\", None),
        (r"\x", None),
    ] {
        assert_eq!(parse_prefix(&wide(path)), prefix, "{path}");
    }
}

#[test]
fn absolute_paths_name_a_root_and_a_prefix() {
    for path in [r"C:\", r"c:/x", r"\\?\C:", r"\\server\share", r"\\.\COM1", r"\\?\x"] {
        assert!(is_absolute(&wide(path)), "{path}");
    }
    for path in ["", "x", r"\x", "C:", "C:x", r"\\server", "."] {
        assert!(!is_absolute(&wide(path)), "{path}");
    }
}

#[test]
fn components_come_in_order() {
    let disk = Component::Prefix(Prefix::Disk(b'C'));
    let verbatim = Component::Prefix(Prefix::VerbatimDisk(b'C'));
    assert_eq!(
        components(&wide(r"C:\a/.\\b\..\")),
        vec![disk, Component::RootDir, name("a"), name("b"), Component::ParentDir]
    );
    assert_eq!(
        components(&wide(r"\\?\C:\a/b\.\\..")),
        vec![verbatim, Component::RootDir, name("a/b"), Component::CurDir, Component::ParentDir]
    );
    assert_eq!(
        components(&wide(r"\\server\share")),
        vec![Component::Prefix(Prefix::Unc), Component::RootDir]
    );
    assert_eq!(
        components(&wide(r"C:a\.")),
        vec![Component::Prefix(Prefix::Disk(b'C')), name("a")]
    );
    assert_eq!(components(&wide(r"./a/.")), vec![Component::CurDir, name("a")]);
    assert_eq!(components(&wide(".a")), vec![name(".a")]);
    assert_eq!(components(&wide(r"/a")), vec![Component::RootDir, name("a")]);
    assert_eq!(components(&wide("")), vec![]);
}

#[test]
fn plain_names_hold_no_delimiter() {
    for plain in ["a", "...", ".sandbox-bin", "a b", "\u{1F600}", "..a"] {
        assert!(is_plain_component(&wide(plain)), "{plain}");
    }
    for other in ["", ".", "..", "a/b", "a\\b", "a:b", "a\0", ":", "\0"] {
        assert!(!is_plain_component(&wide(other)), "{other}");
    }
    assert!(is_plain_component(&[0xD800]));
}

#[test]
fn every_rejection_has_its_reason() {
    for (path, error) in [
        (r"relative\.sandbox-bin", AclError::NotAbsolute),
        (r"C:relative", AclError::NotAbsolute),
        (r"\rooted", AclError::NotAbsolute),
        (r"\\server\share\x", AclError::NotLocalDisk),
        (r"\\?\UNC\server\share\x", AclError::NotLocalDisk),
        (r"\\.\C:\x", AclError::NotLocalDisk),
        (r"\\?\Volume{0}\x", AclError::NotLocalDisk),
        (r"\\?\C:", AclError::NotRooted),
        (r"C:\home\..\x", AclError::DotComponent),
        (r"\\?\C:\home\.\x", AclError::DotComponent),
        (r"C:\home\x:stream", AclError::InvalidComponent),
        (r"\\?\C:\home/x", AclError::InvalidComponent),
        ("C:\\a\0b", AclError::InvalidComponent),
        ("C:\\a:b\\..", AclError::InvalidComponent),
        ("C:\\..\\a:b", AclError::DotComponent),
    ] {
        assert_eq!(split(path), Err(error), "{path}");
    }
}

#[test]
fn components_from_elsewhere_are_checked_too() {
    let parts = vec![Component::Prefix(Prefix::Disk(b'1')), Component::RootDir];
    assert_eq!(split_components(true, &parts), Err(AclError::InvalidDriveLetter));
    assert_eq!(split_components(false, &parts), Err(AclError::NotAbsolute));
    assert_eq!(split_components(true, &[]), Err(AclError::NotLocalDisk));
    assert_eq!(split_components(true, &[Component::RootDir]), Err(AclError::NotLocalDisk));
    let lower = vec![Component::Prefix(Prefix::Disk(b'c')), Component::RootDir, name("a")];
    assert_eq!(
        split_components(true, &lower),
        Ok((wide(r"\??\c:\"), vec![wide("a")]))
    );
    let twice = vec![
        Component::Prefix(Prefix::Disk(b'C')),
        Component::RootDir,
        Component::RootDir,
    ];
    assert_eq!(split_components(true, &twice), Err(AclError::DotComponent));
}

#[test]
fn splitting_gives_back_what_was_joined() {
    let names = vec![String::from("AI"), String::from("h\u{f6}me"), String::from("...")];
    let joined = names.join("\\");
    let expected = Ok((String::from(r"\??\D:\"), names));
    assert_eq!(split(&format!(r"d:\{joined}")), expected);
    assert_eq!(split(&format!(r"\\?\d:\{joined}")), expected);
}

#[test]
fn other_spellings_of_a_plain_path_are_accepted() {
    let expected = Ok((String::from(r"\??\C:\"), vec![String::from("a"), String::from("b")]));
    for path in [r"C:\a\b", "c:/a/b", r"C:\a\.\b\", r"C:\\a\\\b", r"\\?\C:\a\\b\", r"\\?\C:/a\b"] {
        assert_eq!(split(path), expected, "{path}");
    }
    assert_eq!(split(r"C:\"), Ok((String::from(r"\??\C:\"), vec![])));
}

#[test]
fn the_last_unused_drive_letter_is_taken() {
    assert_eq!(unused_drive_letter(&[]), Some('Z'));
    assert_eq!(unused_drive_letter(&['C', 'Z', 'X']), Some('Y'));
    let upper: Vec<char> = ('N'..='Z').collect();
    assert_eq!(unused_drive_letter(&upper), Some('M'));
    let all: Vec<char> = ('M'..='Z').collect();
    assert_eq!(unused_drive_letter(&all), None);
}
