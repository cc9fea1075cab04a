//! Walks and locks on simulated volumes: the simulation answers the requests of
//! a walk the way the object manager and the file system do.

use std::collections::HashMap;

use sandbox_acl::drive_path::{
    drive_letter_and_relative, split_local_drive_path, unused_drive_letter,
};
use sandbox_acl::error::AclError;
use sandbox_acl::explicit_dacl::{explicit_dacl_matches, AceRead, AclRead};
use sandbox_acl::no_reparse_dir::{
    open_existing_no_reparse_for_read_control, open_or_create_no_reparse, Action, DirectoryWalk,
    OpenRequest, Reply, FILE_NAME_BUFFER_LEN,
};
use sandbox_acl::nt::{
    DELETE, FILE_DEVICE_DISK, FILE_DIRECTORY_FILE, FILE_GENERIC_EXECUTE, FILE_GENERIC_READ,
    FILE_GENERIC_WRITE, FILE_OPEN_IF, FILE_REMOTE_DEVICE, OBJ_DONT_REPARSE,
    STATUS_REPARSE_POINT_ENCOUNTERED, WRITE_DAC,
};
use sandbox_acl::sandbox_lock::{
    accept_existing_lock, assert_rejected, lock_sandbox_bin, lock_step, remove_write_dac_below,
    LockStep, SandboxLock, SANDBOX_BIN_GROUP_MASK,
};
use sandbox_acl::wide_path::{Component, Prefix};

const STATUS_OBJECT_NAME_NOT_FOUND: i32 = -1073741772;
const STATUS_ACCESS_DENIED: i32 = -1073741790;
const MOUNT_POINT_TAG: u32 = 0xA000_0003;
const SYMLINK_TAG: u32 = 0xA000_000C;
const CLOUD_TAG: u32 = 0x9000_001A;

/// What the system says of a missing file.
const CAUSE: &str = "The system cannot find the file specified. (os error 2)";

fn wide(text: &str) -> Vec<u16> {
    text.encode_utf16().collect()
}

fn narrow(units: &[u16]) -> String {
    String::from_utf16(units).expect("valid UTF-16")
}

#[derive(Clone, Debug, PartialEq)]
struct Ace {
    inherited: bool,
    mask: u32,
    trustee: String,
}

impl Ace {
    fn flags(&self) -> u8 {
        if self.inherited {
            0x13
        } else {
            0x03
        }
    }

    fn bytes(&self) -> Vec<u8> {
        let mut bytes = vec![0, self.flags(), 0, 0];
        bytes.extend(self.mask.to_le_bytes());
        bytes.extend(self.trustee.as_bytes());
        let size = bytes.len() as u16;
        bytes[2..4].copy_from_slice(&size.to_le_bytes());
        bytes
    }
}

fn acl_read(dacl: &[Ace]) -> AclRead {
    AclRead::Entries(
        dacl.iter()
            .map(|ace| AceRead::Entry { bytes: ace.bytes() })
            .collect(),
    )
}

fn sddl(dacl: &[Ace]) -> String {
    dacl.iter().map(|ace| format!("(A;OICI;0x{:x};;;{})", ace.mask, ace.trustee)).collect()
}

#[derive(Debug, Default)]
struct Node {
    /// The lower-case name of each child, with the node behind it.
    children: HashMap<String, usize>,
    /// A reparse tag, with the node it leads to.
    reparse: Option<(u32, usize)>,
    dacl: Vec<Ace>,
    write_dac_denied: bool,
}

#[derive(Debug)]
struct Drive {
    root: usize,
    device_type: u32,
    characteristics: u32,
    /// The name of `root` within its volume.
    name: String,
}

/// Drives, directories and open handles.
#[derive(Debug, Default)]
struct World {
    nodes: Vec<Node>,
    drives: HashMap<char, Drive>,
    requests: Vec<OpenRequest>,
}

fn handle_of(node: usize) -> isize {
    node as isize * 4 + 4
}

fn node_of(handle: isize) -> usize {
    ((handle - 4) / 4) as usize
}

impl World {
    fn with_disk(letter: char) -> World {
        let mut world = World::default();
        let root = world.add_node();
        world.drives.insert(
            letter,
            Drive {
                root,
                device_type: FILE_DEVICE_DISK,
                characteristics: 0,
                name: String::from("\\"),
            },
        );
        world
    }

    fn add_node(&mut self) -> usize {
        let mut node = Node::default();
        node.dacl.push(Ace {
            inherited: true,
            mask: 0x1F_01FF,
            trustee: format!("S-1-5-21-{}", self.nodes.len()),
        });
        self.nodes.push(node);
        self.nodes.len() - 1
    }

    fn find(&self, path: &str) -> Option<usize> {
        let (drive, rest) = path.split_at(3);
        let letter = drive.chars().next().expect("drive letter");
        let mut node = self.drives.get(&letter)?.root;
        for name in rest.split('\\').filter(|name| !name.is_empty()) {
            node = *self.nodes[node].children.get(&name.to_lowercase())?;
            if let Some((_, target)) = self.nodes[node].reparse {
                node = target;
            }
        }
        Some(node)
    }

    fn has_path(&self, path: &str) -> bool {
        self.find(path).is_some()
    }

    fn create_dir_all(&mut self, path: &str) -> usize {
        let mut at = String::from(&path[..2]);
        let mut node = self.find(&path[..3]).expect("drive");
        for name in path[3..].split('\\') {
            at = format!("{at}\\{name}");
            node = match self.find(&at) {
                Some(node) => node,
                None => {
                    let child = self.add_node();
                    self.nodes[node].children.insert(name.to_lowercase(), child);
                    child
                }
            };
        }
        node
    }

    /// A reparse point at `alias` that leads to `target`.
    fn link(&mut self, tag: u32, target: &str, alias: &str) {
        let target = self.find(target).expect("target");
        let (parent, name) = alias.rsplit_once('\\').expect("parent");
        let parent = self.find(&format!("{parent}\\")).expect("parent directory");
        let node = self.add_node();
        self.nodes[node].reparse = Some((tag, target));
        self.nodes[parent].children.insert(name.to_lowercase(), node);
    }

    fn junction(&mut self, target: &str, alias: &str) {
        self.link(MOUNT_POINT_TAG, target, alias);
    }

    /// Mounts a volume on an existing directory, which keeps its own list.
    fn mount(&mut self, letter: char, directory: &str) {
        let root = self.drives[&letter].root;
        let node = self.find(directory).expect("directory");
        assert!(self.nodes[node].children.is_empty());
        self.nodes[node].reparse = Some((MOUNT_POINT_TAG, root));
    }

    fn open(&mut self, request: &OpenRequest) -> Reply {
        let len = request.buffer.len();
        assert_eq!(request.buffer[len - 1], 0);
        assert_eq!(usize::from(request.name_length), 2 * (len - 1));
        assert_eq!(usize::from(request.maximum_length), 2 * len);
        assert_eq!(request.create_options, FILE_DIRECTORY_FILE);
        let name = narrow(&request.buffer[..len - 1]);
        let missing =
            Reply::Opened { status: STATUS_OBJECT_NAME_NOT_FOUND, os_error: 2, handle: 0 };
        if request.root_directory == 0 {
            let letter = name.chars().nth(4).expect("drive letter");
            assert_eq!(name, format!("\\??\\{letter}:\\"));
            return match self.drives.get(&letter) {
                Some(drive) => {
                    Reply::Opened { status: 0, os_error: 0, handle: handle_of(drive.root) }
                }
                None => missing,
            };
        }
        let parent = node_of(request.root_directory);
        let known = self.nodes[parent].children.get(&name.to_lowercase()).copied();
        let node = match known {
            Some(node) => node,
            None if request.create_disposition == FILE_OPEN_IF => {
                let node = self.add_node();
                self.nodes[parent].children.insert(name.to_lowercase(), node);
                node
            }
            None => return missing,
        };
        match self.nodes[node].reparse {
            Some((tag, _)) if tag != CLOUD_TAG => {
                assert_ne!(request.attributes & OBJ_DONT_REPARSE, 0);
                Reply::Opened {
                    status: STATUS_REPARSE_POINT_ENCOUNTERED,
                    os_error: 0,
                    handle: 0,
                }
            }
            _ if self.nodes[node].write_dac_denied && request.desired_access & WRITE_DAC != 0 => {
                Reply::Opened { status: STATUS_ACCESS_DENIED, os_error: 5, handle: 0 }
            }
            _ => Reply::Opened { status: 0, os_error: 0, handle: handle_of(node) },
        }
    }

    fn drive_with_root(&self, handle: isize) -> &Drive {
        // A mapped drive comes before the drive that it leads into.
        let mut drives: Vec<&Drive> =
            self.drives.values().filter(|drive| drive.root == node_of(handle)).collect();
        drives.sort_by_key(|drive| drive.name.len());
        drives.last().expect("a drive root")
    }

    fn perform(&mut self, action: Action) -> Reply {
        match action {
            Action::Open(request) => {
                let reply = self.open(&request);
                self.requests.push(request);
                reply
            }
            Action::QueryDevice { handle } => {
                let drive = self.drive_with_root(handle);
                Reply::Device {
                    status: 0,
                    os_error: 0,
                    device_type: drive.device_type,
                    characteristics: drive.characteristics,
                }
            }
            Action::QueryName { handle } => {
                let name = wide(&self.drive_with_root(handle).name);
                let mut record = vec![0u8; FILE_NAME_BUFFER_LEN];
                record[..4].copy_from_slice(&(2 * name.len() as u32).to_le_bytes());
                for (index, unit) in name.iter().enumerate() {
                    record[4 + 2 * index..6 + 2 * index].copy_from_slice(&unit.to_le_bytes());
                }
                Reply::Name { ok: 1, os_error: 0, record }
            }
            Action::QueryTag { handle } => {
                let (file_attributes, reparse_tag) = match self.nodes[node_of(handle)].reparse {
                    Some((tag, _)) => (0x410, tag),
                    None => (0x10, 0),
                };
                Reply::Tag { ok: 1, os_error: 0, file_attributes, reparse_tag }
            }
            Action::Done { .. } => unreachable!(),
        }
    }

    fn walk(&mut self, walk: DirectoryWalk) -> Result<isize, AclError> {
        let mut walk = walk;
        loop {
            let action = walk.action()?;
            if let Action::Done { handle } = action {
                return Ok(handle);
            }
            let reply = self.perform(action);
            walk = walk.step(reply)?;
        }
    }

    fn open_or_create(&mut self, path: &str) -> Result<isize, AclError> {
        let walk = open_or_create_no_reparse(&wide(path))?;
        self.walk(walk)
    }

    fn lock(&mut self, path: &str, group_mask: u32) -> Result<(), AclError> {
        let lock = lock_sandbox_bin(&wide(path), group_mask)?;
        let required = required_dacl(&lock);
        let outcome = self.walk(lock.walk);
        match lock_step(outcome)? {
            LockStep::WriteDacl { handle } => {
                let dacl = &mut self.nodes[node_of(handle)].dacl;
                dacl.retain(|ace| ace.inherited);
                dacl.splice(0..0, required);
                Ok(())
            }
            LockStep::CompareDacl => {
                let read = open_existing_no_reparse_for_read_control(&wide(path))?;
                let handle = self.walk(read)?;
                let current = acl_read(&self.nodes[node_of(handle)].dacl);
                let answer = explicit_dacl_matches(0, &current, &acl_read(&required));
                accept_existing_lock(answer)
            }
        }
    }

    /// The list of `path`. With `follow == false` it is that of a reparse point
    /// itself instead of its target.
    fn security_of(&self, path: &str, follow: bool) -> Vec<Ace> {
        let node = if follow {
            self.find(path).expect("directory")
        } else {
            let (parent, name) = path.rsplit_once('\\').expect("parent");
            let parent = self.find(&format!("{parent}\\")).expect("parent directory");
            self.nodes[parent].children[&name.to_lowercase()]
        };
        self.nodes[node].dacl.clone()
    }

    fn snapshot(&self, objects: &[(&str, bool)]) -> Vec<Vec<Ace>> {
        objects.iter().map(|(path, follow)| self.security_of(path, *follow)).collect()
    }

    /// Denies WRITE_DAC, and lets the entries below `home` be joined by
    /// inherited ones in front of the list.
    fn deny_write_dac(&mut self, path: &str) {
        let node = self.find(path).expect("directory");
        self.nodes[node].write_dac_denied = true;
        self.nodes[node].dacl.insert(
            0,
            Ace { inherited: true, mask: 0x1301bf, trustee: String::from("OW") },
        );
        self.nodes[node].dacl.rotate_left(2);
    }

    fn locked_without_write_dac(&mut self, root: &str, name: &str, group_mask: u32) -> String {
        self.create_dir_all(&format!("{root}\\{name}"));
        let path = format!("{root}\\{name}\\.sandbox-bin");
        self.lock(&path, group_mask).expect("initial lock");
        self.deny_write_dac(&path);
        path
    }

    fn writable_real_directory(&mut self, root: &str, name: &str) -> String {
        let path = format!("{root}\\{name}\\.sandbox-bin");
        self.create_dir_all(&path);
        path
    }
}

fn required_dacl(lock: &SandboxLock) -> Vec<Ace> {
    let grant = |mask: u32, trustee: &str| Ace {
        inherited: false,
        mask,
        trustee: String::from(trustee),
    };
    vec![
        grant(0x1F_01FF, "SY"),
        grant(lock.group_mask, "BU"),
        grant(lock.real_user_mask, "S-1-5-21-1-2-3-1001"),
    ]
}

/// The default volume and an extra one.
fn test_drives() -> Vec<(World, &'static str)> {
    vec![(World::with_disk('C'), "C:\\temp"), (World::with_disk('D'), "D:\\AI\\target")]
}

// ---- opening ----

#[test]
fn creates_and_opens_plain_directory_leaf() {
    let mut world = World::with_disk('C');
    world.create_dir_all("C:\\temp");
    let directory = "C:\\temp\\.sandbox-bin";

    let first = world.open_or_create(directory).expect("create");
    let second = world.open_or_create(directory).expect("open");

    assert!(world.has_path(directory));
    assert_eq!(first, second);
}

#[test]
fn rejects_final_directory_junction() {
    let mut world = World::with_disk('C');
    world.create_dir_all("C:\\temp\\target");
    world.junction("C:\\temp\\target", "C:\\temp\\.sandbox-bin");

    world
        .open_or_create("C:\\temp\\.sandbox-bin")
        .expect_err("final directory junction must be rejected");
}

#[test]
fn rejects_ancestor_directory_junction() {
    let mut world = World::with_disk('C');
    world.create_dir_all("C:\\temp\\target-home\\.sandbox-bin");
    world.junction("C:\\temp\\target-home", "C:\\temp\\linked-home");

    world
        .open_or_create("C:\\temp\\linked-home\\.sandbox-bin")
        .expect_err("ancestor directory junction must be rejected");
}

#[test]
fn creates_plain_directory_on_drive_letter_path() {
    for (mut world, temporary) in test_drives() {
        world.create_dir_all(&format!("{temporary}\\home"));
        let directory = format!("{temporary}\\home\\.sandbox-bin");

        let handle = world.open_or_create(&directory).expect("create");

        assert_eq!(Some(node_of(handle)), world.find(&directory));
    }
}

#[test]
fn opens_existing_plain_directory() {
    for (mut world, temporary) in test_drives() {
        let directory = format!("{temporary}\\.sandbox-bin");
        world.create_dir_all(&directory);
        world.create_dir_all(&format!("{directory}\\existing.txt"));

        let handle = world.open_or_create(&directory).expect("open");

        assert_eq!(Some(node_of(handle)), world.find(&directory));
        assert!(world.has_path(&format!("{directory}\\existing.txt")));
    }
}

#[test]
fn opens_multiple_nested_plain_directories() {
    for (mut world, temporary) in test_drives() {
        let parent = format!("{temporary}\\AI\\OpenInterpreter\\home");
        world.create_dir_all(&parent);
        let directory = format!("{parent}\\.sandbox-bin");

        let handle = world.open_or_create(&directory).expect("open");

        assert_eq!(Some(node_of(handle)), world.find(&directory));
    }
}

#[test]
fn verbatim_drive_path_opens_same_directory() {
    let mut world = World::with_disk('C');
    let directory = "C:\\temp\\.sandbox-bin";
    world.create_dir_all(directory);

    let handle = world.open_or_create(&format!(r"\\?\{directory}")).expect("open");

    assert_eq!(Some(node_of(handle)), world.find(directory));
}

#[test]
fn rejects_final_directory_junction_on_every_test_drive() {
    for (mut world, temporary) in test_drives() {
        let target = format!("{temporary}\\target");
        let alias = format!("{temporary}\\.sandbox-bin");
        world.create_dir_all(&target);
        world.junction(&target, &alias);

        let error = world
            .open_or_create(&alias)
            .expect_err("final directory junction must be rejected");
        assert!(error.message(&alias).contains("reparse point"));
        let target = world.find(&target).expect("target");
        assert!(world.nodes[target].children.is_empty());
    }
}

#[test]
fn rejects_deep_ancestor_directory_junction_on_every_test_drive() {
    for (mut world, temporary) in test_drives() {
        let real = format!("{temporary}\\real");
        world.create_dir_all(&format!("{real}\\OpenInterpreter\\home"));
        let linked = format!("{temporary}\\linked");
        world.junction(&real, &linked);
        let directory = format!("{linked}\\OpenInterpreter\\home\\.sandbox-bin");

        let error = world
            .open_or_create(&directory)
            .expect_err("ancestor directory junction must be rejected");
        assert!(error.message(&directory).contains("reparse point"));
        assert!(!world.has_path(&format!("{real}\\OpenInterpreter\\home\\.sandbox-bin")));
    }
}

#[test]
fn rejects_directory_symlink_component_when_symlinks_are_permitted() {
    let mut world = World::with_disk('C');
    world.create_dir_all("C:\\temp\\real\\home");
    world.link(SYMLINK_TAG, "C:\\temp\\real", "C:\\temp\\linked");

    world
        .open_or_create("C:\\temp\\linked\\home\\.sandbox-bin")
        .expect_err("directory symlink component must be rejected");
    world
        .open_or_create("C:\\temp\\linked")
        .expect_err("final directory symlink must be rejected");
    assert!(!world.has_path("C:\\temp\\real\\home\\.sandbox-bin"));
}

#[test]
fn rejects_drive_letter_that_does_not_map_to_a_volume_root() {
    let mut world = World::with_disk('C');
    let root = world.create_dir_all("C:\\temp");
    world.create_dir_all("C:\\temp\\home");
    world.drives.insert(
        'Z',
        Drive {
            root,
            device_type: FILE_DEVICE_DISK,
            characteristics: 0,
            name: String::from("\\temp"),
        },
    );

    let error = world
        .open_or_create("Z:\\home\\.sandbox-bin")
        .expect_err("a subst drive must not be accepted as a volume root");
    assert!(error.message("Z:\\home\\.sandbox-bin").contains("volume root"));
    assert!(!world.has_path("C:\\temp\\home\\.sandbox-bin"));
}

#[test]
fn rejects_non_local_or_non_normalized_paths() {
    for rejected in [
        r"relative\.sandbox-bin",
        r"C:relative\.sandbox-bin",
        r"\\server\share\.sandbox-bin",
        r"\\?\UNC\server\share\.sandbox-bin",
        r"C:\home\..\.sandbox-bin",
        r"\\?\C:\home\..\.sandbox-bin",
        r"\\?\C:\home\.\.sandbox-bin",
        r"C:\home\.sandbox-bin:stream",
        r"\\?\C:\home/.sandbox-bin",
        r"C:\",
    ] {
        let accepted = match split_local_drive_path(&wide(rejected)) {
            Ok((_, components)) => !components.is_empty(),
            Err(_) => false,
        };
        assert!(!accepted, "path must be rejected: {rejected}");
    }
}

#[test]
fn splits_drive_root_from_filesystem_components() {
    let (root, components) =
        split_local_drive_path(&wide(r"D:\AI\OpenInterpreter\home\.sandbox-bin")).expect("split");

    assert_eq!(narrow(&root), r"\??\D:\");
    assert_eq!(
        components.iter().map(|name| narrow(name)).collect::<Vec<String>>(),
        vec!["AI", "OpenInterpreter", "home", ".sandbox-bin"]
    );
}

// ---- what the walk asks for ----

#[test]
fn a_directory_with_a_harmless_reparse_tag_is_passed() {
    let mut world = World::with_disk('C');
    world.create_dir_all("C:\\temp\\real");
    world.link(CLOUD_TAG, "C:\\temp\\real", "C:\\temp\\cloud");

    world.open_or_create("C:\\temp\\cloud\\.sandbox-bin").expect("not a name surrogate");
}

#[test]
fn a_drive_root_with_any_reparse_tag_is_rejected() {
    let mut world = World::with_disk('C');
    world.create_dir_all("C:\\home");
    let root = world.find("C:\\").expect("root");
    world.nodes[root].reparse = Some((CLOUD_TAG, root));

    assert_eq!(world.open_or_create("C:\\home\\.sandbox-bin"), Err(AclError::ReparsePoint));
    assert_eq!(world.requests.len(), 1);
}

#[test]
fn every_component_is_opened_from_the_handle_before_it() {
    let mut world = World::with_disk('C');
    world.create_dir_all("C:\\a\\b");

    world.open_or_create("c:/a/./b//leaf").expect("open");

    let requests = &world.requests;
    assert_eq!(requests.len(), 4);
    assert_eq!(narrow(&requests[0].buffer), "\\??\\C:\\\0");
    assert_eq!(requests[0].root_directory, 0);
    assert_eq!(requests[0].attributes, 0x40);
    assert_eq!(requests[0].desired_access, 0xA0);
    assert_eq!(requests[0].create_disposition, 1);
    assert_eq!(requests[0].share_access, 7);
    assert_eq!(requests[0].file_attributes, 0x80);
    for (index, name, path) in [(1, "a\0", "C:\\"), (2, "b\0", "C:\\a"), (3, "leaf\0", "C:\\a\\b")]
    {
        let request = &requests[index];
        assert_eq!(narrow(&request.buffer), name);
        assert_eq!(Some(node_of(request.root_directory)), world.find(path));
        assert_eq!(request.attributes, 0x1040);
    }
    assert_eq!(requests[2].desired_access, 0xA0);
    assert_eq!(requests[2].create_disposition, 1);
    assert_eq!(requests[3].desired_access, 0x6_0080);
    assert_eq!(requests[3].create_disposition, 3);
}

#[test]
fn reading_an_existing_directory_creates_nothing() {
    let mut world = World::with_disk('C');
    world.create_dir_all("C:\\home");
    let walk =
        open_existing_no_reparse_for_read_control(&wide("C:\\home\\.sandbox-bin")).expect("path");

    let error = world.walk(walk).expect_err("the directory does not exist");

    assert_eq!(error, AclError::OpenFailed { os_error: 2 });
    assert!(!world.has_path("C:\\home\\.sandbox-bin"));
    let last = world.requests.last().expect("a request");
    assert_eq!(last.desired_access, 0x2_0080);
    assert_eq!(last.create_disposition, 1);
}

#[test]
fn a_name_too_long_for_a_counted_string_ends_the_walk() {
    let mut world = World::with_disk('C');
    let longest = "x".repeat(32766);

    assert!(world.open_or_create(&format!("C:\\{longest}")).is_ok());
    assert_eq!(world.open_or_create(&format!("C:\\{longest}x")), Err(AclError::NameTooLong));
}

#[test]
fn a_path_without_a_directory_starts_no_walk() {
    for path in ["C:\\", "\\\\?\\C:\\", "C:\\.\\"] {
        assert_eq!(
            open_or_create_no_reparse(&wide(path)).expect_err("no directory"),
            AclError::NoDirectoryComponent
        );
    }
}

// ---- locks: allowed ----

#[test]
fn locks_real_directory_through_verified_handle_on_every_test_drive() {
    for (mut world, temporary) in test_drives() {
        let sandbox_bin = world.writable_real_directory(temporary, "home");

        world.lock(&sandbox_bin, SANDBOX_BIN_GROUP_MASK).expect("lock real directory");

        let text = sddl(&world.security_of(&sandbox_bin, true));
        assert!(
            text.contains("(A;OICI;0x1200a9;;;BU)"),
            "sandbox group read ACE missing: {text}"
        );
        assert!(text.contains("(A;OICI;0x1301bf;;;S-1-5-21-1-2-3-1001)"));
    }
}

#[test]
fn creates_and_locks_missing_final_directory_on_every_test_drive() {
    for (mut world, temporary) in test_drives() {
        world.create_dir_all(&format!("{temporary}\\home"));
        let sandbox_bin = format!("{temporary}\\home\\.sandbox-bin");

        world.lock(&sandbox_bin, SANDBOX_BIN_GROUP_MASK).expect("create and lock");

        assert!(world.has_path(&sandbox_bin));
    }
}

#[test]
fn accepts_existing_identical_lock_without_write_dac_on_every_test_drive() {
    for (mut world, temporary) in test_drives() {
        let sandbox_bin =
            world.locked_without_write_dac(temporary, "home", SANDBOX_BIN_GROUP_MASK);
        let before = world.security_of(&sandbox_bin, true);

        world
            .lock(&sandbox_bin, SANDBOX_BIN_GROUP_MASK)
            .expect("refresh must accept an existing identical lock");

        assert_eq!(world.security_of(&sandbox_bin, true), before);
    }
}

// ---- locks: rejected ----

#[test]
fn rejects_existing_lock_with_different_aces_without_write_dac() {
    let mut world = World::with_disk('C');
    // The existing DACL lets the sandbox group write; the required lock does not.
    let sandbox_bin = world.locked_without_write_dac(
        "C:\\temp",
        "home",
        FILE_GENERIC_READ | FILE_GENERIC_WRITE | FILE_GENERIC_EXECUTE | DELETE,
    );
    let before = world.security_of(&sandbox_bin, true);

    let result = world.lock(&sandbox_bin, SANDBOX_BIN_GROUP_MASK);

    assert!(assert_rejected(&result, &sandbox_bin, CAUSE, "does not match"));
    assert_eq!(world.security_of(&sandbox_bin, true), before);
}

#[test]
fn rejects_unlocked_directory_without_write_dac() {
    let mut world = World::with_disk('C');
    let sandbox_bin = world.writable_real_directory("C:\\temp", "home");
    let node = world.find(&sandbox_bin).expect("directory");
    world.nodes[node].write_dac_denied = true;
    let before = world.security_of(&sandbox_bin, true);

    let result = world.lock(&sandbox_bin, SANDBOX_BIN_GROUP_MASK);

    assert!(assert_rejected(&result, &sandbox_bin, CAUSE, "does not match"));
    assert_eq!(world.security_of(&sandbox_bin, true), before);
}

#[test]
fn rejects_missing_sandbox_home_without_creating_it() {
    for (mut world, temporary) in test_drives() {
        let home = format!("{temporary}\\missing-home");
        let sandbox_bin = format!("{home}\\.sandbox-bin");

        let result = world.lock(&sandbox_bin, SANDBOX_BIN_GROUP_MASK);

        assert!(assert_rejected(&result, &sandbox_bin, CAUSE, "open sandbox ACL directory"));
        assert!(assert_rejected(&result, &sandbox_bin, CAUSE, "(os error 2)"));
        assert!(!world.has_path(&home), "the sandbox home must not be created");
    }
}

fn rejected_through_junction(locked: bool, ancestor: bool) {
    for (mut world, temporary) in test_drives() {
        let target = if locked {
            world.locked_without_write_dac(temporary, "real-home", SANDBOX_BIN_GROUP_MASK)
        } else {
            world.writable_real_directory(temporary, "real-home")
        };
        let (link, path) = if ancestor {
            let link = format!("{temporary}\\linked-home");
            world.junction(&format!("{temporary}\\real-home"), &link);
            (link.clone(), format!("{link}\\.sandbox-bin"))
        } else {
            world.create_dir_all(&format!("{temporary}\\other-home"));
            let link = format!("{temporary}\\other-home\\.sandbox-bin");
            world.junction(&target, &link);
            (link.clone(), link)
        };
        let objects = [(target.as_str(), true), (link.as_str(), false)];
        let before = world.snapshot(&objects);
        assert_ne!(before[0], before[1]);

        let result = world.lock(&path, SANDBOX_BIN_GROUP_MASK);

        assert!(assert_rejected(&result, &path, CAUSE, "reparse point"));
        assert_eq!(world.snapshot(&objects), before);
    }
}

#[test]
fn rejects_final_junction_to_locked_directory_on_every_test_drive() {
    rejected_through_junction(true, false);
}

#[test]
fn rejects_final_junction_to_writable_directory_on_every_test_drive() {
    rejected_through_junction(false, false);
}

#[test]
fn rejects_ancestor_junction_to_locked_directory_on_every_test_drive() {
    rejected_through_junction(true, true);
}

#[test]
fn rejects_ancestor_junction_to_writable_directory_on_every_test_drive() {
    rejected_through_junction(false, true);
}

#[test]
fn rejects_directory_symlinks_when_permitted() {
    let mut world = World::with_disk('C');
    let target = world.writable_real_directory("C:\\temp", "real-home");
    world.create_dir_all("C:\\temp\\other-home");
    let final_link = "C:\\temp\\other-home\\.sandbox-bin";
    world.link(SYMLINK_TAG, &target, final_link);
    world.link(SYMLINK_TAG, "C:\\temp\\real-home", "C:\\temp\\linked-home");
    let ancestor_link = "C:\\temp\\linked-home\\.sandbox-bin";
    let objects =
        [(target.as_str(), true), (final_link, false), ("C:\\temp\\linked-home", false)];
    let before = world.snapshot(&objects);

    let final_result = world.lock(final_link, SANDBOX_BIN_GROUP_MASK);
    let ancestor_result = world.lock(ancestor_link, SANDBOX_BIN_GROUP_MASK);

    assert!(assert_rejected(&final_result, final_link, CAUSE, "reparse point"));
    assert!(assert_rejected(&ancestor_result, ancestor_link, CAUSE, "reparse point"));
    assert_eq!(world.snapshot(&objects), before);
}

#[test]
fn rejects_volume_mount_point_when_permitted() {
    let mut world = World::with_disk('C');
    world.create_dir_all("C:\\test\\home");
    world.create_dir_all("C:\\test\\mounted-volume");
    world.mount('C', "C:\\test\\mounted-volume");
    let objects = [("C:\\test\\mounted-volume", false), ("C:\\test\\home", true)];
    let before = world.snapshot(&objects);
    let path = "C:\\test\\mounted-volume\\test\\home\\.sandbox-bin";

    let result = world.lock(path, SANDBOX_BIN_GROUP_MASK);

    assert!(assert_rejected(&result, path, CAUSE, "reparse point"));
    assert_eq!(world.snapshot(&objects), before);
    assert!(!world.has_path("C:\\test\\home\\.sandbox-bin"));
}

/// Maps an unused drive letter to a node.
fn map_drive(world: &mut World, root: usize, characteristics: u32, name: &str) -> char {
    let existing: Vec<char> = world.drives.keys().copied().collect();
    let letter = unused_drive_letter(&existing).expect("an unused drive letter");
    world.drives.insert(
        letter,
        Drive { root, device_type: FILE_DEVICE_DISK, characteristics, name: String::from(name) },
    );
    letter
}

#[test]
fn rejects_subst_drive() {
    let mut world = World::with_disk('C');
    let root = world.create_dir_all("C:\\temp");
    world.create_dir_all("C:\\temp\\home");
    let letter = map_drive(&mut world, root, 0, "\\temp");
    let path = format!(r"{letter}:\home\.sandbox-bin");

    let result = world.lock(&path, SANDBOX_BIN_GROUP_MASK);

    assert!(assert_rejected(&result, &path, CAUSE, "volume root"));
    assert!(!world.has_path("C:\\temp\\home\\.sandbox-bin"));
}

#[test]
fn rejects_network_drive_letter_when_mapping_is_permitted() {
    let mut world = World::with_disk('C');
    world.create_dir_all("C:\\temp\\home");
    let root = world.find("C:\\").expect("root");
    let letter = map_drive(&mut world, root, FILE_REMOTE_DEVICE, "\\localhost\\C$");
    let path = format!("{letter}:\\temp\\home\\.sandbox-bin");

    let result = world.lock(&path, SANDBOX_BIN_GROUP_MASK);

    assert!(assert_rejected(&result, &path, CAUSE, "local disk volume"));
    assert!(!world.has_path("C:\\temp\\home\\.sandbox-bin"));
}

#[test]
fn rejects_unc_network_paths() {
    let mut world = World::with_disk('C');
    world.create_dir_all("C:\\temp\\home");
    let (letter, relative) = drive_letter_and_relative(&wide("C:\\temp"));
    assert_eq!(relative, vec![Component::Normal(wide("temp"))]);
    let relative = "temp";

    for unc in [
        format!(r"\\localhost\{letter}$\{relative}\home\.sandbox-bin"),
        format!(r"\\?\UNC\localhost\{letter}$\{relative}\home\.sandbox-bin"),
    ] {
        let result = world.lock(&unc, SANDBOX_BIN_GROUP_MASK);
        assert!(assert_rejected(&result, &unc, CAUSE, "local disk prefix"));
    }
    assert!(!world.has_path("C:\\temp\\home\\.sandbox-bin"));
}

#[test]
fn the_owner_loses_the_right_to_change_the_list() {
    assert_eq!(
        remove_write_dac_below("S-1-5-21-7"),
        "D:P(A;OICI;0x1301bf;;;OW)(A;OICI;0x1301bf;;;S-1-5-21-7)(A;OICI;FA;;;SY)"
    );
}

#[test]
fn a_lock_keeps_its_masks() {
    let lock = lock_sandbox_bin(&wide("C:\\home\\.sandbox-bin"), 0x1200a9).expect("lock");
    assert_eq!(lock.group_access_mode, 1);
    assert_eq!(lock.group_mask, 0x1200a9);
    assert_eq!(lock.real_user_mask, 0x1301bf);
    assert_eq!(
        lock_sandbox_bin(&wide("home"), 0).expect_err("relative"),
        AclError::NotAbsolute
    );
}

#[test]
fn a_drive_prefix_keeps_its_letter_in_upper_case() {
    let (letter, relative) = drive_letter_and_relative(&wide(r"\\?\m:\a\..\b"));
    assert_eq!(letter, 'M');
    assert_eq!(
        relative,
        vec![
            Component::Normal(wide("a")),
            Component::ParentDir,
            Component::Normal(wide("b")),
        ]
    );
    assert_ne!(Prefix::Disk(b'M'), Prefix::VerbatimDisk(b'M'));
}
