# sandbox_acl

Locking a sandbox directory on Windows means writing its access control list. The
list must land on the directory that the path really names: not on the target of a
junction, a symlink, a mount point, a `subst` drive or a network drive.

The library in `src/` makes every decision on the way and is verified with Verus. It
makes no system call. A `DirectoryWalk` says which call comes next and reads the
answer; the code in `app/` makes the calls.

- `wide_path` takes Windows paths apart.
- `drive_path` accepts absolute paths on a local drive with plain names only.
- `no_reparse_dir` opens a directory component by component.
- `explicit_dacl` compares the explicit entries of two access control lists.
- `sandbox_lock` says how a lock goes on, and when an existing lock will do.
- `security_text` reads security information as text.
- `error` and `text` report what went wrong; `nt` holds the numbers of the system.

The files that end in `_laws` state and prove what holds across calls, such as that a
walk that ends with a directory has had every handle on the way checked.

The tests run walks and locks on simulated volumes.
