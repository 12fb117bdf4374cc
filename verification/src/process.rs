//! Process launcher rules: which file descriptors the child inherits,
//! and where its standard streams point.
//!
//! The launcher spawns exactly one child.  Between fork and exec the
//! POSIX backend walks the process's open descriptors and keeps only an
//! explicit allow-list (the executable being exec'd, the three standard
//! streams, and the descriptors the caller passed); the Win32 backend
//! hands the same list to process creation as its inheritable-handle
//! set.  The decisions live here; the system calls that act on them are
//! the platform layer's.

use vstd::prelude::*;

verus! {

/// The standard input descriptor.
pub const STDIN_FILENO: i32 = 0;

/// The standard output descriptor.
pub const STDOUT_FILENO: i32 = 1;

/// The standard error descriptor.
pub const STDERR_FILENO: i32 = 2;

/// Whether an open descriptor survives into the child: exactly the
/// executable's own descriptor, the three standard streams, and the
/// caller's extra descriptors; everything else is withheld.
pub open spec fn spec_fd_is_inherited(fd: i32, executable_fd: i32, extra_fds: Seq<i32>) -> bool {
    ||| fd == executable_fd
    ||| fd == STDIN_FILENO
    ||| fd == STDOUT_FILENO
    ||| fd == STDERR_FILENO
    ||| extra_fds.contains(fd)
}

/// Decides whether descriptor `fd` is on the child's allow-list.
pub fn fd_is_inherited(fd: i32, executable_fd: i32, extra_fds: &Vec<i32>) -> (r: bool)
    ensures
        r == spec_fd_is_inherited(fd, executable_fd, extra_fds@),
{
    if fd == executable_fd || fd == STDIN_FILENO || fd == STDOUT_FILENO || fd == STDERR_FILENO {
        return true;
    }
    let mut i: usize = 0;
    while i < extra_fds.len()
        invariant
            i <= extra_fds@.len(),
            forall|j: int| 0 <= j < i ==> extra_fds@[j] != fd,
        decreases extra_fds@.len() - i,
    {
        if extra_fds[i] == fd {
            return true;
        }
        i = i + 1;
    }
    proof {
        assert(!extra_fds@.contains(fd));
    }
    false
}

/// The duplications that wire the child's standard streams: each of
/// stdin, stdout and stderr is redirected to the caller's descriptor,
/// or to the opened null device when the caller passed none.
pub fn stdio_redirections(
    stdin: Option<i32>,
    stdout: Option<i32>,
    stderr: Option<i32>,
    null_fd: i32,
) -> (plan: Vec<(i32, i32)>)
    ensures
        plan@.len() == 3,
        plan@[0] == (
            match stdin {
                Some(fd) => fd,
                None => null_fd,
            },
            STDIN_FILENO,
        ),
        plan@[1] == (
            match stdout {
                Some(fd) => fd,
                None => null_fd,
            },
            STDOUT_FILENO,
        ),
        plan@[2] == (
            match stderr {
                Some(fd) => fd,
                None => null_fd,
            },
            STDERR_FILENO,
        ),
    {
        let mut plan: Vec<(i32, i32)> = Vec::new();
        plan.push((
            match stdin {
                Some(fd) => fd,
                None => null_fd,
            },
            STDIN_FILENO,
        ));
        plan.push((
            match stdout {
                Some(fd) => fd,
                None => null_fd,
            },
            STDOUT_FILENO,
        ));
        plan.push((
            match stderr {
                Some(fd) => fd,
                None => null_fd,
            },
            STDERR_FILENO,
        ));
        plan
    }

} // verus!
