//! The syscall dispatcher: decodes `(module, function, args)` triples, reads
//! user buffers through the translation machinery, and returns a tagged
//! outcome. Console output is not performed here: the bytes a write produces
//! are appended to a sink the caller hands in, and the surrounding program
//! sends them to the console.

use vstd::prelude::*;
use crate::mem::{read_user_bytes, user_bytes_ok, user_bytes_spec, PhysMemory};
use crate::space::PagedAddrSpace;

verus! {

/// Module identifier of process-control calls.
pub const MODULE_PROCESS: u64 = 0x114514;

/// Exit the task; the exit code rides in the first argument.
pub const FUNCTION_PROCESS_EXIT: u64 = 0x1919810;

/// Report a user panic: line, column, file pointer and length, message
/// pointer and length; a null pointer means the part is absent.
pub const FUNCTION_PROCESS_PANIC: u64 = 0x11451419;

/// Module identifier of the test interface.
pub const MODULE_TEST_INTERFACE: u64 = 0x233666;

/// Write a buffer: file descriptor, buffer pointer, length.
pub const FUNCTION_TEST_WRITE: u64 = 0x666233;

/// The only file descriptor the write call supports.
pub const STDOUT_FD: u64 = 1;

/// Returned in `SyscallResult::code` when a user buffer cannot be read:
/// a page under it is unmapped, lacks read access, or lies outside memory.
pub const SYSCALL_BAD_ADDRESS: u64 = u64::MAX;

/// What the dispatcher tells the kernel to do next.
pub enum SyscallOperation {
    /// Hand a return pair back to the user and resume it.
    Return(SyscallResult),
    /// End the task with an exit code.
    Terminate(i32),
    /// The user panicked: file name bytes, line, column, message bytes.
    UserPanic(Option<Vec<u8>>, u32, u32, Option<Vec<u8>>),
}

/// Return pair written into the user's first two argument registers.
pub struct SyscallResult {
    pub code: u64,
    pub extra: u64,
}

/// Mathematical image of a `SyscallOperation`.
pub enum SyscallEvent {
    Return(u64, u64),
    Terminate(i32),
    UserPanic(Option<Seq<u8>>, u32, u32, Option<Seq<u8>>),
}

impl View for SyscallOperation {
    type V = SyscallEvent;

    open spec fn view(&self) -> SyscallEvent {
        match self {
            SyscallOperation::Return(r) => SyscallEvent::Return(r.code, r.extra),
            SyscallOperation::Terminate(c) => SyscallEvent::Terminate(*c),
            SyscallOperation::UserPanic(f, line, col, m) => SyscallEvent::UserPanic(
                match f {
                    Some(v) => Some(v@),
                    None => None,
                },
                *line,
                *col,
                match m {
                    Some(v) => Some(v@),
                    None => None,
                },
            ),
        }
    }
}

/// The triples the dispatcher accepts; an educational kernel simply panics
/// on any other, so they are excluded here.
pub open spec fn syscall_known(module: u64, function: u64, args: Seq<u64>) -> bool {
    ||| (module == MODULE_PROCESS && (function == FUNCTION_PROCESS_EXIT || function
        == FUNCTION_PROCESS_PANIC))
    ||| (module == MODULE_TEST_INTERFACE && function == FUNCTION_TEST_WRITE && args[0]
        == STDOUT_FD)
}

/// A panic string argument: absent when null, the buffer's bytes when
/// readable, absent again when the pointer cannot be read.
pub open spec fn panic_str_spec(
    s: PagedAddrSpace,
    mem: PhysMemory,
    ptr: u64,
    len: u64,
) -> Option<Seq<u8>> {
    if ptr == 0 {
        None
    } else if user_bytes_ok(s, mem, ptr as nat, len as nat) {
        Some(user_bytes_spec(s, mem, ptr as nat, len as nat))
    } else {
        None
    }
}

/// What a known triple decodes to, and the bytes it sends to the console.
pub open spec fn syscall_spec(
    module: u64,
    function: u64,
    args: Seq<u64>,
    s: PagedAddrSpace,
    mem: PhysMemory,
) -> (SyscallEvent, Seq<u8>) {
    if module == MODULE_PROCESS {
        if function == FUNCTION_PROCESS_EXIT {
            (SyscallEvent::Terminate(args[0] as i32), Seq::empty())
        } else {
            (
                SyscallEvent::UserPanic(
                    panic_str_spec(s, mem, args[2], args[3]),
                    args[0] as u32,
                    args[1] as u32,
                    panic_str_spec(s, mem, args[4], args[5]),
                ),
                Seq::empty(),
            )
        }
    } else {
        if user_bytes_ok(s, mem, args[1] as nat, args[2] as nat) {
            (
                SyscallEvent::Return(0, args[2]),
                user_bytes_spec(s, mem, args[1] as nat, args[2] as nat),
            )
        } else {
            (SyscallEvent::Return(SYSCALL_BAD_ADDRESS, 0), Seq::empty())
        }
    }
}

/// Decodes one syscall. Buffer-bearing calls go through the page tables of
/// the user's address space; the bytes written are appended to `console`.
pub fn syscall(
    module: u64,
    function: u64,
    args: [u64; 6],
    user_as: &PagedAddrSpace,
    mem: &PhysMemory,
    console: &mut Vec<u8>,
) -> (r: SyscallOperation)
    requires
        user_as.wf(),
        mem.wf(),
        syscall_known(module, function, args@),
        module == MODULE_TEST_INTERFACE ==> args@[1] + args@[2] <= u64::MAX,
        module == MODULE_PROCESS && function == FUNCTION_PROCESS_PANIC ==> args@[2] + args@[3]
            <= u64::MAX && args@[4] + args@[5] <= u64::MAX,
    ensures
        r@ == syscall_spec(module, function, args@, *user_as, *mem).0,
        final(console)@ == old(console)@ + syscall_spec(module, function, args@, *user_as, *mem).1,
{
    if module == MODULE_PROCESS {
        let r = do_process(function, args, user_as, mem);
        proof {
            assert(console@ =~= old(console)@ + Seq::<u8>::empty());
        }
        r
    } else {
        do_test_interface(function, [args[0], args[1], args[2]], user_as, mem, console)
    }
}

/// Process-control calls: exit and user panic.
fn do_process(
    function: u64,
    args: [u64; 6],
    user_as: &PagedAddrSpace,
    mem: &PhysMemory,
) -> (r: SyscallOperation)
    requires
        user_as.wf(),
        mem.wf(),
        function == FUNCTION_PROCESS_EXIT || function == FUNCTION_PROCESS_PANIC,
        function == FUNCTION_PROCESS_PANIC ==> args@[2] + args@[3] <= u64::MAX && args@[4]
            + args@[5] <= u64::MAX,
    ensures
        r@ == syscall_spec(MODULE_PROCESS, function, args@, *user_as, *mem).0,
{
    if function == FUNCTION_PROCESS_EXIT {
        SyscallOperation::Terminate(args[0] as i32)
    } else {
        let file = read_panic_str(user_as, mem, args[2], args[3]);
        let msg = read_panic_str(user_as, mem, args[4], args[5]);
        SyscallOperation::UserPanic(file, args[0] as u32, args[1] as u32, msg)
    }
}

/// One panic string argument, read through the page tables.
pub(crate) fn read_panic_str(user_as: &PagedAddrSpace, mem: &PhysMemory, ptr: u64, len: u64) -> (r: Option<
    Vec<u8>,
>)
    requires
        user_as.wf(),
        mem.wf(),
        ptr + len <= u64::MAX,
    ensures
        (match r {
            Some(v) => Some(v@),
            None => None,
        }) == panic_str_spec(*user_as, *mem, ptr, len),
{
    if ptr == 0 {
        None
    } else {
        read_user_bytes(user_as, mem, ptr, len)
    }
}

/// The test interface: write a user buffer to the console sink.
fn do_test_interface(
    function: u64,
    args: [u64; 3],
    user_as: &PagedAddrSpace,
    mem: &PhysMemory,
    console: &mut Vec<u8>,
) -> (r: SyscallOperation)
    requires
        user_as.wf(),
        mem.wf(),
        function == FUNCTION_TEST_WRITE,
        args@[0] == STDOUT_FD,
        args@[1] + args@[2] <= u64::MAX,
    ensures
        ({
            let spec = syscall_spec(
                MODULE_TEST_INTERFACE,
                FUNCTION_TEST_WRITE,
                seq![args@[0], args@[1], args@[2], 0u64, 0u64, 0u64],
                *user_as,
                *mem,
            );
            r@ == spec.0 && final(console)@ == old(console)@ + spec.1
        }),
{
    let buf = args[1];
    let len = args[2];
    match read_user_bytes(user_as, mem, buf, len) {
        Some(bytes) => {
            let mut bytes = bytes;
            console.append(&mut bytes);
            SyscallOperation::Return(SyscallResult { code: 0, extra: len })
        },
        None => {
            proof {
                assert(console@ =~= old(console)@ + Seq::<u8>::empty());
            }
            SyscallOperation::Return(SyscallResult { code: SYSCALL_BAD_ADDRESS, extra: 0 })
        },
    }
}

} // verus!
