//! The runtime: the kernel's view of its one user task.
//!
//! The hardware side of `resume` — jumping through the trampoline's
//! `restore_context`, running user code, and re-entering the kernel at
//! `trap_save_and_return` — belongs to the surrounding program. This module
//! holds the state machine around it: the resume context the trampoline reads
//! and writes, and the decision, on each trap, of which event the kernel main
//! loop sees next.

use vstd::prelude::*;
use crate::addr::VirtAddr;
use crate::mem::PhysMemory;
use crate::space::PagedAddrSpace;
use crate::syscall::{
    panic_str_spec, read_panic_str, FUNCTION_PROCESS_EXIT, FUNCTION_PROCESS_PANIC, MODULE_PROCESS,
};

verus! {

/// sstatus bit: previous interrupt enable.
pub const SSTATUS_SPIE: u64 = 0x20;

/// sstatus bit: previous privilege level (clear means user).
pub const SSTATUS_SPP: u64 = 0x100;

/// scause of an environment call from user mode.
pub const SCAUSE_USER_ECALL: u64 = 8;

/// The register file and trap data shared with the trampoline, at a fixed
/// layout agreed between kernel and trampoline: 32 general registers (index 0
/// unused), the user's program counter and status, the trap cause and value,
/// and the kernel's own satp, stack pointer and trap-handler address.
pub struct ResumeContext {
    pub x: Vec<u64>,
    pub sepc: u64,
    pub sstatus: u64,
    pub scause: u64,
    pub stval: u64,
    pub kernel_satp: u64,
    pub kernel_sp: u64,
    pub kernel_trap_handler_va: u64,
}

impl ResumeContext {
    pub open spec fn wf(self) -> bool {
        self.x@.len() == 32
    }
}

/// Where the task stands.
#[derive(Clone, Copy, PartialEq, Eq, Structural, Debug)]
pub enum RunState {
    /// Built, never resumed.
    Fresh,
    /// Between traps.
    Running,
    /// Exited or panicked; stays terminated.
    Terminated,
}

/// What the trampoline saved when the user trapped back.
pub struct TrapRecord {
    pub x: Vec<u64>,
    pub scause: u64,
    pub stval: u64,
    pub sepc: u64,
}

impl TrapRecord {
    pub open spec fn wf(self) -> bool {
        self.x@.len() == 32
    }
}

/// The state machine over one user task.
pub struct Runtime {
    pub state: RunState,
    pub context: ResumeContext,
    pub user_satp: u64,
    pub trampoline_text_va: u64,
    pub trampoline_data_va: u64,
}

impl Runtime {
    pub open spec fn wf(self) -> bool {
        self.context.wf()
    }
}

/// One step of the lazy sequence the kernel main loop drives.
pub enum RuntimeEvent {
    /// An environment call the kernel is to handle; the kernel answers with
    /// `write_syscall_result` before the next resume.
    Syscall { module: u64, function: u64, args: Vec<u64> },
    /// The task called process-exit.
    UserExited { code: i32 },
    /// The task called process-panic.
    UserPanic { file: Option<Vec<u8>>, line: u32, col: u32, msg: Option<Vec<u8>> },
    /// Any other trap.
    Exception { scause: u64, stval: u64, sepc: u64 },
    /// The task was already terminated.
    Terminated,
}

/// Mathematical image of a `RuntimeEvent`.
pub enum RuntimeEventSpec {
    Syscall { module: u64, function: u64, args: Seq<u64> },
    UserExited { code: i32 },
    UserPanic { file: Option<Seq<u8>>, line: u32, col: u32, msg: Option<Seq<u8>> },
    Exception { scause: u64, stval: u64, sepc: u64 },
    Terminated,
}

impl View for RuntimeEvent {
    type V = RuntimeEventSpec;

    open spec fn view(&self) -> RuntimeEventSpec {
        match self {
            RuntimeEvent::Syscall { module, function, args } => RuntimeEventSpec::Syscall {
                module: *module,
                function: *function,
                args: args@,
            },
            RuntimeEvent::UserExited { code } => RuntimeEventSpec::UserExited { code: *code },
            RuntimeEvent::UserPanic { file, line, col, msg } => RuntimeEventSpec::UserPanic {
                file: match file {
                    Some(v) => Some(v@),
                    None => None,
                },
                line: *line,
                col: *col,
                msg: match msg {
                    Some(v) => Some(v@),
                    None => None,
                },
            },
            RuntimeEvent::Exception { scause, stval, sepc } => RuntimeEventSpec::Exception {
                scause: *scause,
                stval: *stval,
                sepc: *sepc,
            },
            RuntimeEvent::Terminated => RuntimeEventSpec::Terminated,
        }
    }
}

/// A panic string read from arbitrary user registers: absent when the pointer
/// is null or the pointer arithmetic itself would wrap.
pub open spec fn panic_str_checked(
    s: PagedAddrSpace,
    mem: PhysMemory,
    ptr: u64,
    len: u64,
) -> Option<Seq<u8>> {
    if ptr + len <= u64::MAX {
        panic_str_spec(s, mem, ptr, len)
    } else {
        None
    }
}

/// The full step relation of `on_trap`: how one trap record moves the runtime
/// and which event it surfaces.
pub open spec fn on_trap_post(
    pre: Runtime,
    post: Runtime,
    trap: TrapRecord,
    s: PagedAddrSpace,
    mem: PhysMemory,
    ev: RuntimeEventSpec,
) -> bool {
    let cfg_same = post.user_satp == pre.user_satp && post.trampoline_text_va
        == pre.trampoline_text_va && post.trampoline_data_va == pre.trampoline_data_va;
    if pre.state == RunState::Terminated {
        &&& cfg_same
        &&& ev == RuntimeEventSpec::Terminated
        &&& post.state == RunState::Terminated
        &&& post.context == pre.context
    } else {
        &&& cfg_same
        &&& post.context.x@ == trap.x@
        &&& post.context.scause == trap.scause
        &&& post.context.stval == trap.stval
        &&& post.context.sepc == trap.sepc
        &&& post.context.sstatus == pre.context.sstatus
        &&& post.context.kernel_satp == pre.context.kernel_satp
        &&& post.context.kernel_sp == pre.context.kernel_sp
        &&& post.context.kernel_trap_handler_va == pre.context.kernel_trap_handler_va
        &&& if trap.scause == SCAUSE_USER_ECALL {
            if trap.x@[17] == MODULE_PROCESS && trap.x@[16] == FUNCTION_PROCESS_EXIT {
                ev == RuntimeEventSpec::UserExited { code: trap.x@[10] as i32 } && post.state
                    == RunState::Terminated
            } else if trap.x@[17] == MODULE_PROCESS && trap.x@[16] == FUNCTION_PROCESS_PANIC {
                ev == RuntimeEventSpec::UserPanic {
                    file: panic_str_checked(s, mem, trap.x@[12], trap.x@[13]),
                    line: trap.x@[10] as u32,
                    col: trap.x@[11] as u32,
                    msg: panic_str_checked(s, mem, trap.x@[14], trap.x@[15]),
                } && post.state == RunState::Terminated
            } else {
                ev == RuntimeEventSpec::Syscall {
                    module: trap.x@[17],
                    function: trap.x@[16],
                    args: seq![
                        trap.x@[10],
                        trap.x@[11],
                        trap.x@[12],
                        trap.x@[13],
                        trap.x@[14],
                        trap.x@[15],
                    ],
                } && post.state == RunState::Running
            }
        } else {
            ev == RuntimeEventSpec::Exception {
                scause: trap.scause,
                stval: trap.stval,
                sepc: trap.sepc,
            } && post.state == RunState::Running
        }
    }
}

impl Runtime {
    /// A runtime for one user task: program counter at the entry point, stack
    /// pointer at the stack top, status set to return to user mode with
    /// interrupts to be re-enabled, every other register clear.
    pub fn new_user(
        user_entry_pa: u64,
        user_stack_va: VirtAddr,
        user_satp: u64,
        trampoline_text_va: VirtAddr,
        trampoline_data_va: VirtAddr,
    ) -> (r: Runtime)
        ensures
            r.wf(),
            r.state == RunState::Fresh,
            r.context.sepc == user_entry_pa,
            r.context.x@[2] == user_stack_va.0,
            forall|i: int| 0 <= i < 32 && i != 2 ==> r.context.x@[i] == 0,
            r.context.sstatus == SSTATUS_SPIE,
            r.user_satp == user_satp,
            r.trampoline_text_va == trampoline_text_va.0,
            r.trampoline_data_va == trampoline_data_va.0,
    {
        let mut x = zero_registers();
        x.set(2, user_stack_va.0);
        Runtime {
            state: RunState::Fresh,
            context: ResumeContext {
                x,
                sepc: user_entry_pa,
                sstatus: SSTATUS_SPIE,
                scause: 0,
                stval: 0,
                kernel_satp: 0,
                kernel_sp: 0,
                kernel_trap_handler_va: 0,
            },
            user_satp,
            trampoline_text_va: trampoline_text_va.0,
            trampoline_data_va: trampoline_data_va.0,
        }
    }

    /// Records what the trampoline needs to come back: the kernel's satp, its
    /// stack top, and the trap handler's address.
    pub fn set_kernel_context(&mut self, kernel_satp: u64, kernel_sp: u64, handler_va: u64)
        requires
            old(self).wf(),
        ensures
            final(self).wf(),
            final(self).context.kernel_satp == kernel_satp,
            final(self).context.kernel_sp == kernel_sp,
            final(self).context.kernel_trap_handler_va == handler_va,
            final(self).context.x@ == old(self).context.x@,
            final(self).context.sepc == old(self).context.sepc,
            final(self).context.sstatus == old(self).context.sstatus,
            final(self).state == old(self).state,
            final(self).user_satp == old(self).user_satp,
            final(self).trampoline_text_va == old(self).trampoline_text_va,
            final(self).trampoline_data_va == old(self).trampoline_data_va,
    {
        self.context.kernel_satp = kernel_satp;
        self.context.kernel_sp = kernel_sp;
        self.context.kernel_trap_handler_va = handler_va;
    }

    /// The first half of a resume: whether the user should run at all. True
    /// moves a fresh or running task to running and the surrounding program
    /// then transfers control through the trampoline; false means the task is
    /// terminated and stays so.
    pub fn begin_resume(&mut self) -> (r: bool)
        requires
            old(self).wf(),
        ensures
            final(self).wf(),
            final(self).context == old(self).context,
            final(self).user_satp == old(self).user_satp,
            final(self).trampoline_text_va == old(self).trampoline_text_va,
            final(self).trampoline_data_va == old(self).trampoline_data_va,
            r == (old(self).state != RunState::Terminated),
            final(self).state == if old(self).state == RunState::Terminated {
                RunState::Terminated
            } else {
                RunState::Running
            },
    {
        match self.state {
            RunState::Terminated => false,
            _ => {
                self.state = RunState::Running;
                true
            },
        }
    }

    /// The second half of a resume: the trampoline saved the user's registers
    /// and trap data, and the runtime decides which event the kernel sees.
    /// Process-exit and process-panic calls terminate the task here; every
    /// other call is surfaced as a `Syscall` event for the kernel to dispatch.
    /// On a terminated runtime the event is a sticky `Terminated` and nothing
    /// changes.
    pub fn on_trap(
        &mut self,
        trap: TrapRecord,
        user_as: &PagedAddrSpace,
        mem: &PhysMemory,
    ) -> (r: RuntimeEvent)
        requires
            old(self).wf(),
            trap.wf(),
            user_as.wf(),
            mem.wf(),
        ensures
            final(self).wf(),
            on_trap_post(*old(self), *final(self), trap, *user_as, *mem, r@),
    {
        match self.state {
            RunState::Terminated => {
                return RuntimeEvent::Terminated;
            },
            _ => {},
        }
        let TrapRecord { x, scause, stval, sepc } = trap;
        self.context.x = x;
        self.context.scause = scause;
        self.context.stval = stval;
        self.context.sepc = sepc;
        if scause == SCAUSE_USER_ECALL {
            let module = self.context.x[17];
            let function = self.context.x[16];
            if module == MODULE_PROCESS && function == FUNCTION_PROCESS_EXIT {
                self.state = RunState::Terminated;
                RuntimeEvent::UserExited { code: self.context.x[10] as i32 }
            } else if module == MODULE_PROCESS && function == FUNCTION_PROCESS_PANIC {
                self.state = RunState::Terminated;
                let file = read_panic_str_checked(
                    user_as,
                    mem,
                    self.context.x[12],
                    self.context.x[13],
                );
                let msg = read_panic_str_checked(
                    user_as,
                    mem,
                    self.context.x[14],
                    self.context.x[15],
                );
                RuntimeEvent::UserPanic {
                    file,
                    line: self.context.x[10] as u32,
                    col: self.context.x[11] as u32,
                    msg,
                }
            } else {
                self.state = RunState::Running;
                let mut args: Vec<u64> = Vec::new();
                args.push(self.context.x[10]);
                args.push(self.context.x[11]);
                args.push(self.context.x[12]);
                args.push(self.context.x[13]);
                args.push(self.context.x[14]);
                args.push(self.context.x[15]);
                proof {
                    assert(args@ =~= seq![
                        trap.x@[10],
                        trap.x@[11],
                        trap.x@[12],
                        trap.x@[13],
                        trap.x@[14],
                        trap.x@[15],
                    ]);
                }
                RuntimeEvent::Syscall { module, function, args }
            }
        } else {
            self.state = RunState::Running;
            RuntimeEvent::Exception { scause, stval, sepc }
        }
    }

    /// Answers a handled syscall: the return pair goes into the user's first
    /// two argument registers and the program counter steps over the `ecall`
    /// instruction, ready for the next resume.
    pub fn write_syscall_result(&mut self, code: u64, extra: u64)
        requires
            old(self).wf(),
            old(self).context.sepc + 4 <= u64::MAX,
        ensures
            final(self).wf(),
            final(self).context.x@ == old(self).context.x@.update(10, code).update(11, extra),
            final(self).context.sepc == old(self).context.sepc + 4,
            final(self).context.sstatus == old(self).context.sstatus,
            final(self).state == old(self).state,
            final(self).user_satp == old(self).user_satp,
            final(self).trampoline_text_va == old(self).trampoline_text_va,
            final(self).trampoline_data_va == old(self).trampoline_data_va,
    {
        self.context.x.set(10, code);
        self.context.x.set(11, extra);
        self.context.sepc = self.context.sepc + 4;
    }
}

/// One panic string argument from arbitrary registers: refuses wrapping
/// pointer arithmetic instead of requiring anything of the user.
fn read_panic_str_checked(
    user_as: &PagedAddrSpace,
    mem: &PhysMemory,
    ptr: u64,
    len: u64,
) -> (r: Option<Vec<u8>>)
    requires
        user_as.wf(),
        mem.wf(),
    ensures
        (match r {
            Some(v) => Some(v@),
            None => None,
        }) == panic_str_checked(*user_as, *mem, ptr, len),
{
    if len <= u64::MAX - ptr {
        read_panic_str(user_as, mem, ptr, len)
    } else {
        None
    }
}

/// A cleared register file.
fn zero_registers() -> (r: Vec<u64>)
    ensures
        r@.len() == 32,
        forall|i: int| 0 <= i < 32 ==> r@[i] == 0,
{
    let mut v: Vec<u64> = Vec::new();
    let mut i: usize = 0;
    while i < 32
        invariant
            i <= 32,
            v@.len() == i,
            forall|j: int| 0 <= j < v@.len() ==> v@[j] == 0,
        decreases 32 - i,
    {
        v.push(0);
        i = i + 1;
    }
    v
}

/// Law: a trap that is the process-exit call yields exactly one
/// `UserExited` event carrying the exit code, and every later step of the
/// runtime yields `Terminated`.
pub proof fn lemma_exit_is_final(
    pre: Runtime,
    mid: Runtime,
    post: Runtime,
    t1: TrapRecord,
    t2: TrapRecord,
    s1: PagedAddrSpace,
    s2: PagedAddrSpace,
    m1: PhysMemory,
    m2: PhysMemory,
    e1: RuntimeEventSpec,
    e2: RuntimeEventSpec,
)
    requires
        pre.state != RunState::Terminated,
        t1.scause == SCAUSE_USER_ECALL,
        t1.x@[17] == MODULE_PROCESS,
        t1.x@[16] == FUNCTION_PROCESS_EXIT,
        on_trap_post(pre, mid, t1, s1, m1, e1),
        on_trap_post(mid, post, t2, s2, m2, e2),
    ensures
        e1 == (RuntimeEventSpec::UserExited { code: t1.x@[10] as i32 }),
        mid.state == RunState::Terminated,
        e2 == RuntimeEventSpec::Terminated,
        post.state == RunState::Terminated,
{
}

} // verus!
