use virt_addr_kernel::addr::{
    PhysPageNum, Sv39, Sv39Flags, VirtAddr, VirtPageNum, FLAG_R, FLAG_U, FLAG_W,
};
use virt_addr_kernel::executor::{
    RunState, Runtime, RuntimeEvent, TrapRecord, SCAUSE_USER_ECALL, SSTATUS_SPIE,
};
use virt_addr_kernel::frame::StackFrameAllocator;
use virt_addr_kernel::mem::{translate_frame_read, PhysMemory};
use virt_addr_kernel::space::{PagedAddrSpace, SpaceError};
use virt_addr_kernel::syscall::{
    syscall, SyscallOperation, FUNCTION_PROCESS_EXIT, FUNCTION_PROCESS_PANIC, FUNCTION_TEST_WRITE,
    MODULE_PROCESS, MODULE_TEST_INTERFACE, SYSCALL_BAD_ADDRESS,
};

/// A small user world: two pages at virtual page 0x1000 backed by the frames
/// 0x90000 and 0x90001, and the bytes behind them.
fn user_world(bytes: Vec<u8>) -> (PagedAddrSpace, StackFrameAllocator, PhysMemory) {
    let mut a = StackFrameAllocator::new(PhysPageNum(0x80420), PhysPageNum(0x80800));
    let mut s = PagedAddrSpace::try_new_in(Sv39, &mut a).unwrap();
    s.allocate_map(
        &mut a,
        VirtPageNum(0x1000),
        PhysPageNum(0x90000),
        2,
        Sv39Flags::new(FLAG_R | FLAG_W | FLAG_U),
    )
    .unwrap();
    let mem = PhysMemory::new(PhysPageNum(0x90000), bytes);
    (s, a, mem)
}

const USER_VA: u64 = 0x1000 * 4096;

fn ecall_trap(module: u64, function: u64, args: [u64; 6], sepc: u64) -> TrapRecord {
    let mut x = vec![0u64; 32];
    x[17] = module;
    x[16] = function;
    for (k, v) in args.iter().enumerate() {
        x[10 + k] = *v;
    }
    TrapRecord { x, scause: SCAUSE_USER_ECALL, stval: 0, sepc }
}

#[test]
fn cross_frame_read_plan() {
    // a buffer straddling two pages resolves to two segments whose lengths
    // add up, in ascending order
    let (s, _a, _m) = user_world(vec![0u8; 8192]);
    let plan = translate_frame_read(&s, VirtAddr(USER_VA + 3000), 5000).unwrap();
    assert_eq!(plan.len(), 2);
    assert_eq!(plan[0].ppn, 0x90000);
    assert_eq!(plan[0].offset, 3000);
    assert_eq!(plan[0].len, 1096);
    assert_eq!(plan[1].ppn, 0x90001);
    assert_eq!(plan[1].offset, 0);
    assert_eq!(plan[1].len, 3904);
    assert_eq!(plan[0].len + plan[1].len, 5000);
}

#[test]
fn read_plan_identity_concatenation() {
    // over an identity-mapped range the segments' physical places concatenate
    // back to the virtual range
    let mut a = StackFrameAllocator::new(PhysPageNum(0x80420), PhysPageNum(0x80800));
    let mut s = PagedAddrSpace::try_new_in(Sv39, &mut a).unwrap();
    s.allocate_map(
        &mut a,
        VirtPageNum(0x300),
        PhysPageNum(0x300),
        2,
        Sv39Flags::new(FLAG_R | FLAG_W),
    )
    .unwrap();
    let start = 0x300u64 * 4096 + 100;
    let plan = translate_frame_read(&s, VirtAddr(start), 5000).unwrap();
    let mut expected_pa = start;
    for seg in &plan {
        assert_eq!(seg.ppn * 4096 + seg.offset, expected_pa);
        expected_pa += seg.len;
    }
    assert_eq!(expected_pa, start + 5000);
}

#[test]
fn unreadable_range_is_bad_address() {
    let (s, _a, _m) = user_world(vec![0u8; 8192]);
    assert!(matches!(
        translate_frame_read(&s, VirtAddr(0x555000), 10),
        Err(SpaceError::BadAddress)
    ));
    // partially mapped: the tail page is missing
    assert!(matches!(
        translate_frame_read(&s, VirtAddr(USER_VA + 4096), 5000),
        Err(SpaceError::BadAddress)
    ));
}

#[test]
fn write_syscall_emits_console_bytes() {
    let mut bytes = vec![0u8; 8192];
    bytes[100..103].copy_from_slice(b"Hi\n");
    let (s, _a, mem) = user_world(bytes);
    let mut console: Vec<u8> = Vec::new();
    let r = syscall(
        MODULE_TEST_INTERFACE,
        FUNCTION_TEST_WRITE,
        [1, USER_VA + 100, 3, 0, 0, 0],
        &s,
        &mem,
        &mut console,
    );
    match r {
        SyscallOperation::Return(res) => {
            assert_eq!(res.code, 0);
            assert_eq!(res.extra, 3);
        },
        _ => panic!("write should return"),
    }
    assert_eq!(console, b"Hi\n");
}

#[test]
fn write_syscall_crosses_frames() {
    let mut bytes = vec![0u8; 8192];
    for i in 0..5000usize {
        bytes[3000 + i] = (i % 251) as u8;
    }
    let (s, _a, mem) = user_world(bytes.clone());
    let mut console: Vec<u8> = Vec::new();
    let r = syscall(
        MODULE_TEST_INTERFACE,
        FUNCTION_TEST_WRITE,
        [1, USER_VA + 3000, 5000, 0, 0, 0],
        &s,
        &mem,
        &mut console,
    );
    match r {
        SyscallOperation::Return(res) => {
            assert_eq!(res.code, 0);
            assert_eq!(res.extra, 5000);
        },
        _ => panic!("write should return"),
    }
    assert_eq!(console, bytes[3000..8000].to_vec());
}

#[test]
fn write_syscall_bad_buffer() {
    let (s, _a, mem) = user_world(vec![0u8; 8192]);
    let mut console: Vec<u8> = Vec::new();
    let r = syscall(
        MODULE_TEST_INTERFACE,
        FUNCTION_TEST_WRITE,
        [1, 0x7777_7000, 4, 0, 0, 0],
        &s,
        &mem,
        &mut console,
    );
    match r {
        SyscallOperation::Return(res) => {
            assert_eq!(res.code, SYSCALL_BAD_ADDRESS);
            assert_eq!(res.extra, 0);
        },
        _ => panic!("bad buffer should still return"),
    }
    assert!(console.is_empty());
}

#[test]
fn write_syscall_unbacked_frame() {
    // the page is mapped, but its frame lies outside the backed memory
    let mut a = StackFrameAllocator::new(PhysPageNum(0x80420), PhysPageNum(0x80800));
    let mut s = PagedAddrSpace::try_new_in(Sv39, &mut a).unwrap();
    s.allocate_map(
        &mut a,
        VirtPageNum(0x2000),
        PhysPageNum(0x95000),
        1,
        Sv39Flags::new(FLAG_R | FLAG_W | FLAG_U),
    )
    .unwrap();
    let mem = PhysMemory::new(PhysPageNum(0x90000), vec![0u8; 8192]);
    let mut console: Vec<u8> = Vec::new();
    let r = syscall(
        MODULE_TEST_INTERFACE,
        FUNCTION_TEST_WRITE,
        [1, 0x2000 * 4096, 4, 0, 0, 0],
        &s,
        &mem,
        &mut console,
    );
    match r {
        SyscallOperation::Return(res) => {
            assert_eq!(res.code, SYSCALL_BAD_ADDRESS);
            assert_eq!(res.extra, 0);
        },
        _ => panic!("unbacked buffer should fail"),
    }
    assert!(console.is_empty());
}

#[test]
fn exit_syscall_terminates() {
    let (s, _a, mem) = user_world(vec![0u8; 8192]);
    let mut console: Vec<u8> = Vec::new();
    let r = syscall(
        MODULE_PROCESS,
        FUNCTION_PROCESS_EXIT,
        [42, 0, 0, 0, 0, 0],
        &s,
        &mem,
        &mut console,
    );
    assert!(matches!(r, SyscallOperation::Terminate(42)));
}

#[test]
fn panic_syscall_reads_strings() {
    let mut bytes = vec![0u8; 8192];
    bytes[200..204].copy_from_slice(b"a.rs");
    bytes[300] = b'x';
    let (s, _a, mem) = user_world(bytes);
    let mut console: Vec<u8> = Vec::new();
    let r = syscall(
        MODULE_PROCESS,
        FUNCTION_PROCESS_PANIC,
        [10, 5, USER_VA + 200, 4, USER_VA + 300, 1],
        &s,
        &mem,
        &mut console,
    );
    match r {
        SyscallOperation::UserPanic(file, line, col, msg) => {
            assert_eq!(file.as_deref(), Some(b"a.rs".as_slice()));
            assert_eq!(line, 10);
            assert_eq!(col, 5);
            assert_eq!(msg.as_deref(), Some(b"x".as_slice()));
        },
        _ => panic!("panic call should surface a user panic"),
    }
}

#[test]
fn panic_syscall_null_pointers_absent() {
    let (s, _a, mem) = user_world(vec![0u8; 8192]);
    let mut console: Vec<u8> = Vec::new();
    let r = syscall(
        MODULE_PROCESS,
        FUNCTION_PROCESS_PANIC,
        [7, 9, 0, 0, 0, 0],
        &s,
        &mem,
        &mut console,
    );
    match r {
        SyscallOperation::UserPanic(file, line, col, msg) => {
            assert!(file.is_none());
            assert_eq!(line, 7);
            assert_eq!(col, 9);
            assert!(msg.is_none());
        },
        _ => panic!("panic call should surface a user panic"),
    }
}

#[test]
fn runtime_new_user_initial_context() {
    let rt = Runtime::new_user(
        0x80400000,
        VirtAddr(0x60005000),
        0x8000_0000_0008_0420,
        VirtAddr(u64::MAX - 0x2000 + 1),
        VirtAddr(u64::MAX - 0x3000 + 1),
    );
    assert_eq!(rt.state, RunState::Fresh);
    assert_eq!(rt.context.sepc, 0x80400000);
    assert_eq!(rt.context.x[2], 0x60005000);
    assert_eq!(rt.context.sstatus, SSTATUS_SPIE);
    for (i, v) in rt.context.x.iter().enumerate() {
        if i != 2 {
            assert_eq!(*v, 0);
        }
    }
}

#[test]
fn exit_yields_once_then_terminated() {
    let (s, _a, mem) = user_world(vec![0u8; 8192]);
    let mut rt = Runtime::new_user(
        0x80400000,
        VirtAddr(0x60005000),
        0,
        VirtAddr(u64::MAX - 0xfff),
        VirtAddr(u64::MAX - 0x1fff),
    );
    assert!(rt.begin_resume());
    let ev = rt.on_trap(
        ecall_trap(MODULE_PROCESS, FUNCTION_PROCESS_EXIT, [42, 0, 0, 0, 0, 0], 0x80400000),
        &s,
        &mem,
    );
    assert!(matches!(ev, RuntimeEvent::UserExited { code: 42 }));
    assert_eq!(rt.state, RunState::Terminated);
    assert!(!rt.begin_resume());
    let ev = rt.on_trap(
        ecall_trap(MODULE_PROCESS, FUNCTION_PROCESS_EXIT, [0, 0, 0, 0, 0, 0], 0),
        &s,
        &mem,
    );
    assert!(matches!(ev, RuntimeEvent::Terminated));
}

#[test]
fn hello_world_session() {
    // the user writes "Hi\n" and exits 0; the kernel sees a syscall event,
    // answers it, and then the exit
    let mut bytes = vec![0u8; 8192];
    bytes[100..103].copy_from_slice(b"Hi\n");
    let (s, _a, mem) = user_world(bytes);
    let mut rt = Runtime::new_user(
        0x80400000,
        VirtAddr(0x60005000),
        0,
        VirtAddr(u64::MAX - 0xfff),
        VirtAddr(u64::MAX - 0x1fff),
    );
    let mut console: Vec<u8> = Vec::new();
    assert!(rt.begin_resume());
    let ev = rt.on_trap(
        ecall_trap(
            MODULE_TEST_INTERFACE,
            FUNCTION_TEST_WRITE,
            [1, USER_VA + 100, 3, 0, 0, 0],
            0x80400008,
        ),
        &s,
        &mem,
    );
    match ev {
        RuntimeEvent::Syscall { module, function, args } => {
            assert_eq!(module, MODULE_TEST_INTERFACE);
            assert_eq!(function, FUNCTION_TEST_WRITE);
            assert_eq!(args, vec![1, USER_VA + 100, 3, 0, 0, 0]);
            let r = syscall(
                module,
                function,
                [args[0], args[1], args[2], args[3], args[4], args[5]],
                &s,
                &mem,
                &mut console,
            );
            match r {
                SyscallOperation::Return(res) => rt.write_syscall_result(res.code, res.extra),
                _ => panic!("write should return"),
            }
        },
        _ => panic!("expected a syscall event"),
    }
    assert_eq!(console, b"Hi\n");
    assert_eq!(rt.context.x[10], 0);
    assert_eq!(rt.context.x[11], 3);
    assert_eq!(rt.context.sepc, 0x8040000c);
    assert!(rt.begin_resume());
    let ev = rt.on_trap(
        ecall_trap(MODULE_PROCESS, FUNCTION_PROCESS_EXIT, [0, 0, 0, 0, 0, 0], 0x80400010),
        &s,
        &mem,
    );
    assert!(matches!(ev, RuntimeEvent::UserExited { code: 0 }));
    assert!(matches!(rt.on_trap(
        ecall_trap(MODULE_PROCESS, FUNCTION_PROCESS_EXIT, [0, 0, 0, 0, 0, 0], 0),
        &s,
        &mem,
    ), RuntimeEvent::Terminated));
}

#[test]
fn user_panic_session() {
    let mut bytes = vec![0u8; 8192];
    bytes[200..204].copy_from_slice(b"a.rs");
    bytes[300] = b'x';
    let (s, _a, mem) = user_world(bytes);
    let mut rt = Runtime::new_user(
        0x80400000,
        VirtAddr(0x60005000),
        0,
        VirtAddr(u64::MAX - 0xfff),
        VirtAddr(u64::MAX - 0x1fff),
    );
    assert!(rt.begin_resume());
    let ev = rt.on_trap(
        ecall_trap(
            MODULE_PROCESS,
            FUNCTION_PROCESS_PANIC,
            [10, 5, USER_VA + 200, 4, USER_VA + 300, 1],
            0x80400004,
        ),
        &s,
        &mem,
    );
    match ev {
        RuntimeEvent::UserPanic { file, line, col, msg } => {
            assert_eq!(file.as_deref(), Some(b"a.rs".as_slice()));
            assert_eq!(line, 10);
            assert_eq!(col, 5);
            assert_eq!(msg.as_deref(), Some(b"x".as_slice()));
        },
        _ => panic!("expected a user panic"),
    }
    assert_eq!(rt.state, RunState::Terminated);
    assert!(matches!(rt.on_trap(
        ecall_trap(MODULE_PROCESS, FUNCTION_PROCESS_EXIT, [0, 0, 0, 0, 0, 0], 0),
        &s,
        &mem,
    ), RuntimeEvent::Terminated));
}

#[test]
fn unmapped_access_yields_exception() {
    let (s, _a, mem) = user_world(vec![0u8; 8192]);
    let mut rt = Runtime::new_user(
        0x80400000,
        VirtAddr(0x60005000),
        0,
        VirtAddr(u64::MAX - 0xfff),
        VirtAddr(u64::MAX - 0x1fff),
    );
    assert!(rt.begin_resume());
    let mut x = vec![0u64; 32];
    x[2] = 0x60005000;
    let trap = TrapRecord { x, scause: 13, stval: 0xdead_b000, sepc: 0x80400020 };
    let ev = rt.on_trap(trap, &s, &mem);
    match ev {
        RuntimeEvent::Exception { scause, stval, sepc } => {
            assert_eq!(scause, 13);
            assert_eq!(stval, 0xdead_b000);
            assert_eq!(sepc, 0x80400020);
        },
        _ => panic!("expected an exception event"),
    }
    // the kernel decides what happens next; the task itself is not terminated
    assert_eq!(rt.state, RunState::Running);
}
