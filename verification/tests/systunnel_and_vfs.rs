use deepx::logger::RtcTime;
use deepx::ring_buffer::{RingBuffer, LOG_BUFFER_SIZE};
use deepx::systunnel::{
    begin_call, continue_call, exec_pages, finish_execute, ExecImage, SystunnelFrame, TunnelError,
    TunnelID, TunnelResume, TunnelStep, Validator, EXEC_BASE, USER_SPACE_LIMIT, USER_STACK_SIZE,
};
use deepx::vfs::{BootModule, ModuleFile, NodeOps, NodeType, RootRamFS, VfsError, VfsNode, VfsOperations};

const T: RtcTime = RtcTime { hour: 1, minute: 2, second: 3 };

fn contents(log: &RingBuffer) -> String {
    let mut out = vec![0u8; LOG_BUFFER_SIZE];
    let n = log.read_all(&mut out);
    out.truncate(n);
    String::from_utf8(out).unwrap()
}

fn frame(rax: u64, rdi: u64, rsi: u64) -> SystunnelFrame {
    SystunnelFrame {
        user_ds: 0x23,
        rax,
        rbx: 0,
        rcx: 0,
        rdx: 0,
        rsi,
        rdi,
        rbp: 0,
        r8: 0,
        r9: 0,
        r10: 0,
        r11: 0,
        r12: 0,
        r13: 0,
        r14: 0,
        r15: 0,
        rip: 0x40_1000,
        cs: 0x1B,
        rflags: 0x202,
        rsp: 0x50_0000,
        ss: 0x23,
    }
}

fn module(name: &[u8], addr: u64, len: usize) -> BootModule {
    BootModule { cmdline: name.to_vec(), addr, data: (0..len).map(|i| i as u8).collect() }
}

fn root() -> VfsNode {
    RootRamFS::new_node(vec![module(b"init.dxb", 0x123_4567, 5000), module(b"hello.txt", 0x20_0000, 3)])
}

#[test]
fn tunnel_ids_and_error_codes() {
    assert_eq!(TunnelID::from(0), TunnelID::Ping);
    assert_eq!(TunnelID::from(1), TunnelID::Exit);
    assert_eq!(TunnelID::from(2), TunnelID::Log);
    assert_eq!(TunnelID::from(9), TunnelID::Execute);
    assert_eq!(TunnelID::from(10), TunnelID::VfsExists);
    assert_eq!(TunnelID::from(11), TunnelID::VfsOpen);
    assert_eq!(TunnelID::from(12), TunnelID::VfsRead);
    assert_eq!(TunnelID::from(3), TunnelID::Unknown);
    assert_eq!(u64::from(TunnelError::Success), 0);
    assert_eq!(u64::from(TunnelError::InvalidPointer), 2);
    assert_eq!(u64::from(TunnelError::AccessViolation), 3);
    assert_eq!(u64::from(TunnelError::NullPointer), 4);
    assert_eq!(u64::from(TunnelError::FileNotFound), 5);
    assert_eq!(u64::from(TunnelError::NotImplemented), 404);
}

#[test]
fn buffer_validation() {
    let mut log = RingBuffer::new();
    assert_eq!(Validator::check_buffer(&mut log, T, 0x1000, 16), Ok(()));
    assert_eq!(Validator::check_buffer(&mut log, T, u64::MAX, 2), Err(TunnelError::InvalidPointer));
    assert_eq!(contents(&log), "");
    assert_eq!(Validator::check_buffer(&mut log, T, 0, 4), Err(TunnelError::NullPointer));
    assert_eq!(contents(&log), "^&8[01:02:03] ^&7[^&4FAILED^&7] ^&7VALIDATE FAIL: Null Pointer!\n");
    let mut log = RingBuffer::new();
    assert_eq!(
        Validator::check_buffer(&mut log, T, USER_SPACE_LIMIT + 1, 1),
        Err(TunnelError::AccessViolation)
    );
    assert!(contents(&log).ends_with(
        "VALIDATE FAIL: Access Violation! Ptr: 0x0000800000000000, Limit: 0x00007fffffffffff\n"
    ));
}

#[test]
fn buffer_must_end_in_user_space() {
    let mut log = RingBuffer::new();
    assert_eq!(Validator::check_buffer(&mut log, T, 0x7FFF_FFFF_F000, 0x1000), Ok(()));
    assert_eq!(Validator::check_buffer(&mut log, T, USER_SPACE_LIMIT, 1), Ok(()));
    assert_eq!(contents(&log), "");
    assert_eq!(
        Validator::check_buffer(&mut log, T, 0x7FFF_FFFF_F000, 0x10000),
        Err(TunnelError::AccessViolation)
    );
    assert!(contents(&log).ends_with(
        "VALIDATE FAIL: Access Violation! Ptr: 0x00007ffffffff000, Limit: 0x00007fffffffffff\n"
    ));
    let mut log = RingBuffer::new();
    assert_eq!(
        Validator::check_buffer(&mut log, T, USER_SPACE_LIMIT, 2),
        Err(TunnelError::AccessViolation)
    );
}

#[test]
fn ping_and_exit() {
    let mut log = RingBuffer::new();
    let mut f = frame(0, 0, 0);
    f.rax = 0;
    assert_eq!(begin_call(&mut f, &mut log, T), TunnelStep::Done(0));
    assert_eq!(f.rax, 0);
    assert_eq!(contents(&log), "");
    let mut f = frame(1, 0, 0);
    assert_eq!(begin_call(&mut f, &mut log, T), TunnelStep::Done(0));
    assert_eq!(contents(&log), "^&8[01:02:03] ^&7[^&6 WARN ^&7] ^&7PROCESS: Exit triggered with code 0\n");
    let mut f = frame(1, 3, 0);
    let before = f;
    assert_eq!(begin_call(&mut f, &mut log, T), TunnelStep::Recovery);
    assert_eq!(f, before);
}

#[test]
fn unknown_call_is_404() {
    let mut log = RingBuffer::new();
    let mut f = frame(77, 0, 0);
    assert_eq!(begin_call(&mut f, &mut log, T), TunnelStep::Done(404));
    assert_eq!(f.rax, 404);
    assert!(contents(&log).ends_with("^&7SYSTUNNEL: Unknown Call ID requested.\n"));
}

#[test]
fn bad_frame_is_reported() {
    let mut log = RingBuffer::new();
    let mut f = frame(0, 0, 0);
    f.cs = 0x08;
    f.rip = 0x10;
    assert_eq!(begin_call(&mut f, &mut log, T), TunnelStep::Done(0));
    let c = contents(&log);
    assert!(c.contains("CRITICAL: Segment Corruption! CS is 0x8 instead of 0x1B\n"));
    assert!(c.contains("CRITICAL: Null or Low RIP! RIP is 0x10\n"));
}

#[test]
fn log_call_round_trip() {
    let mut log = RingBuffer::new();
    let mut f = frame(2, 0x1000, 5);
    assert_eq!(begin_call(&mut f, &mut log, T), TunnelStep::ReadUser(0x1000, 5));
    match continue_call(&mut f, b"hello", &mut log, T, None) {
        TunnelResume::Done(v) => assert_eq!(v, 0),
        TunnelResume::Load(_) => panic!("log does not load"),
    }
    assert_eq!(f.rax, 0);
    assert_eq!(contents(&log), "^&8[01:02:03] ^&7[^&3TUNNEL^&7] ^&7hello\n");
    let mut f = frame(2, 0x1000, 2);
    let mut log = RingBuffer::new();
    match continue_call(&mut f, &[0xFF, 0xFE], &mut log, T, None) {
        TunnelResume::Done(v) => assert_eq!(v, 1),
        TunnelResume::Load(_) => panic!("log does not load"),
    }
    assert!(contents(&log).ends_with("^&7SYSTUNNEL: UTF-8 Decode Error\n"));
}

#[test]
fn log_call_rejects_bad_pointers() {
    let mut log = RingBuffer::new();
    let mut f = frame(2, 0, 5);
    assert_eq!(begin_call(&mut f, &mut log, T), TunnelStep::Done(4));
    assert_eq!(f.rax, 4);
    let mut f = frame(2, USER_SPACE_LIMIT + 1, 5);
    assert_eq!(begin_call(&mut f, &mut log, T), TunnelStep::Done(3));
    let mut f = frame(2, u64::MAX, 5);
    assert_eq!(begin_call(&mut f, &mut log, T), TunnelStep::Done(2));
}

#[test]
fn vfs_exists_call() {
    let r = root();
    let mut log = RingBuffer::new();
    let mut f = frame(10, 0x2000, 9);
    assert_eq!(begin_call(&mut f, &mut log, T), TunnelStep::ReadUser(0x2000, 9));
    assert!(contents(&log).contains("IRETQ PREP -> RIP: 0x401000, CS: 0x1b, RSP: 0x500000, SS: 0x23"));
    let mut log = RingBuffer::new();
    let answer = |path: &[u8], root: Option<&VfsNode>| {
        let mut f = frame(10, 0x2000, path.len() as u64);
        let mut log = RingBuffer::new();
        match continue_call(&mut f, path, &mut log, T, root) {
            TunnelResume::Done(v) => {
                assert_eq!(f.rax, v);
                v
            },
            TunnelResume::Load(_) => panic!("exists does not load"),
        }
    };
    assert_eq!(answer(b"/init.dxb", Some(&r)), 1);
    assert_eq!(answer(b"hello.txt", Some(&r)), 1);
    assert_eq!(answer(b"/nope", Some(&r)), 0);
    assert_eq!(answer(b"/init.dxb", None), 0);
    assert_eq!(answer(&[0xC0], Some(&r)), 0);
    let mut f = frame(10, 0, 9);
    assert_eq!(begin_call(&mut f, &mut log, T), TunnelStep::Done(0));
}

#[test]
fn execute_call_loads_image() {
    let r = root();
    let mut log = RingBuffer::new();
    let mut f = frame(9, 0x3000, 9);
    assert_eq!(begin_call(&mut f, &mut log, T), TunnelStep::ReadUser(0x3000, 9));
    let img = match continue_call(&mut f, b"/init.dxb", &mut log, T, Some(&r)) {
        TunnelResume::Load(img) => img,
        TunnelResume::Done(v) => panic!("expected a load, got {}", v),
    };
    let load = EXEC_BASE + 0x23_4567;
    assert_eq!(img.load_addr, load);
    assert_eq!(img.stack_base, load + 0x2000 + 0x1000);
    assert_eq!(img.image.len(), 5000);
    assert_eq!(img.image[4999], (4999 % 256) as u8);
    let pages = exec_pages(&img);
    assert_eq!(
        pages,
        vec![load, load + 0x1000, img.stack_base, img.stack_base + 0x1000, img.stack_base + 0x2000, img.stack_base + 0x3000]
    );
    assert_eq!(finish_execute(&mut f, &img), 0);
    assert_eq!(f.rip, load);
    assert_eq!(f.rsp, img.stack_base + USER_STACK_SIZE - 8);
    assert_eq!(f.rax, 0);
}

#[test]
fn execute_call_errors() {
    let r = root();
    let code = |path: &[u8], root: Option<&VfsNode>| {
        let mut f = frame(9, 0x3000, path.len() as u64);
        let mut log = RingBuffer::new();
        match continue_call(&mut f, path, &mut log, T, root) {
            TunnelResume::Done(v) => {
                assert_eq!(f.rax, v);
                v
            },
            TunnelResume::Load(_) => panic!("unexpected load"),
        }
    };
    assert_eq!(code(b"/missing", Some(&r)), 404);
    assert_eq!(code(b"/init.dxb", None), 503);
    assert_eq!(code(&[0xFF], Some(&r)), 400);
    let _ = ExecImage { load_addr: 0, stack_base: 0, image: vec![] };
}

#[test]
fn root_directory_listing() {
    let r = root();
    assert_eq!(r.name, "/");
    assert_eq!(r.node_type, NodeType::Directory);
    let entries = r.operations.readdir().ok().expect("listing");
    assert_eq!(entries.len(), 2);
    assert_eq!(entries[0].name, "init.dxb");
    assert_eq!(entries[0].size, 5000);
    assert_eq!(entries[0].inode, 0x123_4567);
    assert_eq!(entries[1].node_type, NodeType::File);
    let mut buf = [0u8; 4];
    assert_eq!(r.operations.read(0, &mut buf), Err(VfsError::IoError));
    let found = r.operations.finddir("hello.txt").ok().expect("found");
    assert_eq!(found.size, 3);
    assert!(matches!(r.operations.finddir("nothing"), Err(VfsError::FileNotFound)));
    let odd = RootRamFS::new_node(vec![module(&[0xFF, 0xFF], 1, 1)]);
    assert_eq!(odd.operations.readdir().ok().expect("listing")[0].name, "unknown");
}

#[test]
fn module_file_reads() {
    let f = ModuleFile { base: 0x1000, data: b"abcdef".to_vec() };
    let mut buf = [b'.'; 4];
    assert_eq!(f.read(4, &mut buf), Ok(2));
    assert_eq!(&buf, b"ef..");
    let mut buf = [b'.'; 3];
    assert_eq!(f.read(1, &mut buf), Ok(3));
    assert_eq!(&buf, b"bcd");
    assert_eq!(f.read(6, &mut buf), Ok(0));
    assert!(matches!(f.readdir(), Err(VfsError::NotADirectory)));
    assert!(matches!(f.finddir("x"), Err(VfsError::NotADirectory)));
    let node = NodeOps::Module(f);
    let mut buf = [0u8; 2];
    assert_eq!(node.read(0, &mut buf), Ok(2));
    assert_eq!(&buf, b"ab");
    let mut rw = RootRamFS { modules: vec![] };
    assert_eq!(rw.write(0, b"x"), Err(VfsError::PermissionDenied));
    let mut node = node;
    assert_eq!(node.write(0, b"zz"), Err(VfsError::PermissionDenied));
    let mut buf = [0u8; 6];
    assert_eq!(node.read(0, &mut buf), Ok(6));
    assert_eq!(&buf, b"abcdef");
}
