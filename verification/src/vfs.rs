//! The virtual file system: a root directory listing the modules the boot
//! loader loaded, each readable as a file.
use vstd::prelude::*;
use vstd::utf8::{valid_utf8, decode_utf8};
use vstd::string::StringExecFns;
use crate::text::{str_from_utf8, push_all};

verus! {

pub const VFS_VERSION: &'static str = "v0.1.0";

#[derive(Debug, Clone, Copy, PartialEq, Eq, Structural)]
pub enum NodeType {
    File,
    Directory,
    CharDevice,
    BlockDevice,
}

#[derive(Debug, Clone, Copy, PartialEq, Eq, Structural)]
pub enum VfsError {
    FileNotFound,
    PermissionDenied,
    NotADirectory,
    IoError,
}

/// A module loaded by the boot loader: its command line (the file name), its
/// load address and its contents.
pub struct BootModule {
    pub cmdline: Vec<u8>,
    pub addr: u64,
    pub data: Vec<u8>,
}

/// One loaded module read as a file.
pub struct ModuleFile {
    pub base: u64,
    pub data: Vec<u8>,
}

/// The root directory: lists the boot modules.
pub struct RootRamFS {
    pub modules: Vec<BootModule>,
}

/// What a node's operations act on.
pub enum NodeOps {
    Root(RootRamFS),
    Module(ModuleFile),
}

/// An entry of the file system.
pub struct VfsNode {
    pub name: String,
    pub node_type: NodeType,
    pub inode: u64,
    pub size: u64,
    pub operations: NodeOps,
}

/// The name a module is listed under: its command line as text, or
/// `unknown` when that is not valid UTF-8.
pub open spec fn module_name(cmdline: Seq<u8>) -> Seq<char> {
    if valid_utf8(cmdline) {
        decode_utf8(cmdline)
    } else {
        "unknown"@
    }
}

/// Whether `node` is the listing entry of module `m`.
pub open spec fn lists_module(node: VfsNode, m: BootModule) -> bool {
    &&& node.name@ == module_name(m.cmdline@)
    &&& node.node_type == NodeType::File
    &&& node.inode == m.addr
    &&& node.size == m.data@.len()
    &&& node.operations matches NodeOps::Module(f) && f.base == m.addr && f.data@ == m.data@
}

/// The index of the first module listed under `name`.
pub open spec fn first_named(modules: Seq<BootModule>, name: Seq<char>) -> Option<int>
    decreases modules.len(),
{
    if modules.len() == 0 {
        None
    } else if module_name(modules[0].cmdline@) == name {
        Some(0)
    } else {
        match first_named(modules.drop_first(), name) {
            Some(i) => Some(i + 1),
            None => None,
        }
    }
}

fn copy_vec(v: &Vec<u8>) -> (c: Vec<u8>)
    ensures
        c@ == v@,
{
    let mut c: Vec<u8> = Vec::new();
    push_all(&mut c, v);
    c
}

fn module_name_string(cmdline: &Vec<u8>) -> (s: String)
    ensures
        s@ == module_name(cmdline@),
{
    match str_from_utf8(cmdline.as_slice()) {
        Some(t) => {
            proof {
                vstd::utf8::encode_utf8_decode_utf8(t@);
            }
            String::from_str(t)
        },
        None => String::from_str("unknown"),
    }
}

/// What every file system object offers: reading, writing, listing and
/// looking up by name.
pub trait VfsOperations {
    fn read(&self, offset: u64, buffer: &mut [u8]) -> Result<usize, VfsError>;

    fn write(&mut self, offset: u64, buffer: &[u8]) -> Result<usize, VfsError>;

    fn readdir(&self) -> Result<Vec<VfsNode>, VfsError>;

    fn finddir(&self, name: &str) -> Result<VfsNode, VfsError>;
}

impl RootRamFS {
    /// The root directory node.
    pub fn new_node(modules: Vec<BootModule>) -> (n: VfsNode)
        ensures
            n.name@ == "/"@,
            n.node_type == NodeType::Directory,
            n.inode == 0,
            n.size == 0,
            n.operations matches NodeOps::Root(r) && r.modules@ == modules@,
    {
        VfsNode {
            name: String::from_str("/"),
            node_type: NodeType::Directory,
            inode: 0,
            size: 0,
            operations: NodeOps::Root(RootRamFS { modules }),
        }
    }
}

impl VfsOperations for RootRamFS {
    /// The root holds no data of its own.
    fn read(&self, offset: u64, buffer: &mut [u8]) -> (r: Result<usize, VfsError>)
        ensures
            r == Err::<usize, VfsError>(VfsError::IoError),
            final(buffer)@ == old(buffer)@,
    {
        Err(VfsError::IoError)
    }

    fn write(&mut self, offset: u64, buffer: &[u8]) -> (r: Result<usize, VfsError>)
        ensures
            r == Err::<usize, VfsError>(VfsError::PermissionDenied),
            final(self).modules@ == old(self).modules@,
    {
        Err(VfsError::PermissionDenied)
    }

    /// One file entry per boot module, in order.
    fn readdir(&self) -> (r: Result<Vec<VfsNode>, VfsError>)
        ensures
            r matches Ok(nodes) && nodes@.len() == self.modules@.len() && forall|i: int|
                0 <= i < nodes@.len() ==> lists_module(#[trigger] nodes@[i], self.modules@[i]),
    {
        let mut entries: Vec<VfsNode> = Vec::new();
        let mut i: usize = 0;
        while i < self.modules.len()
            invariant
                0 <= i <= self.modules@.len(),
                entries@.len() == i,
                forall|j: int| 0 <= j < i ==> lists_module(#[trigger] entries@[j], self.modules@[j]),
            decreases self.modules@.len() - i,
        {
            let m = &self.modules[i];
            let name = module_name_string(&m.cmdline);
            let data = copy_vec(&m.data);
            let size = m.data.len() as u64;
            entries.push(VfsNode {
                name,
                node_type: NodeType::File,
                inode: m.addr,
                size,
                operations: NodeOps::Module(ModuleFile { base: m.addr, data }),
            });
            i = i + 1;
        }
        Ok(entries)
    }

    /// The entry of the first module listed under `name`.
    fn finddir(&self, name: &str) -> (r: Result<VfsNode, VfsError>)
        ensures
            first_named(self.modules@, name@) is None ==> r == Err::<VfsNode, VfsError>(VfsError::FileNotFound),
            first_named(self.modules@, name@) matches Some(i) ==> (r matches Ok(n) && lists_module(n, self.modules@[i])),
    {
        let target = String::from_str(name);
        let mut i: usize = 0;
        while i < self.modules.len()
            invariant
                0 <= i <= self.modules@.len(),
                target@ == name@,
                forall|j: int| 0 <= j < i ==> module_name(#[trigger] self.modules@[j].cmdline@) != name@,
            decreases self.modules@.len() - i,
        {
            let m = &self.modules[i];
            let n = module_name_string(&m.cmdline);
            if n == target {
                proof {
                    lemma_first_named_at(self.modules@, name@, i as int);
                }
                let data = copy_vec(&m.data);
                return Ok(VfsNode {
                    name: n,
                    node_type: NodeType::File,
                    inode: m.addr,
                    size: m.data.len() as u64,
                    operations: NodeOps::Module(ModuleFile { base: m.addr, data }),
                });
            }
            i = i + 1;
        }
        proof {
            lemma_first_named_none(self.modules@, name@);
        }
        Err(VfsError::FileNotFound)
    }
}

/// A module found by name is one of the modules.
pub proof fn lemma_first_named_bound(modules: Seq<BootModule>, name: Seq<char>)
    ensures
        first_named(modules, name) matches Some(i) ==> 0 <= i < modules.len(),
    decreases modules.len(),
{
    if modules.len() > 0 {
        lemma_first_named_bound(modules.drop_first(), name);
    }
}

proof fn lemma_first_named_at(modules: Seq<BootModule>, name: Seq<char>, i: int)
    requires
        0 <= i < modules.len(),
        module_name(modules[i].cmdline@) == name,
        forall|j: int| 0 <= j < i ==> module_name(#[trigger] modules[j].cmdline@) != name,
    ensures
        first_named(modules, name) == Some(i),
    decreases i,
{
    if i > 0 {
        lemma_first_named_at(modules.drop_first(), name, i - 1);
    }
}

proof fn lemma_first_named_none(modules: Seq<BootModule>, name: Seq<char>)
    requires
        forall|j: int| 0 <= j < modules.len() ==> module_name(#[trigger] modules[j].cmdline@) != name,
    ensures
        first_named(modules, name) is None,
    decreases modules.len(),
{
    if modules.len() > 0 {
        lemma_first_named_none(modules.drop_first(), name);
    }
}

impl VfsOperations for ModuleFile {
    /// Copies file bytes from `offset` into the front of `buffer`, as many as
    /// fit, and returns how many; nothing at or past the end.
    fn read(&self, offset: u64, buffer: &mut [u8]) -> (r: Result<usize, VfsError>)
        ensures
            offset >= self.data@.len() ==> r == Ok::<usize, VfsError>(0) && final(buffer)@ == old(buffer)@,
            offset < self.data@.len() ==> ({
                let count = if old(buffer)@.len() <= self.data@.len() - offset {
                    old(buffer)@.len() as int
                } else {
                    self.data@.len() - offset
                };
                &&& r == Ok::<usize, VfsError>(count as usize)
                &&& final(buffer)@ == self.data@.subrange(offset as int, offset + count) + old(buffer)@.subrange(count, old(buffer)@.len() as int)
            }),
    {
        let size = self.data.len();
        if offset >= size as u64 {
            return Ok(0);
        }
        let off = offset as usize;
        let available = size - off;
        let count = if buffer.len() <= available { buffer.len() } else { available };
        let mut i: usize = 0;
        while i < count
            invariant
                0 <= i <= count,
                off + count <= size,
                size == self.data@.len(),
                count <= buffer@.len(),
                buffer@.len() == old(buffer)@.len(),
                forall|j: int| 0 <= j < i ==> #[trigger] buffer@[j] == self.data@[off + j],
                forall|j: int| i <= j < buffer@.len() ==> #[trigger] buffer@[j] == old(buffer)@[j],
            decreases count - i,
        {
            buffer[i] = self.data[off + i];
            i = i + 1;
        }
        assert(buffer@ =~= self.data@.subrange(off as int, off + count) + old(buffer)@.subrange(count as int, old(buffer)@.len() as int));
        Ok(count)
    }

    fn write(&mut self, offset: u64, buffer: &[u8]) -> (r: Result<usize, VfsError>)
        ensures
            r == Err::<usize, VfsError>(VfsError::PermissionDenied),
            final(self).data@ == old(self).data@,
            final(self).base == old(self).base,
    {
        Err(VfsError::PermissionDenied)
    }

    fn readdir(&self) -> (r: Result<Vec<VfsNode>, VfsError>)
        ensures
            r is Err && r->Err_0 == VfsError::NotADirectory,
    {
        Err(VfsError::NotADirectory)
    }

    fn finddir(&self, name: &str) -> (r: Result<VfsNode, VfsError>)
        ensures
            r is Err && r->Err_0 == VfsError::NotADirectory,
    {
        Err(VfsError::NotADirectory)
    }
}

impl VfsOperations for NodeOps {
    /// Reads through whichever object the node stands for.
    fn read(&self, offset: u64, buffer: &mut [u8]) -> (r: Result<usize, VfsError>)
        ensures
            self matches NodeOps::Root(_) ==> r == Err::<usize, VfsError>(VfsError::IoError) && final(buffer)@ == old(buffer)@,
            self matches NodeOps::Module(f) ==> ({
                &&& offset >= f.data@.len() ==> r == Ok::<usize, VfsError>(0) && final(buffer)@ == old(buffer)@
                &&& offset < f.data@.len() ==> ({
                    let count = if old(buffer)@.len() <= f.data@.len() - offset {
                        old(buffer)@.len() as int
                    } else {
                        f.data@.len() - offset
                    };
                    &&& r == Ok::<usize, VfsError>(count as usize)
                    &&& final(buffer)@ == f.data@.subrange(offset as int, offset + count) + old(buffer)@.subrange(count, old(buffer)@.len() as int)
                })
            }),
    {
        match self {
            NodeOps::Root(r) => r.read(offset, buffer),
            NodeOps::Module(f) => f.read(offset, buffer),
        }
    }

    /// Writes through whichever object the node stands for (nothing is
    /// writable).
    fn write(&mut self, offset: u64, buffer: &[u8]) -> (r: Result<usize, VfsError>)
        ensures
            r == Err::<usize, VfsError>(VfsError::PermissionDenied),
            *old(self) matches NodeOps::Root(a) ==> (*final(self) matches NodeOps::Root(b) && b.modules@ == a.modules@),
            *old(self) matches NodeOps::Module(a) ==> (*final(self) matches NodeOps::Module(b) && b.data@ == a.data@
                && b.base == a.base),
    {
        match self {
            NodeOps::Root(r) => r.write(offset, buffer),
            NodeOps::Module(f) => f.write(offset, buffer),
        }
    }

    /// Lists a directory.
    fn readdir(&self) -> (r: Result<Vec<VfsNode>, VfsError>)
        ensures
            self matches NodeOps::Root(root) ==> (r matches Ok(nodes) && nodes@.len() == root.modules@.len() && forall|i: int|
                0 <= i < nodes@.len() ==> lists_module(#[trigger] nodes@[i], root.modules@[i])),
            self matches NodeOps::Module(_) ==> (r is Err && r->Err_0 == VfsError::NotADirectory),
    {
        match self {
            NodeOps::Root(r) => r.readdir(),
            NodeOps::Module(f) => f.readdir(),
        }
    }

    /// Looks a name up in a directory.
    fn finddir(&self, name: &str) -> (r: Result<VfsNode, VfsError>)
        ensures
            self matches NodeOps::Root(root) ==> ({
                &&& first_named(root.modules@, name@) is None ==> r == Err::<VfsNode, VfsError>(VfsError::FileNotFound)
                &&& first_named(root.modules@, name@) matches Some(i) ==> (r matches Ok(n) && lists_module(n, root.modules@[i]))
            }),
            self matches NodeOps::Module(_) ==> (r is Err && r->Err_0 == VfsError::NotADirectory),
    {
        match self {
            NodeOps::Root(r) => r.finddir(name),
            NodeOps::Module(f) => f.finddir(name),
        }
    }
}

} // verus!
