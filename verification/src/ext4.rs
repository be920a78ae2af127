//! A read-only EXT4 reader over a disk image: the superblock, group descriptors,
//! inodes, directories (direct blocks or a one-level extent tree) and file contents.
//!
//! A sector can be read when all its 512 bytes lie inside the image. Offsets computed
//! from values read off the disk wrap around as the kernel's release build computes them.
use vstd::prelude::*;
use crate::bytes::{le_u16, le_u32, le16, le32, copy_range};

verus! {

/// Size of one disk sector.
pub const SECTOR_SIZE: usize = 512;
/// Byte offset of the superblock.
pub const EXT4_SUPER_OFFSET: u64 = 1024;
/// Superblock magic.
pub const EXT4_SUPER_MAGIC: u16 = 0xef53;
/// Inode flag: the inode uses extents.
pub const EXT4_EXTENTS_FL: u32 = 0x0008_0000;
/// Extent header magic.
pub const EXT4_EXTENT_MAGIC: u16 = 0xf30a;
/// Inode number of the root directory.
pub const EXT4_ROOT_INO: u32 = 2;
/// Mode bits of a directory.
pub const EXT4_S_IFDIR: u16 = 0x4000;
/// Mode bits of a regular file.
pub const EXT4_S_IFREG: u16 = 0x8000;
/// The file-type bits of a mode.
pub const EXT4_MODE_TYPE_MASK: u16 = 0xf000;
/// Largest block size handled.
pub const MAX_BLOCK_SIZE: usize = 4096;
/// Smallest on-disk inode.
pub const MIN_INODE_SIZE: usize = 128;
/// Bytes of an inode that are read.
pub const INODE_PARSE_SIZE: usize = 160;
/// Bytes of a group descriptor that are read.
pub const GROUP_DESC_PARSE_SIZE: usize = 64;
/// Longest directory-entry name.
pub const EXT4_NAME_MAX: usize = 255;

/// Why an EXT4 read failed.
#[derive(Clone, Copy, Debug, PartialEq, Eq, Structural)]
pub enum Ext4Error {
    DiskRead,
    NoSuperblock,
    BlockSize,
    InodeSize,
    GroupLayout,
    InodeTable,
    ExtentHeader,
    ExtentDepth,
    ExtentIndex,
    ExtentLeaf,
    ExtentEntry,
    BlockBuffer,
    NotDirectory,
    NotMounted,
}

/// The message the kernel prints for an EXT4 error.
pub open spec fn ext4_message(e: Ext4Error) -> Seq<char> {
    match e {
        Ext4Error::DiskRead => "disk read failed"@,
        Ext4Error::NoSuperblock => "no EXT4 superblock on test disk"@,
        Ext4Error::BlockSize => "unsupported EXT4 block size"@,
        Ext4Error::InodeSize => "unsupported EXT4 inode size"@,
        Ext4Error::GroupLayout => "invalid EXT4 group layout"@,
        Ext4Error::InodeTable => "invalid EXT4 inode table"@,
        Ext4Error::ExtentHeader => "invalid EXT4 extent header"@,
        Ext4Error::ExtentDepth => "unsupported EXT4 extent depth"@,
        Ext4Error::ExtentIndex => "invalid EXT4 extent index"@,
        Ext4Error::ExtentLeaf => "invalid EXT4 extent leaf"@,
        Ext4Error::ExtentEntry => "invalid EXT4 extent entry"@,
        Ext4Error::BlockBuffer => "unsupported EXT4 block buffer"@,
        Ext4Error::NotDirectory => "inode is not a directory"@,
        Ext4Error::NotMounted => "EXT4 not mounted"@,
    }
}

impl Ext4Error {
    /// The message the kernel prints for this error.
    pub fn message(&self) -> (r: &'static str)
        ensures
            r@ == ext4_message(*self),
    {
        match self {
            Ext4Error::DiskRead => "disk read failed",
            Ext4Error::NoSuperblock => "no EXT4 superblock on test disk",
            Ext4Error::BlockSize => "unsupported EXT4 block size",
            Ext4Error::InodeSize => "unsupported EXT4 inode size",
            Ext4Error::GroupLayout => "invalid EXT4 group layout",
            Ext4Error::InodeTable => "invalid EXT4 inode table",
            Ext4Error::ExtentHeader => "invalid EXT4 extent header",
            Ext4Error::ExtentDepth => "unsupported EXT4 extent depth",
            Ext4Error::ExtentIndex => "invalid EXT4 extent index",
            Ext4Error::ExtentLeaf => "invalid EXT4 extent leaf",
            Ext4Error::ExtentEntry => "invalid EXT4 extent entry",
            Ext4Error::BlockBuffer => "unsupported EXT4 block buffer",
            Ext4Error::NotDirectory => "inode is not a directory",
            Ext4Error::NotMounted => "EXT4 not mounted",
        }
    }
}

/// The layout of a mounted EXT4 file system.
#[derive(Clone, Copy, Debug, PartialEq, Eq, Structural)]
pub struct Ext4Fs {
    pub block_size: usize,
    pub blocks_per_group: u32,
    pub inodes_per_group: u32,
    pub inode_size: usize,
    pub group_desc_size: usize,
}

/// What a directory lookup learns of an inode.
#[derive(Clone, Copy, Debug, PartialEq, Eq, Structural)]
pub struct FileInfo {
    pub inode_no: u32,
    pub size: u64,
    pub mode: u16,
}

/// An open regular file.
#[derive(Clone, Copy, Debug, PartialEq, Eq, Structural)]
pub struct Ext4File {
    pub inode_no: u32,
    pub size: u64,
}

impl Ext4Fs {
    /// The layouts `read_superblock` can produce.
    pub open spec fn wf(&self) -> bool {
        &&& (self.block_size == 1024 || self.block_size == 2048 || self.block_size == 4096)
        &&& 128 <= self.inode_size <= 0xffff
        &&& 32 <= self.group_desc_size <= 0xffff
    }
}

/// `x` reduced to 64 bits.
pub open spec fn wrap64(x: int) -> int {
    x % 0x1_0000_0000_0000_0000
}

/// Every sector that a read of `len` bytes at `off` touches lies inside an image of
/// `dlen` bytes.
pub open spec fn disk_read_ok(dlen: int, off: int, len: int) -> bool {
    len == 0 || ((off + len - 1) / 512 + 1) * 512 <= dlen
}

/// Reading `len` bytes at `off` of the image.
pub open spec fn disk_read(d: Seq<u8>, off: int, len: int) -> Result<Seq<u8>, Ext4Error> {
    if disk_read_ok(d.len() as int, off, len) {
        Ok(if len == 0 { Seq::<u8>::empty() } else { d.subrange(off, off + len) })
    } else {
        Err(Ext4Error::DiskRead)
    }
}

/// Reads `len` bytes at byte `offset` of the disk, sector by sector.
pub fn read_disk_bytes(disk: &[u8], offset: u64, len: usize) -> (r: Result<Vec<u8>, Ext4Error>)
    ensures
        r matches Ok(v) ==> disk_read(disk@, offset as int, len as int) == Ok::<Seq<u8>, Ext4Error>(v@),
        r is Err ==> disk_read(disk@, offset as int, len as int) == Err::<Seq<u8>, Ext4Error>(r->Err_0),
{
    if len == 0 {
        return Ok(Vec::new());
    }
    let dlen: usize = disk.len();
    if offset >= dlen as u64 {
        proof {
            assert(((offset + len - 1) / 512 + 1) * 512 > offset) by (nonlinear_arith)
                requires len >= 1;
        }
        return Err(Ext4Error::DiskRead);
    }
    let start = offset as usize;
    if len > dlen - start {
        proof {
            assert(((offset + len - 1) / 512 + 1) * 512 > offset + len - 1) by (nonlinear_arith)
                requires len >= 1;
        }
        return Err(Ext4Error::DiskRead);
    }
    let last = (start + len - 1) / SECTOR_SIZE;
    if last >= dlen / SECTOR_SIZE {
        proof {
            assert(((offset + len - 1) / 512 + 1) * 512 > dlen) by (nonlinear_arith)
                requires last == (offset + len - 1) / 512, last >= dlen / 512;
        }
        return Err(Ext4Error::DiskRead);
    }
    proof {
        assert((last + 1) * 512 <= dlen) by (nonlinear_arith)
            requires last < dlen / 512;
    }
    Ok(copy_range(disk, start, start + len))
}

/// The layout a superblock describes.
pub open spec fn parse_superblock(sb: Seq<u8>) -> Result<Ext4Fs, Ext4Error> {
    if le16(sb, 56) != EXT4_SUPER_MAGIC {
        Err(Ext4Error::NoSuperblock)
    } else if le32(sb, 24) > 2 {
        Err(Ext4Error::BlockSize)
    } else {
        let isz = if le16(sb, 88) == 0 { 128 } else { le16(sb, 88) };
        if isz < 128 {
            Err(Ext4Error::InodeSize)
        } else {
            Ok(Ext4Fs {
                block_size: if le32(sb, 24) == 0 { 1024 } else if le32(sb, 24) == 1 { 2048 } else { 4096 },
                blocks_per_group: le32(sb, 32) as u32,
                inodes_per_group: le32(sb, 40) as u32,
                inode_size: isz as usize,
                group_desc_size: if le16(sb, 254) < 32 { 32 } else { le16(sb, 254) as usize },
            })
        }
    }
}

/// Reading the superblock of a disk.
pub open spec fn superblock_of(d: Seq<u8>) -> Result<Ext4Fs, Ext4Error> {
    match disk_read(d, 1024, 512) {
        Err(e) => Err(e),
        Ok(sb) => parse_superblock(sb),
    }
}

/// Reads and checks the superblock.
pub fn read_superblock(disk: &[u8]) -> (r: Result<Ext4Fs, Ext4Error>)
    ensures
        r == superblock_of(disk@),
        r matches Ok(fs) ==> fs.wf(),
{
    let superblock = match read_disk_bytes(disk, EXT4_SUPER_OFFSET, SECTOR_SIZE) {
        Ok(v) => v,
        Err(e) => return Err(e),
    };
    let sb = superblock.as_slice();
    if le_u16(sb, 56) != EXT4_SUPER_MAGIC {
        return Err(Ext4Error::NoSuperblock);
    }
    let log_block_size = le_u32(sb, 24);
    if log_block_size > 2 {
        return Err(Ext4Error::BlockSize);
    }
    let block_size: usize = if log_block_size == 0 { 1024 } else if log_block_size == 1 { 2048 } else { 4096 };
    let raw_inode_size = le_u16(sb, 88) as usize;
    let inode_size = if raw_inode_size == 0 { MIN_INODE_SIZE } else { raw_inode_size };
    if inode_size < MIN_INODE_SIZE {
        return Err(Ext4Error::InodeSize);
    }
    let raw_gds = le_u16(sb, 254) as usize;
    let group_desc_size = if raw_gds < 32 { 32 } else { raw_gds };
    Ok(Ext4Fs {
        block_size,
        blocks_per_group: le_u32(sb, 32),
        inodes_per_group: le_u32(sb, 40),
        inode_size,
        group_desc_size,
    })
}

/// Where the group descriptor table starts.
pub open spec fn gdt_offset(fs: Ext4Fs) -> int {
    (if fs.block_size == 1024 { 2int } else { 1int }) * fs.block_size
}

/// The byte offset of the group descriptor that holds inode `ino`.
pub fn group_desc_table_offset(fs: &Ext4Fs) -> (r: u64)
    requires
        fs.wf(),
    ensures
        r == gdt_offset(*fs),
{
    let block: u64 = if fs.block_size == 1024 { 2 } else { 1 };
    block * fs.block_size as u64
}

/// `ino - 1` as the kernel's wrapping arithmetic computes it.
pub open spec fn ino_index(ino: u32) -> int {
    if ino == 0 { u32::MAX as int } else { ino - 1 }
}

/// The block of the inode table that holds inode `ino`.
pub open spec fn inode_table_of(d: Seq<u8>, fs: Ext4Fs, ino: u32) -> Result<u64, Ext4Error> {
    if fs.inodes_per_group == 0 || fs.blocks_per_group == 0 {
        Err(Ext4Error::GroupLayout)
    } else {
        let group = ino_index(ino) / (fs.inodes_per_group as int);
        match disk_read(d, gdt_offset(fs) + group * fs.group_desc_size, 64) {
            Err(e) => Err(e),
            Ok(desc) => {
                let hi = if fs.group_desc_size >= 64 { le32(desc, 40) } else { 0 };
                let table = hi * 0x1_0000_0000 + le32(desc, 8);
                if table == 0 { Err(Ext4Error::InodeTable) } else { Ok(table as u64) }
            },
        }
    }
}

/// Finds the inode-table block of inode `ino` from its group descriptor.
pub fn read_inode_table_block(disk: &[u8], fs: &Ext4Fs, inode_no: u32) -> (r: Result<u64, Ext4Error>)
    requires
        fs.wf(),
    ensures
        r == inode_table_of(disk@, *fs, inode_no),
{
    if fs.inodes_per_group == 0 || fs.blocks_per_group == 0 {
        return Err(Ext4Error::GroupLayout);
    }
    let group = inode_no.wrapping_sub(1) / fs.inodes_per_group;
    proof {
        assert(group as int == ino_index(inode_no) / (fs.inodes_per_group as int));
        assert(group as int * fs.group_desc_size <= 0xffff_ffff * 0xffff) by (nonlinear_arith)
            requires group <= 0xffff_ffff, fs.group_desc_size <= 0xffff;
    }
    let desc_offset = group_desc_table_offset(fs) + group as u64 * fs.group_desc_size as u64;
    let desc = match read_disk_bytes(disk, desc_offset, GROUP_DESC_PARSE_SIZE) {
        Ok(v) => v,
        Err(e) => return Err(e),
    };
    let lo = le_u32(desc.as_slice(), 8) as u64;
    let hi: u64 = if fs.group_desc_size >= 64 { le_u32(desc.as_slice(), 40) as u64 } else { 0 };
    let inode_table = (hi << 32u64) | lo;
    proof {
        assert((hi << 32u64) | lo == hi * 0x1_0000_0000 + lo) by (bit_vector)
            requires hi <= 0xffff_ffff, lo <= 0xffff_ffff;
    }
    if inode_table == 0 {
        return Err(Ext4Error::InodeTable);
    }
    Ok(inode_table)
}

/// The byte offset of inode `ino` given its table block.
pub open spec fn inode_offset(fs: Ext4Fs, table: u64, ino: u32) -> int {
    wrap64(wrap64(table * fs.block_size) + (ino_index(ino) % (fs.inodes_per_group as int)) * fs.inode_size)
}

/// Reading the first 160 bytes of inode `ino`.
#[verifier::opaque]
pub open spec fn inode_of(d: Seq<u8>, fs: Ext4Fs, ino: u32) -> Result<Seq<u8>, Ext4Error> {
    match inode_table_of(d, fs, ino) {
        Err(e) => Err(e),
        Ok(table) => disk_read(d, inode_offset(fs, table, ino), INODE_PARSE_SIZE as int),
    }
}

/// Reads the first 160 bytes of inode `ino` from its table block.
pub fn read_inode(disk: &[u8], fs: &Ext4Fs, inode_table: u64, inode_no: u32) -> (r: Result<Vec<u8>, Ext4Error>)
    requires
        fs.wf(),
        fs.inodes_per_group > 0,
    ensures
        r matches Ok(v) ==> disk_read(disk@, inode_offset(*fs, inode_table, inode_no), 160)
            == Ok::<Seq<u8>, Ext4Error>(v@),
        r is Err ==> disk_read(disk@, inode_offset(*fs, inode_table, inode_no), 160)
            == Err::<Seq<u8>, Ext4Error>(r->Err_0),
{
    let index = inode_no.wrapping_sub(1) % fs.inodes_per_group;
    proof {
        assert(index as int * fs.inode_size <= 0xffff_ffff * 0xffff) by (nonlinear_arith)
            requires index <= 0xffff_ffff, fs.inode_size <= 0xffff;
    }
    let base = inode_table.wrapping_mul(fs.block_size as u64);
    let offset = base.wrapping_add(index as u64 * fs.inode_size as u64);
    proof {
        assert(base as int == wrap64(inode_table * fs.block_size));
        assert(offset as int == inode_offset(*fs, inode_table, inode_no));
    }
    read_disk_bytes(disk, offset, INODE_PARSE_SIZE)
}

/// Reads inode `ino`: its table block, then its bytes.
pub fn read_inode_by_no(disk: &[u8], fs: &Ext4Fs, inode_no: u32) -> (r: Result<Vec<u8>, Ext4Error>)
    requires
        fs.wf(),
    ensures
        r matches Ok(v) ==> inode_of(disk@, *fs, inode_no) == Ok::<Seq<u8>, Ext4Error>(v@),
        r is Err ==> inode_of(disk@, *fs, inode_no) == Err::<Seq<u8>, Ext4Error>(r->Err_0),
        r matches Ok(v) ==> v@.len() == INODE_PARSE_SIZE,
{
    proof {
        reveal(inode_of);
    }
    let inode_table = match read_inode_table_block(disk, fs, inode_no) {
        Ok(t) => t,
        Err(e) => return Err(e),
    };
    read_inode(disk, fs, inode_table, inode_no)
}

/// The size recorded in inode bytes `i`.
pub open spec fn inode_size_of(i: Seq<u8>) -> int {
    le32(i, 108) * 0x1_0000_0000 + le32(i, 4)
}

/// The 64-bit file size of an inode.
pub fn inode_size(inode: &[u8]) -> (r: u64)
    requires
        inode@.len() >= 112,
    ensures
        r == inode_size_of(inode@),
{
    let lo = le_u32(inode, 4) as u64;
    let hi = le_u32(inode, 108) as u64;
    proof {
        assert((hi << 32u64) | lo == hi * 0x1_0000_0000 + lo) by (bit_vector)
            requires hi <= 0xffff_ffff, lo <= 0xffff_ffff;
    }
    (hi << 32u64) | lo
}

/// What `read_file_info` reports for an inode read as `i`.
pub open spec fn info_of(ino: u32, i: Seq<u8>) -> FileInfo {
    FileInfo { inode_no: ino, size: inode_size_of(i) as u64, mode: le16(i, 0) as u16 }
}

/// Number, size and mode of inode `ino`.
pub fn read_file_info(disk: &[u8], fs: &Ext4Fs, inode_no: u32) -> (r: Result<FileInfo, Ext4Error>)
    requires
        fs.wf(),
    ensures
        r matches Ok(info) ==> inode_of(disk@, *fs, inode_no) matches Ok(i) && info == info_of(inode_no, i),
        r is Err ==> inode_of(disk@, *fs, inode_no) == Err::<Seq<u8>, Ext4Error>(r->Err_0),
{
    let inode = match read_inode_by_no(disk, fs, inode_no) {
        Ok(v) => v,
        Err(e) => return Err(e),
    };
    Ok(FileInfo { inode_no, size: inode_size(inode.as_slice()), mode: le_u16(inode.as_slice(), 0) })
}

/// Looking for `t` among the directory records of `b[..limit]` from `off`.
pub open spec fn dir_find(b: Seq<u8>, limit: int, t: Seq<u8>, off: int) -> Option<u32>
    decreases limit - off,
{
    if off < 0 || off + 8 > limit || limit > b.len() {
        None
    } else {
        let ino = le32(b, off);
        let rec = le16(b, off + 4);
        let nl = b[off + 6] as int;
        if rec < 8 || off + rec > limit {
            None
        } else if ino != 0 && nl == t.len() && nl <= rec - 8 && b.subrange(off + 8, off + 8 + nl) == t {
            Some(ino as u32)
        } else {
            dir_find(b, limit, t, off + rec)
        }
    }
}

/// The inode of the entry named `target` in the directory records of `block[..limit]`.
pub fn find_dir_entry(block: &[u8], limit: usize, target: &[u8]) -> (r: Option<u32>)
    requires
        limit <= block@.len(),
    ensures
        r == dir_find(block@, limit as int, target@, 0),
{
    let mut offset: usize = 0;
    while limit >= 8 && offset <= limit - 8
        invariant
            limit <= block@.len(),
            offset <= limit,
            dir_find(block@, limit as int, target@, 0) == dir_find(block@, limit as int, target@, offset as int),
        decreases limit - offset,
    {
        let inode = le_u32(block, offset);
        let rec_len = le_u16(block, offset + 4) as usize;
        let name_len = block[offset + 6] as usize;
        if rec_len < 8 || rec_len > limit - offset {
            return None;
        }
        if inode != 0 && name_len == target.len() && name_len <= rec_len - 8 {
            let name = copy_range(block, offset + 8, offset + 8 + name_len);
            if crate::bytes::bytes_eq(name.as_slice(), target) {
                return Some(inode);
            }
        }
        offset = offset + rec_len;
    }
    None
}


/// Reading file-system block `b`.
pub open spec fn fs_block(d: Seq<u8>, fs: Ext4Fs, b: int) -> Result<Seq<u8>, Ext4Error> {
    disk_read(d, wrap64(b * fs.block_size), fs.block_size as int)
}

/// Reads file-system block `block_no`.
pub fn read_fs_block(disk: &[u8], fs: &Ext4Fs, block_no: u64) -> (r: Result<Vec<u8>, Ext4Error>)
    requires
        fs.wf(),
    ensures
        r matches Ok(v) ==> fs_block(disk@, *fs, block_no as int) == Ok::<Seq<u8>, Ext4Error>(v@)
            && v@.len() == fs.block_size,
        r is Err ==> fs_block(disk@, *fs, block_no as int) == Err::<Seq<u8>, Ext4Error>(r->Err_0),
{
    if fs.block_size > MAX_BLOCK_SIZE {
        return Err(Ext4Error::BlockBuffer);
    }
    let offset = block_no.wrapping_mul(fs.block_size as u64);
    read_disk_bytes(disk, offset, fs.block_size)
}

/// The extent-header check: node long enough and carrying the magic.
pub open spec fn extent_header_ok(n: Seq<u8>) -> bool {
    n.len() >= 12 && le16(n, 0) == EXT4_EXTENT_MAGIC
}

/// The number of entries of an extent node.
pub fn extent_entries(node: &[u8]) -> (r: Result<u16, Ext4Error>)
    ensures
        r == if extent_header_ok(node@) { Ok::<u16, Ext4Error>(le16(node@, 2) as u16) } else {
            Err(Ext4Error::ExtentHeader)
        },
{
    if node.len() < 12 || le_u16(node, 0) != EXT4_EXTENT_MAGIC {
        return Err(Ext4Error::ExtentHeader);
    }
    Ok(le_u16(node, 2))
}

/// The depth of an extent node.
pub fn extent_depth(node: &[u8]) -> (r: Result<u16, Ext4Error>)
    ensures
        r == if extent_header_ok(node@) { Ok::<u16, Ext4Error>(le16(node@, 6) as u16) } else {
            Err(Ext4Error::ExtentHeader)
        },
{
    if node.len() < 12 || le_u16(node, 0) != EXT4_EXTENT_MAGIC {
        return Err(Ext4Error::ExtentHeader);
    }
    Ok(le_u16(node, 6))
}

/// The child block an extent index entry at `off` points at.
pub open spec fn index_leaf_of(n: Seq<u8>, off: int) -> int {
    le16(n, off + 8) * 0x1_0000_0000 + le32(n, off + 4)
}

/// The child block of the extent index entry at `offset`.
pub fn extent_index_leaf(node: &[u8], offset: usize) -> (r: u64)
    requires
        offset + 12 <= node@.len(),
    ensures
        r == index_leaf_of(node@, offset as int),
{
    let total: usize = node.len();
    let lo = le_u32(node, offset + 4) as u64;
    let hi = le_u16(node, offset + 8) as u64;
    proof {
        assert((hi << 32u64) | lo == hi * 0x1_0000_0000 + lo) by (bit_vector)
            requires hi <= 0xffff, lo <= 0xffff_ffff;
    }
    (hi << 32u64) | lo
}

/// The bytes of block at file offset `off` that belong to a file of `size` bytes.
pub open spec fn remaining_len(size: int, off: int, bs: int) -> int {
    if size - off < bs { size - off } else { bs }
}

/// How many bytes of the block at `file_offset` the file still covers.
pub fn remaining_block_len(file_size: u64, file_offset: u64, block_size: usize) -> (r: usize)
    requires
        file_offset < file_size,
        block_size <= MAX_BLOCK_SIZE,
    ensures
        r == remaining_len(file_size as int, file_offset as int, block_size as int),
        r <= block_size,
{
    let remaining = file_size - file_offset;
    if remaining < block_size as u64 {
        remaining as usize
    } else {
        block_size
    }
}

/// Looking for `t` in the first `vlen` bytes of directory block `b`.
pub open spec fn dir_block_find(d: Seq<u8>, fs: Ext4Fs, b: int, vlen: int, t: Seq<u8>) -> Result<Option<u32>, Ext4Error> {
    match fs_block(d, fs, b) {
        Err(e) => Err(e),
        Ok(blk) => Ok(dir_find(blk, vlen, t, 0)),
    }
}

/// Looks for `target` in the first `valid_len` bytes of directory block `block_no`.
pub fn find_in_dir_data_block(disk: &[u8], fs: &Ext4Fs, block_no: u64, valid_len: usize, target: &[u8])
    -> (r: Result<Option<u32>, Ext4Error>)
    requires
        fs.wf(),
        valid_len <= fs.block_size,
    ensures
        r == dir_block_find(disk@, *fs, block_no as int, valid_len as int, target@),
{
    let buffer = match read_fs_block(disk, fs, block_no) {
        Ok(v) => v,
        Err(e) => return Err(e),
    };
    Ok(find_dir_entry(buffer.as_slice(), valid_len, target))
}

/// Looking for `t` in the direct blocks `idx..12` of a directory whose inode is `i`.
pub open spec fn direct_find(d: Seq<u8>, fs: Ext4Fs, i: Seq<u8>, size: int, t: Seq<u8>, idx: int)
    -> Result<Option<u32>, Ext4Error>
    decreases 12 - idx,
{
    if idx >= 12 || idx < 0 {
        Ok(None)
    } else {
        let blk = le32(i, 40 + idx * 4);
        let off = idx * fs.block_size;
        if blk == 0 || off >= size {
            Ok(None)
        } else {
            match dir_block_find(d, fs, blk, remaining_len(size, off, fs.block_size as int), t) {
                Err(e) => Err(e),
                Ok(Some(ino)) => Ok(Some(ino)),
                Ok(None) => direct_find(d, fs, i, size, t, idx + 1),
            }
        }
    }
}

/// Looks for `target` in the twelve direct blocks of a directory inode.
pub fn find_in_direct_blocks(disk: &[u8], fs: &Ext4Fs, inode: &[u8], file_size: u64, target: &[u8])
    -> (r: Result<Option<u32>, Ext4Error>)
    requires
        fs.wf(),
        inode@.len() >= 88,
    ensures
        r == direct_find(disk@, *fs, inode@, file_size as int, target@, 0),
{
    let mut index: usize = 0;
    while index < 12
        invariant
            fs.wf(),
            inode@.len() >= 88,
            index <= 12,
            direct_find(disk@, *fs, inode@, file_size as int, target@, 0)
                == direct_find(disk@, *fs, inode@, file_size as int, target@, index as int),
        decreases 12 - index,
    {
        let block_no = le_u32(inode, 40 + index * 4) as u64;
        if block_no == 0 {
            return Ok(None);
        }
        let file_offset = index as u64 * fs.block_size as u64;
        if file_offset >= file_size {
            return Ok(None);
        }
        let valid_len = remaining_block_len(file_size, file_offset, fs.block_size);
        match find_in_dir_data_block(disk, fs, block_no, valid_len, target) {
            Err(e) => return Err(e),
            Ok(Some(ino)) => return Ok(Some(ino)),
            Ok(None) => {},
        }
        index = index + 1;
    }
    Ok(None)
}

/// Logical start of the extent entry at `off`.
pub open spec fn ext_logical(n: Seq<u8>, off: int) -> int {
    le32(n, off)
}

/// Length in blocks of the extent entry at `off` (the initialized-flag bit dropped).
pub open spec fn ext_len(n: Seq<u8>, off: int) -> int {
    le16(n, off + 4) % 0x8000
}

/// Physical start of the extent entry at `off`.
pub open spec fn ext_physical(n: Seq<u8>, off: int) -> int {
    le16(n, off + 6) * 0x1_0000_0000 + le32(n, off + 8)
}

/// Looking for `t` in blocks `bi..len` of one extent.
pub open spec fn extent_blocks_find(d: Seq<u8>, fs: Ext4Fs, size: int, t: Seq<u8>, logical: int, len: int,
    physical: int, bi: int) -> Result<Option<u32>, Ext4Error>
    decreases len - bi,
{
    if bi >= len || bi < 0 {
        Ok(None)
    } else {
        let off = (logical + bi) * fs.block_size;
        if off >= size {
            Ok(None)
        } else {
            match dir_block_find(d, fs, physical + bi, remaining_len(size, off, fs.block_size as int), t) {
                Err(e) => Err(e),
                Ok(Some(ino)) => Ok(Some(ino)),
                Ok(None) => extent_blocks_find(d, fs, size, t, logical, len, physical, bi + 1),
            }
        }
    }
}

/// Looking for `t` in extent entries `idx..` of leaf node `n`.
pub open spec fn leaf_entries_find(d: Seq<u8>, fs: Ext4Fs, n: Seq<u8>, size: int, t: Seq<u8>, idx: int)
    -> Result<Option<u32>, Ext4Error>
    decreases le16(n, 2) - idx,
{
    if idx >= le16(n, 2) || idx < 0 {
        Ok(None)
    } else {
        let off = 12 + idx * 12;
        if off + 12 > n.len() {
            Err(Ext4Error::ExtentEntry)
        } else {
            match extent_blocks_find(d, fs, size, t, ext_logical(n, off), ext_len(n, off), ext_physical(n, off), 0) {
                Err(e) => Err(e),
                Ok(Some(ino)) => Ok(Some(ino)),
                Ok(None) => leaf_entries_find(d, fs, n, size, t, idx + 1),
            }
        }
    }
}

/// Looking for `t` under extent leaf node `n`.
pub open spec fn leaf_find(d: Seq<u8>, fs: Ext4Fs, n: Seq<u8>, size: int, t: Seq<u8>) -> Result<Option<u32>, Ext4Error> {
    if !extent_header_ok(n) {
        Err(Ext4Error::ExtentHeader)
    } else if le16(n, 6) != 0 {
        Err(Ext4Error::ExtentLeaf)
    } else {
        leaf_entries_find(d, fs, n, size, t, 0)
    }
}

/// Looks for `target` in the blocks of one extent, from block `bi`.
fn find_in_extent_blocks(disk: &[u8], fs: &Ext4Fs, file_size: u64, target: &[u8], logical: u64, len: u64,
    physical: u64) -> (r: Result<Option<u32>, Ext4Error>)
    requires
        fs.wf(),
        logical <= 0xffff_ffff,
        len < 0x8000,
        physical < 0x1_0000_0000_0000,
    ensures
        r == extent_blocks_find(disk@, *fs, file_size as int, target@, logical as int, len as int, physical as int, 0),
{
    let mut block_index: u64 = 0;
    while block_index < len
        invariant
            fs.wf(),
            logical <= 0xffff_ffff,
            len < 0x8000,
            physical < 0x1_0000_0000_0000,
            block_index <= len,
            extent_blocks_find(disk@, *fs, file_size as int, target@, logical as int, len as int, physical as int, 0)
                == extent_blocks_find(disk@, *fs, file_size as int, target@, logical as int, len as int,
                    physical as int, block_index as int),
        decreases len - block_index,
    {
        proof {
            assert((logical + block_index) * fs.block_size <= (0xffff_ffff + 0x8000) * 4096) by (nonlinear_arith)
                requires logical <= 0xffff_ffff, block_index < 0x8000, fs.block_size <= 4096;
        }
        let file_offset = (logical + block_index) * fs.block_size as u64;
        if file_offset >= file_size {
            return Ok(None);
        }
        let valid_len = remaining_block_len(file_size, file_offset, fs.block_size);
        match find_in_dir_data_block(disk, fs, physical + block_index, valid_len, target) {
            Err(e) => return Err(e),
            Ok(Some(ino)) => return Ok(Some(ino)),
            Ok(None) => {},
        }
        block_index = block_index + 1;
    }
    Ok(None)
}

/// The three fields of the extent entry at `offset`.
pub fn read_extent_entry(node: &[u8], offset: usize) -> (r: (u64, u64, u64))
    requires
        offset + 12 <= node@.len(),
    ensures
        r.0 == ext_logical(node@, offset as int),
        r.1 == ext_len(node@, offset as int),
        r.2 == ext_physical(node@, offset as int),
        r.0 <= 0xffff_ffff,
        r.1 < 0x8000,
        r.2 < 0x1_0000_0000_0000,
{
    let total: usize = node.len();
    let logical = le_u32(node, offset) as u64;
    let raw = le_u16(node, offset + 4);
    let len = (raw & 0x7fff) as u64;
    let hi = le_u16(node, offset + 6) as u64;
    let lo = le_u32(node, offset + 8) as u64;
    proof {
        assert(raw & 0x7fff == raw % 0x8000) by (bit_vector);
        assert((hi << 32u64) | lo == hi * 0x1_0000_0000 + lo) by (bit_vector)
            requires hi <= 0xffff, lo <= 0xffff_ffff;
        assert(hi * 0x1_0000_0000 + lo < 0x1_0000_0000_0000) by (nonlinear_arith)
            requires hi <= 0xffff, lo <= 0xffff_ffff;
    }
    (logical, len, (hi << 32u64) | lo)
}

/// Looks for `target` in the directory blocks an extent leaf node covers.
pub fn find_in_extent_leaf(disk: &[u8], fs: &Ext4Fs, node: &[u8], file_size: u64, target: &[u8])
    -> (r: Result<Option<u32>, Ext4Error>)
    requires
        fs.wf(),
    ensures
        r == leaf_find(disk@, *fs, node@, file_size as int, target@),
{
    let depth = match extent_depth(node) {
        Ok(v) => v,
        Err(e) => return Err(e),
    };
    if depth != 0 {
        return Err(Ext4Error::ExtentLeaf);
    }
    let entries = match extent_entries(node) {
        Ok(v) => v as usize,
        Err(e) => return Err(e),
    };
    let mut index: usize = 0;
    while index < entries
        invariant
            fs.wf(),
            extent_header_ok(node@),
            entries == le16(node@, 2),
            entries <= 0xffff,
            index <= entries,
            leaf_find(disk@, *fs, node@, file_size as int, target@)
                == leaf_entries_find(disk@, *fs, node@, file_size as int, target@, index as int),
        decreases entries - index,
    {
        let offset = 12 + index * 12;
        if offset + 12 > node.len() {
            return Err(Ext4Error::ExtentEntry);
        }
        let (logical, len, physical) = read_extent_entry(node, offset);
        match find_in_extent_blocks(disk, fs, file_size, target, logical, len, physical) {
            Err(e) => return Err(e),
            Ok(Some(ino)) => return Ok(Some(ino)),
            Ok(None) => {},
        }
        index = index + 1;
    }
    Ok(None)
}

/// Looking for `t` under the leaves that index entries `idx..` of root `n` point at.
pub open spec fn index_entries_find(d: Seq<u8>, fs: Ext4Fs, n: Seq<u8>, size: int, t: Seq<u8>, idx: int)
    -> Result<Option<u32>, Ext4Error>
    decreases le16(n, 2) - idx,
{
    if idx >= le16(n, 2) || idx < 0 {
        Ok(None)
    } else {
        let off = 12 + idx * 12;
        if off + 12 > n.len() {
            Err(Ext4Error::ExtentIndex)
        } else {
            match fs_block(d, fs, index_leaf_of(n, off)) {
                Err(e) => Err(e),
                Ok(leaf) => match leaf_find(d, fs, leaf, size, t) {
                    Err(e) => Err(e),
                    Ok(Some(ino)) => Ok(Some(ino)),
                    Ok(None) => index_entries_find(d, fs, n, size, t, idx + 1),
                },
            }
        }
    }
}

/// Looking for `t` in a directory whose extent tree root is `n` (depth 0 or 1).
pub open spec fn tree_find(d: Seq<u8>, fs: Ext4Fs, n: Seq<u8>, size: int, t: Seq<u8>) -> Result<Option<u32>, Ext4Error> {
    if !extent_header_ok(n) {
        Err(Ext4Error::ExtentHeader)
    } else if le16(n, 6) == 0 {
        leaf_find(d, fs, n, size, t)
    } else if le16(n, 6) != 1 {
        Err(Ext4Error::ExtentDepth)
    } else {
        index_entries_find(d, fs, n, size, t, 0)
    }
}

/// Looks for `target` in a directory stored as an extent tree of depth 0 or 1.
pub fn find_in_extent_tree(disk: &[u8], fs: &Ext4Fs, root: &[u8], file_size: u64, target: &[u8])
    -> (r: Result<Option<u32>, Ext4Error>)
    requires
        fs.wf(),
    ensures
        r == tree_find(disk@, *fs, root@, file_size as int, target@),
{
    let depth = match extent_depth(root) {
        Ok(v) => v,
        Err(e) => return Err(e),
    };
    if depth == 0 {
        return find_in_extent_leaf(disk, fs, root, file_size, target);
    }
    if depth != 1 {
        return Err(Ext4Error::ExtentDepth);
    }
    let entries = match extent_entries(root) {
        Ok(v) => v as usize,
        Err(e) => return Err(e),
    };
    let mut index: usize = 0;
    while index < entries
        invariant
            fs.wf(),
            extent_header_ok(root@),
            le16(root@, 6) == 1,
            entries == le16(root@, 2),
            entries <= 0xffff,
            index <= entries,
            tree_find(disk@, *fs, root@, file_size as int, target@)
                == index_entries_find(disk@, *fs, root@, file_size as int, target@, index as int),
        decreases entries - index,
    {
        let offset = 12 + index * 12;
        if offset + 12 > root.len() {
            return Err(Ext4Error::ExtentIndex);
        }
        let leaf = extent_index_leaf(root, offset);
        let leaf_block = match read_fs_block(disk, fs, leaf) {
            Ok(v) => v,
            Err(e) => return Err(e),
        };
        match find_in_extent_leaf(disk, fs, leaf_block.as_slice(), file_size, target) {
            Err(e) => return Err(e),
            Ok(Some(ino)) => return Ok(Some(ino)),
            Ok(None) => {},
        }
        index = index + 1;
    }
    Ok(None)
}


/// The file-type bits of the mode in inode bytes `i`.
pub open spec fn mode_type(i: Seq<u8>) -> u16 {
    (le16(i, 0) as u16) & EXT4_MODE_TYPE_MASK
}

/// Whether the inode bytes `i` use extents.
pub open spec fn uses_extents(i: Seq<u8>) -> bool {
    (le32(i, 32) as u32) & EXT4_EXTENTS_FL != 0
}

/// Looking for `t` in directory inode `parent`.
#[verifier::opaque]
pub open spec fn child_lookup(d: Seq<u8>, fs: Ext4Fs, parent: u32, t: Seq<u8>) -> Result<Option<u32>, Ext4Error> {
    if t.len() == 0 || t.contains(0u8) {
        Ok(None)
    } else {
        match inode_of(d, fs, parent) {
            Err(e) => Err(e),
            Ok(i) => if mode_type(i) != EXT4_S_IFDIR {
                Ok(None)
            } else if uses_extents(i) {
                tree_find(d, fs, i.subrange(40, 100), inode_size_of(i), t)
            } else {
                direct_find(d, fs, i, inode_size_of(i), t, 0)
            },
        }
    }
}

/// Looks up the entry named `target` in directory inode `parent_inode_no`.
pub fn lookup_child_inode(disk: &[u8], fs: &Ext4Fs, parent_inode_no: u32, target: &[u8])
    -> (r: Result<Option<u32>, Ext4Error>)
    requires
        fs.wf(),
    ensures
        r == child_lookup(disk@, *fs, parent_inode_no, target@),
{
    proof {
        reveal(child_lookup);
    }
    if target.len() == 0 || crate::bytes::contains_byte(target, 0) {
        return Ok(None);
    }
    let parent_inode = match read_inode_by_no(disk, fs, parent_inode_no) {
        Ok(v) => v,
        Err(e) => return Err(e),
    };
    let pi = parent_inode.as_slice();
    if le_u16(pi, 0) & EXT4_MODE_TYPE_MASK != EXT4_S_IFDIR {
        return Ok(None);
    }
    let parent_size = inode_size(pi);
    if le_u32(pi, 32) & EXT4_EXTENTS_FL != 0 {
        let root = copy_range(pi, 40, 100);
        find_in_extent_tree(disk, fs, root.as_slice(), parent_size, target)
    } else {
        find_in_direct_blocks(disk, fs, pi, parent_size, target)
    }
}

/// The first position at or after `i` that is not a slash.
pub open spec fn skip_slashes(p: Seq<u8>, i: int) -> int
    decreases p.len() - i,
{
    if 0 <= i < p.len() && p[i] == 47u8 { skip_slashes(p, i + 1) } else { i }
}

/// The end of the path component that starts at `i`.
pub open spec fn component_end(p: Seq<u8>, i: int) -> int
    decreases p.len() - i,
{
    if 0 <= i < p.len() && p[i] != 47u8 { component_end(p, i + 1) } else { i }
}

pub proof fn lemma_skip_slashes(p: Seq<u8>, i: int)
    requires
        0 <= i,
    ensures
        i <= skip_slashes(p, i),
        i <= p.len() ==> skip_slashes(p, i) <= p.len(),
        skip_slashes(p, i) < p.len() ==> p[skip_slashes(p, i)] != 47u8,
    decreases p.len() - i,
{
    if 0 <= i < p.len() && p[i] == 47u8 {
        lemma_skip_slashes(p, i + 1);
    }
}

pub proof fn lemma_component_end(p: Seq<u8>, i: int)
    requires
        0 <= i,
    ensures
        i <= component_end(p, i),
        i <= p.len() ==> component_end(p, i) <= p.len(),
        component_end(p, i) < p.len() ==> p[component_end(p, i)] == 47u8,
    decreases p.len() - i,
{
    if 0 <= i < p.len() && p[i] != 47u8 {
        lemma_component_end(p, i + 1);
    }
}

/// What a resolution standing at `cur` reports once the path is used up.
pub open spec fn walk_finish(d: Seq<u8>, fs: Ext4Fs, cur: u32, saw: bool) -> Result<Option<FileInfo>, Ext4Error> {
    if saw {
        match inode_of(d, fs, cur) {
            Err(e) => Err(e),
            Ok(i) => Ok(Some(info_of(cur, i))),
        }
    } else {
        Ok(None)
    }
}

/// Resolving path `p` from position `index`, standing at directory `cur`.
#[verifier::opaque]
pub open spec fn path_walk(d: Seq<u8>, fs: Ext4Fs, p: Seq<u8>, index: int, cur: u32, saw: bool)
    -> Result<Option<FileInfo>, Ext4Error>
    decreases p.len() - index,
{
    let start = skip_slashes(p, index);
    if index < 0 || index >= p.len() || start >= p.len() {
        walk_finish(d, fs, cur, saw)
    } else {
        let end = component_end(p, start);
        let comp = p.subrange(start, end);
        proof {
            lemma_skip_slashes(p, index);
            lemma_component_end(p, start);
        }
        if end <= index {
            Ok(None)
        } else if comp == crate::text::dot_spec() {
            path_walk(d, fs, p, end, cur, saw)
        } else if comp == crate::text::dotdot_spec() {
            path_walk(d, fs, p, end, EXT4_ROOT_INO, true)
        } else {
            match child_lookup(d, fs, cur, comp) {
                Err(e) => Err(e),
                Ok(None) => Ok(None),
                Ok(Some(c)) => match inode_of(d, fs, c) {
                    Err(e) => Err(e),
                    Ok(i) => if skip_slashes(p, end) >= p.len() {
                        Ok(Some(info_of(c, i)))
                    } else if mode_type(i) != EXT4_S_IFDIR {
                        Ok(None)
                    } else {
                        proof {
                            lemma_skip_slashes(p, end);
                        }
                        path_walk(d, fs, p, skip_slashes(p, end), c, true)
                    },
                },
            }
        }
    }
}

/// One step of `path_walk`.
proof fn lemma_walk_step(d: Seq<u8>, fs: Ext4Fs, p: Seq<u8>, index: int, cur: u32, saw: bool)
    requires
        0 <= index <= p.len(),
    ensures
        ({
            let start = skip_slashes(p, index);
            let end = component_end(p, start);
            let comp = p.subrange(start, end);
            let w = path_walk(d, fs, p, index, cur, saw);
            &&& index <= start <= p.len()
            &&& start < p.len() ==> start < end <= p.len() && index < end
            &&& (index == p.len() || start >= p.len()) ==> w == walk_finish(d, fs, cur, saw)
            &&& start < p.len() && comp == crate::text::dot_spec() ==> w == path_walk(d, fs, p, end, cur, saw)
            &&& start < p.len() && comp == crate::text::dotdot_spec() ==> w == path_walk(d, fs, p, end,
                EXT4_ROOT_INO, true)
            &&& start < p.len() && comp != crate::text::dot_spec() && comp != crate::text::dotdot_spec() ==> w
                == match child_lookup(d, fs, cur, comp) {
                Err(e) => Err(e),
                Ok(None) => Ok(None),
                Ok(Some(c)) => match inode_of(d, fs, c) {
                    Err(e) => Err(e),
                    Ok(i) => if skip_slashes(p, end) >= p.len() {
                        Ok(Some(info_of(c, i)))
                    } else if mode_type(i) != EXT4_S_IFDIR {
                        Ok(None)
                    } else {
                        path_walk(d, fs, p, skip_slashes(p, end), c, true)
                    },
                },
            }
        }),
{
    reveal(path_walk);
    lemma_skip_slashes(p, index);
    let start = skip_slashes(p, index);
    if start < p.len() {
        lemma_component_end(p, start);
        lemma_component_end(p, start + 1);
    }
    assert(crate::text::dot_spec().len() == 1);
    assert(crate::text::dotdot_spec().len() == 2);
    assert(crate::text::dot_spec() != crate::text::dotdot_spec());
}

/// Resolves `path` from the root directory. `.` components are skipped, `..` goes back
/// to the root, and every component but the last must be a directory.
pub fn lookup_path(disk: &[u8], fs: &Ext4Fs, path: &[u8]) -> (r: Result<Option<FileInfo>, Ext4Error>)
    requires
        fs.wf(),
    ensures
        r == path_walk(disk@, *fs, path@, 0, EXT4_ROOT_INO, false),
{
    let mut index: usize = 0;
    let mut current_inode_no: u32 = EXT4_ROOT_INO;
    let mut saw_component = false;
    let dot = crate::text::dot();
    let dotdot = crate::text::dotdot();
    let ghost p = path@;
    while index < path.len()
        invariant
            fs.wf(),
            p == path@,
            dot@ == crate::text::dot_spec(),
            dotdot@ == crate::text::dotdot_spec(),
            index <= p.len(),
            path_walk(disk@, *fs, p, 0, EXT4_ROOT_INO, false)
                == path_walk(disk@, *fs, p, index as int, current_inode_no, saw_component),
        decreases p.len() - index,
    {
        let ghost index0 = index as int;
        proof {
            lemma_skip_slashes(p, index0);
            lemma_walk_step(disk@, *fs, p, index0, current_inode_no, saw_component);
        }
        while index < path.len() && path[index] == 47u8
            invariant
                p == path@,
                index0 <= index <= p.len(),
                skip_slashes(p, index0) == skip_slashes(p, index as int),
            decreases p.len() - index,
        {
            index = index + 1;
        }
        if index >= path.len() {
            proof {
                lemma_walk_step(disk@, *fs, p, index as int, current_inode_no, saw_component);
            }
            continue;
        }
        let component_start = index;
        proof {
            lemma_component_end(p, component_start as int);
        }
        while index < path.len() && path[index] != 47u8
            invariant
                p == path@,
                component_start <= index <= p.len(),
                component_end(p, component_start as int) == component_end(p, index as int),
            decreases p.len() - index,
        {
            index = index + 1;
        }
        let component = copy_range(path, component_start, index);
        if crate::bytes::bytes_eq(component.as_slice(), dot.as_slice()) {
            continue;
        }
        saw_component = true;
        if crate::bytes::bytes_eq(component.as_slice(), dotdot.as_slice()) {
            current_inode_no = EXT4_ROOT_INO;
            continue;
        }
        let child_inode_no = match lookup_child_inode(disk, fs, current_inode_no, component.as_slice()) {
            Err(e) => return Err(e),
            Ok(None) => return Ok(None),
            Ok(Some(c)) => c,
        };
        let mut next_index = index;
        proof {
            lemma_skip_slashes(p, index as int);
        }
        while next_index < path.len() && path[next_index] == 47u8
            invariant
                p == path@,
                index <= next_index <= p.len(),
                skip_slashes(p, index as int) == skip_slashes(p, next_index as int),
            decreases p.len() - next_index,
        {
            next_index = next_index + 1;
        }
        let child = match read_file_info(disk, fs, child_inode_no) {
            Err(e) => return Err(e),
            Ok(info) => info,
        };
        if next_index >= path.len() {
            return Ok(Some(child));
        }
        if child.mode & EXT4_MODE_TYPE_MASK != EXT4_S_IFDIR {
            return Ok(None);
        }
        current_inode_no = child_inode_no;
        index = next_index;
    }
    proof {
        lemma_walk_step(disk@, *fs, p, index as int, current_inode_no, saw_component);
    }
    if saw_component {
        match read_file_info(disk, fs, current_inode_no) {
            Err(e) => Err(e),
            Ok(info) => Ok(Some(info)),
        }
    } else {
        Ok(None)
    }
}


/// `buf` with the bytes of block `blk` (holding file bytes `[fo, fo + vlen)`) copied over the
/// positions of `buf` that stand for those file bytes; `buf[j]` stands for file byte `ro + j`.
pub open spec fn overlay(buf: Seq<u8>, blk: Seq<u8>, fo: int, vlen: int, ro: int) -> Seq<u8> {
    Seq::new(buf.len(), |j: int| if fo <= ro + j < fo + vlen { blk[ro + j - fo] } else { buf[j] })
}

/// Copying the part of block `b` that overlaps the window into `buf`.
pub open spec fn block_copy(d: Seq<u8>, fs: Ext4Fs, b: int, fo: int, vlen: int, ro: int, buf: Seq<u8>)
    -> Result<Seq<u8>, Ext4Error> {
    let os = if fo > ro { fo } else { ro };
    let oe = if fo + vlen < ro + buf.len() { fo + vlen } else { ro + buf.len() };
    if os >= oe {
        Ok(buf)
    } else {
        match fs_block(d, fs, b) {
            Err(e) => Err(e),
            Ok(blk) => Ok(overlay(buf, blk, fo, vlen, ro)),
        }
    }
}

/// Copies the bytes of block `block_no` (file bytes `[file_offset, file_offset + valid_len)`)
/// that fall in the window of `output`, which stands for file bytes from `read_offset`.
pub fn copy_data_block_range(disk: &[u8], fs: &Ext4Fs, block_no: u64, file_offset: u64, valid_len: usize,
    read_offset: u64, output: &mut Vec<u8>) -> (r: Result<(), Ext4Error>)
    requires
        fs.wf(),
        valid_len <= fs.block_size,
        file_offset + valid_len <= u64::MAX,
        read_offset + old(output)@.len() <= u64::MAX,
    ensures
        final(output)@.len() == old(output)@.len(),
        r is Ok ==> block_copy(disk@, *fs, block_no as int, file_offset as int, valid_len as int,
            read_offset as int, old(output)@) == Ok::<Seq<u8>, Ext4Error>(final(output)@),
        r is Err ==> block_copy(disk@, *fs, block_no as int, file_offset as int, valid_len as int,
            read_offset as int, old(output)@) == Err::<Seq<u8>, Ext4Error>(r->Err_0),
{
    let block_start = file_offset;
    let block_end = file_offset + valid_len as u64;
    let read_start = read_offset;
    let read_end = read_offset + output.len() as u64;
    let overlap_start = if block_start > read_start { block_start } else { read_start };
    let overlap_end = if block_end < read_end { block_end } else { read_end };
    if overlap_start >= overlap_end {
        return Ok(());
    }
    let copy_len = (overlap_end - overlap_start) as usize;
    let src_offset = (overlap_start - block_start) as usize;
    let dest_offset = (overlap_start - read_start) as usize;
    let buffer = match read_fs_block(disk, fs, block_no) {
        Ok(v) => v,
        Err(e) => return Err(e),
    };
    let ghost old_out = output@;
    let out_len: usize = output.len();
    let mut j: usize = 0;
    while j < copy_len
        invariant
            output@.len() == old_out.len(),
            buffer@.len() == fs.block_size,
            src_offset + copy_len <= valid_len,
            valid_len <= fs.block_size,
            dest_offset + copy_len <= old_out.len(),
            old_out.len() == out_len,
            j <= copy_len,
            forall|k: int| dest_offset <= k < dest_offset + j ==> output@[k] == buffer@[k - dest_offset + src_offset],
            forall|k: int| 0 <= k < old_out.len() && !(dest_offset <= k < dest_offset + j) ==> output@[k] == old_out[k],
        decreases copy_len - j,
    {
        output.set(dest_offset + j, buffer[src_offset + j]);
        j = j + 1;
    }
    assert(output@ =~= overlay(old_out, buffer@, file_offset as int, valid_len as int, read_offset as int));
    Ok(())
}

/// Copying blocks `bi..len` of one extent into `buf`.
pub open spec fn extent_blocks_copy(d: Seq<u8>, fs: Ext4Fs, size: int, ro: int, logical: int, len: int,
    physical: int, bi: int, buf: Seq<u8>) -> Result<Seq<u8>, Ext4Error>
    decreases len - bi,
{
    if bi >= len || bi < 0 {
        Ok(buf)
    } else {
        let off = (logical + bi) * fs.block_size;
        if off >= size {
            Ok(buf)
        } else {
            match block_copy(d, fs, physical + bi, off, remaining_len(size, off, fs.block_size as int), ro, buf) {
                Err(e) => Err(e),
                Ok(b2) => extent_blocks_copy(d, fs, size, ro, logical, len, physical, bi + 1, b2),
            }
        }
    }
}

/// Copying extent entries `idx..` of leaf node `n` into `buf`.
pub open spec fn leaf_entries_copy(d: Seq<u8>, fs: Ext4Fs, n: Seq<u8>, size: int, ro: int, idx: int, buf: Seq<u8>)
    -> Result<Seq<u8>, Ext4Error>
    decreases le16(n, 2) - idx,
{
    if idx >= le16(n, 2) || idx < 0 {
        Ok(buf)
    } else {
        let off = 12 + idx * 12;
        if off + 12 > n.len() {
            Err(Ext4Error::ExtentEntry)
        } else {
            match extent_blocks_copy(d, fs, size, ro, ext_logical(n, off), ext_len(n, off), ext_physical(n, off), 0, buf) {
                Err(e) => Err(e),
                Ok(b2) => leaf_entries_copy(d, fs, n, size, ro, idx + 1, b2),
            }
        }
    }
}

/// Copying what extent leaf `n` covers into `buf`.
pub open spec fn leaf_copy(d: Seq<u8>, fs: Ext4Fs, n: Seq<u8>, size: int, ro: int, buf: Seq<u8>) -> Result<Seq<u8>, Ext4Error> {
    if !extent_header_ok(n) {
        Err(Ext4Error::ExtentHeader)
    } else if le16(n, 6) != 0 {
        Err(Ext4Error::ExtentLeaf)
    } else {
        leaf_entries_copy(d, fs, n, size, ro, 0, buf)
    }
}

/// Copying what the leaves under index entries `idx..` of root `n` cover into `buf`.
pub open spec fn index_entries_copy(d: Seq<u8>, fs: Ext4Fs, n: Seq<u8>, size: int, ro: int, idx: int, buf: Seq<u8>)
    -> Result<Seq<u8>, Ext4Error>
    decreases le16(n, 2) - idx,
{
    if idx >= le16(n, 2) || idx < 0 {
        Ok(buf)
    } else {
        let off = 12 + idx * 12;
        if off + 12 > n.len() {
            Err(Ext4Error::ExtentIndex)
        } else {
            match fs_block(d, fs, index_leaf_of(n, off)) {
                Err(e) => Err(e),
                Ok(leaf) => match leaf_copy(d, fs, leaf, size, ro, buf) {
                    Err(e) => Err(e),
                    Ok(b2) => index_entries_copy(d, fs, n, size, ro, idx + 1, b2),
                },
            }
        }
    }
}

/// Copying what an extent tree of depth 0 or 1 with root `n` covers into `buf`.
pub open spec fn tree_copy(d: Seq<u8>, fs: Ext4Fs, n: Seq<u8>, size: int, ro: int, buf: Seq<u8>) -> Result<Seq<u8>, Ext4Error> {
    if !extent_header_ok(n) {
        Err(Ext4Error::ExtentHeader)
    } else if le16(n, 6) == 0 {
        leaf_copy(d, fs, n, size, ro, buf)
    } else if le16(n, 6) != 1 {
        Err(Ext4Error::ExtentDepth)
    } else {
        index_entries_copy(d, fs, n, size, ro, 0, buf)
    }
}

/// Copying direct blocks `idx..12` of inode `i` into `buf`.
pub open spec fn direct_copy(d: Seq<u8>, fs: Ext4Fs, i: Seq<u8>, size: int, ro: int, idx: int, buf: Seq<u8>)
    -> Result<Seq<u8>, Ext4Error>
    decreases 12 - idx,
{
    if idx >= 12 || idx < 0 {
        Ok(buf)
    } else {
        let blk = le32(i, 40 + idx * 4);
        let off = idx * fs.block_size;
        if blk == 0 || off >= size {
            Ok(buf)
        } else {
            match block_copy(d, fs, blk, off, remaining_len(size, off, fs.block_size as int), ro, buf) {
                Err(e) => Err(e),
                Ok(b2) => direct_copy(d, fs, i, size, ro, idx + 1, b2),
            }
        }
    }
}

/// Copies the blocks of one extent that overlap the window of `output`.
fn copy_extent_blocks_range(disk: &[u8], fs: &Ext4Fs, file_size: u64, read_offset: u64, logical: u64, len: u64,
    physical: u64, output: &mut Vec<u8>) -> (r: Result<(), Ext4Error>)
    requires
        fs.wf(),
        logical <= 0xffff_ffff,
        len < 0x8000,
        physical < 0x1_0000_0000_0000,
        read_offset + old(output)@.len() <= u64::MAX,
    ensures
        final(output)@.len() == old(output)@.len(),
        r is Ok ==> extent_blocks_copy(disk@, *fs, file_size as int, read_offset as int, logical as int, len as int,
            physical as int, 0, old(output)@) == Ok::<Seq<u8>, Ext4Error>(final(output)@),
        r is Err ==> extent_blocks_copy(disk@, *fs, file_size as int, read_offset as int, logical as int, len as int,
            physical as int, 0, old(output)@) == Err::<Seq<u8>, Ext4Error>(r->Err_0),
{
    let mut block_index: u64 = 0;
    let ghost start = output@;
    while block_index < len
        invariant
            fs.wf(),
            logical <= 0xffff_ffff,
            len < 0x8000,
            physical < 0x1_0000_0000_0000,
            block_index <= len,
            output@.len() == start.len(),
            start == old(output)@,
            read_offset + start.len() <= u64::MAX,
            extent_blocks_copy(disk@, *fs, file_size as int, read_offset as int, logical as int, len as int,
                physical as int, 0, start) == extent_blocks_copy(disk@, *fs, file_size as int, read_offset as int,
                logical as int, len as int, physical as int, block_index as int, output@),
        decreases len - block_index,
    {
        proof {
            assert((logical + block_index) * fs.block_size <= (0xffff_ffff + 0x8000) * 4096) by (nonlinear_arith)
                requires logical <= 0xffff_ffff, block_index < 0x8000, fs.block_size <= 4096;
        }
        let file_offset = (logical + block_index) * fs.block_size as u64;
        if file_offset >= file_size {
            return Ok(());
        }
        let valid_len = remaining_block_len(file_size, file_offset, fs.block_size);
        match copy_data_block_range(disk, fs, physical + block_index, file_offset, valid_len, read_offset, output) {
            Err(e) => return Err(e),
            Ok(()) => {},
        }
        block_index = block_index + 1;
    }
    Ok(())
}

/// Copies what an extent leaf node covers into the window of `output`.
pub fn copy_extent_leaf_range(disk: &[u8], fs: &Ext4Fs, node: &[u8], file_size: u64, read_offset: u64,
    output: &mut Vec<u8>) -> (r: Result<(), Ext4Error>)
    requires
        fs.wf(),
        read_offset + old(output)@.len() <= u64::MAX,
    ensures
        final(output)@.len() == old(output)@.len(),
        r is Ok ==> leaf_copy(disk@, *fs, node@, file_size as int, read_offset as int, old(output)@)
            == Ok::<Seq<u8>, Ext4Error>(final(output)@),
        r is Err ==> leaf_copy(disk@, *fs, node@, file_size as int, read_offset as int, old(output)@)
            == Err::<Seq<u8>, Ext4Error>(r->Err_0),
{
    let depth = match extent_depth(node) {
        Ok(v) => v,
        Err(e) => return Err(e),
    };
    if depth != 0 {
        return Err(Ext4Error::ExtentLeaf);
    }
    let entries = match extent_entries(node) {
        Ok(v) => v as usize,
        Err(e) => return Err(e),
    };
    let ghost start = output@;
    let mut index: usize = 0;
    while index < entries
        invariant
            fs.wf(),
            extent_header_ok(node@),
            le16(node@, 6) == 0,
            entries == le16(node@, 2),
            entries <= 0xffff,
            index <= entries,
            output@.len() == start.len(),
            start == old(output)@,
            read_offset + start.len() <= u64::MAX,
            leaf_copy(disk@, *fs, node@, file_size as int, read_offset as int, start)
                == leaf_entries_copy(disk@, *fs, node@, file_size as int, read_offset as int, index as int, output@),
        decreases entries - index,
    {
        let offset = 12 + index * 12;
        if offset + 12 > node.len() {
            return Err(Ext4Error::ExtentEntry);
        }
        let (logical, len, physical) = read_extent_entry(node, offset);
        match copy_extent_blocks_range(disk, fs, file_size, read_offset, logical, len, physical, output) {
            Err(e) => return Err(e),
            Ok(()) => {},
        }
        index = index + 1;
    }
    Ok(())
}

/// Copies what an extent tree of depth 0 or 1 covers into the window of `output`.
pub fn copy_extent_tree_range(disk: &[u8], fs: &Ext4Fs, root: &[u8], file_size: u64, read_offset: u64,
    output: &mut Vec<u8>) -> (r: Result<(), Ext4Error>)
    requires
        fs.wf(),
        read_offset + old(output)@.len() <= u64::MAX,
    ensures
        final(output)@.len() == old(output)@.len(),
        r is Ok ==> tree_copy(disk@, *fs, root@, file_size as int, read_offset as int, old(output)@)
            == Ok::<Seq<u8>, Ext4Error>(final(output)@),
        r is Err ==> tree_copy(disk@, *fs, root@, file_size as int, read_offset as int, old(output)@)
            == Err::<Seq<u8>, Ext4Error>(r->Err_0),
{
    let depth = match extent_depth(root) {
        Ok(v) => v,
        Err(e) => return Err(e),
    };
    if depth == 0 {
        return copy_extent_leaf_range(disk, fs, root, file_size, read_offset, output);
    }
    if depth != 1 {
        return Err(Ext4Error::ExtentDepth);
    }
    let entries = match extent_entries(root) {
        Ok(v) => v as usize,
        Err(e) => return Err(e),
    };
    let ghost start = output@;
    let mut index: usize = 0;
    while index < entries
        invariant
            fs.wf(),
            extent_header_ok(root@),
            le16(root@, 6) == 1,
            entries == le16(root@, 2),
            entries <= 0xffff,
            index <= entries,
            output@.len() == start.len(),
            start == old(output)@,
            read_offset + start.len() <= u64::MAX,
            tree_copy(disk@, *fs, root@, file_size as int, read_offset as int, start)
                == index_entries_copy(disk@, *fs, root@, file_size as int, read_offset as int, index as int, output@),
        decreases entries - index,
    {
        let offset = 12 + index * 12;
        if offset + 12 > root.len() {
            return Err(Ext4Error::ExtentIndex);
        }
        let leaf = extent_index_leaf(root, offset);
        let leaf_block = match read_fs_block(disk, fs, leaf) {
            Ok(v) => v,
            Err(e) => return Err(e),
        };
        match copy_extent_leaf_range(disk, fs, leaf_block.as_slice(), file_size, read_offset, output) {
            Err(e) => return Err(e),
            Ok(()) => {},
        }
        index = index + 1;
    }
    Ok(())
}

/// Copies what the twelve direct blocks of inode `inode` cover into the window of `output`.
pub fn copy_direct_blocks_range(disk: &[u8], fs: &Ext4Fs, inode: &[u8], file_size: u64, read_offset: u64,
    output: &mut Vec<u8>) -> (r: Result<(), Ext4Error>)
    requires
        fs.wf(),
        inode@.len() >= 88,
        read_offset + old(output)@.len() <= u64::MAX,
    ensures
        final(output)@.len() == old(output)@.len(),
        r is Ok ==> direct_copy(disk@, *fs, inode@, file_size as int, read_offset as int, 0, old(output)@)
            == Ok::<Seq<u8>, Ext4Error>(final(output)@),
        r is Err ==> direct_copy(disk@, *fs, inode@, file_size as int, read_offset as int, 0, old(output)@)
            == Err::<Seq<u8>, Ext4Error>(r->Err_0),
{
    let ghost start = output@;
    let mut index: usize = 0;
    while index < 12
        invariant
            fs.wf(),
            inode@.len() >= 88,
            index <= 12,
            output@.len() == start.len(),
            start == old(output)@,
            read_offset + start.len() <= u64::MAX,
            direct_copy(disk@, *fs, inode@, file_size as int, read_offset as int, 0, start)
                == direct_copy(disk@, *fs, inode@, file_size as int, read_offset as int, index as int, output@),
        decreases 12 - index,
    {
        let block_no = le_u32(inode, 40 + index * 4) as u64;
        if block_no == 0 {
            return Ok(());
        }
        let file_offset = index as u64 * fs.block_size as u64;
        if file_offset >= file_size {
            return Ok(());
        }
        let valid_len = remaining_block_len(file_size, file_offset, fs.block_size);
        match copy_data_block_range(disk, fs, block_no, file_offset, valid_len, read_offset, output) {
            Err(e) => return Err(e),
            Ok(()) => {},
        }
        index = index + 1;
    }
    Ok(())
}

/// Copying the contents an inode covers into `buf`, which stands for file bytes from `ro`.
pub open spec fn inode_copy(d: Seq<u8>, fs: Ext4Fs, i: Seq<u8>, ro: int, buf: Seq<u8>) -> Result<Seq<u8>, Ext4Error> {
    if uses_extents(i) {
        tree_copy(d, fs, i.subrange(40, 100), inode_size_of(i), ro, buf)
    } else {
        direct_copy(d, fs, i, inode_size_of(i), ro, 0, buf)
    }
}

/// Reading up to `max` bytes of the file with inode bytes `i` from byte `ro`.
pub open spec fn inode_range_read(d: Seq<u8>, fs: Ext4Fs, i: Seq<u8>, ro: int, max: int) -> Result<Seq<u8>, Ext4Error> {
    let size = inode_size_of(i);
    if ro >= size {
        Ok(Seq::<u8>::empty())
    } else {
        let n = if max < size - ro { max } else { size - ro };
        inode_copy(d, fs, i, ro, Seq::new(n as nat, |j: int| 0u8))
    }
}

/// A buffer of `n` zero bytes.
pub fn zeroed(n: usize) -> (r: Vec<u8>)
    ensures
        r@ == Seq::new(n as nat, |j: int| 0u8),
{
    let mut v: Vec<u8> = Vec::new();
    let mut i: usize = 0;
    while i < n
        invariant
            i <= n,
            v@ == Seq::new(i as nat, |j: int| 0u8),
        decreases n - i,
    {
        v.push(0);
        assert(v@ =~= Seq::new((i + 1) as nat, |j: int| 0u8));
        i = i + 1;
    }
    v
}

/// Reads up to `max_len` bytes of the file with inode bytes `inode`, from byte `read_offset`.
pub fn copy_inode_range(disk: &[u8], fs: &Ext4Fs, inode: &[u8], read_offset: u64, max_len: usize)
    -> (r: Result<Vec<u8>, Ext4Error>)
    requires
        fs.wf(),
        inode@.len() == INODE_PARSE_SIZE,
    ensures
        r matches Ok(v) ==> inode_range_read(disk@, *fs, inode@, read_offset as int, max_len as int)
            == Ok::<Seq<u8>, Ext4Error>(v@),
        r is Err ==> inode_range_read(disk@, *fs, inode@, read_offset as int, max_len as int)
            == Err::<Seq<u8>, Ext4Error>(r->Err_0),
        r matches Ok(v) ==> v@.len() <= max_len,
{
    let file_size = inode_size(inode);
    if read_offset >= file_size {
        return Ok(Vec::new());
    }
    let read_len = if (max_len as u64) < file_size - read_offset { max_len } else { (file_size - read_offset) as usize };
    let mut output = zeroed(read_len);
    let flags = le_u32(inode, 32);
    let res = if flags & EXT4_EXTENTS_FL != 0 {
        let root = copy_range(inode, 40, 100);
        copy_extent_tree_range(disk, fs, root.as_slice(), file_size, read_offset, &mut output)
    } else {
        copy_direct_blocks_range(disk, fs, inode, file_size, read_offset, &mut output)
    };
    match res {
        Err(e) => Err(e),
        Ok(()) => Ok(output),
    }
}

/// Reading the whole of a file with inode bytes `i` into a buffer of `n` bytes.
pub open spec fn inode_data(d: Seq<u8>, fs: Ext4Fs, i: Seq<u8>, n: int) -> Result<Seq<u8>, Ext4Error> {
    inode_copy(d, fs, i, 0, Seq::new(n as nat, |j: int| 0u8))
}

/// Reads the file with inode bytes `inode` into a zeroed buffer of `len` bytes.
pub fn read_inode_data(disk: &[u8], fs: &Ext4Fs, inode: &[u8], len: usize) -> (r: Result<Vec<u8>, Ext4Error>)
    requires
        fs.wf(),
        inode@.len() == INODE_PARSE_SIZE,
    ensures
        r matches Ok(v) ==> inode_data(disk@, *fs, inode@, len as int) == Ok::<Seq<u8>, Ext4Error>(v@),
        r is Err ==> inode_data(disk@, *fs, inode@, len as int) == Err::<Seq<u8>, Ext4Error>(r->Err_0),
{
    let mut output = zeroed(len);
    let file_size = inode_size(inode);
    let flags = le_u32(inode, 32);
    let res = if flags & EXT4_EXTENTS_FL != 0 {
        let root = copy_range(inode, 40, 100);
        copy_extent_tree(disk, fs, root.as_slice(), file_size, &mut output)
    } else {
        copy_direct_blocks(disk, fs, inode, file_size, &mut output)
    };
    match res {
        Err(e) => Err(e),
        Ok(()) => Ok(output),
    }
}

/// Copies what an extent tree covers into `output`, which starts at file byte 0.
pub fn copy_extent_tree(disk: &[u8], fs: &Ext4Fs, root: &[u8], file_size: u64, output: &mut Vec<u8>)
    -> (r: Result<(), Ext4Error>)
    requires
        fs.wf(),
    ensures
        final(output)@.len() == old(output)@.len(),
        r is Ok ==> tree_copy(disk@, *fs, root@, file_size as int, 0, old(output)@) == Ok::<Seq<u8>, Ext4Error>(final(output)@),
        r is Err ==> tree_copy(disk@, *fs, root@, file_size as int, 0, old(output)@) == Err::<Seq<u8>, Ext4Error>(r->Err_0),
{
    let out_len: usize = output.len();
    copy_extent_tree_range(disk, fs, root, file_size, 0, output)
}

/// Copies what an extent leaf covers into `output`, which starts at file byte 0.
pub fn copy_extent_leaf(disk: &[u8], fs: &Ext4Fs, node: &[u8], file_size: u64, output: &mut Vec<u8>)
    -> (r: Result<(), Ext4Error>)
    requires
        fs.wf(),
    ensures
        final(output)@.len() == old(output)@.len(),
        r is Ok ==> leaf_copy(disk@, *fs, node@, file_size as int, 0, old(output)@) == Ok::<Seq<u8>, Ext4Error>(final(output)@),
        r is Err ==> leaf_copy(disk@, *fs, node@, file_size as int, 0, old(output)@) == Err::<Seq<u8>, Ext4Error>(r->Err_0),
{
    let out_len: usize = output.len();
    copy_extent_leaf_range(disk, fs, node, file_size, 0, output)
}

/// Copies what the direct blocks cover into `output`, which starts at file byte 0.
pub fn copy_direct_blocks(disk: &[u8], fs: &Ext4Fs, inode: &[u8], file_size: u64, output: &mut Vec<u8>)
    -> (r: Result<(), Ext4Error>)
    requires
        fs.wf(),
        inode@.len() >= 88,
    ensures
        final(output)@.len() == old(output)@.len(),
        r is Ok ==> direct_copy(disk@, *fs, inode@, file_size as int, 0, 0, old(output)@) == Ok::<Seq<u8>, Ext4Error>(final(output)@),
        r is Err ==> direct_copy(disk@, *fs, inode@, file_size as int, 0, 0, old(output)@) == Err::<Seq<u8>, Ext4Error>(r->Err_0),
{
    let out_len: usize = output.len();
    copy_direct_blocks_range(disk, fs, inode, file_size, 0, output)
}

/// Copies the part of one block that falls inside `output`, which starts at file byte 0.
pub fn copy_data_block(disk: &[u8], fs: &Ext4Fs, block_no: u64, file_offset: u64, valid_len: usize,
    output: &mut Vec<u8>) -> (r: Result<(), Ext4Error>)
    requires
        fs.wf(),
        valid_len <= fs.block_size,
        file_offset + valid_len <= u64::MAX,
    ensures
        final(output)@.len() == old(output)@.len(),
        r is Ok ==> block_copy(disk@, *fs, block_no as int, file_offset as int, valid_len as int, 0, old(output)@)
            == Ok::<Seq<u8>, Ext4Error>(final(output)@),
        r is Err ==> block_copy(disk@, *fs, block_no as int, file_offset as int, valid_len as int, 0, old(output)@)
            == Err::<Seq<u8>, Ext4Error>(r->Err_0),
{
    let out_len: usize = output.len();
    copy_data_block_range(disk, fs, block_no, file_offset, valid_len, 0, output)
}

} // verus!
