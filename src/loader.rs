//! Loader script records: the commands that the firmware's ACPI linker runs
//! at boot to allocate regions and patch pointers and checksums into them.
//!
//! Every command is written as one record of `RECORD_LEN` bytes, integers
//! little-endian, names in fixed fields of `FIXED_STRING_LEN` bytes.

use vstd::prelude::*;
use vstd::string::StringSliceAdditionalSpecFns;

use crate::bytes::{le_bytes, push_le_u32};
use crate::tables::LDR_LENGTH;

verus! {

/// Size of every serialized command.
pub const RECORD_LEN: usize = 128;

/// Size of a name field; longer names are cut to it, shorter ones padded.
pub const FIXED_STRING_LEN: usize = 56;

/// Tag of an `Allocate` record.
pub const TAG_ALLOCATE: u32 = 1;

/// Tag of an `AddPtr` record.
pub const TAG_ADD_POINTER: u32 = 2;

/// Tag of an `AddChecksum` record.
pub const TAG_ADD_CHECKSUM: u32 = 3;

/// A command of the firmware's ACPI linker.
#[derive(Debug, Clone, Copy)]
pub enum LoaderCmd<'a> {
    /// Reserve the named region, aligned, in the given memory zone.
    Allocate { file: &'a str, alignment: u32, zone: u8 },
    /// Add the relocated address of `pointee_file` to the pointer field of
    /// `pointer_size` bytes at `pointer_offset` in `pointer_file`.
    AddPtr { pointer_file: &'a str, pointee_file: &'a str, pointer_offset: u32, pointer_size: u8 },
    /// Store at `result_offset` in `file` the byte that makes the bytes of
    /// `[start, start + length)` sum to zero.
    AddChecksum { file: &'a str, result_offset: u32, start: u32, length: u32 },
}

/// `n` zero bytes.
pub open spec fn zeros(n: nat) -> Seq<u8> {
    Seq::new(n, |i: int| 0u8)
}

/// A name in its fixed field: cut to `FIXED_STRING_LEN` bytes, or
/// null-padded up to it.
pub open spec fn fixed_name(b: Seq<u8>) -> Seq<u8> {
    if b.len() >= FIXED_STRING_LEN {
        b.subrange(0, FIXED_STRING_LEN as int)
    } else {
        b + zeros((FIXED_STRING_LEN - b.len()) as nat)
    }
}

/// The record of a command.
pub open spec fn cmd_bytes(c: LoaderCmd) -> Seq<u8> {
    match c {
        LoaderCmd::Allocate { file, alignment, zone } => le_bytes(TAG_ALLOCATE) + fixed_name(
            file.spec_bytes(),
        ) + le_bytes(alignment) + seq![zone] + zeros(63),
        LoaderCmd::AddPtr { pointer_file, pointee_file, pointer_offset, pointer_size } => le_bytes(
            TAG_ADD_POINTER,
        ) + fixed_name(pointer_file.spec_bytes()) + fixed_name(pointee_file.spec_bytes())
            + le_bytes(pointer_offset) + seq![pointer_size] + zeros(7),
        LoaderCmd::AddChecksum { file, result_offset, start, length } => le_bytes(TAG_ADD_CHECKSUM)
            + fixed_name(file.spec_bytes()) + le_bytes(result_offset) + le_bytes(start) + le_bytes(
            length,
        ) + zeros(56),
    }
}

/// The records of a sequence of commands, one after the other.
pub open spec fn script_bytes(cmds: Seq<LoaderCmd>) -> Seq<u8>
    decreases cmds.len(),
{
    if cmds.len() == 0 {
        Seq::empty()
    } else {
        script_bytes(cmds.drop_last()) + cmd_bytes(cmds.last())
    }
}

/// Every command, whatever its fields, is written as exactly `RECORD_LEN`
/// bytes.
pub proof fn lemma_record_size(c: LoaderCmd)
    ensures
        cmd_bytes(c).len() == RECORD_LEN,
{
    match c {
        LoaderCmd::Allocate { file, .. } => {
            lemma_name_truncation(file.spec_bytes());
        },
        LoaderCmd::AddPtr { pointer_file, pointee_file, .. } => {
            lemma_name_truncation(pointer_file.spec_bytes());
            lemma_name_truncation(pointee_file.spec_bytes());
        },
        LoaderCmd::AddChecksum { file, .. } => {
            lemma_name_truncation(file.spec_bytes());
        },
    }
}

/// A name field always holds `FIXED_STRING_LEN` bytes: a name of exactly that
/// length is kept as it is, one a byte shorter gets a single trailing zero,
/// and a longer one is cut to its first `FIXED_STRING_LEN` bytes.
pub proof fn lemma_name_truncation(b: Seq<u8>)
    ensures
        fixed_name(b).len() == FIXED_STRING_LEN,
        b.len() == FIXED_STRING_LEN ==> fixed_name(b) == b,
        b.len() + 1 == FIXED_STRING_LEN ==> fixed_name(b) == b.push(0),
        b.len() > FIXED_STRING_LEN ==> fixed_name(b) == b.subrange(0, FIXED_STRING_LEN as int),
        b.len() < FIXED_STRING_LEN ==> fixed_name(b).subrange(0, b.len() as int) == b,
{
    if b.len() == FIXED_STRING_LEN {
        assert(fixed_name(b) =~= b);
    }
    if b.len() + 1 == FIXED_STRING_LEN {
        assert(fixed_name(b) =~= b.push(0));
    }
    if b.len() < FIXED_STRING_LEN {
        assert(fixed_name(b).subrange(0, b.len() as int) =~= b);
    }
}

/// In the records of `cmds`, the `k`-th record is that of `cmds[k]`.
pub proof fn lemma_script_record(cmds: Seq<LoaderCmd>, k: int)
    requires
        0 <= k < cmds.len(),
    ensures
        script_bytes(cmds).len() == RECORD_LEN * cmds.len(),
        script_bytes(cmds).subrange(RECORD_LEN * k, RECORD_LEN * k + RECORD_LEN) == cmd_bytes(
            cmds[k],
        ),
    decreases cmds.len(),
{
    lemma_script_len(cmds);
    let init = cmds.drop_last();
    lemma_script_len(init);
    lemma_record_size(cmds.last());
    if k < cmds.len() - 1 {
        lemma_script_record(init, k);
        assert(script_bytes(cmds).subrange(RECORD_LEN * k, RECORD_LEN * k + RECORD_LEN)
            =~= script_bytes(init).subrange(RECORD_LEN * k, RECORD_LEN * k + RECORD_LEN));
    } else {
        assert(script_bytes(cmds).subrange(RECORD_LEN * k, RECORD_LEN * k + RECORD_LEN)
            =~= cmd_bytes(cmds.last()));
    }
}

/// The records of `cmds` take `RECORD_LEN` bytes per command.
pub proof fn lemma_script_len(cmds: Seq<LoaderCmd>)
    ensures
        script_bytes(cmds).len() == RECORD_LEN * cmds.len(),
    decreases cmds.len(),
{
    if cmds.len() > 0 {
        lemma_script_len(cmds.drop_last());
        lemma_record_size(cmds.last());
    }
}

/// Appends `n` zero bytes to `out`.
pub fn push_zeros(out: &mut Vec<u8>, n: usize)
    ensures
        final(out)@ == old(out)@ + zeros(n as nat),
{
    let mut i: usize = 0;
    while i < n
        invariant
            i <= n,
            out@ == old(out)@ + zeros(i as nat),
        decreases n - i,
    {
        out.push(0);
        i = i + 1;
        assert(out@ =~= old(out)@ + zeros(i as nat));
    }
}

/// A loader script under construction: the records written so far.
pub struct TableLoader {
    buffer: Vec<u8>,
}

impl View for TableLoader {
    type V = Seq<u8>;

    closed spec fn view(&self) -> Seq<u8> {
        self.buffer@
    }
}

impl TableLoader {
    /// An empty script.
    pub fn new() -> (r: Self)
        ensures
            r@ == Seq::<u8>::empty(),
    {
        TableLoader { buffer: Vec::with_capacity(LDR_LENGTH) }
    }

    /// Appends `s` to `data` in a fixed field of `FIXED_STRING_LEN` bytes.
    pub fn append_fixed_string(data: &mut Vec<u8>, s: &str)
        ensures
            final(data)@ == old(data)@ + fixed_name(s.spec_bytes()),
    {
        let b = s.as_bytes();
        let ghost field = fixed_name(b@);
        let mut i: usize = 0;
        while i < FIXED_STRING_LEN
            invariant
                i <= FIXED_STRING_LEN,
                field == fixed_name(b@),
                data@ == old(data)@ + field.subrange(0, i as int),
            decreases FIXED_STRING_LEN - i,
        {
            if i < b.len() {
                data.push(b[i]);
            } else {
                data.push(0);
            }
            i = i + 1;
            assert(data@ =~= old(data)@ + field.subrange(0, i as int));
        }
        proof {
            lemma_name_truncation(b@);
        }
        assert(field.subrange(0, FIXED_STRING_LEN as int) =~= field);
    }

    /// Appends the record of `cmd`.
    pub fn append(&mut self, cmd: LoaderCmd)
        ensures
            final(self)@ == old(self)@ + cmd_bytes(cmd),
    {
        match cmd {
            LoaderCmd::Allocate { file, alignment, zone } => {
                push_le_u32(&mut self.buffer, TAG_ALLOCATE);
                Self::append_fixed_string(&mut self.buffer, file);
                push_le_u32(&mut self.buffer, alignment);
                self.buffer.push(zone);
                push_zeros(&mut self.buffer, 63);
            },
            LoaderCmd::AddPtr { pointer_file, pointee_file, pointer_offset, pointer_size } => {
                push_le_u32(&mut self.buffer, TAG_ADD_POINTER);
                Self::append_fixed_string(&mut self.buffer, pointer_file);
                Self::append_fixed_string(&mut self.buffer, pointee_file);
                push_le_u32(&mut self.buffer, pointer_offset);
                self.buffer.push(pointer_size);
                push_zeros(&mut self.buffer, 7);
            },
            LoaderCmd::AddChecksum { file, result_offset, start, length } => {
                push_le_u32(&mut self.buffer, TAG_ADD_CHECKSUM);
                Self::append_fixed_string(&mut self.buffer, file);
                push_le_u32(&mut self.buffer, result_offset);
                push_le_u32(&mut self.buffer, start);
                push_le_u32(&mut self.buffer, length);
                push_zeros(&mut self.buffer, 56);
            },
        }
        assert(self@ =~= old(self)@ + cmd_bytes(cmd));
    }

    /// The records written so far.
    pub fn as_bytes(&self) -> (r: &[u8])
        ensures
            r@ == self@,
    {
        self.buffer.as_slice()
    }

    /// The records written so far, as an owned buffer.
    pub fn into_bytes(self) -> (r: Vec<u8>)
        ensures
            r@ == self@,
    {
        self.buffer
    }
}

} // verus!
