//! Assembly of the three blobs that a machine's ACPI configuration is
//! measured from: the tables, the RSDP, and the loader script.

use vstd::prelude::*;
use vstd::string::StringSliceAdditionalSpecFns;

use crate::bytes::{le_bytes, le_u32_at, lemma_le_round_trip, push_le_u32};
use crate::loader::{
    cmd_bytes, lemma_script_len, lemma_script_record, push_zeros, script_bytes, zeros, LoaderCmd,
    TableLoader, RECORD_LEN,
};
use crate::locate::{find_acpi_table, locate, AcpiError};

verus! {

/// Minimum size of a loader script; shorter scripts are zero-padded to it.
pub const LDR_LENGTH: usize = 4096;

/// Size of the ACPI 1.0 root system description pointer.
pub const RSDP_LEN: u32 = 20;

/// Offset of the RSDT address within the RSDP.
pub const RSDP_RSDT_ADDRESS_OFFSET: u32 = 16;

/// Offset of the checksum byte within the RSDP.
pub const RSDP_CHECKSUM_OFFSET: u32 = 8;

/// Name of the firmware region that holds the RSDP.
pub const RSDP_FILE: &'static str = "etc/acpi/rsdp";

/// Name of the firmware region that holds the tables.
pub const TABLES_FILE: &'static str = "etc/acpi/tables";

/// Signatures of the tables that the synthesized RSDP and loader script
/// refer to.
pub const SIG_RSDT: &'static str = "RSDT";
pub const SIG_DSDT: &'static str = "DSDT";
pub const SIG_FACP: &'static str = "FACP";
pub const SIG_APIC: &'static str = "APIC";
pub const SIG_MCFG: &'static str = "MCFG";
pub const SIG_WAET: &'static str = "WAET";

/// A located table: offset, offset of its checksum byte, length.
pub type Located = (u32, u32, u32);

/// The 20-byte RSDP that points at an RSDT at `rsdt_offset`: signature
/// "RSD PTR ", a zero checksum for the loader to patch, OEM id "BOCHS ",
/// revision 0, and the RSDT address.
pub open spec fn rsdp_bytes(rsdt_offset: u32) -> Seq<u8> {
    seq![
        0x52u8, 0x53, 0x44, 0x20, 0x50, 0x54, 0x52, 0x20,
        0,
        0x42, 0x4f, 0x43, 0x48, 0x53, 0x20,
        0,
    ] + le_bytes(rsdt_offset)
}

/// The tables that a synthesized loader script refers to, looked up in the
/// order DSDT, FACP, APIC, MCFG, WAET, RSDT; the first failed lookup is the
/// error.
pub open spec fn required_tables(t: Seq<u8>) -> Result<
    (Located, Located, Located, Located, Located, Located),
    AcpiError,
> {
    match locate(t, SIG_DSDT.spec_bytes()) {
        Err(e) => Err(e),
        Ok(dsdt) => match locate(t, SIG_FACP.spec_bytes()) {
            Err(e) => Err(e),
            Ok(facp) => match locate(t, SIG_APIC.spec_bytes()) {
                Err(e) => Err(e),
                Ok(apic) => match locate(t, SIG_MCFG.spec_bytes()) {
                    Err(e) => Err(e),
                    Ok(mcfg) => match locate(t, SIG_WAET.spec_bytes()) {
                        Err(e) => Err(e),
                        Ok(waet) => match locate(t, SIG_RSDT.spec_bytes()) {
                            Err(e) => Err(e),
                            Ok(rsdt) => Ok((dsdt, facp, apic, mcfg, waet, rsdt)),
                        },
                    },
                },
            },
        },
    }
}

/// An `AddPtr` within the tables region, at `offset`, of `size` bytes.
pub open spec fn table_pointer(offset: u32, size: u8) -> LoaderCmd<'static> {
    LoaderCmd::AddPtr {
        pointer_file: TABLES_FILE,
        pointee_file: TABLES_FILE,
        pointer_offset: offset,
        pointer_size: size,
    }
}

/// An `AddChecksum` over a whole located table.
pub open spec fn table_checksum(l: Located) -> LoaderCmd<'static> {
    LoaderCmd::AddChecksum { file: TABLES_FILE, result_offset: l.1, start: l.0, length: l.2 }
}

/// The commands of the synthesized loader script, in order: the two
/// allocations, the DSDT checksum, the FACP's pointers to the DSDT, the
/// FACP, APIC, MCFG and WAET checksums, the RSDT's four entries, the RSDT
/// checksum, and the RSDP's pointer to the RSDT and its checksum. Pointer
/// field offsets are 32-bit fields of the script and are taken modulo 2^32.
pub open spec fn loader_commands(
    dsdt: Located,
    facp: Located,
    apic: Located,
    mcfg: Located,
    waet: Located,
    rsdt: Located,
) -> Seq<LoaderCmd<'static>> {
    seq![
        LoaderCmd::Allocate { file: RSDP_FILE, alignment: 16, zone: 2 },
        LoaderCmd::Allocate { file: TABLES_FILE, alignment: 64, zone: 1 },
        table_checksum(dsdt),
        table_pointer(facp.0.wrapping_add(36), 4),
        table_pointer(facp.0.wrapping_add(40), 4),
        table_pointer(facp.0.wrapping_add(140), 8),
        table_checksum(facp),
        table_checksum(apic),
        table_checksum(mcfg),
        table_checksum(waet),
        table_pointer(rsdt.0.wrapping_add(36), 4),
        table_pointer(rsdt.0.wrapping_add(40), 4),
        table_pointer(rsdt.0.wrapping_add(44), 4),
        table_pointer(rsdt.0.wrapping_add(48), 4),
        table_checksum(rsdt),
        LoaderCmd::AddPtr {
            pointer_file: RSDP_FILE,
            pointee_file: TABLES_FILE,
            pointer_offset: RSDP_RSDT_ADDRESS_OFFSET,
            pointer_size: 4,
        },
        rsdp_checksum(),
    ]
}

/// The checksum command of the RSDP: over its 20 bytes, into its byte 8.
pub open spec fn rsdp_checksum() -> LoaderCmd<'static> {
    LoaderCmd::AddChecksum {
        file: RSDP_FILE,
        result_offset: RSDP_CHECKSUM_OFFSET,
        start: 0,
        length: RSDP_LEN,
    }
}

/// `s` zero-padded to at least `LDR_LENGTH` bytes.
pub open spec fn padded(s: Seq<u8>) -> Seq<u8> {
    if s.len() < LDR_LENGTH {
        s + zeros((LDR_LENGTH - s.len()) as nat)
    } else {
        s
    }
}

/// The loader script synthesized for the table blob `t`.
pub open spec fn loader_script(t: Seq<u8>) -> Result<Seq<u8>, AcpiError> {
    match required_tables(t) {
        Ok((dsdt, facp, apic, mcfg, waet, rsdt)) => Ok(
            padded(script_bytes(loader_commands(dsdt, facp, apic, mcfg, waet, rsdt))),
        ),
        Err(e) => Err(e),
    }
}

/// The RSDP synthesized for the table blob `t`.
pub open spec fn rsdp_script(t: Seq<u8>) -> Result<Seq<u8>, AcpiError> {
    match locate(t, SIG_RSDT.spec_bytes()) {
        Ok(rsdt) => Ok(rsdp_bytes(rsdt.0)),
        Err(e) => Err(e),
    }
}

/// Builds the RSDP that points at an RSDT at `rsdt_offset`.
pub fn synthesize_rsdp(rsdt_offset: u32) -> (r: Vec<u8>)
    ensures
        r@ == rsdp_bytes(rsdt_offset),
{
    let mut rsdp: Vec<u8> = Vec::with_capacity(20);
    // Signature "RSD PTR "
    rsdp.push(0x52);
    rsdp.push(0x53);
    rsdp.push(0x44);
    rsdp.push(0x20);
    rsdp.push(0x50);
    rsdp.push(0x54);
    rsdp.push(0x52);
    rsdp.push(0x20);
    // Checksum placeholder
    rsdp.push(0);
    // OEM id "BOCHS "
    rsdp.push(0x42);
    rsdp.push(0x4f);
    rsdp.push(0x43);
    rsdp.push(0x48);
    rsdp.push(0x53);
    rsdp.push(0x20);
    // Revision
    rsdp.push(0);
    // RSDT address
    push_le_u32(&mut rsdp, rsdt_offset);
    assert(rsdp@ =~= rsdp_bytes(rsdt_offset));
    rsdp
}

/// Writes the records of `cmds`, in order.
pub fn write_script(cmds: &[LoaderCmd]) -> (r: TableLoader)
    ensures
        r@ == script_bytes(cmds@),
{
    let mut loader = TableLoader::new();
    let mut i: usize = 0;
    while i < cmds.len()
        invariant
            i <= cmds@.len(),
            loader@ == script_bytes(cmds@.subrange(0, i as int)),
        decreases cmds@.len() - i,
    {
        loader.append(cmds[i]);
        assert(cmds@.subrange(0, i + 1).drop_last() =~= cmds@.subrange(0, i as int));
        i = i + 1;
    }
    assert(cmds@.subrange(0, i as int) =~= cmds@);
    loader
}

fn table_pointer_cmd(offset: u32, size: u8) -> (r: LoaderCmd<'static>)
    ensures
        r == table_pointer(offset, size),
{
    LoaderCmd::AddPtr {
        pointer_file: TABLES_FILE,
        pointee_file: TABLES_FILE,
        pointer_offset: offset,
        pointer_size: size,
    }
}

fn table_checksum_cmd(l: Located) -> (r: LoaderCmd<'static>)
    ensures
        r == table_checksum(l),
{
    LoaderCmd::AddChecksum { file: TABLES_FILE, result_offset: l.1, start: l.0, length: l.2 }
}

/// The commands of the synthesized loader script for the given tables.
pub fn build_loader_commands(
    dsdt: Located,
    facp: Located,
    apic: Located,
    mcfg: Located,
    waet: Located,
    rsdt: Located,
) -> (r: Vec<LoaderCmd<'static>>)
    ensures
        r@ == loader_commands(dsdt, facp, apic, mcfg, waet, rsdt),
{
    let mut v: Vec<LoaderCmd<'static>> = Vec::with_capacity(17);
    v.push(LoaderCmd::Allocate { file: RSDP_FILE, alignment: 16, zone: 2 });
    v.push(LoaderCmd::Allocate { file: TABLES_FILE, alignment: 64, zone: 1 });
    v.push(table_checksum_cmd(dsdt));
    v.push(table_pointer_cmd(facp.0.wrapping_add(36), 4));
    v.push(table_pointer_cmd(facp.0.wrapping_add(40), 4));
    v.push(table_pointer_cmd(facp.0.wrapping_add(140), 8));
    v.push(table_checksum_cmd(facp));
    v.push(table_checksum_cmd(apic));
    v.push(table_checksum_cmd(mcfg));
    v.push(table_checksum_cmd(waet));
    v.push(table_pointer_cmd(rsdt.0.wrapping_add(36), 4));
    v.push(table_pointer_cmd(rsdt.0.wrapping_add(40), 4));
    v.push(table_pointer_cmd(rsdt.0.wrapping_add(44), 4));
    v.push(table_pointer_cmd(rsdt.0.wrapping_add(48), 4));
    v.push(table_checksum_cmd(rsdt));
    v.push(
        LoaderCmd::AddPtr {
            pointer_file: RSDP_FILE,
            pointee_file: TABLES_FILE,
            pointer_offset: RSDP_RSDT_ADDRESS_OFFSET,
            pointer_size: 4,
        },
    );
    v.push(
        LoaderCmd::AddChecksum {
            file: RSDP_FILE,
            result_offset: RSDP_CHECKSUM_OFFSET,
            start: 0,
            length: RSDP_LEN,
        },
    );
    assert(v@ =~= loader_commands(dsdt, facp, apic, mcfg, waet, rsdt));
    v
}

/// Synthesizes the loader script for the table blob `tables`.
pub fn synthesize_loader(tables: &[u8]) -> (r: Result<Vec<u8>, AcpiError>)
    ensures
        match r {
            Ok(v) => loader_script(tables@) == Ok::<Seq<u8>, AcpiError>(v@),
            Err(e) => loader_script(tables@) == Err::<Seq<u8>, AcpiError>(e),
        },
{
    let dsdt = match find_acpi_table(tables, SIG_DSDT) {
        Ok(l) => l,
        Err(e) => return Err(e),
    };
    let facp = match find_acpi_table(tables, SIG_FACP) {
        Ok(l) => l,
        Err(e) => return Err(e),
    };
    let apic = match find_acpi_table(tables, SIG_APIC) {
        Ok(l) => l,
        Err(e) => return Err(e),
    };
    let mcfg = match find_acpi_table(tables, SIG_MCFG) {
        Ok(l) => l,
        Err(e) => return Err(e),
    };
    let waet = match find_acpi_table(tables, SIG_WAET) {
        Ok(l) => l,
        Err(e) => return Err(e),
    };
    let rsdt = match find_acpi_table(tables, SIG_RSDT) {
        Ok(l) => l,
        Err(e) => return Err(e),
    };
    let cmds = build_loader_commands(dsdt, facp, apic, mcfg, waet, rsdt);
    let mut loader = write_script(cmds.as_slice()).into_bytes();
    if loader.len() < LDR_LENGTH {
        let missing = LDR_LENGTH - loader.len();
        push_zeros(&mut loader, missing);
    }
    Ok(loader)
}

/// The three blobs that a machine's ACPI configuration is measured from.
pub struct Tables {
    pub tables: Vec<u8>,
    pub rsdp: Vec<u8>,
    pub loader: Vec<u8>,
}

/// The ACPI inputs of a machine: its table blob, and its RSDP and loader
/// script where they are supplied rather than synthesized.
pub struct Machine {
    pub acpi_tables: Vec<u8>,
    pub rsdp: Option<Vec<u8>>,
    pub table_loader: Option<Vec<u8>>,
}

/// The view of an optional buffer.
pub open spec fn opt_view(o: Option<Vec<u8>>) -> Option<Seq<u8>> {
    match o {
        Some(v) => Some(v@),
        None => None,
    }
}

/// The RSDP of a machine: the supplied one, else the synthesized one.
pub open spec fn machine_rsdp(t: Seq<u8>, supplied: Option<Seq<u8>>) -> Result<Seq<u8>, AcpiError> {
    match supplied {
        Some(r) => Ok(r),
        None => rsdp_script(t),
    }
}

/// The loader script of a machine: the supplied one, else the synthesized one.
pub open spec fn machine_loader(t: Seq<u8>, supplied: Option<Seq<u8>>) -> Result<
    Seq<u8>,
    AcpiError,
> {
    match supplied {
        Some(l) => Ok(l),
        None => loader_script(t),
    }
}

fn copy_bytes(v: &Vec<u8>) -> (r: Vec<u8>)
    ensures
        r@ == v@,
{
    let mut r: Vec<u8> = Vec::with_capacity(v.len());
    let mut i: usize = 0;
    while i < v.len()
        invariant
            i <= v@.len(),
            r@ == v@.subrange(0, i as int),
        decreases v@.len() - i,
    {
        r.push(v[i]);
        i = i + 1;
        assert(r@ =~= v@.subrange(0, i as int));
    }
    assert(v@.subrange(0, i as int) =~= v@);
    r
}

impl Machine {
    /// The tables, RSDP and loader script of this machine. The RSDP is
    /// synthesized first, then the loader script; the first failure is the
    /// result.
    pub fn build_tables(&self) -> (r: Result<Tables, AcpiError>)
        ensures
            match r {
                Ok(out) => {
                    &&& out.tables@ == self.acpi_tables@
                    &&& machine_rsdp(self.acpi_tables@, opt_view(self.rsdp)) == Ok::<
                        Seq<u8>,
                        AcpiError,
                    >(out.rsdp@)
                    &&& machine_loader(self.acpi_tables@, opt_view(self.table_loader)) == Ok::<
                        Seq<u8>,
                        AcpiError,
                    >(out.loader@)
                },
                Err(e) => machine_rsdp(self.acpi_tables@, opt_view(self.rsdp)) == Err::<
                    Seq<u8>,
                    AcpiError,
                >(e) || (machine_rsdp(self.acpi_tables@, opt_view(self.rsdp)) is Ok
                    && machine_loader(self.acpi_tables@, opt_view(self.table_loader)) == Err::<
                    Seq<u8>,
                    AcpiError,
                >(e)),
            },
    {
        let tables = copy_bytes(&self.acpi_tables);
        let rsdp = match &self.rsdp {
            Some(given) => copy_bytes(given),
            None => match find_acpi_table(tables.as_slice(), SIG_RSDT) {
                Ok(rsdt) => synthesize_rsdp(rsdt.0),
                Err(e) => return Err(e),
            },
        };
        let loader = match &self.table_loader {
            Some(given) => copy_bytes(given),
            None => match synthesize_loader(tables.as_slice()) {
                Ok(l) => l,
                Err(e) => return Err(e),
            },
        };
        Ok(Tables { tables, rsdp, loader })
    }
}

/// Number of commands in a synthesized loader script.
pub const LOADER_COMMAND_COUNT: usize = 17;

/// The records of a synthesized loader script, before padding, take
/// `LOADER_COMMAND_COUNT` records.
proof fn lemma_commands_len(
    dsdt: Located,
    facp: Located,
    apic: Located,
    mcfg: Located,
    waet: Located,
    rsdt: Located,
)
    ensures
        loader_commands(dsdt, facp, apic, mcfg, waet, rsdt).len() == LOADER_COMMAND_COUNT,
        script_bytes(loader_commands(dsdt, facp, apic, mcfg, waet, rsdt)).len() == RECORD_LEN
            * LOADER_COMMAND_COUNT,
{
    lemma_script_len(loader_commands(dsdt, facp, apic, mcfg, waet, rsdt));
}

/// A synthesized loader script is at least `LDR_LENGTH` bytes long: its
/// records come first, and every byte after the last of them is zero.
pub proof fn lemma_loader_min_length(t: Seq<u8>)
    ensures
        match loader_script(t) {
            Ok(s) => {
                &&& s.len() >= LDR_LENGTH
                &&& forall|i: int|
                    RECORD_LEN * LOADER_COMMAND_COUNT <= i < s.len() ==> #[trigger] s[i] == 0
            },
            Err(_) => true,
        },
{
    if let Ok((dsdt, facp, apic, mcfg, waet, rsdt)) = required_tables(t) {
        lemma_commands_len(dsdt, facp, apic, mcfg, waet, rsdt);
    }
}

/// In every synthesized loader script, wherever the tables lie, the record
/// after the last real pointer patch is the RSDP checksum: over bytes
/// `[0, 20)` of the RSDP, into its byte 8.
pub proof fn lemma_rsdp_checksum_record(t: Seq<u8>)
    ensures
        match loader_script(t) {
            Ok(s) => s.subrange(
                RECORD_LEN * (LOADER_COMMAND_COUNT - 1),
                RECORD_LEN * LOADER_COMMAND_COUNT as int,
            ) == cmd_bytes(rsdp_checksum()),
            Err(_) => true,
        },
{
    if let Ok((dsdt, facp, apic, mcfg, waet, rsdt)) = required_tables(t) {
        let cmds = loader_commands(dsdt, facp, apic, mcfg, waet, rsdt);
        let k = LOADER_COMMAND_COUNT - 1;
        lemma_commands_len(dsdt, facp, apic, mcfg, waet, rsdt);
        lemma_script_record(cmds, k as int);
        let s = padded(script_bytes(cmds));
        assert(s.subrange(RECORD_LEN * k, RECORD_LEN * k + RECORD_LEN) =~= script_bytes(
            cmds,
        ).subrange(RECORD_LEN * k, RECORD_LEN * k + RECORD_LEN));
    }
}

/// Synthesis depends on the table blob alone: the same blob gives the same
/// RSDP and the same loader script, byte for byte.
pub proof fn lemma_synthesis_deterministic(t1: Seq<u8>, t2: Seq<u8>)
    requires
        t1 == t2,
    ensures
        rsdp_script(t1) == rsdp_script(t2),
        loader_script(t1) == loader_script(t2),
{
}

/// A synthesized RSDP is 20 bytes long and its bytes 16 to 19 hold the RSDT
/// offset it was made for.
pub proof fn lemma_rsdp_points_at(rsdt_offset: u32)
    ensures
        rsdp_bytes(rsdt_offset).len() == RSDP_LEN,
        le_u32_at(rsdp_bytes(rsdt_offset), RSDP_RSDT_ADDRESS_OFFSET as int) == rsdt_offset,
{
    let r = rsdp_bytes(rsdt_offset);
    lemma_le_round_trip(rsdt_offset);
    let e = le_bytes(rsdt_offset);
    assert(r[16] == e[0] && r[17] == e[1] && r[18] == e[2] && r[19] == e[3]);
}

} // verus!
