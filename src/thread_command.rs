use vstd::prelude::*;
use crate::reader::{Endian, Reader, uint_at};
use crate::result::{Error, Result};

verus! {

/// Architecture tag of an image (`cputype` of its header).
pub type CPUType = u32;

pub const CPU_TYPE_I386: u32 = 7;
pub const CPU_TYPE_X86_64: u32 = 0x0100_0007;
pub const CPU_TYPE_ARM64: u32 = 0x0100_000c;

pub const X86_THREAD_STATE32: u32 = 1;
pub const X86_THREAD_STATE64: u32 = 4;
pub const ARM_THREAD_STATE64: u32 = 6;
pub const ARM_EXCEPTION_STATE64: u32 = 7;

/// Bytes taken by the `flavor` and `count` words in front of each state.
pub const LC_THREAD_FLAVOR_HEADER_SIZE: u32 = 8;

/// A 32-bit register value.
#[derive(Clone, Copy, Debug, PartialEq, Eq, Structural)]
pub struct Hu32(pub u32);

/// A 64-bit register value.
#[derive(Clone, Copy, Debug, PartialEq, Eq, Structural)]
pub struct Hu64(pub u64);

/// One named value of a decoded record.
#[derive(Clone, Copy, Debug)]
pub struct Field {
    pub name: &'static str,
    pub value: u64,
}

/// The names and values of a list of fields.
pub open spec fn fields_view(s: Seq<Field>) -> Seq<(Seq<char>, nat)> {
    s.map_values(|f: Field| (f.name@, f.value as nat))
}

/// `n` four-byte integers laid end to end from `p`.
pub open spec fn uint32_values(b: Seq<u8>, p: int, n: int, e: Endian) -> Seq<nat> {
    Seq::new(n as nat, |i: int| uint_at(b, p + 4 * i, 4, e))
}

/// `n` eight-byte integers laid end to end from `p`.
pub open spec fn uint64_values(b: Seq<u8>, p: int, n: int, e: Endian) -> Seq<nat> {
    Seq::new(n as nat, |i: int| uint_at(b, p + 8 * i, 8, e))
}

/// The registers of a 64-bit ARM thread state stored at `p`.
pub open spec fn arm_thread_values(b: Seq<u8>, p: int, e: Endian) -> Seq<nat> {
    uint64_values(b, p, 33, e) + uint32_values(b, p + 264, 2, e)
}

/// The registers of a 64-bit ARM exception state stored at `p`.
pub open spec fn arm_exception_values(b: Seq<u8>, p: int, e: Endian) -> Seq<nat> {
    seq![uint_at(b, p, 8, e), uint_at(b, p + 8, 4, e), uint_at(b, p + 12, 4, e)]
}

/// Names of the registers of a 32-bit x86 thread, in declaration order.
pub open spec fn x86_thread32_names() -> Seq<Seq<char>> {
    seq!["eax"@, "ebx"@, "ecx"@, "edx"@, "edi"@, "esi"@, "ebp"@, "esp"@, "ss"@, "eflags"@, "eip"@, "cs"@, "ds"@, "es"@, "fs"@, "gs"@]
}

/// Names of the registers of a 64-bit x86 thread, in declaration order.
pub open spec fn x86_thread64_names() -> Seq<Seq<char>> {
    seq!["rax"@, "rbx"@, "rcx"@, "rdx"@, "rdi"@, "rsi"@, "rbp"@, "rsp"@, "r8"@, "r9"@, "r10"@, "r11"@, "r12"@, "r13"@, "r14"@, "r15"@, "rip"@, "rflags"@, "cs"@, "fs"@, "gs"@]
}

/// Names of the exception registers of a 64-bit ARM thread, in declaration order.
pub open spec fn arm_exception_names() -> Seq<Seq<char>> {
    seq!["far"@, "esr"@, "exception"@]
}

/// Decodes `n` consecutive `u32` words at the reader's position.
fn read_words32(reader: &mut Reader, n: usize, endian: Endian) -> (r: Result<Vec<u32>>)
    requires
        0 < n,
    ensures
        final(reader).data() == old(reader).data(),
        old(reader).position() + 4 * n <= old(reader).data().len() ==> (r matches Ok(v)
            && v@.map_values(|w: u32| w as nat) == uint32_values(
            old(reader).data(),
            old(reader).position() as int,
            n as int,
            endian,
        ) && final(reader).position() == old(reader).position() + 4 * n),
        r matches Ok(v) ==> v@.len() == n,
        old(reader).position() + 4 * n > old(reader).data().len() ==> r matches Err(
            Error::BadBufferLength,
        ),
{
    let ghost b = reader.data();
    let ghost p = reader.position() as int;
    let mut v: Vec<u32> = Vec::new();
    let mut i: usize = 0;
    while i < n
        invariant
            i <= n,
            b == old(reader).data(),
            p == old(reader).position(),
            reader.data() == b,
            reader.position() == p + 4 * i,
            i > 0 ==> p + 4 * i <= b.len(),
            v@.len() == i,
            forall|k: int| 0 <= k < i ==> v@[k] as nat == uint_at(b, p + 4 * k, 4, endian),
        decreases n - i,
    {
        match reader.read_u32(endian) {
            Ok(w) => {
                v.push(w);
            },
            Err(e) => {
                return Err(e);
            },
        }
        i = i + 1;
    }
    assert(v@.map_values(|w: u32| w as nat) =~= uint32_values(b, p, n as int, endian));
    Ok(v)
}

/// Decodes `n` consecutive `u64` words at the reader's position.
fn read_words64(reader: &mut Reader, n: usize, endian: Endian) -> (r: Result<Vec<u64>>)
    requires
        0 < n,
    ensures
        final(reader).data() == old(reader).data(),
        old(reader).position() + 8 * n <= old(reader).data().len() ==> (r matches Ok(v)
            && v@.map_values(|w: u64| w as nat) == uint64_values(
            old(reader).data(),
            old(reader).position() as int,
            n as int,
            endian,
        ) && final(reader).position() == old(reader).position() + 8 * n),
        r matches Ok(v) ==> v@.len() == n,
        old(reader).position() + 8 * n > old(reader).data().len() ==> r matches Err(
            Error::BadBufferLength,
        ),
{
    let ghost b = reader.data();
    let ghost p = reader.position() as int;
    let mut v: Vec<u64> = Vec::new();
    let mut i: usize = 0;
    while i < n
        invariant
            i <= n,
            b == old(reader).data(),
            p == old(reader).position(),
            reader.data() == b,
            reader.position() == p + 8 * i,
            i > 0 ==> p + 8 * i <= b.len(),
            v@.len() == i,
            forall|k: int| 0 <= k < i ==> v@[k] as nat == uint_at(b, p + 8 * k, 8, endian),
        decreases n - i,
    {
        match reader.read_u64(endian) {
            Ok(w) => {
                v.push(w);
            },
            Err(e) => {
                return Err(e);
            },
        }
        i = i + 1;
    }
    assert(v@.map_values(|w: u64| w as nat) =~= uint64_values(b, p, n as int, endian));
    Ok(v)
}

/// General registers of a 32-bit x86 thread.
#[derive(Debug)]
pub struct X86ThreadState32 {
    pub eax: Hu32,
    pub ebx: Hu32,
    pub ecx: Hu32,
    pub edx: Hu32,
    pub edi: Hu32,
    pub esi: Hu32,
    pub ebp: Hu32,
    pub esp: Hu32,
    pub ss: Hu32,
    pub eflags: Hu32,
    pub eip: Hu32,
    pub cs: Hu32,
    pub ds: Hu32,
    pub es: Hu32,
    pub fs: Hu32,
    pub gs: Hu32,
}

impl X86ThreadState32 {
    /// The register values in declaration order.
    pub open spec fn values(&self) -> Seq<nat> {
        seq![self.eax.0 as nat, self.ebx.0 as nat, self.ecx.0 as nat, self.edx.0 as nat, self.edi.0 as nat, self.esi.0 as nat, self.ebp.0 as nat, self.esp.0 as nat, self.ss.0 as nat, self.eflags.0 as nat, self.eip.0 as nat, self.cs.0 as nat, self.ds.0 as nat, self.es.0 as nat, self.fs.0 as nat, self.gs.0 as nat]
    }

    /// Decodes the 16 registers, 4 bytes each, at the reader's position.
    pub fn parse(reader: &mut Reader, endian: Endian) -> (r: Result<X86ThreadState32>)
        ensures
            final(reader).data() == old(reader).data(),
            old(reader).position() + 64 <= old(reader).data().len() ==> (r matches Ok(s)
                && s.values() == uint32_values(old(reader).data(), old(reader).position() as int, 16, endian)
                && final(reader).position() == old(reader).position() + 64),
            old(reader).position() + 64 > old(reader).data().len() ==> r matches Err(
                Error::BadBufferLength,
            ),
    {
        let ghost b = reader.data();
        let ghost p = reader.position() as int;
        match read_words32(reader, 16, endian) {
            Ok(v) => {
                let s = X86ThreadState32 {
            eax: Hu32(v[0]),
            ebx: Hu32(v[1]),
            ecx: Hu32(v[2]),
            edx: Hu32(v[3]),
            edi: Hu32(v[4]),
            esi: Hu32(v[5]),
            ebp: Hu32(v[6]),
            esp: Hu32(v[7]),
            ss: Hu32(v[8]),
            eflags: Hu32(v[9]),
            eip: Hu32(v[10]),
            cs: Hu32(v[11]),
            ds: Hu32(v[12]),
            es: Hu32(v[13]),
            fs: Hu32(v[14]),
            gs: Hu32(v[15]),
                };
                assert(s.values() =~= uint32_values(b, p, 16, endian));
                Ok(s)
            },
            Err(e) => Err(e),
        }
    }

    /// Each register with its name, in declaration order.
    pub fn all_fields(&self) -> (r: Vec<Field>)
        ensures
            fields_view(r@) == x86_thread32_names().zip_with(self.values()),
    {
        let mut fields: Vec<Field> = Vec::new();
        fields.push(Field { name: "eax", value: self.eax.0 as u64 });
        fields.push(Field { name: "ebx", value: self.ebx.0 as u64 });
        fields.push(Field { name: "ecx", value: self.ecx.0 as u64 });
        fields.push(Field { name: "edx", value: self.edx.0 as u64 });
        fields.push(Field { name: "edi", value: self.edi.0 as u64 });
        fields.push(Field { name: "esi", value: self.esi.0 as u64 });
        fields.push(Field { name: "ebp", value: self.ebp.0 as u64 });
        fields.push(Field { name: "esp", value: self.esp.0 as u64 });
        fields.push(Field { name: "ss", value: self.ss.0 as u64 });
        fields.push(Field { name: "eflags", value: self.eflags.0 as u64 });
        fields.push(Field { name: "eip", value: self.eip.0 as u64 });
        fields.push(Field { name: "cs", value: self.cs.0 as u64 });
        fields.push(Field { name: "ds", value: self.ds.0 as u64 });
        fields.push(Field { name: "es", value: self.es.0 as u64 });
        fields.push(Field { name: "fs", value: self.fs.0 as u64 });
        fields.push(Field { name: "gs", value: self.gs.0 as u64 });
        assert(fields_view(fields@) =~= x86_thread32_names().zip_with(self.values()));
        fields
    }
}

/// General registers of a 64-bit x86 thread.
#[derive(Debug)]
pub struct X86ThreadState64 {
    pub rax: Hu64,
    pub rbx: Hu64,
    pub rcx: Hu64,
    pub rdx: Hu64,
    pub rdi: Hu64,
    pub rsi: Hu64,
    pub rbp: Hu64,
    pub rsp: Hu64,
    pub r8: Hu64,
    pub r9: Hu64,
    pub r10: Hu64,
    pub r11: Hu64,
    pub r12: Hu64,
    pub r13: Hu64,
    pub r14: Hu64,
    pub r15: Hu64,
    pub rip: Hu64,
    pub rflags: Hu64,
    pub cs: Hu64,
    pub fs: Hu64,
    pub gs: Hu64,
}

impl X86ThreadState64 {
    /// The register values in declaration order.
    pub open spec fn values(&self) -> Seq<nat> {
        seq![self.rax.0 as nat, self.rbx.0 as nat, self.rcx.0 as nat, self.rdx.0 as nat, self.rdi.0 as nat, self.rsi.0 as nat, self.rbp.0 as nat, self.rsp.0 as nat, self.r8.0 as nat, self.r9.0 as nat, self.r10.0 as nat, self.r11.0 as nat, self.r12.0 as nat, self.r13.0 as nat, self.r14.0 as nat, self.r15.0 as nat, self.rip.0 as nat, self.rflags.0 as nat, self.cs.0 as nat, self.fs.0 as nat, self.gs.0 as nat]
    }

    /// Decodes the 21 registers, 8 bytes each, at the reader's position.
    pub fn parse(reader: &mut Reader, endian: Endian) -> (r: Result<X86ThreadState64>)
        ensures
            final(reader).data() == old(reader).data(),
            old(reader).position() + 168 <= old(reader).data().len() ==> (r matches Ok(s)
                && s.values() == uint64_values(old(reader).data(), old(reader).position() as int, 21, endian)
                && final(reader).position() == old(reader).position() + 168),
            old(reader).position() + 168 > old(reader).data().len() ==> r matches Err(
                Error::BadBufferLength,
            ),
    {
        let ghost b = reader.data();
        let ghost p = reader.position() as int;
        match read_words64(reader, 21, endian) {
            Ok(v) => {
                let s = X86ThreadState64 {
            rax: Hu64(v[0]),
            rbx: Hu64(v[1]),
            rcx: Hu64(v[2]),
            rdx: Hu64(v[3]),
            rdi: Hu64(v[4]),
            rsi: Hu64(v[5]),
            rbp: Hu64(v[6]),
            rsp: Hu64(v[7]),
            r8: Hu64(v[8]),
            r9: Hu64(v[9]),
            r10: Hu64(v[10]),
            r11: Hu64(v[11]),
            r12: Hu64(v[12]),
            r13: Hu64(v[13]),
            r14: Hu64(v[14]),
            r15: Hu64(v[15]),
            rip: Hu64(v[16]),
            rflags: Hu64(v[17]),
            cs: Hu64(v[18]),
            fs: Hu64(v[19]),
            gs: Hu64(v[20]),
                };
                assert(s.values() =~= uint64_values(b, p, 21, endian));
                Ok(s)
            },
            Err(e) => Err(e),
        }
    }

    /// Each register with its name, in declaration order.
    pub fn all_fields(&self) -> (r: Vec<Field>)
        ensures
            fields_view(r@) == x86_thread64_names().zip_with(self.values()),
    {
        let mut fields: Vec<Field> = Vec::new();
        fields.push(Field { name: "rax", value: self.rax.0 as u64 });
        fields.push(Field { name: "rbx", value: self.rbx.0 as u64 });
        fields.push(Field { name: "rcx", value: self.rcx.0 as u64 });
        fields.push(Field { name: "rdx", value: self.rdx.0 as u64 });
        fields.push(Field { name: "rdi", value: self.rdi.0 as u64 });
        fields.push(Field { name: "rsi", value: self.rsi.0 as u64 });
        fields.push(Field { name: "rbp", value: self.rbp.0 as u64 });
        fields.push(Field { name: "rsp", value: self.rsp.0 as u64 });
        fields.push(Field { name: "r8", value: self.r8.0 as u64 });
        fields.push(Field { name: "r9", value: self.r9.0 as u64 });
        fields.push(Field { name: "r10", value: self.r10.0 as u64 });
        fields.push(Field { name: "r11", value: self.r11.0 as u64 });
        fields.push(Field { name: "r12", value: self.r12.0 as u64 });
        fields.push(Field { name: "r13", value: self.r13.0 as u64 });
        fields.push(Field { name: "r14", value: self.r14.0 as u64 });
        fields.push(Field { name: "r15", value: self.r15.0 as u64 });
        fields.push(Field { name: "rip", value: self.rip.0 as u64 });
        fields.push(Field { name: "rflags", value: self.rflags.0 as u64 });
        fields.push(Field { name: "cs", value: self.cs.0 as u64 });
        fields.push(Field { name: "fs", value: self.fs.0 as u64 });
        fields.push(Field { name: "gs", value: self.gs.0 as u64 });
        assert(fields_view(fields@) =~= x86_thread64_names().zip_with(self.values()));
        fields
    }
}

/// Registers of a 64-bit ARM thread: the 29 general registers, then frame pointer, link
/// register, stack pointer, program counter and the two status words.
#[derive(Debug)]
pub struct ArmThreadState64 {
    pub x: [Hu64; 29],
    pub fp: Hu64,
    pub lr: Hu64,
    pub sp: Hu64,
    pub pc: Hu64,
    pub cpsr: Hu32,
    pub flags: Hu32,
}

/// Names of the registers of a 64-bit ARM thread, in declaration order.
pub open spec fn arm_thread_names() -> Seq<Seq<char>> {
    seq!["x0"@, "x1"@, "x2"@, "x3"@, "x4"@, "x5"@, "x6"@, "x7"@, "x8"@, "x9"@, "x10"@, "x11"@, "x12"@, "x13"@, "x14"@, "x15"@, "x16"@, "x17"@, "x18"@, "x19"@, "x20"@, "x21"@, "x22"@, "x23"@, "x24"@, "x25"@, "x26"@, "x27"@, "x28"@, "fp"@, "lr"@, "sp"@, "pc"@, "cpsr"@, "flags"@]
}

/// Name of general register `i` of a 64-bit ARM thread.
fn arm_general_name(i: usize) -> (r: &'static str)
    requires
        i < 29,
    ensures
        r@ == arm_thread_names()[i as int],
{
    match i {
        0 => "x0",
        1 => "x1",
        2 => "x2",
        3 => "x3",
        4 => "x4",
        5 => "x5",
        6 => "x6",
        7 => "x7",
        8 => "x8",
        9 => "x9",
        10 => "x10",
        11 => "x11",
        12 => "x12",
        13 => "x13",
        14 => "x14",
        15 => "x15",
        16 => "x16",
        17 => "x17",
        18 => "x18",
        19 => "x19",
        20 => "x20",
        21 => "x21",
        22 => "x22",
        23 => "x23",
        24 => "x24",
        25 => "x25",
        26 => "x26",
        27 => "x27",
        _ => "x28",
    }
}

impl ArmThreadState64 {
    /// The register values in declaration order.
    pub open spec fn values(&self) -> Seq<nat> {
        self.x@.map_values(|h: Hu64| h.0 as nat) + seq![
            self.fp.0 as nat,
            self.lr.0 as nat,
            self.sp.0 as nat,
            self.pc.0 as nat,
            self.cpsr.0 as nat,
            self.flags.0 as nat,
        ]
    }

    /// Decodes the 33 eight-byte registers and the two four-byte status words at the reader's
    /// position.
    pub fn parse(reader: &mut Reader, endian: Endian) -> (r: Result<ArmThreadState64>)
        ensures
            final(reader).data() == old(reader).data(),
            old(reader).position() + 272 <= old(reader).data().len() ==> (r matches Ok(s)
                && s.values() == arm_thread_values(old(reader).data(), old(reader).position() as int, endian)
                && final(reader).position() == old(reader).position() + 272),
            old(reader).position() + 272 > old(reader).data().len() ==> r matches Err(
                Error::BadBufferLength,
            ),
    {
        let ghost b = reader.data();
        let ghost p = reader.position() as int;
        let v = match read_words64(reader, 33, endian) {
            Ok(v) => v,
            Err(e) => {
                return Err(e);
            },
        };
        let w = match read_words32(reader, 2, endian) {
            Ok(w) => w,
            Err(e) => {
                return Err(e);
            },
        };
        let x: [Hu64; 29] = [Hu64(v[0]), Hu64(v[1]), Hu64(v[2]), Hu64(v[3]), Hu64(v[4]), Hu64(v[5]), Hu64(v[6]), Hu64(v[7]), Hu64(v[8]), Hu64(v[9]), Hu64(v[10]), Hu64(v[11]), Hu64(v[12]), Hu64(v[13]), Hu64(v[14]), Hu64(v[15]), Hu64(v[16]), Hu64(v[17]), Hu64(v[18]), Hu64(v[19]), Hu64(v[20]), Hu64(v[21]), Hu64(v[22]), Hu64(v[23]), Hu64(v[24]), Hu64(v[25]), Hu64(v[26]), Hu64(v[27]), Hu64(v[28])];
        let s = ArmThreadState64 {
            x,
            fp: Hu64(v[29]),
            lr: Hu64(v[30]),
            sp: Hu64(v[31]),
            pc: Hu64(v[32]),
            cpsr: Hu32(w[0]),
            flags: Hu32(w[1]),
        };
        assert(s.x@.map_values(|h: Hu64| h.0 as nat) =~= uint64_values(b, p, 33, endian).subrange(0, 29));
        assert(s.values() =~= arm_thread_values(b, p, endian));
        Ok(s)
    }

    /// Each register with its name, in declaration order.
    pub fn all_fields(&self) -> (r: Vec<Field>)
        ensures
            fields_view(r@) == arm_thread_names().zip_with(self.values()),
    {
        let mut fields: Vec<Field> = Vec::new();
        let mut i: usize = 0;
        while i < 29
            invariant
                i <= 29,
                fields@.len() == i,
                forall|k: int|
                    0 <= k < i ==> (#[trigger] fields@[k]).name@ == arm_thread_names()[k]
                        && fields@[k].value as nat == self.values()[k],
            decreases 29 - i,
        {
            let name = arm_general_name(i);
            fields.push(Field { name, value: self.x[i].0 });
            i = i + 1;
        }
        fields.push(Field { name: "fp", value: self.fp.0 });
        fields.push(Field { name: "lr", value: self.lr.0 });
        fields.push(Field { name: "sp", value: self.sp.0 });
        fields.push(Field { name: "pc", value: self.pc.0 });
        fields.push(Field { name: "cpsr", value: self.cpsr.0 as u64 });
        fields.push(Field { name: "flags", value: self.flags.0 as u64 });
        assert(fields_view(fields@) =~= arm_thread_names().zip_with(self.values()));
        fields
    }
}

/// Exception registers of a 64-bit ARM thread.
#[derive(Debug)]
pub struct ArmExceptionState64 {
    pub far: Hu64,
    pub esr: Hu32,
    pub exception: Hu32,
}

impl ArmExceptionState64 {
    /// The register values in declaration order.
    pub open spec fn values(&self) -> Seq<nat> {
        seq![self.far.0 as nat, self.esr.0 as nat, self.exception.0 as nat]
    }

    /// Decodes the fault address (eight bytes) and the two four-byte words at the reader's
    /// position.
    pub fn parse(reader: &mut Reader, endian: Endian) -> (r: Result<ArmExceptionState64>)
        ensures
            final(reader).data() == old(reader).data(),
            old(reader).position() + 16 <= old(reader).data().len() ==> (r matches Ok(s)
                && s.values() == arm_exception_values(old(reader).data(), old(reader).position() as int, endian)
                && final(reader).position() == old(reader).position() + 16),
            old(reader).position() + 16 > old(reader).data().len() ==> r matches Err(
                Error::BadBufferLength,
            ),
    {
        let far = match reader.read_u64(endian) {
            Ok(v) => v,
            Err(e) => {
                return Err(e);
            },
        };
        let esr = match reader.read_u32(endian) {
            Ok(v) => v,
            Err(e) => {
                return Err(e);
            },
        };
        let exception = match reader.read_u32(endian) {
            Ok(v) => v,
            Err(e) => {
                return Err(e);
            },
        };
        Ok(ArmExceptionState64 { far: Hu64(far), esr: Hu32(esr), exception: Hu32(exception) })
    }

    /// Each register with its name, in declaration order.
    pub fn all_fields(&self) -> (r: Vec<Field>)
        ensures
            fields_view(r@) == arm_exception_names().zip_with(self.values()),
    {
        let mut fields: Vec<Field> = Vec::new();
        fields.push(Field { name: "far", value: self.far.0 });
        fields.push(Field { name: "esr", value: self.esr.0 as u64 });
        fields.push(Field { name: "exception", value: self.exception.0 as u64 });
        assert(fields_view(fields@) =~= arm_exception_names().zip_with(self.values()));
        fields
    }
}

/// A decoded thread state; which variant depends on both the architecture and the flavor.
#[derive(Debug)]
pub enum FlavorState {
    X86ThreadState32(X86ThreadState32),
    X86ThreadState64(X86ThreadState64),
    ArmThreadState64(ArmThreadState64),
    ArmExceptionState64(ArmExceptionState64),
    Unknown,
}

/// Bytes of the state that `(cpu, flavor)` decodes; zero where no decoder is registered.
pub open spec fn state_size(cpu: u32, flavor: nat) -> nat {
    if cpu == CPU_TYPE_I386 && flavor == X86_THREAD_STATE32 as nat {
        64
    } else if cpu == CPU_TYPE_X86_64 && flavor == X86_THREAD_STATE64 as nat {
        168
    } else if cpu == CPU_TYPE_ARM64 && flavor == ARM_THREAD_STATE64 as nat {
        272
    } else if cpu == CPU_TYPE_ARM64 && flavor == ARM_EXCEPTION_STATE64 as nat {
        16
    } else {
        0
    }
}

/// The register values that `(cpu, flavor)` decodes from a state stored at `p`.
pub open spec fn state_values(b: Seq<u8>, p: int, cpu: u32, flavor: nat, e: Endian) -> Seq<nat> {
    if cpu == CPU_TYPE_I386 && flavor == X86_THREAD_STATE32 as nat {
        uint32_values(b, p, 16, e)
    } else if cpu == CPU_TYPE_X86_64 && flavor == X86_THREAD_STATE64 as nat {
        uint64_values(b, p, 21, e)
    } else if cpu == CPU_TYPE_ARM64 && flavor == ARM_THREAD_STATE64 as nat {
        arm_thread_values(b, p, e)
    } else if cpu == CPU_TYPE_ARM64 && flavor == ARM_EXCEPTION_STATE64 as nat {
        arm_exception_values(b, p, e)
    } else {
        Seq::empty()
    }
}

/// Whether `s` is the variant that `(cpu, flavor)` decodes to.
pub open spec fn state_kind_matches(s: FlavorState, cpu: u32, flavor: nat) -> bool {
    if cpu == CPU_TYPE_I386 && flavor == X86_THREAD_STATE32 as nat {
        s is X86ThreadState32
    } else if cpu == CPU_TYPE_X86_64 && flavor == X86_THREAD_STATE64 as nat {
        s is X86ThreadState64
    } else if cpu == CPU_TYPE_ARM64 && flavor == ARM_THREAD_STATE64 as nat {
        s is ArmThreadState64
    } else if cpu == CPU_TYPE_ARM64 && flavor == ARM_EXCEPTION_STATE64 as nat {
        s is ArmExceptionState64
    } else {
        s is Unknown
    }
}

impl FlavorState {
    /// The register values of the state, in declaration order; none for `Unknown`.
    pub open spec fn values(&self) -> Seq<nat> {
        match self {
            FlavorState::X86ThreadState32(s) => s.values(),
            FlavorState::X86ThreadState64(s) => s.values(),
            FlavorState::ArmThreadState64(s) => s.values(),
            FlavorState::ArmExceptionState64(s) => s.values(),
            FlavorState::Unknown => Seq::empty(),
        }
    }

    /// The register names of the state, in declaration order; none for `Unknown`.
    pub open spec fn field_names(&self) -> Seq<Seq<char>> {
        match self {
            FlavorState::X86ThreadState32(_) => x86_thread32_names(),
            FlavorState::X86ThreadState64(_) => x86_thread64_names(),
            FlavorState::ArmThreadState64(_) => arm_thread_names(),
            FlavorState::ArmExceptionState64(_) => arm_exception_names(),
            FlavorState::Unknown => Seq::empty(),
        }
    }

    /// The title under which the state is shown; none for `Unknown`.
    pub open spec fn header_name(&self) -> Seq<char> {
        match self {
            FlavorState::X86ThreadState32(_) => "STRUCT_X86_THREAD_STATE32"@,
            FlavorState::X86ThreadState64(_) => "STRUCT_X86_THREAD_STATE64"@,
            FlavorState::ArmThreadState64(_) => "STRUCT_ARM_THREAD_STATE64"@,
            FlavorState::ArmExceptionState64(_) => "STRUCT_ARM_EXCEPTION_STATE64"@,
            FlavorState::Unknown => Seq::empty(),
        }
    }

    /// Decodes the state of `flavor` for architecture `cpu_type` at the reader's position.
    /// A pair with no registered decoder gives `Unknown` and reads nothing.
    pub fn parse(reader: &mut Reader, endian: Endian, flavor: u32, cpu_type: CPUType) -> (r: Result<FlavorState>)
        ensures
            final(reader).data() == old(reader).data(),
            state_size(cpu_type, flavor as nat) == 0 ==> (r matches Ok(FlavorState::Unknown)
                && final(reader).position() == old(reader).position()),
            state_size(cpu_type, flavor as nat) > 0 && old(reader).position() + state_size(
                cpu_type,
                flavor as nat,
            ) <= old(reader).data().len() ==> (r matches Ok(s) && state_kind_matches(
                s,
                cpu_type,
                flavor as nat,
            ) && s.values() == state_values(
                old(reader).data(),
                old(reader).position() as int,
                cpu_type,
                flavor as nat,
                endian,
            ) && final(reader).position() == old(reader).position() + state_size(
                cpu_type,
                flavor as nat,
            )),
            state_size(cpu_type, flavor as nat) > 0 && old(reader).position() + state_size(
                cpu_type,
                flavor as nat,
            ) > old(reader).data().len() ==> r matches Err(Error::BadBufferLength),
    {
        if cpu_type == CPU_TYPE_I386 && flavor == X86_THREAD_STATE32 {
            match X86ThreadState32::parse(reader, endian) {
                Ok(s) => Ok(FlavorState::X86ThreadState32(s)),
                Err(e) => Err(e),
            }
        } else if cpu_type == CPU_TYPE_X86_64 && flavor == X86_THREAD_STATE64 {
            match X86ThreadState64::parse(reader, endian) {
                Ok(s) => Ok(FlavorState::X86ThreadState64(s)),
                Err(e) => Err(e),
            }
        } else if cpu_type == CPU_TYPE_ARM64 && flavor == ARM_THREAD_STATE64 {
            match ArmThreadState64::parse(reader, endian) {
                Ok(s) => Ok(FlavorState::ArmThreadState64(s)),
                Err(e) => Err(e),
            }
        } else if cpu_type == CPU_TYPE_ARM64 && flavor == ARM_EXCEPTION_STATE64 {
            match ArmExceptionState64::parse(reader, endian) {
                Ok(s) => Ok(FlavorState::ArmExceptionState64(s)),
                Err(e) => Err(e),
            }
        } else {
            Ok(FlavorState::Unknown)
        }
    }

    /// The state's title and its registers as named fields; `None` for `Unknown`.
    pub fn all_fields_with_header(&self) -> (r: Option<(&str, Vec<Field>)>)
        ensures
            self is Unknown ==> r is None,
            !(self is Unknown) ==> (r matches Some((name, fields)) && name@ == self.header_name()
                && fields_view(fields@) == self.field_names().zip_with(self.values())),
    {
        match self {
            FlavorState::X86ThreadState32(state) => Some(("STRUCT_X86_THREAD_STATE32", state.all_fields())),
            FlavorState::X86ThreadState64(state) => Some(("STRUCT_X86_THREAD_STATE64", state.all_fields())),
            FlavorState::ArmThreadState64(state) => Some(("STRUCT_ARM_THREAD_STATE64", state.all_fields())),
            FlavorState::ArmExceptionState64(state) => Some(
                ("STRUCT_ARM_EXCEPTION_STATE64", state.all_fields()),
            ),
            FlavorState::Unknown => None,
        }
    }
}

/// What a record of a flavor list shows: its flavor, its count and the state's register values.
pub type FlavorView = (nat, nat, Seq<nat>);

/// The record whose header stands at `off`: `None` where its header or its state does not fit
/// in `b`.
pub open spec fn record_at(b: Seq<u8>, off: int, e: Endian, cpu: u32) -> Option<FlavorView> {
    if off < 0 || off + 8 > b.len() {
        None
    } else {
        let flavor = uint_at(b, off, 4, e);
        let count = uint_at(b, off + 4, 4, e);
        if off + 8 + state_size(cpu, flavor) > b.len() {
            None
        } else {
            Some((flavor, count, state_values(b, off + 8, cpu, flavor, e)))
        }
    }
}

/// The records of the flavor list at `base`, from the one `current` bytes in: a record takes
/// eight bytes of header and `4 * count` bytes of state, and the list ends at `cmdsize` bytes,
/// at a record with flavor and count both zero, or at a record that cannot be decoded.
pub open spec fn flavors_from(
    b: Seq<u8>,
    base: int,
    cmdsize: int,
    e: Endian,
    cpu: u32,
    current: int,
) -> Seq<FlavorView>
    decreases
            if current < cmdsize {
                cmdsize - current
            } else {
                0
            },
{
    if current >= cmdsize {
        Seq::empty()
    } else {
        match record_at(b, base + current, e, cpu) {
            None => Seq::empty(),
            Some(rec) => if rec.0 == 0 && rec.1 == 0 {
                Seq::empty()
            } else {
                seq![rec] + flavors_from(b, base, cmdsize, e, cpu, current + 8 + 4 * rec.1)
            },
        }
    }
}

/// One record of a thread command: a flavor, the number of 32-bit words of its state, and the
/// decoded state.
pub struct LcThreadFlavor {
    pub flavor: u32,
    pub count: u32,
    pub state: FlavorState,
}

impl View for LcThreadFlavor {
    type V = FlavorView;

    open spec fn view(&self) -> FlavorView {
        (self.flavor as nat, self.count as nat, self.state.values())
    }
}

impl LcThreadFlavor {
    /// Decodes the record whose header stands at `base_offset`. The end-of-list record, with
    /// flavor and count both zero, gives `None`.
    pub fn parse(reader: &mut Reader, base_offset: usize, endian: Endian, cpu_type: CPUType) -> (r: Result<Option<LcThreadFlavor>>)
        ensures
            final(reader).data() == old(reader).data(),
            match record_at(old(reader).data(), base_offset as int, endian, cpu_type) {
                None => r matches Err(Error::BadBufferLength),
                Some(rec) => if rec.0 == 0 && rec.1 == 0 {
                    r matches Ok(None)
                } else {
                    r matches Ok(Some(f)) && f@ == rec && state_kind_matches(f.state, cpu_type, rec.0)
                },
            },
    {
        if let Err(e) = reader.seek(base_offset as u64) {
            return Err(e);
        }
        let flavor = match reader.read_u32(endian) {
            Ok(v) => v,
            Err(e) => {
                return Err(e);
            },
        };
        let count = match reader.read_u32(endian) {
            Ok(v) => v,
            Err(e) => {
                return Err(e);
            },
        };
        let state = match FlavorState::parse(reader, endian, flavor, cpu_type) {
            Ok(s) => s,
            Err(e) => {
                return Err(e);
            },
        };
        if flavor == 0 && count == 0 {
            return Ok(None);
        }
        Ok(Some(LcThreadFlavor { flavor, count, state }))
    }

    /// Bytes that the record takes: its header and `count` 32-bit words.
    pub fn calculate_flavor_size(&self) -> (r: u64)
        ensures
            r == 8 + 4 * self.count,
    {
        LC_THREAD_FLAVOR_HEADER_SIZE as u64 + 4 * (self.count as u64)
    }

    /// The flavor and the count as named fields.
    pub fn all_fields(&self) -> (r: Vec<Field>)
        ensures
            fields_view(r@) == seq![("flavor"@, self.flavor as nat), ("count"@, self.count as nat)],
    {
        let mut fields: Vec<Field> = Vec::new();
        fields.push(Field { name: "flavor", value: self.flavor as u64 });
        fields.push(Field { name: "count", value: self.count as u64 });
        assert(fields_view(fields@) =~= seq![("flavor"@, self.flavor as nat), ("count"@, self.count as nat)]);
        fields
    }
}

/// Walks the records of one thread command, one at a time, each read from the reader it is
/// handed.
pub struct FlavorIterator {
    base_offset: usize,
    cmdsize: u32,
    endian: Endian,
    cpu_type: CPUType,
    current: u64,
}

impl FlavorIterator {
    /// The records that are still to come, over the bytes `b`.
    pub closed spec fn remaining(&self, b: Seq<u8>) -> Seq<FlavorView> {
        flavors_from(
            b,
            self.base_offset as int,
            self.cmdsize as int,
            self.endian,
            self.cpu_type,
            self.current as int,
        )
    }

    /// How much of the command is left to walk.
    pub closed spec fn progress(&self) -> nat {
        if self.current < self.cmdsize {
            (self.cmdsize - self.current) as nat
        } else {
            0
        }
    }

    fn new(cmdsize: u32, base_offset: usize, endian: Endian, cpu_type: CPUType) -> (r: FlavorIterator)
        ensures
            r.base_offset == base_offset,
            r.cmdsize == cmdsize,
            r.endian == endian,
            r.cpu_type == cpu_type,
            r.current == 0,
    {
        FlavorIterator { base_offset, cmdsize, endian, cpu_type, current: 0 }
    }

    /// Whether the walk stands, within the command, at a record that cannot be decoded from
    /// the bytes `b`.
    pub closed spec fn fails_at(&self, b: Seq<u8>) -> bool {
        let rec = record_at(
            b,
            self.base_offset as int + self.current as int,
            self.endian,
            self.cpu_type,
        );
        self.current < self.cmdsize && rec is None
    }

    /// The next record, or `Ok(None)` at the end of the list; a record that cannot be decoded
    /// gives `Err(BadBufferLength)` and leaves the walk where it was.
    pub fn next_strict(&mut self, reader: &mut Reader) -> (r: Result<Option<LcThreadFlavor>>)
        ensures
            final(reader).data() == old(reader).data(),
            r is Err <==> old(self).fails_at(old(reader).data()),
            match r {
                Err(e) => e is BadBufferLength && *final(self) == *old(self),
                Ok(None) => old(self).remaining(old(reader).data()).len() == 0
                    && final(self).remaining(old(reader).data()).len() == 0,
                Ok(Some(f)) => old(self).remaining(old(reader).data()).len() > 0
                    && f@ == old(self).remaining(old(reader).data())[0]
                    && final(self).remaining(old(reader).data()) == old(self).remaining(
                    old(reader).data(),
                ).drop_first() && final(self).progress() < old(self).progress(),
            },
    {
        let ghost b = reader.data();
        if self.current >= self.cmdsize as u64 {
            return Ok(None);
        }
        let len = reader.len();
        if self.base_offset > len || self.current > (len - self.base_offset) as u64 {
            return Err(Error::BadBufferLength);
        }
        let offset: usize = self.base_offset + self.current as usize;
        match LcThreadFlavor::parse(reader, offset, self.endian, self.cpu_type) {
            Ok(Some(f)) => {
                let ghost rest = old(self).remaining(b);
                self.current = self.current + f.calculate_flavor_size();
                assert(rest.drop_first() =~= self.remaining(b));
                Ok(Some(f))
            },
            Ok(None) => {
                self.current = self.cmdsize as u64;
                Ok(None)
            },
            Err(e) => Err(e),
        }
    }

    /// The next record, or `None` at the end of the list. A record that cannot be decoded also
    /// ends the list.
    pub fn next(&mut self, reader: &mut Reader) -> (r: Option<LcThreadFlavor>)
        ensures
            final(reader).data() == old(reader).data(),
            match r {
                None => old(self).remaining(old(reader).data()).len() == 0 && final(self).remaining(
                    old(reader).data(),
                ).len() == 0,
                Some(f) => old(self).remaining(old(reader).data()).len() > 0 && f@ == old(self).remaining(
                    old(reader).data(),
                )[0] && final(self).remaining(old(reader).data()) == old(self).remaining(
                    old(reader).data(),
                ).drop_first() && final(self).progress() < old(self).progress(),
            },
    {
        match self.next_strict(reader) {
            Ok(r) => r,
            Err(_) => None,
        }
    }
}

/// A thread command: a list of flavor records that spans `cmdsize` bytes from `base_offset`,
/// in an image of byte order `endian` for architecture `cpu_type`.
#[derive(Debug)]
pub struct LcThread {
    cmdsize: u32,
    base_offset: usize,
    endian: Endian,
    cpu_type: CPUType,
}

impl LcThread {
    /// The records of the command, over the bytes `b`.
    pub closed spec fn flavor_list(&self, b: Seq<u8>) -> Seq<FlavorView> {
        flavors_from(b, self.base_offset as int, self.cmdsize as int, self.endian, self.cpu_type, 0)
    }

    /// The thread command whose records span `cmdsize` bytes from `base_offset`.
    pub fn parse(cmdsize: u32, base_offset: usize, endian: Endian, cpu_type: CPUType) -> (r: Result<LcThread>)
        ensures
            r matches Ok(t) && forall|b: Seq<u8>|
                #[trigger] t.flavor_list(b) == flavors_from(
                    b,
                    base_offset as int,
                    cmdsize as int,
                    endian,
                    cpu_type,
                    0,
                ),
    {
        Ok(LcThread { cmdsize, base_offset, endian, cpu_type })
    }

    /// A fresh walk over the records, from the first.
    pub fn flavor_iterator(&self) -> (r: FlavorIterator)
        ensures
            forall|b: Seq<u8>| #[trigger] r.remaining(b) == self.flavor_list(b),
    {
        FlavorIterator::new(self.cmdsize, self.base_offset, self.endian, self.cpu_type)
    }

    /// All the records of the command, in order. The reader's bytes are left as they were, so
    /// every call gives the same records.
    pub fn flavors(&self, reader: &mut Reader) -> (r: Vec<LcThreadFlavor>)
        ensures
            final(reader).data() == old(reader).data(),
            r@.map_values(|f: LcThreadFlavor| f@) == self.flavor_list(old(reader).data()),
    {
        let ghost b = reader.data();
        let mut it = self.flavor_iterator();
        let mut out: Vec<LcThreadFlavor> = Vec::new();
        loop
            invariant
                b == old(reader).data(),
                reader.data() == b,
                out@.map_values(|f: LcThreadFlavor| f@) + it.remaining(b) == self.flavor_list(b),
            ensures
                reader.data() == b,
                out@.map_values(|f: LcThreadFlavor| f@) == self.flavor_list(b),
            decreases it.progress(),
        {
            let ghost before = out@.map_values(|f: LcThreadFlavor| f@);
            let ghost rest = it.remaining(b);
            match it.next(reader) {
                Some(f) => {
                    out.push(f);
                    assert(out@.map_values(|f: LcThreadFlavor| f@) =~= before.push(rest[0]));
                    assert(before.push(rest[0]) + rest.drop_first() =~= before + rest);
                },
                None => {
                    assert(before + rest =~= before);
                    break;
                },
            }
        }
        out
    }
}

/// Offset, from the start of a flavor list, of record `k` when the records before it have
/// the counts `counts`.
pub open spec fn record_offset(counts: Seq<nat>, k: int) -> int
    decreases k,
{
    if k <= 0 {
        0
    } else {
        record_offset(counts, k - 1) + 8 + 4 * counts[k - 1]
    }
}

/// The bytes `b` hold, from `base`, records with the given flavors and counts, each decodable
/// and none the end-of-list record, then an end-of-list record, all starting within `cmdsize`
/// bytes.
pub open spec fn well_formed_list(
    b: Seq<u8>,
    base: int,
    cmdsize: int,
    e: Endian,
    cpu: u32,
    flavors: Seq<nat>,
    counts: Seq<nat>,
) -> bool {
    let n = flavors.len() as int;
    let end = base + record_offset(counts, n);
    &&& 0 <= base
    &&& counts.len() == n
    &&& forall|k: int|
        0 <= k < n ==> {
            let off = base + #[trigger] record_offset(counts, k);
            &&& record_offset(counts, k) < cmdsize
            &&& off + 8 + state_size(cpu, flavors[k]) <= b.len()
            &&& uint_at(b, off, 4, e) == flavors[k]
            &&& uint_at(b, off + 4, 4, e) == counts[k]
            &&& !(flavors[k] == 0 && counts[k] == 0)
        }
    &&& record_offset(counts, n) < cmdsize
    &&& end + 8 <= b.len()
    &&& uint_at(b, end, 4, e) == 0
    &&& uint_at(b, end + 4, 4, e) == 0
}

proof fn lemma_record_offset_grows(counts: Seq<nat>, k: int)
    ensures
        0 <= record_offset(counts, k),
    decreases k,
{
    if k > 0 {
        lemma_record_offset_grows(counts, k - 1);
    }
}

proof fn lemma_list_suffix(
    b: Seq<u8>,
    base: int,
    cmdsize: int,
    e: Endian,
    cpu: u32,
    flavors: Seq<nat>,
    counts: Seq<nat>,
    k: int,
)
    requires
        well_formed_list(b, base, cmdsize, e, cpu, flavors, counts),
        0 <= k <= flavors.len(),
    ensures
        flavors_from(b, base, cmdsize, e, cpu, record_offset(counts, k)) =~= Seq::new(
            (flavors.len() - k) as nat,
            |i: int|
                (
                    flavors[k + i],
                    counts[k + i],
                    state_values(b, base + record_offset(counts, k + i) + 8, cpu, flavors[k + i], e),
                ),
        ),
    decreases flavors.len() - k,
{
    lemma_record_offset_grows(counts, k);
    if k < flavors.len() {
        lemma_list_suffix(b, base, cmdsize, e, cpu, flavors, counts, k + 1);
        assert(record_offset(counts, k + 1) == record_offset(counts, k) + 8 + 4 * counts[k]);
    }
}

/// A flavor list of well-formed records followed by an end-of-list record, all within
/// `cmdsize`, yields exactly those records, in order, and then stops.
pub proof fn lemma_well_formed_list(
    b: Seq<u8>,
    base: int,
    cmdsize: int,
    e: Endian,
    cpu: u32,
    flavors: Seq<nat>,
    counts: Seq<nat>,
)
    requires
        well_formed_list(b, base, cmdsize, e, cpu, flavors, counts),
    ensures
        flavors_from(b, base, cmdsize, e, cpu, 0).len() == flavors.len(),
        forall|k: int|
            0 <= k < flavors.len() ==> #[trigger] flavors_from(b, base, cmdsize, e, cpu, 0)[k] == (
                flavors[k],
                counts[k],
                state_values(b, base + record_offset(counts, k) + 8, cpu, flavors[k], e),
            ),
{
    lemma_list_suffix(b, base, cmdsize, e, cpu, flavors, counts, 0);
}

/// Two walks over one thread command and the same bytes yield the same records, element for
/// element.
pub proof fn lemma_restartable(t: &LcThread, first: &FlavorIterator, second: &FlavorIterator, b: Seq<u8>)
    requires
        forall|c: Seq<u8>| #[trigger] first.remaining(c) == t.flavor_list(c),
        forall|c: Seq<u8>| #[trigger] second.remaining(c) == t.flavor_list(c),
    ensures
        first.remaining(b).len() == second.remaining(b).len(),
        forall|k: int|
            0 <= k < first.remaining(b).len() ==> #[trigger] first.remaining(b)[k]
                == second.remaining(b)[k],
{
    assert(first.remaining(b) == t.flavor_list(b));
    assert(second.remaining(b) == t.flavor_list(b));
}

/// On 64-bit ARM, the thread state (flavor 6) has 35 named registers: 29 general registers,
/// frame pointer, link register, stack pointer, program counter and two status words. The
/// exception state (flavor 7) has 3.
pub proof fn lemma_arm64_register_counts(s: FlavorState, b: Seq<u8>, p: int, e: Endian)
    ensures
        state_kind_matches(s, CPU_TYPE_ARM64, ARM_THREAD_STATE64 as nat) ==> s.values().len() == 35
            && s.field_names().len() == 35,
        state_kind_matches(s, CPU_TYPE_ARM64, ARM_EXCEPTION_STATE64 as nat) ==> s.values().len() == 3
            && s.field_names().len() == 3,
        state_values(b, p, CPU_TYPE_ARM64, ARM_THREAD_STATE64 as nat, e).len() == 35,
        state_values(b, p, CPU_TYPE_ARM64, ARM_EXCEPTION_STATE64 as nat, e).len() == 3,
{
}

} // verus!
