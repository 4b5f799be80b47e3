//! Input validation: the package architectures, what an ELF executable's
//! machine field maps to, and the record a validated input yields.

use vstd::prelude::*;
use vstd::string::StringExecFns;

use crate::text::{append_dec, dec_chars, str_eq};

verus! {

/// Why packaging input was rejected.
#[derive(Debug)]
pub enum PackageError {
    InvalidData(String),
    Io(String),
}

/// The architectures a package can declare.
#[derive(Debug)]
pub enum PackageArch {
    ARM,
    X86(String),
    ALL,
}

impl PackageArch {
    /// The label written into file names and the control paragraph.
    pub fn label(&self) -> (r: String)
        ensures
            r@ == (match self {
                PackageArch::ARM => "arm"@,
                PackageArch::ALL => "all"@,
                PackageArch::X86(s) => s@,
            }),
    {
        match self {
            PackageArch::ARM => String::from_str("arm"),
            PackageArch::ALL => String::from_str("all"),
            PackageArch::X86(s) => s.clone(),
        }
    }

    /// An exact copy, at the level the contracts speak of.
    pub fn duplicate(&self) -> (r: PackageArch)
        ensures
            arch_view(r) == arch_view(*self),
    {
        match self {
            PackageArch::ARM => PackageArch::ARM,
            PackageArch::ALL => PackageArch::ALL,
            PackageArch::X86(s) => PackageArch::X86(s.clone()),
        }
    }

    /// Parses an architecture label: `arm`, `all`, or one of the x86
    /// variant names.
    pub fn parse(s: &str) -> (r: Result<PackageArch, PackageError>)
        ensures
            r matches Ok(a) ==> (match a {
                PackageArch::ARM => s@ == "arm"@,
                PackageArch::ALL => s@ == "all"@,
                PackageArch::X86(v) => v@ == s@ && (s@ == "i386"@ || s@ == "i486"@ || s@
                    == "i586"@ || s@ == "i686"@ || s@ == "x86"@),
            }),
            r is Err <==> !(s@ == "arm"@ || s@ == "all"@ || s@ == "i386"@ || s@ == "i486"@ || s@
                == "i586"@ || s@ == "i686"@ || s@ == "x86"@),
    {
        if str_eq(s, "arm") {
            Ok(PackageArch::ARM)
        } else if str_eq(s, "all") {
            Ok(PackageArch::ALL)
        } else if str_eq(s, "i386") || str_eq(s, "i486") || str_eq(s, "i586") || str_eq(s, "i686")
            || str_eq(s, "x86") {
            Ok(PackageArch::X86(s.to_owned()))
        } else {
            let mut m = String::from_str("Invalid architecture ");
            m.append(s);
            Err(PackageError::InvalidData(m))
        }
    }
}

/// The view of an architecture: the variant with its label.
pub enum PackageArchV {
    ARM,
    X86(Seq<char>),
    ALL,
}

/// The view of an architecture value.
pub open spec fn arch_view(a: PackageArch) -> PackageArchV {
    match a {
        PackageArch::ARM => PackageArchV::ARM,
        PackageArch::ALL => PackageArchV::ALL,
        PackageArch::X86(s) => PackageArchV::X86(s@),
    }
}

/// Whether two architectures are the same variant; the x86 variant names
/// are not compared.
pub fn same_variant(a: &PackageArch, b: &PackageArch) -> (r: bool)
    ensures
        r == (match (a, b) {
            (PackageArch::ARM, PackageArch::ARM) => true,
            (PackageArch::ALL, PackageArch::ALL) => true,
            (PackageArch::X86(_), PackageArch::X86(_)) => true,
            _ => false,
        }),
{
    match (a, b) {
        (PackageArch::ARM, PackageArch::ARM) => true,
        (PackageArch::ALL, PackageArch::ALL) => true,
        (PackageArch::X86(_), PackageArch::X86(_)) => true,
        _ => false,
    }
}

/// Whether two architectures are equal, variant names included.
pub fn arch_eq(a: &PackageArch, b: &PackageArch) -> (r: bool)
    ensures
        r == (arch_view(*a) == arch_view(*b)),
{
    match (a, b) {
        (PackageArch::ARM, PackageArch::ARM) => true,
        (PackageArch::ALL, PackageArch::ALL) => true,
        (PackageArch::X86(x), PackageArch::X86(y)) => str_eq(x.as_str(), y.as_str()),
        _ => false,
    }
}

/// What the ELF parser reports for a byte buffer: the header's machine
/// field, or nothing for a buffer that is not a well-formed ELF. The result
/// depends on the bytes alone.
pub uninterp spec fn elf_machine_of(data: Seq<u8>) -> Option<u16>;

/// Relies on elf::ElfBytes::minimal_parse: the `e_machine` field of the ELF
/// header, for exactly the buffers the crate parses.
#[verifier::external_body]
fn parse_elf_machine(data: &Vec<u8>) -> (r: Option<u16>)
    ensures
        r == elf_machine_of(data@),
{
    match elf::ElfBytes::<elf::endian::AnyEndian>::minimal_parse(data.as_slice()) {
        Ok(f) => Some(f.ehdr.e_machine),
        Err(_) => None,
    }
}

/// The machine value of an ARM ELF header.
pub const EM_ARM: u16 = 40;

/// The machine value of a 32-bit x86 ELF header.
pub const EM_386: u16 = 3;

/// Infers the architecture of a native executable from its ELF header: ARM
/// and 32-bit x86 are supported, a buffer that does not parse or any other
/// machine is invalid data.
pub fn infer_arch(executable: &Vec<u8>) -> (r: Result<PackageArch, PackageError>)
    ensures
        match elf_machine_of(executable@) {
            Some(m) => if m == 40 {
                r matches Ok(a) && a is ARM
            } else if m == 3 {
                r matches Ok(a) && (a matches PackageArch::X86(v) && v@ == "x86"@)
            } else {
                r matches Err(e) && e is InvalidData
            },
            None => (r matches Err(e) && e is InvalidData),
        },
{
    match parse_elf_machine(executable) {
        Some(m) => {
            if m == EM_ARM {
                Ok(PackageArch::ARM)
            } else if m == EM_386 {
                Ok(PackageArch::X86(String::from_str("x86")))
            } else {
                let mut msg = String::from_str("Unsupported binary machine type ");
                append_dec(&mut msg, m as u64);
                Err(PackageError::InvalidData(msg))
            }
        },
        None => Err(PackageError::InvalidData(String::from_str("Bad binary"))),
    }
}

/// What validating an input yields: the inferred architecture, if any
/// component is native, and the installed size.
#[derive(Debug)]
pub struct ValidationInfo {
    pub arch: Option<PackageArch>,
    pub size: u64,
}

/// Things that can be validated into a `ValidationInfo`.
pub trait Validation {
    /// Validates, yielding the architecture and size.
    fn validate(&self) -> (r: Result<ValidationInfo, PackageError>);
}

} // verus!
