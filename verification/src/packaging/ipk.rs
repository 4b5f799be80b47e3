//! The outer IPK container: a BSD `ar` archive holding, in order, the
//! version marker, the control member and the data member, plus the
//! package's file name and the architecture resolution.

use vstd::prelude::*;
use vstd::string::StringExecFns;

use crate::packaging::archive::{ar_append, ar_bytes_of, ar_finish, ar_new, ArMemberV};
use crate::packaging::validation::{PackageArch, PackageError, same_variant};
use crate::text::str_eq;

verus! {

/// The bytes of the `debian-binary` member: the package format version.
pub open spec fn debian_binary_bytes() -> Seq<u8> {
    seq![0x32u8, 0x2eu8, 0x30u8, 0x0au8]
}

/// The three members of an IPK, in order: `debian-binary` holding exactly
/// `2.0` and a newline, then the control member, then the data member, all
/// with mode `0100644` and the build mtime.
pub open spec fn ipk_members(control: Seq<u8>, data: Seq<u8>, mtime: u64) -> Seq<ArMemberV> {
    seq![
        ArMemberV { name: "debian-binary"@, mtime, mode: 0o100644u32, data: debian_binary_bytes() },
        ArMemberV { name: "control.tar.gz"@, mtime, mode: 0o100644u32, data: control },
        ArMemberV { name: "data.tar.gz"@, mtime, mode: 0o100644u32, data },
    ]
}

/// Assembles the IPK container from the two compressed members: exactly
/// `debian-binary`, `control.tar.gz` and `data.tar.gz`, in that order.
pub fn ipk_bytes(control_tar_gz: &Vec<u8>, data_tar_gz: &Vec<u8>, mtime: u64) -> (r: Vec<u8>)
    ensures
        r@ == ar_bytes_of(ipk_members(control_tar_gz@, data_tar_gz@, mtime)),
{
    let mut deb: Vec<u8> = Vec::new();
    deb.push(0x32);
    deb.push(0x2e);
    deb.push(0x30);
    deb.push(0x0a);
    let mut a = ar_new();
    ar_append(&mut a, "debian-binary", mtime, 0o100644, &deb);
    ar_append(&mut a, "control.tar.gz", mtime, 0o100644, control_tar_gz);
    ar_append(&mut a, "data.tar.gz", mtime, 0o100644, data_tar_gz);
    proof {
        assert(deb@ =~= debian_binary_bytes());
        assert(crate::packaging::archive::ar_contents(a) =~= ipk_members(
            control_tar_gz@,
            data_tar_gz@,
            mtime,
        ));
    }
    ar_finish(a)
}

/// The output file name: id, version and architecture label joined by
/// underscores, with the package suffix.
pub fn ipk_file_name(id: &str, version: &str, arch_label: &str) -> (r: String)
    ensures
        r@ == id@ + "_"@ + version@ + "_"@ + arch_label@ + ".ipk"@,
{
    let mut s = id.to_owned();
    s.append("_");
    s.append(version);
    s.append("_");
    s.append(arch_label);
    s.append(".ipk");
    s
}

/// Resolves the architecture the package declares: a forced architecture
/// wins but must agree with the inferred one by variant; with nothing
/// forced the inferred one is used; with nothing inferred either — every
/// component non-native — the package is for every architecture.
pub fn resolve_arch(forced: Option<PackageArch>, inferred: Option<PackageArch>) -> (r: Result<
    PackageArch,
    PackageError,
>)
    ensures
        match (forced, inferred) {
            (None, None) => r matches Ok(a) && a is ALL,
            (None, Some(i)) => r == Ok::<PackageArch, PackageError>(i),
            (Some(f), None) => r == Ok::<PackageArch, PackageError>(f),
            (Some(f), Some(i)) => if (f is ARM && i is ARM) || (f is ALL && i is ALL) || (f is X86
                && i is X86) {
                r == Ok::<PackageArch, PackageError>(f)
            } else {
                r matches Err(e) && e is InvalidData
            },
        },
{
    match (forced, inferred) {
        (None, None) => Ok(PackageArch::ALL),
        (None, Some(i)) => Ok(i),
        (Some(f), None) => Ok(f),
        (Some(f), Some(i)) => {
            if same_variant(&f, &i) {
                Ok(f)
            } else {
                Err(PackageError::InvalidData(String::from_str("Incompatible architecture")))
            }
        },
    }
}

} // verus!
