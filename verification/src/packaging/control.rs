//! The control member of an IPK: the Debian-style control paragraph and
//! its gzip-compressed tar holding the single `./control` file.

use vstd::prelude::*;
use vstd::string::StringExecFns;
use vstd::utf8::encode_utf8;

use crate::packaging::archive::{
    dotdot_component, plain_tar_path, tar_gz_bytes, tar_gz_of, TarEntry, TarEntryV, TarKind,
};
use crate::text::{append_dec, dec_chars};

verus! {

/// What the control paragraph says about a package.
pub struct ControlInfo {
    pub package: String,
    pub version: String,
    pub installed_size: u64,
    pub architecture: String,
    pub packager_version: String,
}

/// The exact control paragraph.
pub open spec fn control_text(c: ControlInfo) -> Seq<char> {
    "Package: "@ + c.package@ + "\nVersion: "@ + c.version@
        + "\nSection: misc\nPriority: optional\nArchitecture: "@ + c.architecture@
        + "\nInstalled-Size: "@ + dec_chars(c.installed_size as nat)
        + "\nMaintainer: N/A <nobody@example.com>\nDescription: This is a webOS application.\nwebOS-Package-Format-Version: 2\nwebOS-Packager-Version: "@
        + c.packager_version@ + "\n"@
}

impl ControlInfo {
    /// Renders the control paragraph exactly.
    pub fn render(&self) -> (r: String)
        ensures
            r@ == control_text(*self),
    {
        let mut s = String::from_str("Package: ");
        s.append(self.package.as_str());
        s.append("\nVersion: ");
        s.append(self.version.as_str());
        s.append("\nSection: misc\nPriority: optional\nArchitecture: ");
        s.append(self.architecture.as_str());
        s.append("\nInstalled-Size: ");
        append_dec(&mut s, self.installed_size);
        s.append(
            "\nMaintainer: N/A <nobody@example.com>\nDescription: This is a webOS application.\nwebOS-Package-Format-Version: 2\nwebOS-Packager-Version: ",
        );
        s.append(self.packager_version.as_str());
        s.append("\n");
        s
    }
}

/// The single entry of the control member's tar: `./control`, a regular
/// file of mode `0644`, owner `0:0`, epoch mtime, holding the paragraph.
pub open spec fn control_entry(c: ControlInfo) -> TarEntryV {
    TarEntryV {
        path: "./control"@,
        kind: TarKind::File,
        mode: 0o644u32,
        uid: 0,
        gid: 0,
        mtime: 0,
        content: encode_utf8(control_text(c)),
        link: Seq::<char>::empty(),
    }
}

/// The control member: a gzip-compressed tar holding the control paragraph
/// as its one entry. The entry's path is fixed and plainly acceptable, so
/// building the member cannot fail.
pub fn control_member_bytes(c: &ControlInfo) -> (r: Vec<u8>)
    ensures
        r@ == tar_gz_of(seq![control_entry(*c)]),
{
    let text = c.render();
    let content = text.as_str().as_bytes_vec();
    let entry = TarEntry {
        path: String::from_str("./control"),
        kind: TarKind::File,
        mode: 0o644,
        uid: 0,
        gid: 0,
        mtime: 0,
        content,
        link: String::new(),
    };
    let mut entries: Vec<TarEntry> = Vec::new();
    entries.push(entry);
    proof {
        reveal_strlit("./control");
        assert(entries@.map_values(|e: TarEntry| e@) =~= seq![control_entry(*c)]);
        assert(plain_tar_path("./control"@)) by {
            assert(!dotdot_component("./control"@)) by {
                assert(forall|i: int|
                    0 <= i < "./control"@.len() && #[trigger] "./control"@[i] == '.' ==> i == 0);
                assert("./control"@[1] == '/');
            }
        }
    }
    match tar_gz_bytes(&entries) {
        Ok(b) => b,
        Err(_) => {
            proof {
                assert(false);
            }
            Vec::new()
        },
    }
}

} // verus!
