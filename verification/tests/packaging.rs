use std::io::Read;

use ares_core::packaging::archive::{tar_gz_bytes, TarKind};
use ares_core::packaging::control::ControlInfo;
use ares_core::packaging::data::{
    build_data_entries, compile_excludes, is_excluded, DataInfo, ComponentInfo, FsEntry,
};
use ares_core::packaging::ipk::{ipk_bytes, ipk_file_name, resolve_arch};
use ares_core::packaging::manifest::{AppInfo, PackageInfo, ServiceInfo};
use ares_core::packaging::validation::{infer_arch, PackageArch, PackageError};

/// A minimal 32-bit little-endian ELF header, padded to 128 bytes.
fn tiny_elf(machine: u16) -> Vec<u8> {
    let mut b = vec![0u8; 128];
    b[0] = 0x7f;
    b[1] = b'E';
    b[2] = b'L';
    b[3] = b'F';
    b[4] = 1; // 32-bit
    b[5] = 1; // little-endian
    b[6] = 1; // ident version
    b[16] = 2; // e_type: executable
    b[18] = (machine & 0xff) as u8;
    b[19] = (machine >> 8) as u8;
    b[20] = 1; // e_version
    b[40] = 52; // e_ehsize
    b
}

fn file_entry(rel: &str, mode: u32, mtime: u64, content: Vec<u8>) -> FsEntry {
    FsEntry {
        rel_path: rel.to_string(),
        kind: TarKind::File,
        mode,
        mtime,
        content,
        link: String::new(),
    }
}

fn dir_entry(rel: &str) -> FsEntry {
    FsEntry {
        rel_path: rel.to_string(),
        kind: TarKind::Directory,
        mode: 0o755,
        mtime: 0,
        content: Vec::new(),
        link: String::new(),
    }
}

fn arm_app_info() -> AppInfo {
    AppInfo {
        id: "com.example.foo".to_string(),
        version: "1.0".to_string(),
        app_type: "native".to_string(),
        main: "foo".to_string(),
        title: "Foo".to_string(),
        vendor: None,
    }
}

#[test]
fn infer_arch_from_elf() {
    match infer_arch(&tiny_elf(40)) {
        Ok(PackageArch::ARM) => {}
        other => panic!("expected ARM, got {:?}", other),
    }
    match infer_arch(&tiny_elf(3)) {
        Ok(PackageArch::X86(v)) => assert_eq!(v, "x86"),
        other => panic!("expected x86, got {:?}", other),
    }
    match infer_arch(&tiny_elf(62)) {
        Err(PackageError::InvalidData(_)) => {}
        other => panic!("expected invalid data, got {:?}", other),
    }
    match infer_arch(&vec![1, 2, 3]) {
        Err(PackageError::InvalidData(_)) => {}
        other => panic!("expected invalid data, got {:?}", other),
    }
}

#[test]
fn arch_labels_and_parse() {
    assert_eq!(PackageArch::ARM.label(), "arm");
    assert_eq!(PackageArch::ALL.label(), "all");
    assert_eq!(PackageArch::X86("i686".to_string()).label(), "i686");
    assert!(matches!(PackageArch::parse("arm"), Ok(PackageArch::ARM)));
    assert!(matches!(PackageArch::parse("all"), Ok(PackageArch::ALL)));
    assert!(matches!(PackageArch::parse("i386"), Ok(PackageArch::X86(_))));
    assert!(PackageArch::parse("mips").is_err());
}

#[test]
fn exclude_compilation_and_matching() {
    let patterns = vec!["*.log".to_string()];
    let re = compile_excludes(&patterns).expect("pattern should compile");
    assert!(is_excluded(&re, "b.log"));
    assert!(is_excluded(&re, "sub/c.log"));
    assert!(is_excluded(&re, "B.LOG"));
    assert!(!is_excluded(&re, "a.txt"));

    let patterns = vec![".git".to_string()];
    let re = compile_excludes(&patterns).expect("pattern should compile");
    assert!(is_excluded(&re, ".git"));
    assert!(is_excluded(&re, ".git/config"));
    assert!(!is_excluded(&re, "agit"));

    assert!(compile_excludes(&Vec::new()).is_none());
}

#[test]
fn package_info_rendering() {
    let app = arm_app_info();
    let pkg = PackageInfo::from_input(&app, &Vec::new());
    assert_eq!(
        String::from_utf8(pkg.render_json_bytes()).unwrap(),
        "{\"id\":\"com.example.foo\",\"version\":\"1.0\",\"app\":\"com.example.foo\"}\n"
    );
    let services = vec![
        ServiceInfo {
            id: "com.example.foo.svc".to_string(),
            description: None,
            engine: None,
            executable: None,
        },
    ];
    let pkg = PackageInfo::from_input(&app, &services);
    assert_eq!(
        String::from_utf8(pkg.render_json_bytes()).unwrap(),
        "{\"id\":\"com.example.foo\",\"version\":\"1.0\",\"app\":\"com.example.foo\",\"services\":[\"com.example.foo.svc\"]}\n"
    );
}

#[test]
fn control_paragraph() {
    let c = ControlInfo {
        package: "com.example.foo".to_string(),
        version: "1.0".to_string(),
        installed_size: 196,
        architecture: "arm".to_string(),
        packager_version: "0.1.0".to_string(),
    };
    assert_eq!(
        c.render(),
        "Package: com.example.foo\nVersion: 1.0\nSection: misc\nPriority: optional\nArchitecture: arm\nInstalled-Size: 196\nMaintainer: N/A <nobody@example.com>\nDescription: This is a webOS application.\nwebOS-Package-Format-Version: 2\nwebOS-Packager-Version: 0.1.0\n"
    );
}

#[test]
fn resolve_arch_rules() {
    assert!(matches!(resolve_arch(None, None), Ok(PackageArch::ALL)));
    assert!(matches!(resolve_arch(None, Some(PackageArch::ARM)), Ok(PackageArch::ARM)));
    assert!(matches!(
        resolve_arch(Some(PackageArch::X86("i686".to_string())), Some(PackageArch::X86("x86".to_string()))),
        Ok(PackageArch::X86(_))
    ));
    assert!(resolve_arch(Some(PackageArch::ARM), Some(PackageArch::X86("x86".to_string()))).is_err());
}

fn gunzip(data: &[u8]) -> Vec<u8> {
    let mut out = Vec::new();
    flate2::read::GzDecoder::new(data).read_to_end(&mut out).unwrap();
    out
}

#[test]
fn package_arm_native_app() {
    let elf = tiny_elf(40);
    let app = ComponentInfo {
        path: "./app".to_string(),
        info: arm_app_info(),
        entries: vec![dir_entry(""), file_entry("foo", 0o100755, 1234, elf)],
    };
    let data = DataInfo::from_input(app, Vec::new(), &Vec::new());
    let validation = data.validate().unwrap();
    let expected_info =
        "{\"id\":\"com.example.foo\",\"version\":\"1.0\",\"app\":\"com.example.foo\"}\n";
    assert_eq!(validation.size, 128 + expected_info.len() as u64);
    let arch = resolve_arch(None, validation.arch).unwrap();
    assert!(matches!(arch, PackageArch::ARM));
    assert_eq!(
        ipk_file_name(&data.package.id, &data.package.version, &arch.label()),
        "com.example.foo_1.0_arm.ipk"
    );

    let mtime = 1700000000u64;
    let entries = build_data_entries(&data, mtime);
    let data_tgz = tar_gz_bytes(&entries).unwrap();
    let control = ControlInfo {
        package: data.package.id.clone(),
        version: data.package.version.clone(),
        installed_size: validation.size,
        architecture: arch.label(),
        packager_version: "0.1.0".to_string(),
    };
    let control_tgz = ares_core::packaging::control::control_member_bytes(&control);
    let ipk = ipk_bytes(&control_tgz, &data_tgz, mtime);

    // the outer container holds exactly the three members, in order
    let mut archive = ar::Archive::new(std::io::Cursor::new(ipk));
    let mut names = Vec::new();
    let mut first_content = Vec::new();
    let mut members = Vec::new();
    while let Some(entry) = archive.next_entry() {
        let mut entry = entry.unwrap();
        names.push(String::from_utf8(entry.header().identifier().to_vec()).unwrap());
        assert_eq!(entry.header().mtime(), mtime);
        assert_eq!(entry.header().mode(), 0o100644);
        let mut content = Vec::new();
        entry.read_to_end(&mut content).unwrap();
        if names.len() == 1 {
            first_content = content.clone();
        }
        members.push(content);
    }
    assert_eq!(names, vec!["debian-binary", "control.tar.gz", "data.tar.gz"]);
    assert_eq!(first_content, b"2.0\n");

    // the control paragraph inside the control member
    let control_tar = gunzip(&members[1]);
    let mut control_archive = tar::Archive::new(std::io::Cursor::new(control_tar));
    let mut found_control = false;
    for entry in control_archive.entries().unwrap() {
        let mut entry = entry.unwrap();
        let path = entry.path().unwrap().to_string_lossy().to_string();
        if path == "./control" || path == "control" {
            found_control = true;
            let mut text = String::new();
            entry.read_to_string(&mut text).unwrap();
            assert!(text.contains("Architecture: arm\n"));
            assert!(text.contains(&format!(
                "Installed-Size: {}\n",
                128 + expected_info.len()
            )));
        }
    }
    assert!(found_control);

    // the data member holds the tree, the synthesized directories, and the
    // package record
    let data_tar = gunzip(&members[2]);
    let mut data_archive = tar::Archive::new(std::io::Cursor::new(data_tar));
    let mut paths = Vec::new();
    let mut package_info = String::new();
    for entry in data_archive.entries().unwrap() {
        let mut entry = entry.unwrap();
        let path = entry.path().unwrap().to_string_lossy().to_string();
        if path == "usr/palm/packages/com.example.foo/packageinfo.json" {
            entry.read_to_string(&mut package_info).unwrap();
        }
        paths.push(path);
    }
    assert_eq!(package_info, expected_info);
    assert!(paths.contains(&"usr/palm/applications/com.example.foo/foo".to_string()));
    assert!(paths.contains(&"usr/".to_string()));
    assert!(paths.contains(&"usr/palm/".to_string()));
    assert!(paths.contains(&"usr/palm/applications/".to_string()));
    assert!(paths.contains(&"usr/palm/applications/com.example.foo/".to_string()));
    assert!(paths.contains(&"usr/palm/packages/".to_string()));
    assert!(paths.contains(&"usr/palm/packages/com.example.foo/".to_string()));
    // no directory entry appears twice
    let mut dirs: Vec<&String> = paths.iter().filter(|p| p.ends_with('/')).collect();
    let before = dirs.len();
    dirs.sort();
    dirs.dedup();
    assert_eq!(dirs.len(), before);
}

#[test]
fn exclude_filter_drops_matches() {
    let app = ComponentInfo {
        path: "./app".to_string(),
        info: AppInfo {
            id: "com.example.app".to_string(),
            version: "0.1".to_string(),
            app_type: "web".to_string(),
            main: "index.html".to_string(),
            title: "App".to_string(),
            vendor: None,
        },
        entries: vec![
            dir_entry(""),
            file_entry("a.txt", 0o100644, 0, b"aaa".to_vec()),
            file_entry("b.log", 0o100644, 0, b"bbb".to_vec()),
            dir_entry("sub"),
            file_entry("sub/c.log", 0o100644, 0, b"ccc".to_vec()),
        ],
    };
    let excludes = vec!["*.log".to_string()];
    let data = DataInfo::from_input(app, Vec::new(), &excludes);
    let entries = build_data_entries(&data, 7);
    let paths: Vec<String> = entries.iter().map(|e| e.path.clone()).collect();
    assert!(paths.contains(&"usr/palm/applications/com.example.app/a.txt".to_string()));
    assert!(!paths.iter().any(|p| p.ends_with("b.log")));
    assert!(!paths.iter().any(|p| p.ends_with("c.log")));
}

#[test]
fn mixed_architecture_is_rejected() {
    let app = ComponentInfo {
        path: "./app".to_string(),
        info: arm_app_info(),
        entries: vec![dir_entry(""), file_entry("foo", 0o100755, 0, tiny_elf(40))],
    };
    let svc = ComponentInfo {
        path: "./svc".to_string(),
        info: ServiceInfo {
            id: "com.example.foo.svc".to_string(),
            description: None,
            engine: Some("native".to_string()),
            executable: Some("svc".to_string()),
        },
        entries: vec![dir_entry(""), file_entry("svc", 0o100755, 0, tiny_elf(3))],
    };
    let data = DataInfo::from_input(app, vec![svc], &Vec::new());
    match data.validate() {
        Err(PackageError::InvalidData(msg)) => {
            assert_eq!(msg, "Mixed architecture is not allowed");
        }
        other => panic!("expected mixed-architecture error, got {:?}", other),
    }
}

#[test]
fn all_web_components_infer_no_arch() {
    let app = ComponentInfo {
        path: "./app".to_string(),
        info: AppInfo {
            id: "com.example.web".to_string(),
            version: "1.0".to_string(),
            app_type: "web".to_string(),
            main: "index.html".to_string(),
            title: "Web".to_string(),
            vendor: None,
        },
        entries: vec![dir_entry(""), file_entry("index.html", 0o100644, 0, b"<html>".to_vec())],
    };
    let data = DataInfo::from_input(app, Vec::new(), &Vec::new());
    let v = data.validate().unwrap();
    assert!(v.arch.is_none());
    assert!(matches!(resolve_arch(None, v.arch), Ok(PackageArch::ALL)));
}

#[test]
fn symlinks_are_kept_not_followed() {
    let app = ComponentInfo {
        path: "./app".to_string(),
        info: AppInfo {
            id: "com.example.ln".to_string(),
            version: "1.0".to_string(),
            app_type: "web".to_string(),
            main: "index.html".to_string(),
            title: "Ln".to_string(),
            vendor: None,
        },
        entries: vec![
            dir_entry(""),
            file_entry("real.txt", 0o100644, 0, b"data".to_vec()),
            FsEntry {
                rel_path: "link.txt".to_string(),
                kind: TarKind::Symlink,
                mode: 0o120777,
                mtime: 0,
                content: Vec::new(),
                link: "real.txt".to_string(),
            },
        ],
    };
    let data = DataInfo::from_input(app, Vec::new(), &Vec::new());
    let entries = build_data_entries(&data, 7);
    let tgz = tar_gz_bytes(&entries).unwrap();
    let tar_bytes = gunzip(&tgz);
    let mut archive = tar::Archive::new(std::io::Cursor::new(tar_bytes));
    let mut found_link = false;
    for entry in archive.entries().unwrap() {
        let entry = entry.unwrap();
        let path = entry.path().unwrap().to_string_lossy().to_string();
        if path == "usr/palm/applications/com.example.ln/link.txt" {
            found_link = true;
            assert_eq!(entry.header().entry_type(), tar::EntryType::Symlink);
            assert_eq!(
                entry.link_name().unwrap().unwrap().to_string_lossy(),
                "real.txt"
            );
        }
    }
    assert!(found_link);
}
