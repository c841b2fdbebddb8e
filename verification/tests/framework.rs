use vibe_extract::framework_detect::{
    classify_bundle, classify_dylibs, classify_macho_bytes, classify_object, classify_pe, detect,
    find_subslice, parse_object, AppProbe, BundleListing, Framework, ObjectFile,
};
use vibe_extract::framework_detect::object::{
    drop_entry, has_entry_address, tls_data_address, tls_data_fits, TlsSpan,
};

fn listing(frameworks: &[&str], resources: &[&str]) -> BundleListing {
    BundleListing {
        electron_framework: false,
        cef_framework: false,
        frameworks: strings(frameworks),
        app_asar: false,
        resources: strings(resources),
    }
}

fn strings(names: &[&str]) -> Vec<String> {
    names.iter().map(|n| n.to_string()).collect()
}

/// A Mach-O file for one architecture that links the given libraries.
fn macho(libs: &[&str]) -> Vec<u8> {
    let mut commands: Vec<u8> = Vec::new();
    for lib in libs {
        let mut name = lib.as_bytes().to_vec();
        name.push(0);
        while (24 + name.len()) % 8 != 0 {
            name.push(0);
        }
        for word in [0xcu32, 24 + name.len() as u32, 24, 0, 0, 0] {
            commands.extend(word.to_le_bytes());
        }
        commands.extend(name);
    }
    let mut out: Vec<u8> = Vec::new();
    for word in [0xfeedfacfu32, 0x01000007, 3, 2, libs.len() as u32, commands.len() as u32, 0, 0] {
        out.extend(word.to_le_bytes());
    }
    out.extend(commands);
    out
}

fn mac(bundle: Option<BundleListing>, executable: Option<Vec<u8>>) -> Framework {
    detect(&AppProbe::MacOs { bundle, executable })
}

#[test]
fn the_bundle_tells_on_its_own() {
    let mut b = listing(&[], &[]);
    b.electron_framework = true;
    assert_eq!(mac(Some(b), None), Framework::Electron);
    let mut b = listing(&["QtCore.framework"], &[]);
    b.cef_framework = true;
    assert_eq!(mac(Some(b), None), Framework::Electron);
    assert_eq!(mac(Some(listing(&["My Electron Helper.app"], &[])), None), Framework::Electron);
    assert_eq!(mac(Some(listing(&["QtCore.framework"], &[])), None), Framework::Qt);
    assert_eq!(mac(Some(listing(&["qt6gui.dylib"], &[])), None), Framework::Qt);
    assert_eq!(mac(Some(listing(&["MyQtCore.framework"], &[])), None), Framework::Unknown);
    let mut b = listing(&["Sparkle.framework"], &[]);
    b.app_asar = true;
    assert_eq!(classify_bundle(&b), Some(Framework::Electron));
    // The first name that tells decides.
    assert_eq!(mac(Some(listing(&["Qt5.framework", "Electron.x"], &[])), None), Framework::Qt);
}

#[test]
fn the_executable_tells_where_the_bundle_does_not() {
    let bare = || Some(listing(&[], &[]));
    assert_eq!(
        mac(bare(), Some(macho(&["/System/Library/Frameworks/AppKit.framework/AppKit"]))),
        Framework::AppKitNative
    );
    assert_eq!(mac(bare(), Some(macho(&["/usr/lib/libz.dylib", "@rpath/QtCore"]))), Framework::Qt);
    assert_eq!(mac(bare(), Some(macho(&["/usr/lib/libz.dylib"]))), Framework::Unknown);
    assert_eq!(mac(bare(), Some(b"#!/bin/sh QtCore".to_vec())), Framework::Unknown);
    assert_eq!(mac(bare(), None), Framework::Unknown);
}

#[test]
fn linked_libraries_outrank_nibs() {
    let nibs = || Some(listing(&[], &["Main.nib", "x.png"]));
    assert_eq!(mac(nibs(), None), Framework::AppKitNative);
    assert_eq!(mac(nibs(), Some(macho(&["/x/QtCore"]))), Framework::Qt);
    assert_eq!(mac(nibs(), Some(macho(&["/x/libz"]))), Framework::AppKitNative);
    assert_eq!(mac(Some(listing(&[], &["Main.storyboardc"])), None), Framework::AppKitNative);
}

#[test]
fn chromium_outranks_qt_among_libraries() {
    assert_eq!(classify_dylibs(&strings(&["@rpath/QtCore", "libcef.dylib"])), Some(Framework::Electron));
    assert_eq!(
        classify_dylibs(&strings(&["QtCore", "Chromium Embedded Framework"])),
        Some(Framework::Electron)
    );
    assert_eq!(classify_dylibs(&strings(&["AppKit.framework", "Electron Framework"])), Some(Framework::Electron));
    assert_eq!(classify_dylibs(&strings(&["AppKit.framework", "QtCore"])), Some(Framework::Qt));
    assert_eq!(classify_dylibs(&strings(&["libz"])), None);
}

#[test]
fn raw_bytes_stand_in_for_several_architectures() {
    assert!(find_subslice(b"xxQtCorexx", b"QtCore"));
    assert!(!find_subslice(b"xxQtCor", b"QtCore"));
    assert!(!find_subslice(b"x", b""));
    assert_eq!(classify_macho_bytes(b"..QtCore..libcef.."), Some(Framework::Electron));
    assert_eq!(classify_macho_bytes(b"..AppKit.framework.."), Some(Framework::AppKitNative));
    assert_eq!(classify_macho_bytes(b"...."), None);
    assert_eq!(classify_object(&ObjectFile::MachFat, b"..QtCore.."), Some(Framework::Qt));
    assert_eq!(classify_object(&ObjectFile::MachBinary(vec![]), b"..QtCore.."), Some(Framework::Qt));
    assert_eq!(classify_object(&ObjectFile::MachBinary(strings(&["libz"])), b"..QtCore.."), None);
    assert_eq!(classify_object(&ObjectFile::Other, b"..QtCore.."), None);
}

#[test]
fn imports_tell_on_windows() {
    let pe = |names: &[&str]| classify_pe(&ObjectFile::Pe(strings(names)));
    assert_eq!(pe(&["KERNEL32.dll", "MSCOREE.dll"]), Framework::DotNet);
    assert_eq!(pe(&["hostfxr.dll", "Qt5Core.dll"]), Framework::DotNet);
    assert_eq!(pe(&["coreclr.dll"]), Framework::DotNet);
    assert_eq!(pe(&["Qt6Core.dll", "node.dll"]), Framework::Qt);
    assert_eq!(pe(&["chrome_elf.dll"]), Framework::Electron);
    assert_eq!(pe(&["libnode.dll"]), Framework::Electron);
    assert_eq!(pe(&["USER32.dll"]), Framework::Win32Native);
    assert_eq!(classify_pe(&ObjectFile::Other), Framework::Unknown);
    assert_eq!(detect(&AppProbe::Windows { app_asar: true, executable: None }), Framework::Electron);
    assert_eq!(detect(&AppProbe::Windows { app_asar: false, executable: None }), Framework::Unknown);
    assert_eq!(
        detect(&AppProbe::Windows { app_asar: false, executable: Some(b"MZ".to_vec()) }),
        Framework::Unknown
    );
}

#[test]
fn nothing_is_told_of_what_is_not_there() {
    assert_eq!(detect(&AppProbe::Missing), Framework::Unknown);
    assert_eq!(mac(None, Some(macho(&["QtCore"]))), Framework::Unknown);
    for (f, name) in [
        (Framework::Electron, "Electron"),
        (Framework::DotNet, "DotNet"),
        (Framework::Qt, "Qt"),
        (Framework::AppKitNative, "AppKitNative"),
        (Framework::Win32Native, "Win32Native"),
        (Framework::Unknown, "Unknown"),
    ] {
        assert_eq!(f.label(), name);
        assert_eq!(f.label(), format!("{f:?}"));
    }
}

fn put(out: &mut [u8], at: usize, bytes: &[u8]) {
    out[at..at + bytes.len()].copy_from_slice(bytes);
}

/// A PE file whose import table names the given libraries, with one import each.
fn pe(wide: bool, dlls: &[&str]) -> Vec<u8> {
    let mut out = vec![0u8; 0x800];
    put(&mut out, 0, b"MZ");
    put(&mut out, 0x3c, &0x80u32.to_le_bytes());
    put(&mut out, 0x80, b"PE\0\0");
    let (machine, room, magic, count, dirs): (u16, u16, u16, usize, usize) =
        if wide { (0x8664, 240, 0x20b, 108, 112) } else { (0x14c, 224, 0x10b, 92, 96) };
    put(&mut out, 0x84, &machine.to_le_bytes());
    put(&mut out, 0x86, &1u16.to_le_bytes());
    put(&mut out, 0x94, &room.to_le_bytes());
    let optional = 0x98;
    put(&mut out, optional, &magic.to_le_bytes());
    put(&mut out, optional + 36, &0x200u32.to_le_bytes());
    put(&mut out, optional + count, &16u32.to_le_bytes());
    put(&mut out, optional + dirs + 8, &0x1000u32.to_le_bytes());
    put(&mut out, optional + dirs + 12, &0x100u32.to_le_bytes());
    let section = optional + room as usize;
    put(&mut out, section, b".idata\0\0");
    for (i, word) in [0x400u32, 0x1000, 0x400, 0x400].iter().enumerate() {
        put(&mut out, section + 8 + 4 * i, &word.to_le_bytes());
    }
    for (i, dll) in dlls.iter().enumerate() {
        let lookup = 0x1200 + 0x20 * i as u32;
        let name = 0x1300 + 0x20 * i as u32;
        for (k, word) in [lookup, 0, 0, name, lookup].iter().enumerate() {
            put(&mut out, 0x400 + 20 * i + 4 * k, &word.to_le_bytes());
        }
        let entry: u64 = if wide { 0x8000_0000_0000_0007 } else { 0x8000_0007 };
        put(&mut out, lookup as usize - 0xc00, &entry.to_le_bytes());
        put(&mut out, name as usize - 0xc00, dll.as_bytes());
    }
    out
}

fn names(object: ObjectFile) -> Option<Vec<String>> {
    match object {
        ObjectFile::Pe(dlls) => Some(dlls),
        _ => None,
    }
}

#[test]
fn imports_are_read_from_both_widths() {
    for wide in [false, true] {
        let file = pe(wide, &["KERNEL32.dll", "mscoree.dll"]);
        assert_eq!(names(parse_object(&file)), Some(strings(&["KERNEL32.dll", "mscoree.dll"])));
        assert_eq!(
            detect(&AppProbe::Windows { app_asar: false, executable: Some(file) }),
            Framework::DotNet
        );
        let file = pe(wide, &["Qt6Core.dll"]);
        assert_eq!(
            detect(&AppProbe::Windows { app_asar: false, executable: Some(file) }),
            Framework::Qt
        );
    }
}

/// Announce a table of a 64-bit PE file.
fn announce(file: &mut [u8], index: usize, address: u32, size: u32) {
    put(file, 0x98 + 112 + 8 * index, &address.to_le_bytes());
    put(file, 0x98 + 112 + 8 * index + 4, &size.to_le_bytes());
}

fn windows(file: Vec<u8>) -> Framework {
    detect(&AppProbe::Windows { app_asar: false, executable: Some(file) })
}

#[test]
fn thread_local_data_lies_in_the_file() {
    let with_tls = |start: u64, end: u64| {
        let mut file = pe(true, &["node.dll"]);
        announce(&mut file, 9, 0x1380, 40);
        put(&mut file, 0x780, &start.to_le_bytes());
        put(&mut file, 0x788, &end.to_le_bytes());
        file
    };
    assert_eq!(windows(with_tls(0x1380, 0x1390)), Framework::Electron);
    assert_eq!(windows(with_tls(0x1380, 0x1400)), Framework::Electron);
    assert_eq!(windows(with_tls(0, 0)), Framework::Electron);
    assert_eq!(windows(with_tls(0x1380, 0x1401)), Framework::Unknown);
    assert_eq!(windows(with_tls(0x1380, 0xffff_ffff)), Framework::Unknown);
    assert_eq!(windows(with_tls(0x1380, u64::MAX)), Framework::Unknown);
    // The data ends before it starts, or stands nowhere in the file.
    assert_eq!(windows(with_tls(0x1390, 0x1380)), Framework::Unknown);
    assert_eq!(windows(with_tls(0x9000, 0x9010)), Framework::Unknown);
    let mut narrow = pe(false, &["node.dll"]);
    put(&mut narrow, 0x98 + 96 + 8 * 9, &0x1380u32.to_le_bytes());
    put(&mut narrow, 0x98 + 96 + 8 * 9 + 4, &24u32.to_le_bytes());
    put(&mut narrow, 0x780, &0x1380u32.to_le_bytes());
    put(&mut narrow, 0x784, &0x1400u32.to_le_bytes());
    assert_eq!(windows(narrow.clone()), Framework::Electron);
    put(&mut narrow, 0x784, &0x1401u32.to_le_bytes());
    assert_eq!(windows(narrow), Framework::Unknown);

    let span = TlsSpan { start: 10, end: 30 };
    assert_eq!(tls_data_address(span, 4), Some(6));
    assert_eq!(tls_data_address(span, 11), None);
    assert_eq!(tls_data_address(TlsSpan { start: 0, end: 30 }, 0), None);
    assert_eq!(tls_data_address(TlsSpan { start: 30, end: 10 }, 0), None);
    assert!(tls_data_fits(span, Some(80), 100) && !tls_data_fits(span, Some(81), 100));
    assert!(!tls_data_fits(span, Some(101), 100) && tls_data_fits(span, None, 0));
}

#[test]
fn a_pe_file_that_cannot_be_read_tells_nothing() {
    let mut file = pe(true, &["node.dll"]);
    put(&mut file, 0x80, b"XX");
    assert!(matches!(parse_object(&file), ObjectFile::Other));
    let mut file = pe(true, &["node.dll"]);
    announce(&mut file, 1, 0x9000, 0x100);
    assert!(matches!(parse_object(&file), ObjectFile::Other));
    let mut file = pe(true, &["node.dll"]);
    announce(&mut file, 1, 0, 0);
    assert_eq!(names(parse_object(&file)), Some(vec![]));
    // A table that no library is named in counts too: debug data, exceptions,
    // certificates.
    for (index, address, size) in [(6, 0x9000, 28), (3, 0x1380, 13), (4, 0x7f0, 0x100)] {
        let mut file = pe(true, &["node.dll"]);
        announce(&mut file, index, address, size);
        assert!(matches!(parse_object(&file), ObjectFile::Other), "{index}");
        assert_eq!(windows(file), Framework::Unknown);
    }
    // A section may reach past the addresses of 32 bits.
    let mut file = pe(true, &["node.dll"]);
    put(&mut file, 0x98 + 240 + 8, &0xffff_f001u32.to_le_bytes());
    assert_eq!(names(parse_object(&file)), Some(strings(&["node.dll"])));
}

/// A Mach-O file that links AppKit, with a text segment and an entry.
fn macho_with_entry(memory: u64, file_at: u64, entry: u64) -> Vec<u8> {
    let mut out = macho(&["/System/Library/Frameworks/AppKit.framework/AppKit"]);
    let start = out.len();
    for word in [0x19u32, 72] {
        out.extend(word.to_le_bytes());
    }
    out.extend(b"__TEXT\0\0\0\0\0\0\0\0\0\0");
    for long in [memory, 0, file_at, 0, 0, 0] {
        out.extend(long.to_le_bytes());
    }
    for word in [0x8000_0028u32, 24] {
        out.extend(word.to_le_bytes());
    }
    for long in [entry, 0] {
        out.extend(long.to_le_bytes());
    }
    let size = (out.len() - 32) as u32;
    put(&mut out, 16, &3u32.to_le_bytes());
    put(&mut out, 20, &size.to_le_bytes());
    assert_eq!(out.len(), start + 96);
    out
}

#[test]
fn an_entry_needs_an_address() {
    let file = macho_with_entry(0x1_0000_0000, 0, 0x4000);
    assert!(has_entry_address(&file));
    match parse_object(&file) {
        ObjectFile::MachBinary(libs) => assert_eq!(
            libs,
            strings(&["self", "/System/Library/Frameworks/AppKit.framework/AppKit"])
        ),
        other => panic!("{other:?}"),
    }
    assert_eq!(drop_entry(&file), file);
    // An entry that has none is passed over; what the file links is still read.
    for file in [macho_with_entry(0, 1, 0), macho_with_entry(u64::MAX, 0, 1)] {
        assert!(!has_entry_address(&file));
        let rest = drop_entry(&file);
        assert!(has_entry_address(&rest));
        let changed: Vec<usize> = (0..file.len()).filter(|i| file[*i] != rest[*i]).collect();
        assert_eq!(changed, [file.len() - 21]);
        match parse_object(&file) {
            ObjectFile::MachBinary(libs) => assert_eq!(
                libs,
                strings(&["self", "/System/Library/Frameworks/AppKit.framework/AppKit"])
            ),
            other => panic!("{other:?}"),
        }
        assert_eq!(mac(Some(listing(&[], &[])), Some(file)), Framework::AppKitNative);
    }
    let file = macho_with_entry(u64::MAX, 1, 1);
    assert!(has_entry_address(&file));
    assert!(matches!(parse_object(&file), ObjectFile::MachBinary(_)));
    assert!(has_entry_address(b""));
}

#[test]
fn other_formats_are_not_read() {
    assert!(matches!(parse_object(b"!<arch>\n/               0           0"), ObjectFile::Other));
    assert!(matches!(parse_object(b"\x7fELF\x02\x01\x01\0\0\0\0\0\0\0\0\0\0\0"), ObjectFile::Other));
    assert!(matches!(parse_object(b"\xca\xfe\xba\xbe\0\0\0\x02"), ObjectFile::Other));
    assert!(matches!(
        parse_object(b"\xca\xfe\xba\xbe\0\0\0\x02\0\0\0\0\0\0\0\0"),
        ObjectFile::MachFat
    ));
}
