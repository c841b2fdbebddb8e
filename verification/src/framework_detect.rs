//! Detect what UI framework an app is using from what its bundle holds and what
//! its executable links. The result drives the strategy ladder.

use crate::text::{
    begins, contains, ends, ends_with, lower, lower_text, occurs, occurs_at, same, starts_with,
    texts,
};
use vstd::prelude::*;

pub mod object;

pub use crate::framework_detect::object::{object_in, parse_object, ObjectFile, ObjectView};

verus! {

#[derive(Debug, Clone, Copy, PartialEq, Eq, Structural)]
pub enum Framework {
    /// Electron / Chromium-based: try asar then CDP.
    Electron,
    /// .NET (WPF / WinUI / WinForms): try ILSpy decomp.
    DotNet,
    /// Qt: try resource extraction.
    Qt,
    /// Native AppKit / Cocoa: try NIB extraction then AX fallback.
    AppKitNative,
    /// Native Win32 / WinUI without managed bits: try PE resource walk.
    Win32Native,
    /// Couldn't probe: use AX/UIA fallback.
    Unknown,
}

impl Framework {
    /// The variant's name.
    pub open spec fn label_text(self) -> Seq<char> {
        match self {
            Framework::Electron => "Electron"@,
            Framework::DotNet => "DotNet"@,
            Framework::Qt => "Qt"@,
            Framework::AppKitNative => "AppKitNative"@,
            Framework::Win32Native => "Win32Native"@,
            Framework::Unknown => "Unknown"@,
        }
    }

    /// The variant's name, for diagnostics.
    pub fn label(self) -> (r: &'static str)
        ensures
            r@ == self.label_text(),
    {
        match self {
            Framework::Electron => "Electron",
            Framework::DotNet => "DotNet",
            Framework::Qt => "Qt",
            Framework::AppKitNative => "AppKitNative",
            Framework::Win32Native => "Win32Native",
            Framework::Unknown => "Unknown",
        }
    }
}

/// What the folders of a `.app` bundle hold.
#[derive(Debug)]
pub struct BundleListing {
    /// `Contents/Frameworks/Electron Framework.framework` exists.
    pub electron_framework: bool,
    /// `Contents/Frameworks/Chromium Embedded Framework.framework` exists. Only
    /// the top level counts: hybrids ship a CEF addon deep below it while their
    /// shell is Qt.
    pub cef_framework: bool,
    /// The names in `Contents/Frameworks`, in the order the folder lists them;
    /// empty where there is no such folder.
    pub frameworks: Vec<String>,
    /// `Contents/Resources/app.asar` exists.
    pub app_asar: bool,
    /// The names in `Contents/Resources`; empty where there is no such folder.
    pub resources: Vec<String>,
}

/// What was found on disk for an executable.
#[derive(Debug)]
pub enum AppProbe {
    /// The path does not exist, or its platform has no probe.
    Missing,
    /// A macOS executable: what its bundle holds, where it is deep enough in the
    /// file system to have one, and its bytes where they could be read.
    MacOs { bundle: Option<BundleListing>, executable: Option<Vec<u8>> },
    /// A Windows executable: whether `resources\app.asar` stands beside it, and
    /// its bytes where they could be read.
    Windows { app_asar: bool, executable: Option<Vec<u8>> },
}

// ---------------------------------------------------------------------------
// Names of libraries
// ---------------------------------------------------------------------------

/// One of the names holds `needle`.
pub open spec fn any_holds(names: Seq<Seq<char>>, needle: Seq<char>) -> bool {
    exists|i: int| 0 <= i < names.len() && occurs(#[trigger] names[i], needle)
}

/// One of the names starts with `prefix`.
pub open spec fn any_begins(names: Seq<Seq<char>>, prefix: Seq<char>) -> bool {
    exists|i: int| 0 <= i < names.len() && begins(#[trigger] names[i], prefix)
}

/// One of the names ends with `suffix`.
pub open spec fn any_ends(names: Seq<Seq<char>>, suffix: Seq<char>) -> bool {
    exists|i: int| 0 <= i < names.len() && ends(#[trigger] names[i], suffix)
}

fn some_holds(names: &[String], needle: &str) -> (r: bool)
    ensures
        r == any_holds(texts(names@), needle@),
{
    for i in 0..names.len()
        invariant
            forall|k: int| 0 <= k < i ==> !occurs(#[trigger] names@[k]@, needle@),
    {
        if contains(names[i].as_str(), needle) {
            assert(occurs(texts(names@)[i as int], needle@));
            return true;
        }
    }
    assert forall|k: int| 0 <= k < texts(names@).len() implies !occurs(
        #[trigger] texts(names@)[k],
        needle@,
    ) by {
        assert(texts(names@)[k] == names@[k]@);
    }
    false
}

fn some_begins(names: &[String], prefix: &str) -> (r: bool)
    ensures
        r == any_begins(texts(names@), prefix@),
{
    for i in 0..names.len()
        invariant
            forall|k: int| 0 <= k < i ==> !begins(#[trigger] names@[k]@, prefix@),
    {
        if starts_with(names[i].as_str(), prefix) {
            assert(begins(texts(names@)[i as int], prefix@));
            return true;
        }
    }
    assert forall|k: int| 0 <= k < texts(names@).len() implies !begins(
        #[trigger] texts(names@)[k],
        prefix@,
    ) by {
        assert(texts(names@)[k] == names@[k]@);
    }
    false
}

fn some_ends(names: &[String], suffix: &str) -> (r: bool)
    ensures
        r == any_ends(texts(names@), suffix@),
{
    for i in 0..names.len()
        invariant
            forall|k: int| 0 <= k < i ==> !ends(#[trigger] names@[k]@, suffix@),
    {
        if ends_with(names[i].as_str(), suffix) {
            assert(ends(texts(names@)[i as int], suffix@));
            return true;
        }
    }
    assert forall|k: int| 0 <= k < texts(names@).len() implies !ends(
        #[trigger] texts(names@)[k],
        suffix@,
    ) by {
        assert(texts(names@)[k] == names@[k]@);
    }
    false
}

fn some_is(names: &[String], name: &str) -> (r: bool)
    ensures
        r == texts(names@).contains(name@),
{
    for i in 0..names.len()
        invariant
            forall|k: int| 0 <= k < i ==> #[trigger] names@[k]@ != name@,
    {
        if same(names[i].as_str(), name) {
            assert(texts(names@)[i as int] == name@);
            return true;
        }
    }
    assert forall|k: int| 0 <= k < texts(names@).len() implies texts(names@)[k] != name@ by {
        assert(texts(names@)[k] == names@[k]@);
    }
    false
}

/// Each name in lower case.
pub open spec fn lowered(names: Seq<Seq<char>>) -> Seq<Seq<char>> {
    names.map_values(|s: Seq<char>| lower(s))
}

fn lower_all(names: &[String]) -> (r: Vec<String>)
    ensures
        texts(r@) == lowered(texts(names@)),
{
    let mut out: Vec<String> = Vec::new();
    for i in 0..names.len()
        invariant
            out@.len() == i,
            forall|k: int| 0 <= k < i ==> #[trigger] out@[k]@ == lower(names@[k]@),
    {
        out.push(lower_text(names[i].as_str()));
    }
    assert(texts(out@) =~= lowered(texts(names@)));
    out
}

/// The framework that a list of linked libraries shows. CEF/Chromium comes before
/// Qt so a binary that links both (a Chromium view embedded in a Qt shell) counts
/// as web content.
pub open spec fn dylib_framework(libs: Seq<Seq<char>>) -> Option<Framework> {
    if any_holds(libs, "Electron Framework"@) {
        Some(Framework::Electron)
    } else if any_holds(libs, "Chromium Embedded Framework"@) || any_holds(libs, "libcef"@) {
        Some(Framework::Electron)
    } else if any_begins(libs, "@rpath/QtCore"@) || any_holds(libs, "QtCore"@) {
        Some(Framework::Qt)
    } else if any_holds(libs, "AppKit.framework"@) {
        Some(Framework::AppKitNative)
    } else {
        None
    }
}

/// Classify a list of linked dylib paths into a [`Framework`].
pub fn classify_dylibs(libs: &[String]) -> (r: Option<Framework>)
    ensures
        r == dylib_framework(texts(libs@)),
{
    if some_holds(libs, "Electron Framework") {
        return Some(Framework::Electron);
    }
    if some_holds(libs, "Chromium Embedded Framework") || some_holds(libs, "libcef") {
        return Some(Framework::Electron);
    }
    if some_begins(libs, "@rpath/QtCore") || some_holds(libs, "QtCore") {
        return Some(Framework::Qt);
    }
    if some_holds(libs, "AppKit.framework") {
        return Some(Framework::AppKitNative);
    }
    None
}

// ---------------------------------------------------------------------------
// Raw bytes
// ---------------------------------------------------------------------------

/// How much of an executable the raw scan looks at: load commands live near each
/// slice's start.
pub const SCAN_LIMIT: usize = 16777216;

/// `needle` is not empty and stands somewhere in `haystack`.
pub fn find_subslice(haystack: &[u8], needle: &[u8]) -> (r: bool)
    ensures
        r == (needle@.len() > 0 && occurs(haystack@, needle@)),
{
    if needle.len() == 0 || haystack.len() < needle.len() {
        return false;
    }
    let last = haystack.len() - needle.len();
    let mut i: usize = 0;
    while i <= last
        invariant
            needle.len() > 0,
            last == haystack.len() - needle.len(),
            i <= last + 1,
            forall|k: int|
                0 <= k < i ==> !#[trigger] occurs_at(haystack@, needle@, k),
        decreases last + 1 - i,
    {
        let mut k: usize = 0;
        while k < needle.len() && haystack[i + k] == needle[k]
            invariant
                i + needle.len() <= haystack.len(),
                k <= needle.len(),
                forall|j: int| 0 <= j < k ==> haystack@[i + j] == needle@[j],
            decreases needle.len() - k,
        {
            k += 1;
        }
        if k == needle.len() {
            assert(haystack@.subrange(i as int, i + needle@.len()) =~= needle@);
            assert(occurs_at(haystack@, needle@, i as int));
            return true;
        }
        assert(haystack@.subrange(i as int, i + needle@.len())[k as int] != needle@[k as int]);
        i += 1;
    }
    false
}

/// The bytes of an ASCII text.
pub open spec fn ascii(s: Seq<char>) -> Seq<u8> {
    s.map_values(|c: char| c as u8)
}

fn ascii_bytes(s: &str) -> (r: Vec<u8>)
    requires
        forall|i: int| 0 <= i < s@.len() ==> (#[trigger] s@[i] as int) < 128,
    ensures
        r@ == ascii(s@),
{
    let mut out: Vec<u8> = Vec::new();
    for c in it: s.chars()
        invariant
            it.seq() == s@,
            out@ == ascii(s@).take(it.index()),
    {
        out.push(c as u8);
        assert(out@ =~= ascii(s@).take(it.index() + 1));
    }
    assert(ascii(s@).take(s@.len() as int) =~= ascii(s@));
    out
}

/// The first bytes of an executable, as many as the scan looks at.
pub open spec fn scanned(bytes: Seq<u8>) -> Seq<u8> {
    if bytes.len() < SCAN_LIMIT {
        bytes
    } else {
        bytes.take(SCAN_LIMIT as int)
    }
}

/// The framework that the bytes of an executable show, by the names that
/// [`classify_dylibs`] looks for.
pub open spec fn bytes_framework(bytes: Seq<u8>) -> Option<Framework> {
    let scan = scanned(bytes);
    if occurs(scan, ascii("Electron Framework"@)) {
        Some(Framework::Electron)
    } else if occurs(scan, ascii("Chromium Embedded Framework"@)) || occurs(
        scan,
        ascii("libcef"@),
    ) {
        Some(Framework::Electron)
    } else if occurs(scan, ascii("QtCore"@)) {
        Some(Framework::Qt)
    } else if occurs(scan, ascii("AppKit.framework"@)) {
        Some(Framework::AppKitNative)
    } else {
        None
    }
}

/// Raw-bytes fallback for fat/multi-arch Mach-O, whose libraries are not listed.
/// Searches the (bounded) head of the file for the same signatures
/// [`classify_dylibs`] looks for.
pub fn classify_macho_bytes(bytes: &[u8]) -> (r: Option<Framework>)
    ensures
        r == bytes_framework(bytes@),
{
    let n: usize = if bytes.len() < SCAN_LIMIT {
        bytes.len()
    } else {
        SCAN_LIMIT
    };
    let scan = vstd::slice::slice_subrange(bytes, 0, n);
    proof {
        assert(scan@ =~= scanned(bytes@));
        reveal_strlit("Electron Framework");
        reveal_strlit("Chromium Embedded Framework");
        reveal_strlit("libcef");
        reveal_strlit("QtCore");
        reveal_strlit("AppKit.framework");
    }
    if find_subslice(scan, ascii_bytes("Electron Framework").as_slice()) {
        return Some(Framework::Electron);
    }
    if find_subslice(scan, ascii_bytes("Chromium Embedded Framework").as_slice()) || find_subslice(
        scan,
        ascii_bytes("libcef").as_slice(),
    ) {
        return Some(Framework::Electron);
    }
    if find_subslice(scan, ascii_bytes("QtCore").as_slice()) {
        return Some(Framework::Qt);
    }
    if find_subslice(scan, ascii_bytes("AppKit.framework").as_slice()) {
        return Some(Framework::AppKitNative);
    }
    None
}

// ---------------------------------------------------------------------------
// The probe
// ---------------------------------------------------------------------------

/// The framework that the folder of frameworks shows by the first name that tells
/// one: some Electron apps rename theirs.
pub open spec fn named_framework(names: Seq<Seq<char>>) -> Option<Framework>
    decreases names.len(),
{
    if names.len() == 0 {
        None
    } else {
        let name = lower(names[0]);
        if occurs(name, "electron"@) {
            Some(Framework::Electron)
        } else if begins(name, "qtcore"@) || begins(name, "qt5"@) || begins(name, "qt6"@) {
            Some(Framework::Qt)
        } else {
            named_framework(names.skip(1))
        }
    }
}

/// The framework that the folders of a bundle show without a look at the
/// executable.
pub open spec fn folder_framework(b: BundleListing) -> Option<Framework> {
    if b.electron_framework || b.cef_framework {
        Some(Framework::Electron)
    } else if named_framework(texts(b.frameworks@)) is Some {
        named_framework(texts(b.frameworks@))
    } else if b.app_asar {
        Some(Framework::Electron)
    } else {
        None
    }
}

/// The framework that a Mach-O executable shows.
pub open spec fn object_framework(object: ObjectView, bytes: Seq<u8>) -> Option<Framework> {
    match object {
        ObjectView::MachBinary(libs) => if dylib_framework(libs) is Some {
            dylib_framework(libs)
        } else if libs.len() == 0 {
            bytes_framework(bytes)
        } else {
            None
        },
        ObjectView::MachFat => bytes_framework(bytes),
        _ => None,
    }
}

/// The framework that a PE executable shows.
pub open spec fn pe_framework(object: ObjectView) -> Framework {
    match object {
        ObjectView::Pe(dlls) => {
            let names = lowered(dlls);
            if names.contains("mscoree.dll"@) || names.contains("coreclr.dll"@) || names.contains(
                "hostfxr.dll"@,
            ) {
                Framework::DotNet
            } else if any_begins(names, "qt5"@) || any_begins(names, "qt6"@) {
                Framework::Qt
            } else if any_holds(names, "node"@) || any_holds(names, "chrome_elf"@) {
                Framework::Electron
            } else {
                Framework::Win32Native
            }
        },
        _ => Framework::Unknown,
    }
}

/// The framework that a macOS app shows. What the executable links outranks the
/// nibs that the bundle ships.
pub open spec fn macos_framework(
    bundle: Option<BundleListing>,
    executable: Option<Vec<u8>>,
) -> Framework {
    match bundle {
        None => Framework::Unknown,
        Some(b) => if folder_framework(b) is Some {
            folder_framework(b)->0
        } else {
            let linked = match executable {
                Some(bytes) => object_framework(object_in(bytes@), bytes@),
                None => None,
            };
            if linked is Some {
                linked->0
            } else if any_ends(texts(b.resources@), ".nib"@) || any_ends(
                texts(b.resources@),
                ".storyboardc"@,
            ) {
                Framework::AppKitNative
            } else {
                Framework::Unknown
            }
        },
    }
}

/// The framework that a probe shows.
pub open spec fn detected(probe: AppProbe) -> Framework {
    match probe {
        AppProbe::Missing => Framework::Unknown,
        AppProbe::MacOs { bundle, executable } => macos_framework(bundle, executable),
        AppProbe::Windows { app_asar, executable } => if app_asar {
            Framework::Electron
        } else {
            match executable {
                Some(bytes) => pe_framework(object_in(bytes@)),
                None => Framework::Unknown,
            }
        },
    }
}

fn classify_names(names: &[String]) -> (r: Option<Framework>)
    ensures
        r == named_framework(texts(names@)),
{
    assert(texts(names@).skip(0) =~= texts(names@));
    for i in 0..names.len()
        invariant
            named_framework(texts(names@)) == named_framework(texts(names@).skip(i as int)),
    {
        let ghost rest = texts(names@).skip(i as int);
        assert(rest[0] == names@[i as int]@);
        assert(rest.skip(1) =~= texts(names@).skip(i + 1));
        let name = lower_text(names[i].as_str());
        if contains(name.as_str(), "electron") {
            return Some(Framework::Electron);
        }
        if starts_with(name.as_str(), "qtcore") || starts_with(name.as_str(), "qt5")
            || starts_with(name.as_str(), "qt6") {
            return Some(Framework::Qt);
        }
    }
    None
}

/// What the folders of a bundle tell on their own. Where this is `Some`, the
/// executable need not be read.
pub fn classify_bundle(b: &BundleListing) -> (r: Option<Framework>)
    ensures
        r == folder_framework(*b),
{
    if b.electron_framework || b.cef_framework {
        return Some(Framework::Electron);
    }
    let named = classify_names(b.frameworks.as_slice());
    if named.is_some() {
        return named;
    }
    if b.app_asar {
        return Some(Framework::Electron);
    }
    None
}

/// What a Mach-O executable tells, given what its headers say.
pub fn classify_object(object: &ObjectFile, bytes: &[u8]) -> (r: Option<Framework>)
    ensures
        r == object_framework(object@, bytes@),
{
    match object {
        ObjectFile::MachBinary(libs) => {
            let found = classify_dylibs(libs.as_slice());
            if found.is_some() {
                return found;
            }
            if libs.len() == 0 {
                return classify_macho_bytes(bytes);
            }
            None
        },
        ObjectFile::MachFat => classify_macho_bytes(bytes),
        _ => None,
    }
}

/// What a PE executable tells, given what its headers say.
pub fn classify_pe(object: &ObjectFile) -> (r: Framework)
    ensures
        r == pe_framework(object@),
{
    match object {
        ObjectFile::Pe(dlls) => {
            let imports = lower_all(dlls.as_slice());
            let names = imports.as_slice();
            if some_is(names, "mscoree.dll") || some_is(names, "coreclr.dll") || some_is(
                names,
                "hostfxr.dll",
            ) {
                return Framework::DotNet;
            }
            if some_begins(names, "qt5") || some_begins(names, "qt6") {
                return Framework::Qt;
            }
            if some_holds(names, "node") || some_holds(names, "chrome_elf") {
                return Framework::Electron;
            }
            Framework::Win32Native
        },
        _ => Framework::Unknown,
    }
}

fn detect_macos(bundle: &Option<BundleListing>, executable: &Option<Vec<u8>>) -> (r: Framework)
    ensures
        r == macos_framework(*bundle, *executable),
{
    let b = match bundle {
        Some(b) => b,
        None => {
            return Framework::Unknown;
        },
    };
    if let Some(fw) = classify_bundle(b) {
        return fw;
    }
    if let Some(bytes) = executable {
        let object = parse_object(bytes.as_slice());
        if let Some(fw) = classify_object(&object, bytes.as_slice()) {
            return fw;
        }
    }
    if some_ends(b.resources.as_slice(), ".nib") || some_ends(
        b.resources.as_slice(),
        ".storyboardc",
    ) {
        return Framework::AppKitNative;
    }
    Framework::Unknown
}

/// Detect the framework of an app from what was found on disk for its executable.
pub fn detect(probe: &AppProbe) -> (r: Framework)
    ensures
        r == detected(*probe),
{
    match probe {
        AppProbe::Missing => Framework::Unknown,
        AppProbe::MacOs { bundle, executable } => detect_macos(bundle, executable),
        AppProbe::Windows { app_asar, executable } => {
            if *app_asar {
                return Framework::Electron;
            }
            match executable {
                Some(bytes) => {
                    let object = parse_object(bytes.as_slice());
                    classify_pe(&object)
                },
                None => Framework::Unknown,
            }
        },
    }
}

/// A Chromium view embedded in a Qt shell counts as web content, whatever else
/// the binary links.
pub proof fn chromium_outranks_qt(libs: Seq<Seq<char>>)
    requires
        any_holds(libs, "Chromium Embedded Framework"@) || any_holds(libs, "libcef"@),
    ensures
        dylib_framework(libs) == Some(Framework::Electron),
{
}

/// An app that links Qt and ships nibs is a Qt app.
pub proof fn linked_qt_outranks_nibs(b: BundleListing, bytes: Vec<u8>, libs: Seq<Seq<char>>)
    requires
        folder_framework(b) is None,
        object_in(bytes@) == ObjectView::MachBinary(libs),
        dylib_framework(libs) == Some(Framework::Qt),
    ensures
        macos_framework(Some(b), Some(bytes)) == Framework::Qt,
{
}

// ---------------------------------------------------------------------------
// What tells a framework
// ---------------------------------------------------------------------------

/// One linked library can tell the framework: one of Electron or of Chromium whatever else
/// is linked, one of Qt where none of those is, one of AppKit where none of the others is.
/// Nothing else does.
pub proof fn a_linked_library_tells_the_framework(libs: Seq<Seq<char>>, i: int)
    requires
        0 <= i < libs.len(),
    ensures
        occurs(libs[i], "Electron Framework"@) || occurs(libs[i], "Chromium Embedded Framework"@)
            || occurs(libs[i], "libcef"@) ==> dylib_framework(libs) == Some(Framework::Electron),
        occurs(libs[i], "QtCore"@) ==> dylib_framework(libs) == Some(Framework::Electron)
            || dylib_framework(libs) == Some(Framework::Qt),
        occurs(libs[i], "AppKit.framework"@) ==> dylib_framework(libs) is Some,
{
}

/// A framework is told by a library that shows it, and by none where no library shows any.
pub proof fn a_framework_is_told_by_a_library(libs: Seq<Seq<char>>)
    ensures
        dylib_framework(libs) == Some(Framework::Electron) ==> exists|i: int|
            0 <= i < libs.len() && (occurs(#[trigger] libs[i], "Electron Framework"@) || occurs(
                libs[i],
                "Chromium Embedded Framework"@,
            ) || occurs(libs[i], "libcef"@)),
        dylib_framework(libs) == Some(Framework::Qt) ==> exists|i: int|
            0 <= i < libs.len() && (occurs(#[trigger] libs[i], "QtCore"@) || begins(
                libs[i],
                "@rpath/QtCore"@,
            )),
        dylib_framework(libs) == Some(Framework::AppKitNative) ==> exists|i: int|
            0 <= i < libs.len() && occurs(#[trigger] libs[i], "AppKit.framework"@),
        dylib_framework(libs) is None || dylib_framework(libs) == Some(Framework::Electron)
            || dylib_framework(libs) == Some(Framework::Qt) || dylib_framework(libs) == Some(
            Framework::AppKitNative,
        ),
{
}

/// The bytes of an executable tell the framework by the same names, in the same order.
pub proof fn bytes_tell_the_framework(bytes: Seq<u8>)
    requires
        bytes.len() <= SCAN_LIMIT,
    ensures
        occurs(bytes, ascii("Electron Framework"@)) || occurs(
            bytes,
            ascii("Chromium Embedded Framework"@),
        ) || occurs(bytes, ascii("libcef"@)) <==> bytes_framework(bytes) == Some(
            Framework::Electron,
        ),
        occurs(bytes, ascii("QtCore"@)) ==> bytes_framework(bytes) == Some(Framework::Electron)
            || bytes_framework(bytes) == Some(Framework::Qt),
        bytes_framework(bytes) == Some(Framework::Qt) ==> occurs(bytes, ascii("QtCore"@)),
        occurs(bytes, ascii("AppKit.framework"@)) ==> bytes_framework(bytes) is Some,
        bytes_framework(bytes) == Some(Framework::AppKitNative) ==> occurs(
            bytes,
            ascii("AppKit.framework"@),
        ),
{
    assert(scanned(bytes) =~= bytes);
}

/// No more of an executable is looked at than its first sixteen mebibytes.
pub proof fn only_the_head_is_scanned(bytes: Seq<u8>, tail: Seq<u8>)
    requires
        bytes.len() == 16 * 1024 * 1024,
    ensures
        bytes_framework(bytes + tail) == bytes_framework(bytes),
{
    assert(scanned(bytes + tail) =~= bytes);
    assert(scanned(bytes) =~= bytes);
}

/// The first name in the folder of frameworks that tells one counts, whatever its case.
pub proof fn the_first_name_tells_the_framework(names: Seq<Seq<char>>, i: int)
    requires
        0 <= i < names.len(),
        forall|j: int| 0 <= j < i ==> named_framework(seq![#[trigger] names[j]]) is None,
    ensures
        occurs(lower(names[i]), "electron"@) ==> named_framework(names) == Some(
            Framework::Electron,
        ),
        !occurs(lower(names[i]), "electron"@) && (begins(lower(names[i]), "qtcore"@) || begins(
            lower(names[i]),
            "qt5"@,
        ) || begins(lower(names[i]), "qt6"@)) ==> named_framework(names) == Some(Framework::Qt),
    decreases i,
{
    if i > 0 {
        assert(named_framework(seq![names[0]]) is None);
        assert(seq![names[0]][0] == names[0]);
        let rest = names.skip(1);
        assert forall|j: int| 0 <= j < i - 1 implies named_framework(
            seq![#[trigger] rest[j]],
        ) is None by {
            assert(rest[j] == names[j + 1]);
        }
        assert(rest[i - 1] == names[i]);
        the_first_name_tells_the_framework(rest, i - 1);
    }
}

/// A bundle with the framework of Electron or of Chromium, or with an asar where no name
/// in its folders tells another, is an Electron app, whatever its executable is.
pub proof fn folders_tell_an_electron_app(b: BundleListing, executable: Option<Vec<u8>>)
    ensures
        b.electron_framework || b.cef_framework ==> macos_framework(Some(b), executable)
            is Electron,
        b.app_asar && named_framework(texts(b.frameworks@)) is None ==> macos_framework(
            Some(b),
            executable,
        ) is Electron,
        named_framework(texts(b.frameworks@)) matches Some(f) ==> !b.electron_framework
            && !b.cef_framework ==> macos_framework(Some(b), executable) == f,
{
}

/// What is left is a native app where nibs or storyboards are shipped, and unknown where
/// not.
pub proof fn nibs_tell_a_native_app(b: BundleListing, i: int)
    requires
        folder_framework(b) is None,
        0 <= i < b.resources@.len(),
    ensures
        ends(b.resources@[i]@, ".nib"@) || ends(b.resources@[i]@, ".storyboardc"@)
            ==> macos_framework(Some(b), None) is AppKitNative,
        macos_framework(Some(b), None) is AppKitNative || macos_framework(Some(b), None) is Unknown,
        macos_framework(Some(b), None) is AppKitNative ==> exists|k: int|
            0 <= k < b.resources@.len() && (ends((#[trigger] b.resources@[k])@, ".nib"@) || ends(
                b.resources@[k]@,
                ".storyboardc"@,
            )),
        macos_framework(None, None) is Unknown,
{
    let names = texts(b.resources@);
    assert(names[i] == b.resources@[i]@);
    if macos_framework(Some(b), None) is AppKitNative {
        let suffix = if any_ends(names, ".nib"@) {
            ".nib"@
        } else {
            ".storyboardc"@
        };
        let k = choose|k: int| 0 <= k < names.len() && ends(#[trigger] names[k], suffix);
        assert(names[k] == b.resources@[k]@);
    }
}

/// An import of a PE file can tell the framework, whatever its case: the runtimes of .NET
/// before all others, Qt before the parts of Chromium. A file without any of them is a
/// native one, and what is no PE file tells nothing.
pub proof fn an_import_tells_the_framework(dlls: Seq<Seq<char>>, i: int)
    requires
        0 <= i < dlls.len(),
    ensures
        ({
            let (name, f) = (lower(dlls[i]), pe_framework(ObjectView::Pe(dlls)));
            &&& name == "mscoree.dll"@ || name == "coreclr.dll"@ || name == "hostfxr.dll"@
                ==> f is DotNet
            &&& begins(name, "qt5"@) || begins(name, "qt6"@) ==> f is DotNet || f is Qt
            &&& occurs(name, "node"@) || occurs(name, "chrome_elf"@) ==> f is DotNet || f is Qt
                || f is Electron
            &&& f !is AppKitNative && f !is Unknown
        }),
        pe_framework(ObjectView::Pe(Seq::empty())) is Win32Native,
        pe_framework(ObjectView::Other) is Unknown,
{
    let names = lowered(dlls);
    assert(names[i] == lower(dlls[i]));
    let none = lowered(Seq::<Seq<char>>::empty());
    assert(none.len() == 0);
}

/// A framework that a PE file shows is told by one of its imports.
pub proof fn a_framework_is_told_by_an_import(dlls: Seq<Seq<char>>)
    ensures
        ({
            let f = pe_framework(ObjectView::Pe(dlls));
            &&& f is DotNet ==> exists|i: int|
                0 <= i < dlls.len() && (lower(#[trigger] dlls[i]) == "mscoree.dll"@ || lower(
                    dlls[i],
                ) == "coreclr.dll"@ || lower(dlls[i]) == "hostfxr.dll"@)
            &&& f is Qt ==> exists|i: int|
                0 <= i < dlls.len() && (begins(lower(#[trigger] dlls[i]), "qt5"@) || begins(
                    lower(dlls[i]),
                    "qt6"@,
                ))
            &&& f is Electron ==> exists|i: int|
                0 <= i < dlls.len() && (occurs(lower(#[trigger] dlls[i]), "node"@) || occurs(
                    lower(dlls[i]),
                    "chrome_elf"@,
                ))
        }),
{
    let names = lowered(dlls);
    assert forall|k: int| 0 <= k < names.len() implies #[trigger] names[k] == lower(dlls[k]) by {}
    let f = pe_framework(ObjectView::Pe(dlls));
    if f is DotNet {
        let n = if names.contains("mscoree.dll"@) {
            "mscoree.dll"@
        } else if names.contains("coreclr.dll"@) {
            "coreclr.dll"@
        } else {
            "hostfxr.dll"@
        };
        let k = choose|k: int| 0 <= k < names.len() && names[k] == n;
        assert(lower(dlls[k]) == n);
    } else if f is Qt {
        let n = if any_begins(names, "qt5"@) {
            "qt5"@
        } else {
            "qt6"@
        };
        let k = choose|k: int| 0 <= k < names.len() && begins(#[trigger] names[k], n);
        assert(begins(lower(dlls[k]), n));
    } else if f is Electron {
        let n = if any_holds(names, "node"@) {
            "node"@
        } else {
            "chrome_elf"@
        };
        let k = choose|k: int| 0 <= k < names.len() && occurs(#[trigger] names[k], n);
        assert(occurs(lower(dlls[k]), n));
    }
}

/// A Mach-O file for several architectures is told by its bytes, and so is one for one
/// architecture that links nothing; one that links something is told by that only.
pub proof fn bytes_stand_in_for_libraries(libs: Seq<Seq<char>>, bytes: Seq<u8>)
    ensures
        object_framework(ObjectView::MachFat, bytes) == bytes_framework(bytes),
        object_framework(ObjectView::MachBinary(Seq::empty()), bytes) == bytes_framework(bytes),
        libs.len() > 0 ==> object_framework(ObjectView::MachBinary(libs), bytes)
            == dylib_framework(libs),
        object_framework(ObjectView::Pe(libs), bytes) is None,
{
    a_framework_is_told_by_a_library(Seq::empty());
}

/// Beside an asar a Windows executable is of an Electron app, and a missing one tells
/// nothing.
pub proof fn an_asar_tells_an_electron_app(executable: Option<Vec<u8>>)
    ensures
        detected(AppProbe::Windows { app_asar: true, executable }) is Electron,
        detected(AppProbe::Windows { app_asar: false, executable: None }) is Unknown,
        detected(AppProbe::Missing) is Unknown,
{
}

/// No two frameworks go by one name.
pub proof fn labels_differ(a: Framework, b: Framework)
    ensures
        a.label_text() == b.label_text() ==> a == b,
{
    reveal_strlit("Electron");
    reveal_strlit("DotNet");
    reveal_strlit("Qt");
    reveal_strlit("AppKitNative");
    reveal_strlit("Win32Native");
    reveal_strlit("Unknown");
    assert("Electron"@.len() == 8 && "DotNet"@.len() == 6 && "Qt"@.len() == 2
        && "AppKitNative"@.len() == 12 && "Win32Native"@.len() == 11 && "Unknown"@.len() == 7);
}

} // verus!
