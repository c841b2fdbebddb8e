//! Naming the fonts and images that were harvested from a running app.

use crate::encoding::{base64_bytes, base64_decode};
use crate::text::{
    begins, chars_of, contains, copy_of, decimal, decimal_is_injective, decimal_is_nonempty,
    decimal_text, ends, lower_char, min_len, occurs, opt_view, same, string_of, texts, to_lower,
};
use vstd::prelude::*;

verus! {

// ---------------------------------------------------------------------------
// Slugs
// ---------------------------------------------------------------------------

/// `c` is an ASCII letter or digit.
pub open spec fn alphanumeric(c: char) -> bool {
    'a' <= c <= 'z' || 'A' <= c <= 'Z' || '0' <= c <= '9'
}

/// The ASCII letters and digits of `s` in lower case, with one dash for each run of
/// other characters between or after them.
pub open spec fn dashed(s: Seq<char>) -> Seq<char>
    decreases s.len(),
{
    if s.len() == 0 {
        Seq::empty()
    } else {
        let head = dashed(s.drop_last());
        if alphanumeric(s.last()) {
            head.push(lower_char(s.last()))
        } else if head.len() > 0 && head.last() != '-' {
            head.push('-')
        } else {
            head
        }
    }
}

/// `s` without the dashes at its end.
pub open spec fn undashed(s: Seq<char>) -> Seq<char>
    decreases s.len(),
{
    if s.len() > 0 && s.last() == '-' {
        undashed(s.drop_last())
    } else {
        s
    }
}

/// The slug of a label: at most 48 characters.
pub open spec fn slug(s: Seq<char>) -> Seq<char> {
    let full = undashed(dashed(s));
    full.take(min_len(48, full.len() as int))
}

/// Turn an arbitrary label (aria-label / data-qa / font family) into a
/// filesystem- and URL-safe slug for asset filenames.
pub fn slugify(s: &str) -> (r: String)
    ensures
        r@ == slug(s@),
{
    let mut out: Vec<char> = Vec::new();
    let mut prev_dash = false;
    let chars = chars_of(s);
    for i in 0..chars.len()
        invariant
            chars@ == s@,
            out@ == dashed(s@.take(i as int)),
            prev_dash == (out@.len() > 0 && out@.last() == '-'),
    {
        let ch = chars[i];
        assert(s@.take(i + 1).drop_last() =~= s@.take(i as int));
        if ch >= 'a' && ch <= 'z' || ch >= 'A' && ch <= 'Z' || ch >= '0' && ch <= '9' {
            out.push(to_lower(ch));
            prev_dash = false;
        } else if out.len() > 0 && !prev_dash {
            out.push('-');
            prev_dash = true;
        }
    }
    assert(s@.take(s@.len() as int) =~= s@);
    let ghost full = out@;
    while out.len() > 0 && out[out.len() - 1] == '-'
        invariant
            undashed(full) == undashed(out@),
        decreases out.len(),
    {
        let ghost before = out@;
        out.pop();
        assert(out@ =~= before.drop_last());
    }
    let n: usize = if out.len() < 48 {
        out.len()
    } else {
        48
    };
    string_of(&out, 0, n)
}

/// A character that a slug may hold.
pub open spec fn slug_char(c: char) -> bool {
    'a' <= c <= 'z' || '0' <= c <= '9' || c == '-'
}

proof fn dashed_is_clean(s: Seq<char>)
    ensures
        forall|i: int| 0 <= i < dashed(s).len() ==> slug_char(#[trigger] dashed(s)[i]),
        dashed(s).len() > 0 ==> dashed(s)[0] != '-',
        forall|i: int, j: int|
            0 <= i && j == i + 1 && j < dashed(s).len() && #[trigger] dashed(s)[i] == '-' ==> #[trigger] dashed(
                s,
            )[j] != '-',
    decreases s.len(),
{
    if s.len() > 0 {
        dashed_is_clean(s.drop_last());
    }
}

proof fn undashed_is_prefix(s: Seq<char>)
    ensures
        undashed(s).len() <= s.len(),
        undashed(s) == s.take(undashed(s).len() as int),
    decreases s.len(),
{
    if s.len() > 0 && s.last() == '-' {
        undashed_is_prefix(s.drop_last());
        assert(s.drop_last().take(undashed(s).len() as int) =~= s.take(undashed(s).len() as int));
    } else {
        assert(s.take(s.len() as int) =~= s);
    }
}

/// A slug is safe in a file name and a URL: at most 48 lower-case letters, digits
/// and dashes, the first no dash and no two dashes in a row.
pub proof fn slug_is_safe(s: Seq<char>)
    ensures
        slug(s).len() <= 48,
        forall|i: int| 0 <= i < slug(s).len() ==> slug_char(#[trigger] slug(s)[i]),
        slug(s).len() > 0 ==> slug(s)[0] != '-',
        forall|i: int, j: int|
            0 <= i && j == i + 1 && j < slug(s).len() && #[trigger] slug(s)[i] == '-' ==> #[trigger] slug(
                s,
            )[j] != '-',
{
    dashed_is_clean(s);
    undashed_is_prefix(dashed(s));
    assert forall|i: int| 0 <= i < slug(s).len() implies #[trigger] slug(s)[i] == dashed(s)[i] by {}
}

// ---------------------------------------------------------------------------
// Names that are not in use
// ---------------------------------------------------------------------------

/// The `k`th name that a stem gives: the stem itself, then the stem with a number.
pub open spec fn candidate(stem: Seq<char>, k: nat) -> Seq<char> {
    if k == 0 {
        stem
    } else {
        stem + "-"@ + decimal(k)
    }
}

/// The `k`th name is the first that is not in use.
pub open spec fn first_unused(used: Seq<Seq<char>>, stem: Seq<char>, k: nat) -> bool {
    &&& !used.contains(candidate(stem, k))
    &&& forall|j: nat| j < k ==> used.contains(#[trigger] candidate(stem, j))
}

/// The first name that a stem gives and that is not in use.
pub open spec fn unused_name(used: Seq<Seq<char>>, stem: Seq<char>) -> Seq<char> {
    candidate(stem, choose|k: nat| first_unused(used, stem, k))
}

proof fn candidates_differ(stem: Seq<char>, j: nat, k: nat)
    requires
        j < k,
    ensures
        candidate(stem, j) != candidate(stem, k),
{
    let a = candidate(stem, j);
    let b = candidate(stem, k);
    reveal_strlit("-");
    decimal_is_nonempty(k);
    if j == 0 {
        assert(a.len() < b.len());
    } else if a == b {
        let n = stem.len() + 1;
        assert(a.skip(n as int) =~= decimal(j));
        assert(b.skip(n as int) =~= decimal(k));
        decimal_is_injective(j, k);
    }
}

proof fn used_names_run_out(used: Seq<Seq<char>>, stem: Seq<char>, k: nat)
    requires
        forall|j: nat| j < k ==> used.contains(#[trigger] candidate(stem, j)),
    ensures
        k <= used.len(),
{
    let all = Seq::new(k, |j: int| candidate(stem, j as nat));
    assert forall|i: int, j: int| 0 <= i < j < all.len() implies all[i] != all[j] by {
        candidates_differ(stem, i as nat, j as nat);
    }
    all.unique_seq_to_set();
    used.lemma_cardinality_of_set();
    assert(all.to_set().subset_of(used.to_set())) by {
        assert forall|x: Seq<char>| all.to_set().contains(x) implies used.to_set().contains(x) by {
            let i = choose|i: int| 0 <= i < all.len() && all[i] == x;
            assert(used.contains(candidate(stem, i as nat)));
        }
    }
    vstd::set_lib::lemma_len_subset(all.to_set(), used.to_set());
}

proof fn first_unused_is_unique(used: Seq<Seq<char>>, stem: Seq<char>, j: nat, k: nat)
    requires
        first_unused(used, stem, j),
        first_unused(used, stem, k),
    ensures
        j == k,
{
    if j < k {
        assert(used.contains(candidate(stem, j)));
    } else if k < j {
        assert(used.contains(candidate(stem, k)));
    }
}

fn in_use(used: &Vec<String>, name: &str) -> (r: bool)
    ensures
        r == texts(used@).contains(name@),
{
    for i in 0..used.len()
        invariant
            forall|k: int| 0 <= k < i ==> #[trigger] used@[k]@ != name@,
    {
        if same(used[i].as_str(), name) {
            assert(texts(used@)[i as int] == name@);
            return true;
        }
    }
    assert forall|k: int| 0 <= k < texts(used@).len() implies texts(used@)[k] != name@ by {
        assert(texts(used@)[k] == used@[k]@);
    }
    false
}

/// A name from `stem` that is not in use, which is in use from then on.
pub fn unique_name(used: &mut Vec<String>, stem: &str) -> (r: String)
    ensures
        r@ == unused_name(texts(old(used)@), stem@),
        !texts(old(used)@).contains(r@),
        texts(final(used)@) == texts(old(used)@).push(r@),
{
    let mut k: usize = 0;
    let mut name = copy_of(stem);
    let ghost before = texts(used@);
    while in_use(used, name.as_str())
        invariant
            before == texts(used@),
            used@ == old(used)@,
            k <= used.len(),
            name@ == candidate(stem@, k as nat),
            forall|j: nat| j < k ==> before.contains(#[trigger] candidate(stem@, j)),
        decreases used.len() - k,
    {
        proof {
            assert forall|j: nat| j < k + 1 implies before.contains(
                #[trigger] candidate(stem@, j),
            ) by {
                if j == k {
                    assert(before.contains(name@));
                }
            }
            used_names_run_out(before, stem@, (k + 1) as nat);
            assert(before.len() == used.len());
        }
        k += 1;
        name = copy_of(stem);
        name.push_str("-");
        name.push_str(decimal_text(k as u64).as_str());
    }
    proof {
        assert(first_unused(before, stem@, k as nat));
        let chosen = choose|j: nat| first_unused(before, stem@, j);
        first_unused_is_unique(before, stem@, chosen, k as nat);
    }
    let kept = copy_of(name.as_str());
    used.push(kept);
    assert(texts(used@) =~= before.push(name@));
    name
}

// ---------------------------------------------------------------------------
// Fonts
// ---------------------------------------------------------------------------

/// A font as the page reported it.
#[derive(Debug)]
pub struct HarvestedFont {
    pub base64: Option<String>,
    pub family: Option<String>,
    pub weight: Option<String>,
    pub style: Option<String>,
    pub format: Option<String>,
}

/// What a [`HarvestedFont`] holds.
#[verifier::ext_equal]
pub struct FontView {
    pub base64: Option<Seq<char>>,
    pub family: Option<Seq<char>>,
    pub weight: Option<Seq<char>>,
    pub style: Option<Seq<char>>,
    pub format: Option<Seq<char>>,
}

impl View for HarvestedFont {
    type V = FontView;

    open spec fn view(&self) -> FontView {
        FontView {
            base64: opt_view(self.base64),
            family: opt_view(self.family),
            weight: opt_view(self.weight),
            style: opt_view(self.style),
            format: opt_view(self.format),
        }
    }
}

/// What the fonts hold.
pub open spec fn font_views(fonts: Seq<HarvestedFont>) -> Seq<FontView> {
    fonts.map_values(|f: HarvestedFont| f@)
}

/// A font file to write.
#[derive(Debug)]
pub struct FontFile {
    pub family: String,
    pub weight: String,
    pub style: String,
    pub format: String,
    /// The file's name, with its extension.
    pub file: String,
    pub bytes: Vec<u8>,
}

/// What a [`FontFile`] holds.
#[verifier::ext_equal]
pub struct FontFileView {
    pub family: Seq<char>,
    pub weight: Seq<char>,
    pub style: Seq<char>,
    pub format: Seq<char>,
    pub file: Seq<char>,
    pub bytes: Seq<u8>,
}

impl View for FontFile {
    type V = FontFileView;

    open spec fn view(&self) -> FontFileView {
        FontFileView {
            family: self.family@,
            weight: self.weight@,
            style: self.style@,
            format: self.format@,
            file: self.file@,
            bytes: self.bytes@,
        }
    }
}

/// `s`, or `fallback` where there is none.
pub open spec fn text_or(s: Option<Seq<char>>, fallback: Seq<char>) -> Seq<char> {
    match s {
        Some(t) => t,
        None => fallback,
    }
}

fn copy_or(s: &Option<String>, fallback: &str) -> (r: String)
    ensures
        r@ == text_or(opt_view(*s), fallback@),
{
    match s {
        Some(t) => copy_of(t.as_str()),
        None => copy_of(fallback),
    }
}

/// The bytes that an optional base64 text stands for, where it stands for any.
pub open spec fn payload(base64: Option<Seq<char>>) -> Option<Seq<u8>> {
    match base64 {
        Some(t) => match base64_bytes(t) {
            Ok(bytes) => Some(bytes),
            Err(_) => None,
        },
        None => None,
    }
}

fn decoded(base64: &Option<String>) -> (r: Option<Vec<u8>>)
    ensures
        match r {
            Some(bytes) => payload(opt_view(*base64)) == Some(bytes@),
            None => payload(opt_view(*base64)) is None,
        },
{
    match base64 {
        Some(t) => match base64_decode(t.as_str()) {
            Ok(bytes) => Some(bytes),
            Err(_) => None,
        },
        None => None,
    }
}

/// The extension of a font file of the given format.
pub open spec fn font_ext(format: Seq<char>) -> Seq<char> {
    if format == "woff"@ {
        "woff"@
    } else if format == "opentype"@ {
        "otf"@
    } else if format == "truetype"@ {
        "ttf"@
    } else {
        "woff2"@
    }
}

fn font_extension(format: &str) -> (r: &'static str)
    ensures
        r@ == font_ext(format@),
{
    if same(format, "woff") {
        "woff"
    } else if same(format, "opentype") {
        "otf"
    } else if same(format, "truetype") {
        "ttf"
    } else {
        "woff2"
    }
}

/// The stem of a font's file name: family, weight and style.
pub open spec fn font_stem(f: FontView) -> Seq<char> {
    slug(text_or(f.family, "font"@)) + "-"@ + text_or(f.weight, "400"@) + "-"@ + slug(
        text_or(f.style, "normal"@),
    )
}

/// The file for a font whose bytes are `bytes` and whose name is `name`.
pub open spec fn font_file(f: FontView, name: Seq<char>, bytes: Seq<u8>) -> FontFileView {
    let format = text_or(f.format, "woff2"@);
    FontFileView {
        family: text_or(f.family, "font"@),
        weight: text_or(f.weight, "400"@),
        style: text_or(f.style, "normal"@),
        format,
        file: name + "."@ + font_ext(format),
        bytes,
    }
}

/// The names that the fonts take, in order. A font without readable bytes takes
/// none.
pub open spec fn font_names(fonts: Seq<FontView>) -> Seq<Seq<char>>
    decreases fonts.len(),
{
    if fonts.len() == 0 {
        Seq::empty()
    } else {
        let taken = font_names(fonts.drop_last());
        if payload(fonts.last().base64) is Some {
            taken.push(unused_name(taken, font_stem(fonts.last())))
        } else {
            taken
        }
    }
}

/// The files for the fonts, in order. A font without readable bytes has none.
pub open spec fn font_files(fonts: Seq<FontView>) -> Seq<FontFileView>
    decreases fonts.len(),
{
    if fonts.len() == 0 {
        Seq::empty()
    } else {
        let taken = font_names(fonts.drop_last());
        let files = font_files(fonts.drop_last());
        match payload(fonts.last().base64) {
            Some(bytes) => files.push(
                font_file(fonts.last(), unused_name(taken, font_stem(fonts.last())), bytes),
            ),
            None => files,
        }
    }
}

/// The font files to write.
pub fn plan_fonts(fonts: &Vec<HarvestedFont>) -> (r: Vec<FontFile>)
    ensures
        r@.map_values(|f: FontFile| f@) == font_files(font_views(fonts@)),
{
    let mut out: Vec<FontFile> = Vec::new();
    let mut used: Vec<String> = Vec::new();
    assert(texts(used@) =~= font_names(font_views(fonts@).take(0)));
    assert(out@.map_values(|f: FontFile| f@) =~= font_files(font_views(fonts@).take(0)));
    for i in 0..fonts.len()
        invariant
            texts(used@) == font_names(font_views(fonts@).take(i as int)),
            out@.map_values(|f: FontFile| f@) == font_files(font_views(fonts@).take(i as int)),
    {
        let f = &fonts[i];
        proof {
            let t = font_views(fonts@).take(i + 1);
            assert(t.drop_last() =~= font_views(fonts@).take(i as int));
            assert(t.last() == f@);
        }
        if let Some(bytes) = decoded(&f.base64) {
            let family = copy_or(&f.family, "font");
            let weight = copy_or(&f.weight, "400");
            let style = copy_or(&f.style, "normal");
            let format = copy_or(&f.format, "woff2");
            let mut stem = slugify(family.as_str());
            stem.push_str("-");
            stem.push_str(weight.as_str());
            stem.push_str("-");
            stem.push_str(slugify(style.as_str()).as_str());
            let mut file = unique_name(&mut used, stem.as_str());
            file.push_str(".");
            file.push_str(font_extension(format.as_str()));
            let ghost before = out@;
            out.push(FontFile { family, weight, style, format, file, bytes });
            assert(out@.map_values(|f: FontFile| f@) =~= before.map_values(|f: FontFile| f@).push(
                out@.last()@,
            ));
        }
    }
    assert(font_views(fonts@).take(fonts@.len() as int) =~= font_views(fonts@));
    out
}

/// No two fonts of one harvest take the same name.
pub proof fn font_names_are_distinct(fonts: Seq<FontView>)
    ensures
        font_names(fonts).no_duplicates(),
    decreases fonts.len(),
{
    if fonts.len() > 0 {
        font_names_are_distinct(fonts.drop_last());
        let taken = font_names(fonts.drop_last());
        unused_name_is_unused(taken, font_stem(fonts.last()));
    }
}

/// The name that a stem gives is not in use.
pub proof fn unused_name_is_unused(used: Seq<Seq<char>>, stem: Seq<char>)
    ensures
        !used.contains(unused_name(used, stem)),
{
    assert(exists|k: nat| first_unused(used, stem, k)) by {
        some_candidate_is_unused(used, stem, 0);
    }
}

proof fn some_candidate_is_unused(used: Seq<Seq<char>>, stem: Seq<char>, k: nat)
    requires
        forall|j: nat| j < k ==> used.contains(#[trigger] candidate(stem, j)),
        k <= used.len() + 1,
    ensures
        exists|n: nat| first_unused(used, stem, n),
    decreases used.len() + 1 - k,
{
    used_names_run_out(used, stem, k);
    if used.contains(candidate(stem, k)) {
        some_candidate_is_unused(used, stem, k + 1);
    } else {
        assert(first_unused(used, stem, k));
    }
}

// ---------------------------------------------------------------------------
// Images
// ---------------------------------------------------------------------------

/// An image as the page reported it.
#[derive(Debug)]
pub struct HarvestedImage {
    pub base64: Option<String>,
    pub label: Option<String>,
    pub mime: Option<String>,
    pub via: Option<String>,
}

/// What a [`HarvestedImage`] holds.
#[verifier::ext_equal]
pub struct ImageView {
    pub base64: Option<Seq<char>>,
    pub label: Option<Seq<char>>,
    pub mime: Option<Seq<char>>,
    pub via: Option<Seq<char>>,
}

impl View for HarvestedImage {
    type V = ImageView;

    open spec fn view(&self) -> ImageView {
        ImageView {
            base64: opt_view(self.base64),
            label: opt_view(self.label),
            mime: opt_view(self.mime),
            via: opt_view(self.via),
        }
    }
}

/// What the images hold.
pub open spec fn image_views(images: Seq<HarvestedImage>) -> Seq<ImageView> {
    images.map_values(|im: HarvestedImage| im@)
}

/// An image file to write.
#[derive(Debug)]
pub struct ImageFile {
    /// The image's place in the harvest.
    pub source: usize,
    pub label: String,
    /// How the page's pixels were read.
    pub via: String,
    /// The file's name, with its extension.
    pub file: String,
    pub bytes: Vec<u8>,
}

/// What an [`ImageFile`] holds.
#[verifier::ext_equal]
pub struct ImageFileView {
    pub source: int,
    pub label: Seq<char>,
    pub via: Seq<char>,
    pub file: Seq<char>,
    pub bytes: Seq<u8>,
}

impl View for ImageFile {
    type V = ImageFileView;

    open spec fn view(&self) -> ImageFileView {
        ImageFileView {
            source: self.source as int,
            label: self.label@,
            via: self.via@,
            file: self.file@,
            bytes: self.bytes@,
        }
    }
}

/// The extension of an image file of the given media type.
pub open spec fn image_ext(mime: Seq<char>) -> Seq<char> {
    if occurs(mime, "jpeg"@) || occurs(mime, "jpg"@) {
        "jpg"@
    } else if occurs(mime, "gif"@) {
        "gif"@
    } else if occurs(mime, "webp"@) {
        "webp"@
    } else if occurs(mime, "svg"@) {
        "svg"@
    } else {
        "png"@
    }
}

fn image_extension(mime: &str) -> (r: &'static str)
    ensures
        r@ == image_ext(mime@),
{
    if contains(mime, "jpeg") || contains(mime, "jpg") {
        "jpg"
    } else if contains(mime, "gif") {
        "gif"
    } else if contains(mime, "webp") {
        "webp"
    } else if contains(mime, "svg") {
        "svg"
    } else {
        "png"
    }
}

/// The stem of an image's file name: its label, or its place where the label gives
/// no slug.
pub open spec fn image_stem(im: ImageView, place: nat) -> Seq<char> {
    let s = slug(text_or(im.label, "image"@));
    if s.len() == 0 {
        "image-"@ + decimal(place)
    } else {
        s
    }
}

/// The file for the image at `place` whose bytes are `bytes` and whose name is
/// `name`.
pub open spec fn image_file(
    im: ImageView,
    place: nat,
    name: Seq<char>,
    bytes: Seq<u8>,
) -> ImageFileView {
    ImageFileView {
        source: place as int,
        label: text_or(im.label, "image"@),
        via: text_or(im.via, "fetch"@),
        file: name + "."@ + image_ext(text_or(im.mime, "image/png"@)),
        bytes,
    }
}

/// The names that the images take, in order. An image without readable bytes takes
/// none.
pub open spec fn image_names(images: Seq<ImageView>) -> Seq<Seq<char>>
    decreases images.len(),
{
    if images.len() == 0 {
        Seq::empty()
    } else {
        let taken = image_names(images.drop_last());
        if payload(images.last().base64) is Some {
            taken.push(
                unused_name(taken, image_stem(images.last(), (images.len() - 1) as nat)),
            )
        } else {
            taken
        }
    }
}

/// The files for the images, in order. An image without readable bytes has none.
pub open spec fn image_files(images: Seq<ImageView>) -> Seq<ImageFileView>
    decreases images.len(),
{
    if images.len() == 0 {
        Seq::empty()
    } else {
        let place = (images.len() - 1) as nat;
        let taken = image_names(images.drop_last());
        let files = image_files(images.drop_last());
        match payload(images.last().base64) {
            Some(bytes) => files.push(
                image_file(
                    images.last(),
                    place,
                    unused_name(taken, image_stem(images.last(), place)),
                    bytes,
                ),
            ),
            None => files,
        }
    }
}

/// The image files to write.
pub fn plan_images(images: &Vec<HarvestedImage>) -> (r: Vec<ImageFile>)
    ensures
        r@.map_values(|f: ImageFile| f@) == image_files(image_views(images@)),
{
    let mut out: Vec<ImageFile> = Vec::new();
    let mut used: Vec<String> = Vec::new();
    assert(texts(used@) =~= image_names(image_views(images@).take(0)));
    assert(out@.map_values(|f: ImageFile| f@) =~= image_files(image_views(images@).take(0)));
    for i in 0..images.len()
        invariant
            texts(used@) == image_names(image_views(images@).take(i as int)),
            out@.map_values(|f: ImageFile| f@) == image_files(image_views(images@).take(i as int)),
    {
        let im = &images[i];
        proof {
            let t = image_views(images@).take(i + 1);
            assert(t.drop_last() =~= image_views(images@).take(i as int));
            assert(t.last() == im@);
        }
        if let Some(bytes) = decoded(&im.base64) {
            let label = copy_or(&im.label, "image");
            let mime = copy_or(&im.mime, "image/png");
            let via = copy_or(&im.via, "fetch");
            let mut stem = slugify(label.as_str());
            if stem.as_str().is_empty() {
                stem = copy_of("image-");
                stem.push_str(decimal_text(i as u64).as_str());
            }
            let mut file = unique_name(&mut used, stem.as_str());
            file.push_str(".");
            file.push_str(image_extension(mime.as_str()));
            let ghost before = out@;
            out.push(ImageFile { source: i, label, via, file, bytes });
            assert(out@.map_values(|f: ImageFile| f@) =~= before.map_values(
                |f: ImageFile| f@,
            ).push(out@.last()@));
        }
    }
    assert(image_views(images@).take(images@.len() as int) =~= image_views(images@));
    out
}

/// No two images of one harvest take the same name.
pub proof fn image_names_are_distinct(images: Seq<ImageView>)
    ensures
        image_names(images).no_duplicates(),
    decreases images.len(),
{
    if images.len() > 0 {
        image_names_are_distinct(images.drop_last());
        let taken = image_names(images.drop_last());
        unused_name_is_unused(taken, image_stem(images.last(), (images.len() - 1) as nat));
    }
}

/// A name with an extension can be taken apart in one way only, where the extension
/// holds no dot.
proof fn extension_is_last(a: Seq<char>, e: Seq<char>, b: Seq<char>, f: Seq<char>)
    requires
        a + "."@ + e == b + "."@ + f,
        !e.contains('.'),
        !f.contains('.'),
    ensures
        a == b,
        e == f,
{
    reveal_strlit(".");
    let s = a + "."@ + e;
    let t = b + "."@ + f;
    assert(s == t);
    assert(s.len() == a.len() + 1 + e.len() && t.len() == b.len() + 1 + f.len());
    if a.len() < b.len() {
        assert(b.len() < t.len());
        assert(s[b.len() as int] == e[b.len() - a.len() - 1]);
        assert(t[b.len() as int] == '.');
        assert(e.contains('.'));
    } else if b.len() < a.len() {
        assert(a.len() < s.len());
        assert(t[a.len() as int] == f[a.len() - b.len() - 1]);
        assert(s[a.len() as int] == '.');
        assert(f.contains('.'));
    }
    assert(a =~= s.take(a.len() as int));
    assert(b =~= t.take(b.len() as int));
    assert(e =~= s.skip(a.len() as int + 1));
    assert(f =~= t.skip(b.len() as int + 1));
}

proof fn extensions_hold_no_dot(format: Seq<char>, mime: Seq<char>)
    ensures
        !font_ext(format).contains('.'),
        !image_ext(mime).contains('.'),
{
    reveal_strlit("woff");
    reveal_strlit("otf");
    reveal_strlit("ttf");
    reveal_strlit("woff2");
    reveal_strlit("jpg");
    reveal_strlit("gif");
    reveal_strlit("webp");
    reveal_strlit("svg");
    reveal_strlit("png");
}

proof fn font_files_are_named(fonts: Seq<FontView>)
    ensures
        font_files(fonts).len() == font_names(fonts).len(),
        forall|i: int|
            0 <= i < font_files(fonts).len() ==> #[trigger] font_files(fonts)[i].file
                == font_names(fonts)[i] + "."@ + font_ext(font_files(fonts)[i].format),
    decreases fonts.len(),
{
    if fonts.len() > 0 {
        font_files_are_named(fonts.drop_last());
        let before = font_files(fonts.drop_last());
        assert forall|i: int| 0 <= i < font_files(fonts).len() implies #[trigger] font_files(
            fonts,
        )[i].file == font_names(fonts)[i] + "."@ + font_ext(font_files(fonts)[i].format) by {
            if i < before.len() {
                assert(font_files(fonts)[i] == before[i]);
            }
        }
    }
}

/// No two fonts of one harvest are written to the same file.
pub proof fn font_files_are_distinct(fonts: Seq<FontView>)
    ensures
        forall|i: int, j: int|
            0 <= i < j < font_files(fonts).len() ==> (#[trigger] font_files(fonts)[i]).file != (
            #[trigger] font_files(fonts)[j]).file,
{
    font_files_are_named(fonts);
    font_names_are_distinct(fonts);
    let files = font_files(fonts);
    assert forall|i: int, j: int| 0 <= i < j < files.len() implies (#[trigger] files[i]).file != (
    #[trigger] files[j]).file by {
        extensions_hold_no_dot(files[i].format, Seq::empty());
        extensions_hold_no_dot(files[j].format, Seq::empty());
        if files[i].file == files[j].file {
            extension_is_last(
                font_names(fonts)[i],
                font_ext(files[i].format),
                font_names(fonts)[j],
                font_ext(files[j].format),
            );
        }
    }
}

proof fn image_files_are_named(images: Seq<ImageView>)
    ensures
        image_files(images).len() == image_names(images).len(),
        forall|i: int|
            0 <= i < image_files(images).len() ==> exists|mime: Seq<char>|
                (#[trigger] image_files(images)[i]).file == image_names(images)[i] + "."@
                    + #[trigger] image_ext(mime),
    decreases images.len(),
{
    if images.len() > 0 {
        image_files_are_named(images.drop_last());
        let before = image_files(images.drop_last());
        assert forall|i: int| 0 <= i < image_files(images).len() implies exists|mime: Seq<char>|
            (#[trigger] image_files(images)[i]).file == image_names(images)[i] + "."@
                + #[trigger] image_ext(mime) by {
            if i < before.len() {
                assert(image_files(images)[i] == before[i]);
                assert(image_names(images)[i] == image_names(images.drop_last())[i]);
            } else {
                let mime = text_or(images.last().mime, "image/png"@);
                assert(image_files(images)[i].file == image_names(images)[i] + "."@ + image_ext(
                    mime,
                ));
            }
        }
    }
}

/// No two images of one harvest are written to the same file.
pub proof fn image_files_are_distinct(images: Seq<ImageView>)
    ensures
        forall|i: int, j: int|
            0 <= i < j < image_files(images).len() ==> (#[trigger] image_files(images)[i]).file != (
            #[trigger] image_files(images)[j]).file,
{
    image_files_are_named(images);
    image_names_are_distinct(images);
    let files = image_files(images);
    assert forall|i: int, j: int| 0 <= i < j < files.len() implies (#[trigger] files[i]).file != (
    #[trigger] files[j]).file by {
        let m = choose|mime: Seq<char>|
            files[i].file == image_names(images)[i] + "."@ + #[trigger] image_ext(mime);
        let n = choose|mime: Seq<char>|
            files[j].file == image_names(images)[j] + "."@ + #[trigger] image_ext(mime);
        extensions_hold_no_dot(Seq::empty(), m);
        extensions_hold_no_dot(Seq::empty(), n);
        if files[i].file == files[j].file {
            extension_is_last(
                image_names(images)[i],
                image_ext(m),
                image_names(images)[j],
                image_ext(n),
            );
        }
    }
}

// ---------------------------------------------------------------------------
// Inline icons
// ---------------------------------------------------------------------------

/// An icon that the page draws inline, as the page reported it.
#[derive(Debug)]
pub struct HarvestedIcon {
    /// The `<svg>` element, as it stands in the page.
    pub markup: Option<String>,
    /// The `data-qa` of the element that holds it.
    pub data_qa: Option<String>,
}

/// What a [`HarvestedIcon`] holds.
#[verifier::ext_equal]
pub struct IconView {
    pub markup: Option<Seq<char>>,
    pub data_qa: Option<Seq<char>>,
}

impl View for HarvestedIcon {
    type V = IconView;

    open spec fn view(&self) -> IconView {
        IconView { markup: opt_view(self.markup), data_qa: opt_view(self.data_qa) }
    }
}

/// What the icons hold.
pub open spec fn icon_views(icons: Seq<HarvestedIcon>) -> Seq<IconView> {
    icons.map_values(|ic: HarvestedIcon| ic@)
}

/// An icon file to write.
#[derive(Debug)]
pub struct IconFile {
    /// The icon's place in the harvest.
    pub source: usize,
    /// The file's name, with its extension.
    pub file: String,
    pub markup: String,
}

/// What an [`IconFile`] holds.
#[verifier::ext_equal]
pub struct IconFileView {
    pub source: int,
    pub file: Seq<char>,
    pub markup: Seq<char>,
}

impl View for IconFile {
    type V = IconFileView;

    open spec fn view(&self) -> IconFileView {
        IconFileView { source: self.source as int, file: self.file@, markup: self.markup@ }
    }
}

/// The stem of an icon's file name: its `data-qa`, or its place where that gives no
/// slug.
pub open spec fn icon_stem(ic: IconView, place: nat) -> Seq<char> {
    let s = slug(text_or(ic.data_qa, ""@));
    if s.len() == 0 {
        "icon-"@ + decimal(place)
    } else {
        s
    }
}

/// The names that the icons take, in order. An icon without markup takes none.
pub open spec fn icon_names(icons: Seq<IconView>) -> Seq<Seq<char>>
    decreases icons.len(),
{
    if icons.len() == 0 {
        Seq::empty()
    } else {
        let taken = icon_names(icons.drop_last());
        if icons.last().markup is Some {
            taken.push(unused_name(taken, icon_stem(icons.last(), (icons.len() - 1) as nat)))
        } else {
            taken
        }
    }
}

/// The files for the icons, in order: each holds the markup exactly. An icon
/// without markup has none.
pub open spec fn icon_files(icons: Seq<IconView>) -> Seq<IconFileView>
    decreases icons.len(),
{
    if icons.len() == 0 {
        Seq::empty()
    } else {
        let place = (icons.len() - 1) as nat;
        let taken = icon_names(icons.drop_last());
        let files = icon_files(icons.drop_last());
        match icons.last().markup {
            Some(markup) => files.push(
                IconFileView {
                    source: place as int,
                    file: unused_name(taken, icon_stem(icons.last(), place)) + ".svg"@,
                    markup,
                },
            ),
            None => files,
        }
    }
}

/// The icon files to write.
pub fn plan_icons(icons: &Vec<HarvestedIcon>) -> (r: Vec<IconFile>)
    ensures
        r@.map_values(|f: IconFile| f@) == icon_files(icon_views(icons@)),
{
    let mut out: Vec<IconFile> = Vec::new();
    let mut used: Vec<String> = Vec::new();
    assert(texts(used@) =~= icon_names(icon_views(icons@).take(0)));
    assert(out@.map_values(|f: IconFile| f@) =~= icon_files(icon_views(icons@).take(0)));
    for i in 0..icons.len()
        invariant
            texts(used@) == icon_names(icon_views(icons@).take(i as int)),
            out@.map_values(|f: IconFile| f@) == icon_files(icon_views(icons@).take(i as int)),
    {
        let ic = &icons[i];
        proof {
            let t = icon_views(icons@).take(i + 1);
            assert(t.drop_last() =~= icon_views(icons@).take(i as int));
            assert(t.last() == ic@);
        }
        if let Some(markup) = &ic.markup {
            let label = copy_or(&ic.data_qa, "");
            let mut stem = slugify(label.as_str());
            if stem.as_str().is_empty() {
                stem = copy_of("icon-");
                stem.push_str(decimal_text(i as u64).as_str());
            }
            let mut file = unique_name(&mut used, stem.as_str());
            file.push_str(".svg");
            let ghost before = out@;
            out.push(IconFile { source: i, file, markup: copy_of(markup.as_str()) });
            assert(out@.map_values(|f: IconFile| f@) =~= before.map_values(|f: IconFile| f@).push(
                out@.last()@,
            ));
        }
    }
    assert(icon_views(icons@).take(icons@.len() as int) =~= icon_views(icons@));
    out
}

/// No two icons of one harvest take the same name.
pub proof fn icon_names_are_distinct(icons: Seq<IconView>)
    ensures
        icon_names(icons).no_duplicates(),
    decreases icons.len(),
{
    if icons.len() > 0 {
        icon_names_are_distinct(icons.drop_last());
        let taken = icon_names(icons.drop_last());
        unused_name_is_unused(taken, icon_stem(icons.last(), (icons.len() - 1) as nat));
    }
}

/// The file of each icon of a harvest is the name it took, and holds its markup.
pub proof fn icon_files_hold_the_markup(icons: Seq<IconView>)
    ensures
        icon_files(icons).len() == icon_names(icons).len(),
        forall|i: int|
            0 <= i < icon_files(icons).len() ==> {
                let f = #[trigger] icon_files(icons)[i];
                &&& f.file == icon_names(icons)[i] + ".svg"@
                &&& 0 <= f.source < icons.len()
                &&& icons[f.source].markup == Some(f.markup)
            },
    decreases icons.len(),
{
    if icons.len() > 0 {
        icon_files_hold_the_markup(icons.drop_last());
        let before = icon_files(icons.drop_last());
        assert forall|i: int| 0 <= i < icon_files(icons).len() implies {
            let f = #[trigger] icon_files(icons)[i];
            &&& f.file == icon_names(icons)[i] + ".svg"@
            &&& 0 <= f.source < icons.len()
            &&& icons[f.source].markup == Some(f.markup)
        } by {
            if i < before.len() {
                assert(icon_files(icons)[i] == before[i]);
                assert(icons.drop_last()[before[i].source] == icons[before[i].source]);
            }
        }
    }
}

// ---------------------------------------------------------------------------
// What a file is called and what it holds
// ---------------------------------------------------------------------------

/// The ASCII letters and digits of a text, in lower case.
pub open spec fn word_chars(s: Seq<char>) -> Seq<char>
    decreases s.len(),
{
    if s.len() == 0 {
        Seq::empty()
    } else {
        let c = s.last();
        let head = word_chars(s.drop_last());
        if 'A' <= c <= 'Z' {
            head.push(((c as int - 'A' as int) + 'a' as int) as char)
        } else if 'a' <= c <= 'z' || '0' <= c <= '9' {
            head.push(c)
        } else {
            head
        }
    }
}

proof fn dashed_keeps_words(s: Seq<char>)
    ensures
        word_chars(dashed(s)) == word_chars(s),
    decreases s.len(),
{
    if s.len() > 0 {
        let short = s.drop_last();
        let head = dashed(short);
        dashed_keeps_words(short);
        if dashed(s).len() > head.len() {
            assert(dashed(s).drop_last() =~= head);
        }
    }
}

proof fn undashed_keeps_words(s: Seq<char>)
    ensures
        word_chars(undashed(s)) == word_chars(s),
    decreases s.len(),
{
    if s.len() > 0 && s.last() == '-' {
        undashed_keeps_words(s.drop_last());
    }
}

/// A slug tells the letters and digits of its label, all of them and in their order, as
/// long as there is room.
pub proof fn a_slug_tells_the_label(s: Seq<char>)
    ensures
        slug(s).len() < 48 ==> word_chars(slug(s)) == word_chars(s),
{
    let full = undashed(dashed(s));
    dashed_keeps_words(s);
    undashed_keeps_words(dashed(s));
    if slug(s).len() < 48 {
        assert(slug(s) =~= full);
    }
}

/// A text that is a slug: lower-case letters, digits and single dashes between them.
pub open spec fn is_slug(s: Seq<char>) -> bool {
    &&& s.len() > 0 ==> s[0] != '-' && s.last() != '-'
    &&& forall|i: int| 0 <= i < s.len() ==> slug_char(#[trigger] s[i])
    &&& forall|i: int, j: int|
        0 <= i && j == i + 1 && j < s.len() && #[trigger] s[i] == '-' ==> #[trigger] s[j] != '-'
}

proof fn dashed_leaves_clean(s: Seq<char>)
    requires
        s.len() > 0 ==> s[0] != '-',
        forall|i: int| 0 <= i < s.len() ==> slug_char(#[trigger] s[i]),
        forall|i: int, j: int|
            0 <= i && j == i + 1 && j < s.len() && #[trigger] s[i] == '-' ==> #[trigger] s[j] != '-',
    ensures
        dashed(s) == s,
    decreases s.len(),
{
    if s.len() > 0 {
        let short = s.drop_last();
        assert forall|i: int| 0 <= i < short.len() implies slug_char(#[trigger] short[i]) by {
            assert(short[i] == s[i]);
        }
        assert forall|i: int, j: int|
            0 <= i && j == i + 1 && j < short.len() && #[trigger] short[i] == '-' implies
                #[trigger] short[j] != '-' by {
            assert(short[i] == s[i] && short[j] == s[j]);
        }
        dashed_leaves_clean(short);
        let n = s.len() - 1;
        assert(slug_char(s[n]));
        if s[n] == '-' {
            assert(short.len() > 0);
            assert(s[n - 1] != '-' || s[n] != '-');
            assert(short.last() == s[n - 1]);
        }
        assert(short.push(s[n]) =~= s);
    }
}

/// What is a slug already stays as it is.
pub proof fn a_slug_is_its_own_slug(s: Seq<char>)
    requires
        is_slug(s),
        s.len() <= 48,
    ensures
        slug(s) == s,
{
    dashed_leaves_clean(s);
    assert(undashed(s) == s);
    assert(s.take(s.len() as int) =~= s);
}

/// A stem that is not in use is the name itself, and every name begins with its stem.
pub proof fn a_name_is_its_stem_where_it_can_be(used: Seq<Seq<char>>, stem: Seq<char>)
    ensures
        !used.contains(stem) ==> unused_name(used, stem) == stem,
        begins(unused_name(used, stem), stem),
{
    broadcast use crate::text::group_parts;

    let k = choose|k: nat| first_unused(used, stem, k);
    if !used.contains(stem) {
        assert(candidate(stem, 0) == stem);
        assert(first_unused(used, stem, 0));
        assert(first_unused(used, stem, k));
        first_unused_is_unique(used, stem, 0, k);
    }
    assert(begins(stem, stem));
}

/// The extension of a font file goes by the format: a format that is not known is that of
/// a compressed web font.
pub proof fn font_extensions_go_by_the_format(format: Seq<char>)
    ensures
        font_ext(format) == "woff"@ <==> format == "woff"@,
        font_ext(format) == "otf"@ <==> format == "opentype"@,
        font_ext(format) == "ttf"@ <==> format == "truetype"@,
        font_ext(format) == "woff2"@ <==> format != "woff"@ && format != "opentype"@ && format
            != "truetype"@,
{
    reveal_strlit("woff");
    reveal_strlit("opentype");
    reveal_strlit("truetype");
    reveal_strlit("otf");
    reveal_strlit("ttf");
    reveal_strlit("woff2");
    assert("woff"@.len() == 4 && "opentype"@.len() == 8 && "truetype"@.len() == 8 && "otf"@.len()
        == 3 && "ttf"@.len() == 3 && "woff2"@.len() == 5);
    assert("opentype"@[0] == 'o' && "truetype"@[0] == 't' && "otf"@[0] == 'o' && "ttf"@[0] == 't');
}

/// The extension of an image file goes by what the media type names.
pub proof fn image_extensions_go_by_the_media_type(mime: Seq<char>)
    ensures
        image_ext(mime) == "jpg"@ <==> occurs(mime, "jpeg"@) || occurs(mime, "jpg"@),
        image_ext(mime) == "gif"@ ==> occurs(mime, "gif"@),
        image_ext(mime) == "webp"@ ==> occurs(mime, "webp"@),
        image_ext(mime) == "svg"@ ==> occurs(mime, "svg"@),
        image_ext(mime) == "png"@ <==> !occurs(mime, "jpeg"@) && !occurs(mime, "jpg"@) && !occurs(
            mime,
            "gif"@,
        ) && !occurs(mime, "webp"@) && !occurs(mime, "svg"@),
{
    reveal_strlit("jpg");
    reveal_strlit("gif");
    reveal_strlit("webp");
    reveal_strlit("svg");
    reveal_strlit("png");
    assert("jpg"@.len() == 3 && "gif"@.len() == 3 && "webp"@.len() == 4 && "svg"@.len() == 3
        && "png"@.len() == 3);
    assert("jpg"@[0] == 'j' && "gif"@[0] == 'g' && "svg"@[0] == 's' && "png"@[0] == 'p');
}

/// The file is that of the font: its bytes, what the page said of it, and the usual where
/// the page said nothing.
pub open spec fn holds_font(file: FontFileView, f: FontView) -> bool {
    &&& payload(f.base64) == Some(file.bytes)
    &&& f.family matches Some(t) ==> file.family == t
    &&& f.weight matches Some(t) ==> file.weight == t
    &&& f.style matches Some(t) ==> file.style == t
    &&& f.format matches Some(t) ==> file.format == t
    &&& f.family is None ==> file.family == "font"@
    &&& f.weight is None ==> file.weight == "400"@
    &&& f.style is None ==> file.style == "normal"@
    &&& f.format is None ==> file.format == "woff2"@
    &&& ends(file.file, "."@ + font_ext(file.format))
    &&& begins(file.file, font_stem(f))
}

/// Every font with readable bytes has its file, and every file is that of a font.
pub proof fn every_readable_font_has_its_file(fonts: Seq<FontView>, i: int)
    requires
        0 <= i < fonts.len(),
    ensures
        payload(fonts[i].base64) is Some ==> exists|k: int|
            0 <= k < font_files(fonts).len() && holds_font(
                #[trigger] font_files(fonts)[k],
                fonts[i],
            ),
        font_files(fonts).len() <= fonts.len(),
    decreases fonts.len(),
{
    let short = fonts.drop_last();
    let (head, all) = (font_files(short), font_files(fonts));
    assert(font_files(Seq::<FontView>::empty()).len() == 0);
    if short.len() == 0 {
        assert(short =~= Seq::empty());
    } else {
        every_readable_font_has_its_file(
            short,
            if i < short.len() {
                i
            } else {
                0
            },
        );
    }
    if i < short.len() {
        assert(fonts[i] == short[i]);
        if payload(fonts[i].base64) is Some {
            let k = choose|k: int| 0 <= k < head.len() && holds_font(#[trigger] head[k], short[i]);
            assert(all[k] == head[k]);
        }
    } else if let Some(bytes) = payload(fonts.last().base64) {
        let f = fonts.last();
        let name = unused_name(font_names(short), font_stem(f));
        a_name_is_its_stem_where_it_can_be(font_names(short), font_stem(f));
        file_name_parts(name, font_ext(text_or(f.format, "woff2"@)), font_stem(f));
        assert(holds_font(all[head.len() as int], fonts[i]));
    }
}

proof fn file_name_parts(name: Seq<char>, ext: Seq<char>, stem: Seq<char>)
    requires
        begins(name, stem),
    ensures
        ends(name + "."@ + ext, "."@ + ext),
        begins(name + "."@ + ext, stem),
{
    broadcast use crate::text::group_parts;

    let (all, tail) = (name + "."@ + ext, "."@ + ext);
    assert(all.subrange(all.len() - tail.len(), all.len() as int) =~= tail);
    assert(begins(name + "."@, stem));
}

/// The file is that of the image at its place in the harvest: its bytes, what the page
/// said of it, and the usual where the page said nothing.
pub open spec fn holds_image(file: ImageFileView, im: ImageView, place: int) -> bool {
    &&& file.source == place
    &&& payload(im.base64) == Some(file.bytes)
    &&& im.label matches Some(t) ==> file.label == t
    &&& im.label is None ==> file.label == "image"@
    &&& im.via matches Some(t) ==> file.via == t
    &&& im.via is None ==> file.via == "fetch"@
    &&& im.mime matches Some(t) ==> ends(file.file, "."@ + image_ext(t))
    &&& im.label matches Some(t) ==> begins(file.file, slug(t))
}

/// Every image with readable bytes has its file, which tells its place.
pub proof fn every_readable_image_has_its_file(images: Seq<ImageView>, i: int)
    requires
        0 <= i < images.len(),
    ensures
        payload(images[i].base64) is Some ==> exists|k: int|
            0 <= k < image_files(images).len() && holds_image(
                #[trigger] image_files(images)[k],
                images[i],
                i,
            ),
        image_files(images).len() <= images.len(),
    decreases images.len(),
{
    let short = images.drop_last();
    let (head, all) = (image_files(short), image_files(images));
    assert(image_files(Seq::<ImageView>::empty()).len() == 0);
    if short.len() == 0 {
        assert(short =~= Seq::empty());
    } else {
        every_readable_image_has_its_file(
            short,
            if i < short.len() {
                i
            } else {
                0
            },
        );
    }
    if i < short.len() {
        assert(images[i] == short[i]);
        if payload(images[i].base64) is Some {
            let k = choose|k: int|
                0 <= k < head.len() && holds_image(#[trigger] head[k], short[i], i);
            assert(all[k] == head[k]);
        }
    } else if let Some(bytes) = payload(images.last().base64) {
        let im = images.last();
        let stem = image_stem(im, i as nat);
        let name = unused_name(image_names(short), stem);
        a_name_is_its_stem_where_it_can_be(image_names(short), stem);
        let ext = image_ext(text_or(im.mime, "image/png"@));
        file_name_parts(name, ext, stem);
        if let Some(t) = im.label {
            let s = slug(t);
            if s.len() == 0 {
                assert(s =~= Seq::<char>::empty());
                assert(all[head.len() as int].file.subrange(0, 0) =~= s);
            }
        }
        assert(holds_image(all[head.len() as int], images[i], i));
    }
}

/// Every icon with markup has its file, which holds the markup and tells its place.
pub proof fn every_icon_has_its_file(icons: Seq<IconView>, i: int)
    requires
        0 <= i < icons.len(),
    ensures
        icons[i].markup matches Some(m) ==> exists|k: int|
            0 <= k < icon_files(icons).len() && (#[trigger] icon_files(icons)[k]).source == i
                && icon_files(icons)[k].markup == m && ends(icon_files(icons)[k].file, ".svg"@),
        icon_files(icons).len() <= icons.len(),
    decreases icons.len(),
{
    let short = icons.drop_last();
    let (head, all) = (icon_files(short), icon_files(icons));
    assert(icon_files(Seq::<IconView>::empty()).len() == 0);
    if short.len() == 0 {
        assert(short =~= Seq::empty());
    } else {
        every_icon_has_its_file(
            short,
            if i < short.len() {
                i
            } else {
                0
            },
        );
    }
    if i < short.len() {
        assert(icons[i] == short[i]);
        if let Some(m) = icons[i].markup {
            let k = choose|k: int|
                0 <= k < head.len() && (#[trigger] head[k]).source == i && head[k].markup == m
                    && ends(head[k].file, ".svg"@);
            assert(all[k] == head[k]);
        }
    } else if let Some(m) = icons.last().markup {
        let f = all[head.len() as int];
        assert(f.file.subrange(f.file.len() - ".svg"@.len(), f.file.len() as int) =~= ".svg"@);
        assert(f.source == i && f.markup == m && ends(f.file, ".svg"@));
    }
}

/// An image or icon without a name to speak of goes by its place.
pub proof fn what_has_no_name_goes_by_its_place(im: ImageView, ic: IconView, place: nat)
    ensures
        im.label matches Some(t) ==> slug(t).len() == 0 ==> begins(image_stem(im, place), "image-"@)
            && ends(image_stem(im, place), decimal(place)),
        ic.data_qa matches Some(t) ==> slug(t).len() > 0 ==> icon_stem(ic, place) == slug(t),
        ic.data_qa matches Some(t) ==> slug(t).len() == 0 ==> begins(icon_stem(ic, place), "icon-"@)
            && ends(icon_stem(ic, place), decimal(place)),
{
    broadcast use crate::text::group_parts;

    let d = decimal(place);
    let (a, b) = ("image-"@ + d, "icon-"@ + d);
    assert(a.subrange(a.len() - d.len(), a.len() as int) =~= d);
    assert(b.subrange(b.len() - d.len(), b.len() as int) =~= d);
}

/// A font's name tells its family, its weight and its style, in this order.
pub proof fn a_font_name_tells_the_font(f: FontView)
    ensures
        f.family matches Some(t) ==> begins(font_stem(f), slug(t)),
        f.weight matches Some(t) ==> occurs(font_stem(f), "-"@ + t + "-"@),
        f.style matches Some(t) ==> ends(font_stem(f), "-"@ + slug(t)),
{
    broadcast use crate::text::group_parts;

    let family = slug(text_or(f.family, "font"@));
    let weight = text_or(f.weight, "400"@);
    let style = slug(text_or(f.style, "normal"@));
    let all = font_stem(f);
    assert(all =~= family + ("-"@ + weight + "-"@) + style);
    assert(all =~= (family + "-"@ + weight) + ("-"@ + style));
    let tail = "-"@ + style;
    assert(all.subrange(all.len() - tail.len(), all.len() as int) =~= tail);
}

} // verus!
