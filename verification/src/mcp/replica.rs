//! Making a finished replica self-contained.
//!
//! A replica's `index.html` refers to files beside it (icons, images, fonts). To
//! show it in a frame without a base URL, each local reference becomes a `data:`
//! URI. Files are read by the caller: [`inline_replica_assets`] works on what has
//! been read so far and says which file it needs next.

use crate::encoding::{base64_encode, base64_fits, base64_text, reads_as};
use crate::text::{
    begins, chars_of, copy_of, ends, ends_with, find_from, index_from, index_from_is_first, lower,
    lower_text, occurs, occurs_at, opt_view, same, starts_with, string_of, trim, trimmed,
};
use vstd::prelude::*;

verus! {

/// The media type that a file name stands for.
pub open spec fn mime_text(path: Seq<char>) -> Seq<char> {
    let p = lower(path);
    if ends(p, ".png"@) {
        "image/png"@
    } else if ends(p, ".jpg"@) || ends(p, ".jpeg"@) {
        "image/jpeg"@
    } else if ends(p, ".svg"@) {
        "image/svg+xml"@
    } else if ends(p, ".gif"@) {
        "image/gif"@
    } else if ends(p, ".webp"@) {
        "image/webp"@
    } else if ends(p, ".woff2"@) {
        "font/woff2"@
    } else if ends(p, ".woff"@) {
        "font/woff"@
    } else if ends(p, ".ttf"@) {
        "font/ttf"@
    } else if ends(p, ".otf"@) {
        "font/otf"@
    } else {
        "application/octet-stream"@
    }
}

/// The media type that a file name stands for.
pub fn mime_for(path: &str) -> (r: &'static str)
    ensures
        r@ == mime_text(path@),
{
    let lowered = lower_text(path);
    let p = lowered.as_str();
    if ends_with(p, ".png") {
        "image/png"
    } else if ends_with(p, ".jpg") || ends_with(p, ".jpeg") {
        "image/jpeg"
    } else if ends_with(p, ".svg") {
        "image/svg+xml"
    } else if ends_with(p, ".gif") {
        "image/gif"
    } else if ends_with(p, ".webp") {
        "image/webp"
    } else if ends_with(p, ".woff2") {
        "font/woff2"
    } else if ends_with(p, ".woff") {
        "font/woff"
    } else if ends_with(p, ".ttf") {
        "font/ttf"
    } else if ends_with(p, ".otf") {
        "font/otf"
    } else {
        "application/octet-stream"
    }
}

/// The part of `s` before its first `?` or `#`.
pub open spec fn before_query(s: Seq<char>) -> Seq<char>
    decreases s.len(),
{
    if s.len() == 0 || s[0] == '?' || s[0] == '#' {
        Seq::empty()
    } else {
        seq![s[0]] + before_query(s.skip(1))
    }
}

/// How far below the folder a path stands once it has gone through one more
/// component. `None` where it would leave the folder.
pub open spec fn stepped(component: Seq<char>, depth: nat) -> Option<nat> {
    if component == ".."@ {
        if depth == 0 {
            None
        } else {
            Some((depth - 1) as nat)
        }
    } else if component.len() == 0 || component == "."@ {
        Some(depth)
    } else {
        Some(depth + 1)
    }
}

/// A path stays in the folder: `component` is what was read of its next component,
/// `rest` is still to be read, and `depth` is how far below the folder it stands.
pub open spec fn inside(rest: Seq<char>, component: Seq<char>, depth: nat) -> bool
    decreases rest.len(),
{
    if rest.len() == 0 {
        stepped(component, depth) is Some
    } else if rest[0] == '/' {
        stepped(component, depth) matches Some(d) && inside(rest.skip(1), Seq::empty(), d)
    } else {
        inside(rest.skip(1), component.push(rest[0]), depth)
    }
}

/// A relative path never leaves the folder that it starts in, on no part of its
/// way.
pub open spec fn stays_inside(path: Seq<char>) -> bool {
    inside(path, Seq::empty(), 0)
}

fn is_inside(path: &str) -> (r: bool)
    ensures
        r == stays_inside(path@),
{
    let chars = chars_of(path);
    let n: usize = chars.len();
    let mut component = String::new();
    let mut depth: usize = 0;
    assert(path@.skip(0) =~= path@);
    assert(component@ =~= Seq::empty());
    for i in 0..n
        invariant
            n == chars.len(),
            chars@ == path@,
            depth <= i,
            stays_inside(path@) == inside(path@.skip(i as int), component@, depth as nat),
    {
        let c = chars[i];
        assert(path@.skip(i as int).skip(1) =~= path@.skip(i + 1));
        if c == '/' {
            if same(component.as_str(), "..") {
                if depth == 0 {
                    return false;
                }
                depth = depth - 1;
            } else if !component.as_str().is_empty() && !same(component.as_str(), ".") {
                depth = depth + 1;
            }
            component = String::new();
            assert(component@ =~= Seq::empty());
        } else {
            component.push(c);
        }
    }
    assert(path@.skip(n as int).len() == 0);
    !(same(component.as_str(), "..") && depth == 0)
}

/// The file, relative to the replica's folder, that a reference names. `None` for
/// what is left as it is: an empty reference, `data:` and remote URLs, absolute
/// paths, fragments, and paths that lead out of the folder.
pub open spec fn local_path(reference: Seq<char>) -> Option<Seq<char>> {
    let r = trimmed(reference);
    if r.len() == 0 || begins(r, "data:"@) || begins(r, "http://"@) || begins(r, "https://"@)
        || begins(r, "//"@) || begins(r, "/"@) || begins(r, "#"@) {
        None
    } else if stays_inside(before_query(r)) {
        Some(before_query(r))
    } else {
        None
    }
}

fn drop_query(t: &str) -> (r: String)
    ensures
        r@ == before_query(t@),
{
    let chars = chars_of(t);
    let mut out = String::new();
    assert(t@.skip(0) =~= t@);
    assert(before_query(t@) =~= out@ + before_query(t@.skip(0)));
    for i in 0..chars.len()
        invariant
            chars@ == t@,
            before_query(t@) == out@ + before_query(t@.skip(i as int)),
    {
        let c = chars[i];
        let ghost rest = t@.skip(i as int);
        assert(rest.skip(1) =~= t@.skip(i + 1));
        if c == '?' || c == '#' {
            assert(out@ + before_query(rest) =~= out@);
            return out;
        }
        assert(out@ + (seq![c] + before_query(rest.skip(1))) =~= out@.push(c) + before_query(
            rest.skip(1),
        ));
        out.push(c);
    }
    assert(out@ + before_query(t@.skip(t@.len() as int)) =~= out@);
    out
}

/// The file, relative to the replica's folder, that a reference names.
pub fn local_file(reference: &str) -> (r: Option<String>)
    ensures
        opt_view(r) == local_path(reference@),
{
    let kept = trim(reference);
    let t = kept.as_str();
    if t.is_empty() || starts_with(t, "data:") || starts_with(t, "http://") || starts_with(
        t,
        "https://",
    ) || starts_with(t, "//") || starts_with(t, "/") || starts_with(t, "#") {
        return None;
    }
    let path = drop_query(t);
    if is_inside(path.as_str()) {
        Some(path)
    } else {
        None
    }
}

/// A file as a `data:` URI.
pub open spec fn uri_text(path: Seq<char>, bytes: Seq<u8>) -> Seq<char> {
    "data:"@ + mime_text(path) + ";base64,"@ + base64_text(bytes)
}

/// A file as a `data:` URI, from which the bytes of the file can be read back.
pub fn data_uri(path: &str, bytes: &[u8]) -> (r: String)
    requires
        base64_fits(bytes@.len()),
    ensures
        r@ == uri_text(path@, bytes@),
        reads_as(base64_text(bytes@), bytes@),
{
    let mut out = copy_of("data:");
    out.push_str(mime_for(path));
    out.push_str(";base64,");
    out.push_str(base64_encode(bytes).as_str());
    out
}

/// A file that was looked for: its `data:` URI, or `None` where it could not be
/// read.
#[derive(Debug)]
pub struct Asset {
    pub path: String,
    pub uri: Option<String>,
}

/// What is known of a file: nothing, that it cannot be read, or its `data:` URI.
pub open spec fn known(assets: Seq<Asset>, path: Seq<char>) -> Option<Option<Seq<char>>>
    decreases assets.len(),
{
    if assets.len() == 0 {
        None
    } else if assets[0].path@ == path {
        Some(opt_view(assets[0].uri))
    } else {
        known(assets.skip(1), path)
    }
}

/// What stands for a reference once its file is known; the file where it is not.
pub open spec fn resolved(assets: Seq<Asset>, reference: Seq<char>) -> Result<Seq<char>, Seq<char>> {
    match local_path(reference) {
        None => Ok(reference),
        Some(path) => match known(assets, path) {
            None => Err(path),
            Some(None) => Ok(reference),
            Some(Some(uri)) => Ok(uri),
        },
    }
}

fn resolve(assets: &Vec<Asset>, reference: &str) -> (r: Result<String, String>)
    ensures
        match r {
            Ok(t) => resolved(assets@, reference@) == Ok::<Seq<char>, Seq<char>>(t@),
            Err(p) => resolved(assets@, reference@) == Err::<Seq<char>, Seq<char>>(p@),
        },
{
    let path = match local_file(reference) {
        Some(p) => p,
        None => {
            return Ok(copy_of(reference));
        },
    };
    assert(assets@.skip(0) =~= assets@);
    for i in 0..assets.len()
        invariant
            known(assets@, path@) == known(assets@.skip(i as int), path@),
            local_path(reference@) == Some(path@),
    {
        assert(assets@.skip(i as int).skip(1) =~= assets@.skip(i + 1));
        if same(assets[i].path.as_str(), path.as_str()) {
            return match &assets[i].uri {
                Some(uri) => Ok(copy_of(uri.as_str())),
                None => Ok(copy_of(reference)),
            };
        }
    }
    Err(path)
}

/// `head`, `middle` and what `tail` came to, where it came to a text.
pub open spec fn continued(
    head: Seq<char>,
    middle: Seq<char>,
    tail: Result<Seq<char>, Seq<char>>,
) -> Result<Seq<char>, Seq<char>> {
    match tail {
        Ok(t) => Ok(head + middle + t),
        Err(p) => Err(p),
    }
}

/// `html` from `from` on with every `<delim>PATH<quote>` whose PATH is a readable
/// local file replaced; the quote is the last character of `delim`. An unclosed
/// quote ends the search.
pub open spec fn quoted(
    assets: Seq<Asset>,
    html: Seq<char>,
    delim: Seq<char>,
    from: int,
) -> Result<Seq<char>, Seq<char>>
    decreases html.len() - from,
{
    if from < 0 || from > html.len() || delim.len() == 0 {
        Ok(Seq::empty())
    } else {
        match index_from(html, delim, from) {
            None => Ok(html.skip(from)),
            Some(i) => {
                let start = i + delim.len();
                match index_from(html, seq![delim.last()], start) {
                    None => Ok(html.skip(from)),
                    Some(end) => if from <= i && start <= end < html.len() {
                        match resolved(assets, html.subrange(start, end)) {
                            Err(p) => Err(p),
                            Ok(t) => continued(
                                html.subrange(from, start),
                                t.push(delim.last()),
                                quoted(assets, html, delim, end + 1),
                            ),
                        }
                    } else {
                        Ok(Seq::empty())
                    },
                }
            },
        }
    }
}

/// The quote that closes a CSS URL that starts at `at`: how many characters open
/// it, and the one that closes it.
pub open spec fn css_close(html: Seq<char>, at: int) -> (int, char) {
    if 0 <= at < html.len() && html[at] == '"' {
        (1, '"')
    } else if 0 <= at < html.len() && html[at] == '\'' {
        (1, '\'')
    } else {
        (0, ')')
    }
}

/// `html` from `from` on with every CSS `url(PATH)`, quoted or not, whose PATH is a
/// readable local file replaced. An unclosed URL ends the search.
pub open spec fn css_urls(assets: Seq<Asset>, html: Seq<char>, from: int) -> Result<
    Seq<char>,
    Seq<char>,
>
    decreases html.len() - from,
{
    if from < 0 || from > html.len() {
        Ok(Seq::empty())
    } else {
        match index_from(html, "url("@, from) {
            None => Ok(html.skip(from)),
            Some(i) => {
                let (skip, close) = css_close(html, i + 4);
                let start = i + 4 + skip;
                match index_from(html, seq![close], start) {
                    None => Ok(html.skip(from)),
                    Some(end) => if from <= i && start <= end < html.len() {
                        match resolved(assets, html.subrange(start, end)) {
                            Err(p) => Err(p),
                            Ok(t) => continued(
                                html.subrange(from, start),
                                t,
                                css_urls(assets, html, end),
                            ),
                        }
                    } else {
                        Ok(Seq::empty())
                    },
                }
            },
        }
    }
}

/// `f` applied to what came out, where a text came out.
pub open spec fn after(
    r: Result<Seq<char>, Seq<char>>,
    f: spec_fn(Seq<char>) -> Result<Seq<char>, Seq<char>>,
) -> Result<Seq<char>, Seq<char>> {
    match r {
        Ok(t) => f(t),
        Err(p) => Err(p),
    }
}

/// The replica with its local references inlined: the attributes `src` and `href`
/// in either kind of quotes, then CSS URLs. Where a file has not been looked for
/// yet, that file instead.
pub open spec fn inlined(assets: Seq<Asset>, html: Seq<char>) -> Result<Seq<char>, Seq<char>> {
    let a = quoted(assets, html, "src=\""@, 0);
    let b = after(a, |t: Seq<char>| quoted(assets, t, "src='"@, 0));
    let c = after(b, |t: Seq<char>| quoted(assets, t, "href=\""@, 0));
    let d = after(c, |t: Seq<char>| quoted(assets, t, "href='"@, 0));
    after(d, |t: Seq<char>| css_urls(assets, t, 0))
}

/// The one-character text of `c`.
fn one(c: char) -> (r: Vec<char>)
    ensures
        r@ == seq![c],
{
    let mut v: Vec<char> = Vec::new();
    v.push(c);
    v
}

/// Replace every `<delim>PATH<quote>` (e.g. `src="icons/x.png"`) whose PATH is a
/// readable local file with its data: URI. `Err` holds the first file that has not
/// been looked for.
pub fn replace_quoted(html: &str, delim: &str, assets: &Vec<Asset>) -> (r: Result<String, String>)
    requires
        delim@.len() > 0,
    ensures
        match r {
            Ok(t) => quoted(assets@, html@, delim@, 0) == Ok::<Seq<char>, Seq<char>>(t@),
            Err(p) => quoted(assets@, html@, delim@, 0) == Err::<Seq<char>, Seq<char>>(p@),
        },
{
    let hay = chars_of(html);
    let pat = chars_of(delim);
    let quote = pat[pat.len() - 1];
    let close = one(quote);
    let mut out = String::new();
    let mut from: usize = 0;
    let ghost whole = quoted(assets@, html@, delim@, 0);
    proof {
        assert(whole == continued(out@, Seq::empty(), whole)) by {
            if let Ok(t) = whole {
                assert(out@ + Seq::<char>::empty() + t =~= t);
            }
        }
    }
    loop
        invariant
            hay@ == html@,
            pat@ == delim@,
            delim@.len() > 0,
            quote == delim@.last(),
            close@ == seq![quote],
            from <= hay.len(),
            whole == quoted(assets@, html@, delim@, 0),
            whole == continued(
                out@,
                Seq::empty(),
                quoted(assets@, html@, delim@, from as int),
            ),
        decreases hay.len() - from,
    {
        let rest = string_of(&hay, from, hay.len());
        assert(rest@ =~= html@.skip(from as int));
        assert(out@ + Seq::<char>::empty() =~= out@);
        let i = match find_from(&hay, &pat, from) {
            Some(i) => i,
            None => {
                out.push_str(rest.as_str());
                return Ok(out);
            },
        };
        assert(i + pat.len() <= hay.len());
        let start = i + pat.len();
        let end = match find_from(&hay, &close, start) {
            Some(e) => e,
            None => {
                out.push_str(rest.as_str());
                return Ok(out);
            },
        };
        let path = string_of(&hay, start, end);
        match resolve(assets, path.as_str()) {
            Err(p) => {
                return Err(p);
            },
            Ok(t) => {
                let head = string_of(&hay, from, start);
                proof {
                    let tail = quoted(assets@, html@, delim@, end + 1);
                    if let Ok(rest_text) = tail {
                        assert(out@ + (head@ + t@.push(quote) + rest_text) =~= (out@ + head@ + t@).push(
                            quote,
                        ) + Seq::<char>::empty() + rest_text);
                    }
                }
                out.push_str(head.as_str());
                out.push_str(t.as_str());
                out.push(quote);
                from = end + 1;
            },
        }
    }
}

/// Replace CSS `url(PATH)` (optionally quoted) local refs with data: URIs. `Err`
/// holds the first file that has not been looked for.
pub fn replace_css_urls(html: &str, assets: &Vec<Asset>) -> (r: Result<String, String>)
    ensures
        match r {
            Ok(t) => css_urls(assets@, html@, 0) == Ok::<Seq<char>, Seq<char>>(t@),
            Err(p) => css_urls(assets@, html@, 0) == Err::<Seq<char>, Seq<char>>(p@),
        },
{
    let hay = chars_of(html);
    let pat = chars_of("url(");
    let mut out = String::new();
    let mut from: usize = 0;
    let ghost whole = css_urls(assets@, html@, 0);
    proof {
        reveal_strlit("url(");
        assert(whole == continued(out@, Seq::empty(), whole)) by {
            if let Ok(t) = whole {
                assert(out@ + Seq::<char>::empty() + t =~= t);
            }
        }
    }
    loop
        invariant
            hay@ == html@,
            pat@ == "url("@,
            pat@.len() == 4,
            from <= hay.len(),
            whole == css_urls(assets@, html@, 0),
            whole == continued(out@, Seq::empty(), css_urls(assets@, html@, from as int)),
        decreases hay.len() - from,
    {
        let rest = string_of(&hay, from, hay.len());
        assert(rest@ =~= html@.skip(from as int));
        assert(out@ + Seq::<char>::empty() =~= out@);
        let i = match find_from(&hay, &pat, from) {
            Some(i) => i,
            None => {
                out.push_str(rest.as_str());
                return Ok(out);
            },
        };
        assert(i + pat.len() <= hay.len());
        let at = i + 4;
        let skip: usize = if at < hay.len() && (hay[at] == '"' || hay[at] == '\'') {
            1
        } else {
            0
        };
        let close: char = if skip == 1 {
            hay[at]
        } else {
            ')'
        };
        assert((skip as int, close) == css_close(html@, at as int));
        let start = at + skip;
        let end = match find_from(&hay, &one(close), start) {
            Some(e) => e,
            None => {
                out.push_str(rest.as_str());
                return Ok(out);
            },
        };
        let path = string_of(&hay, start, end);
        match resolve(assets, path.as_str()) {
            Err(p) => {
                return Err(p);
            },
            Ok(t) => {
                let head = string_of(&hay, from, start);
                proof {
                    let tail = css_urls(assets@, html@, end as int);
                    if let Ok(rest_text) = tail {
                        assert(out@ + (head@ + t@ + rest_text) =~= (out@ + head@ + t@) + Seq::<
                            char,
                        >::empty() + rest_text);
                    }
                }
                out.push_str(head.as_str());
                out.push_str(t.as_str());
                from = end;
            },
        }
    }
}

/// The replica with every local reference inlined. `Err` holds a file that has not
/// been looked for: look for it, add it to `assets` and call again.
pub fn inline_replica_assets(html: &str, assets: &Vec<Asset>) -> (r: Result<String, String>)
    ensures
        match r {
            Ok(t) => inlined(assets@, html@) == Ok::<Seq<char>, Seq<char>>(t@),
            Err(p) => inlined(assets@, html@) == Err::<Seq<char>, Seq<char>>(p@),
        },
{
    proof {
        reveal_strlit("src=\"");
        reveal_strlit("src='");
        reveal_strlit("href=\"");
        reveal_strlit("href='");
    }
    let a = match replace_quoted(html, "src=\"", assets) {
        Ok(t) => t,
        Err(p) => {
            return Err(p);
        },
    };
    let b = match replace_quoted(a.as_str(), "src='", assets) {
        Ok(t) => t,
        Err(p) => {
            return Err(p);
        },
    };
    let c = match replace_quoted(b.as_str(), "href=\"", assets) {
        Ok(t) => t,
        Err(p) => {
            return Err(p);
        },
    };
    let d = match replace_quoted(c.as_str(), "href='", assets) {
        Ok(t) => t,
        Err(p) => {
            return Err(p);
        },
    };
    replace_css_urls(d.as_str(), assets)
}

// ---------------------------------------------------------------------------
// What holds of every replica
// ---------------------------------------------------------------------------

/// None of the files that were looked for could be read.
pub open spec fn unreadable(assets: Seq<Asset>) -> bool {
    forall|i: int| 0 <= i < assets.len() ==> (#[trigger] assets[i]).uri is None
}

proof fn unreadable_stays(assets: Seq<Asset>, reference: Seq<char>)
    requires
        unreadable(assets),
    ensures
        resolved(assets, reference) matches Ok(t) ==> t == reference,
{
    if let Some(path) = local_path(reference) {
        unreadable_known(assets, path);
    }
}

proof fn unreadable_known(assets: Seq<Asset>, path: Seq<char>)
    requires
        unreadable(assets),
    ensures
        known(assets, path) matches Some(uri) ==> uri is None,
    decreases assets.len(),
{
    if assets.len() > 0 {
        assert forall|i: int| 0 <= i < assets.skip(1).len() implies (#[trigger] assets.skip(
            1,
        )[i]).uri is None by {
            assert(assets.skip(1)[i] == assets[i + 1]);
        }
        unreadable_known(assets.skip(1), path);
        assert(assets[0].uri is None);
    }
}

proof fn quoted_unchanged(assets: Seq<Asset>, html: Seq<char>, delim: Seq<char>, from: int)
    requires
        unreadable(assets),
        0 <= from <= html.len(),
        delim.len() > 0,
    ensures
        quoted(assets, html, delim, from) matches Ok(t) ==> t == html.skip(from),
    decreases html.len() - from,
{
    index_from_is_first(html, delim, from);
    if let Some(i) = index_from(html, delim, from) {
        let start = i + delim.len();
        index_from_is_first(html, seq![delim.last()], start);
        if let Some(end) = index_from(html, seq![delim.last()], start) {
            unreadable_stays(assets, html.subrange(start, end));
            quoted_unchanged(assets, html, delim, end + 1);
            let path = html.subrange(start, end);
            assert(html.subrange(end, end + 1)[0] == delim.last());
            assert(html.subrange(from, start) + path.push(delim.last()) + html.skip(end + 1)
                =~= html.skip(from));
        }
    }
}

proof fn css_unchanged(assets: Seq<Asset>, html: Seq<char>, from: int)
    requires
        unreadable(assets),
        0 <= from <= html.len(),
    ensures
        css_urls(assets, html, from) matches Ok(t) ==> t == html.skip(from),
    decreases html.len() - from,
{
    reveal_strlit("url(");
    index_from_is_first(html, "url("@, from);
    if let Some(i) = index_from(html, "url("@, from) {
        let (skip, close) = css_close(html, i + 4);
        let start = i + 4 + skip;
        index_from_is_first(html, seq![close], start);
        if let Some(end) = index_from(html, seq![close], start) {
            unreadable_stays(assets, html.subrange(start, end));
            css_unchanged(assets, html, end);
            assert(html.subrange(from, start) + html.subrange(start, end) + html.skip(end)
                =~= html.skip(from));
        }
    }
}

/// A replica none of whose files can be read is shown as it was written.
pub proof fn unreadable_replica_is_unchanged(assets: Seq<Asset>, html: Seq<char>)
    requires
        unreadable(assets),
    ensures
        inlined(assets, html) matches Ok(t) ==> t == html,
{
    reveal_strlit("src=\"");
    reveal_strlit("src='");
    reveal_strlit("href=\"");
    reveal_strlit("href='");
    assert(html.skip(0) =~= html);
    quoted_unchanged(assets, html, "src=\""@, 0);
    quoted_unchanged(assets, html, "src='"@, 0);
    quoted_unchanged(assets, html, "href=\""@, 0);
    quoted_unchanged(assets, html, "href='"@, 0);
    css_unchanged(assets, html, 0);
}

proof fn quoted_asks_for_unknown(assets: Seq<Asset>, html: Seq<char>, delim: Seq<char>, from: int)
    ensures
        quoted(assets, html, delim, from) matches Err(p) ==> known(assets, p) is None && stays_inside(p),
    decreases html.len() - from,
{
    if 0 <= from <= html.len() && delim.len() > 0 {
        if let Some(i) = index_from(html, delim, from) {
            if let Some(end) = index_from(html, seq![delim.last()], i + delim.len()) {
                if from <= i && i + delim.len() <= end < html.len() {
                    quoted_asks_for_unknown(assets, html, delim, end + 1);
                }
            }
        }
    }
}

proof fn css_asks_for_unknown(assets: Seq<Asset>, html: Seq<char>, from: int)
    ensures
        css_urls(assets, html, from) matches Err(p) ==> known(assets, p) is None && stays_inside(p),
    decreases html.len() - from,
{
    if 0 <= from <= html.len() {
        if let Some(i) = index_from(html, "url("@, from) {
            let (skip, close) = css_close(html, i + 4);
            if let Some(end) = index_from(html, seq![close], i + 4 + skip) {
                if from <= i && i + 4 + skip <= end < html.len() {
                    css_asks_for_unknown(assets, html, end);
                }
            }
        }
    }
}

/// A file is asked for only where it has not been looked for, so asking ends once
/// the files that are named have been looked for. No file outside of the replica's
/// folder is asked for.
pub proof fn only_unknown_files_are_asked_for(assets: Seq<Asset>, html: Seq<char>)
    ensures
        inlined(assets, html) matches Err(p) ==> known(assets, p) is None && stays_inside(p),
{
    let a = quoted(assets, html, "src=\""@, 0);
    quoted_asks_for_unknown(assets, html, "src=\""@, 0);
    if let Ok(t) = a {
        quoted_asks_for_unknown(assets, t, "src='"@, 0);
        if let Ok(u) = quoted(assets, t, "src='"@, 0) {
            quoted_asks_for_unknown(assets, u, "href=\""@, 0);
            if let Ok(v) = quoted(assets, u, "href=\""@, 0) {
                quoted_asks_for_unknown(assets, v, "href='"@, 0);
                if let Ok(w) = quoted(assets, v, "href='"@, 0) {
                    css_asks_for_unknown(assets, w, 0);
                }
            }
        }
    }
}

/// A reference that leads out of the replica's folder is left as it is, whatever
/// was read.
pub proof fn references_out_of_the_folder_are_left(assets: Seq<Asset>, reference: Seq<char>)
    requires
        !stays_inside(before_query(trimmed(reference))),
    ensures
        resolved(assets, reference) == Ok::<Seq<char>, Seq<char>>(reference),
{
}

/// A path that starts by going up leads out of the folder.
pub proof fn going_up_first_leads_out(rest: Seq<char>)
    ensures
        !stays_inside("../"@ + rest),
        !stays_inside(".."@),
{
    reveal_strlit("../");
    reveal_strlit("..");
    let path = "../"@ + rest;
    assert(path.skip(1).skip(1) =~= seq!['/'] + rest);
    assert(Seq::<char>::empty().push('.').push('.') =~= ".."@);
    assert(inside(path, Seq::empty(), 0) == inside(path.skip(1), Seq::empty().push('.'), 0));
    assert(inside(path.skip(1), Seq::empty().push('.'), 0) == inside(
        path.skip(1).skip(1),
        ".."@,
        0,
    ));
    let bare = ".."@;
    assert(bare.skip(1).skip(1).len() == 0);
    assert(inside(bare, Seq::empty(), 0) == inside(bare.skip(1), Seq::empty().push('.'), 0));
    assert(inside(bare.skip(1), Seq::empty().push('.'), 0) == inside(
        bare.skip(1).skip(1),
        ".."@,
        0,
    ));
}

/// A file that has been looked for is known from then on.
pub proof fn looked_for_is_known(assets: Seq<Asset>, asset: Asset)
    requires
        known(assets, asset.path@) is None,
    ensures
        known(assets.push(asset), asset.path@) == Some(opt_view(asset.uri)),
    decreases assets.len(),
{
    if assets.len() > 0 {
        looked_for_is_known(assets.skip(1), asset);
        assert(assets.push(asset).skip(1) =~= assets.skip(1).push(asset));
    }
}

// ---------------------------------------------------------------------------
// What becomes of a reference
// ---------------------------------------------------------------------------

/// A media type is given only to a file whose name ends in what stands for it, whatever
/// its case; every other file is mere bytes.
pub proof fn media_types_go_by_the_extension(path: Seq<char>)
    ensures
        ({
            let (p, m) = (lower(path), mime_text(path));
            &&& m == "image/png"@ ==> ends(p, ".png"@)
            &&& m == "image/jpeg"@ ==> ends(p, ".jpg"@) || ends(p, ".jpeg"@)
            &&& m == "image/svg+xml"@ ==> ends(p, ".svg"@)
            &&& m == "image/gif"@ ==> ends(p, ".gif"@)
            &&& m == "image/webp"@ ==> ends(p, ".webp"@)
            &&& m == "font/woff2"@ ==> ends(p, ".woff2"@)
            &&& m == "font/woff"@ ==> ends(p, ".woff"@)
            &&& m == "font/ttf"@ ==> ends(p, ".ttf"@)
            &&& m == "font/otf"@ ==> ends(p, ".otf"@)
            &&& m == "application/octet-stream"@ <==> !ends(p, ".png"@) && !ends(p, ".jpg"@)
                && !ends(p, ".jpeg"@) && !ends(p, ".svg"@) && !ends(p, ".gif"@) && !ends(
                p,
                ".webp"@,
            ) && !ends(p, ".woff2"@) && !ends(p, ".woff"@) && !ends(p, ".ttf"@) && !ends(p, ".otf"@)
        }),
{
    reveal_strlit("image/png");
    reveal_strlit("image/jpeg");
    reveal_strlit("image/svg+xml");
    reveal_strlit("image/gif");
    reveal_strlit("image/webp");
    reveal_strlit("font/woff2");
    reveal_strlit("font/woff");
    reveal_strlit("font/ttf");
    reveal_strlit("font/otf");
    reveal_strlit("application/octet-stream");
    assert("image/png"@.len() == 9 && "image/jpeg"@.len() == 10 && "image/svg+xml"@.len() == 13
        && "image/gif"@.len() == 9 && "image/webp"@.len() == 10 && "font/woff2"@.len() == 10
        && "font/woff"@.len() == 9 && "font/ttf"@.len() == 8 && "font/otf"@.len() == 8
        && "application/octet-stream"@.len() == 24);
    assert("image/png"@[6] == 'p' && "image/gif"@[6] == 'g' && "font/woff"@[6] == 'o');
    assert("image/jpeg"@[6] == 'j' && "image/webp"@[6] == 'w' && "font/woff2"@[6] == 'o');
    assert("font/ttf"@[5] == 't' && "font/otf"@[5] == 'o');
}

/// The file that a reference names is all that stands before its first `?` or `#`.
pub proof fn a_query_is_cut_off(path: Seq<char>, query: Seq<char>)
    requires
        !path.contains('?'),
        !path.contains('#'),
        query.len() > 0 ==> query[0] == '?' || query[0] == '#',
    ensures
        before_query(path + query) == path,
    decreases path.len(),
{
    let all = path + query;
    if path.len() == 0 {
        assert(all =~= query);
        assert(path =~= Seq::empty());
    } else {
        let rest = path.skip(1);
        assert(all[0] == path[0]);
        assert(path.contains(path[0]));
        assert(all.skip(1) =~= rest + query);
        assert forall|c: char| rest.contains(c) implies path.contains(c) by {
            let k = choose|k: int| 0 <= k < rest.len() && rest[k] == c;
            assert(path[k + 1] == c);
        }
        a_query_is_cut_off(rest, query);
        assert(seq![path[0]] + rest =~= path);
    }
}

/// What is remote, absolute, inline already, a mere fragment or nothing names no file; what
/// names one begins with it, and the file is in the folder.
pub proof fn only_local_paths_name_files(reference: Seq<char>)
    ensures
        ({
            let r = trimmed(reference);
            begins(r, "data:"@) || begins(r, "http://"@) || begins(r, "https://"@) || begins(
                r,
                "//"@,
            ) || begins(r, "/"@) || begins(r, "#"@) || r.len() == 0 ==> local_path(reference)
                is None
        }),
        local_path(reference) matches Some(p) ==> begins(trimmed(reference), p) && !p.contains('?')
            && !p.contains('#') && stays_inside(p),
{
    before_query_is_prefix(trimmed(reference));
}

proof fn before_query_is_prefix(s: Seq<char>)
    ensures
        begins(s, before_query(s)),
        !before_query(s).contains('?') && !before_query(s).contains('#'),
    decreases s.len(),
{
    let p = before_query(s);
    if s.len() == 0 || s[0] == '?' || s[0] == '#' {
        assert(s.subrange(0, 0) =~= p);
    } else {
        let rest = before_query(s.skip(1));
        before_query_is_prefix(s.skip(1));
        assert(s.skip(1).subrange(0, rest.len() as int) == rest);
        assert(s.subrange(0, p.len() as int) =~= p) by {
            assert forall|i: int| 0 <= i < p.len() implies s[i] == p[i] by {
                if i > 0 {
                    assert(p[i] == rest[i - 1]);
                    assert(rest[i - 1] == s.skip(1).subrange(0, rest.len() as int)[i - 1]);
                }
            }
        }
        assert forall|i: int| 0 <= i < p.len() implies p[i] != '?' && p[i] != '#' by {
            if i > 0 {
                assert(p[i] == rest[i - 1]);
                assert(rest.contains(rest[i - 1]));
            }
        }
    }
}

proof fn no_dots_stay_inside(rest: Seq<char>, component: Seq<char>, depth: nat)
    requires
        !rest.contains('.'),
        !component.contains('.'),
    ensures
        inside(rest, component, depth),
    decreases rest.len(),
{
    reveal_strlit("..");
    assert(component != ".."@) by {
        if component == ".."@ {
            assert(component[0] == '.');
        }
    }
    if rest.len() > 0 {
        let next = rest.skip(1);
        assert forall|c: char| next.contains(c) implies rest.contains(c) by {
            let k = choose|k: int| 0 <= k < next.len() && next[k] == c;
            assert(rest[k + 1] == c);
        }
        if rest[0] == '/' {
            let d = stepped(component, depth)->0;
            no_dots_stay_inside(next, Seq::empty(), d);
        } else {
            assert(rest.contains(rest[0]));
            let longer = component.push(rest[0]);
            assert forall|i: int| 0 <= i < longer.len() implies longer[i] != '.' by {
                if i < component.len() {
                    assert(component.contains(component[i]));
                }
            }
            no_dots_stay_inside(next, longer, depth);
        }
    }
}

/// A path without dots stays in the folder.
pub proof fn a_path_without_dots_stays_inside(path: Seq<char>)
    requires
        !path.contains('.'),
    ensures
        stays_inside(path),
{
    no_dots_stay_inside(path, Seq::empty(), 0);
}

/// One component takes a path one level down, going up takes it back, and staying takes it
/// nowhere; there is no going up from the folder itself.
pub proof fn going_up_undoes_going_down(name: Seq<char>, depth: nat)
    requires
        name.len() > 0,
        name != ".."@,
        name != "."@,
    ensures
        stepped(name, depth) == Some(depth + 1),
        stepped(".."@, depth + 1) == Some(depth),
        stepped(".."@, 0) is None,
        stepped("."@, depth) == Some(depth),
        stepped(Seq::empty(), depth) == Some(depth),
{
    reveal_strlit("..");
    reveal_strlit(".");
    assert("."@.len() == 1 && ".."@.len() == 2);
}

/// A file is inlined as what its name says it is, with the bytes it has.
pub proof fn a_file_is_inlined_as_what_it_is(path: Seq<char>, bytes: Seq<u8>)
    ensures
        begins(uri_text(path, bytes), "data:"@ + mime_text(path) + ";base64,"@),
        uri_text(path, bytes).skip(("data:"@ + mime_text(path) + ";base64,"@).len() as int)
            == base64_text(bytes),
{
    let head = "data:"@ + mime_text(path) + ";base64,"@;
    let all = head + base64_text(bytes);
    assert(all.subrange(0, head.len() as int) =~= head);
    assert(all.skip(head.len() as int) =~= base64_text(bytes));
}

/// A reference to a file that was read stands for the file, one to a file that cannot be
/// read or to none for itself, and one to a file that was not looked for asks for it.
pub proof fn a_reference_stands_for_its_file(assets: Seq<Asset>, reference: Seq<char>, i: int)
    requires
        0 <= i < assets.len(),
        local_path(reference) == Some(assets[i].path@),
        forall|j: int| 0 <= j < i ==> (#[trigger] assets[j]).path@ != assets[i].path@,
    ensures
        assets[i].uri matches Some(u) ==> resolved(assets, reference) == Ok::<Seq<char>, Seq<char>>(
            u@,
        ),
        assets[i].uri is None ==> resolved(assets, reference) == Ok::<Seq<char>, Seq<char>>(
            reference,
        ),
        resolved(Seq::empty(), reference) == Err::<Seq<char>, Seq<char>>(assets[i].path@),
{
    known_is_first(assets, i);
}

proof fn known_is_first(assets: Seq<Asset>, i: int)
    requires
        0 <= i < assets.len(),
        forall|j: int| 0 <= j < i ==> (#[trigger] assets[j]).path@ != assets[i].path@,
    ensures
        known(assets, assets[i].path@) == Some(opt_view(assets[i].uri)),
    decreases i,
{
    if i > 0 {
        assert(assets[0].path@ != assets[i].path@);
        let rest = assets.skip(1);
        assert(rest[i - 1] == assets[i]);
        assert forall|j: int| 0 <= j < i - 1 implies (#[trigger] rest[j]).path@ != rest[i - 1].path@ by {
            assert(rest[j] == assets[j + 1]);
        }
        known_is_first(rest, i - 1);
    }
}

proof fn stands_first(html: Seq<char>, needle: Seq<char>, from: int, i: int)
    requires
        0 <= from <= i,
        occurs_at(html, needle, i),
        forall|k: int| from <= k < i ==> !occurs_at(html, needle, k),
    ensures
        index_from(html, needle, from) == Some(i),
{
    index_from_is_first(html, needle, from);
    match index_from(html, needle, from) {
        None => {
            assert(!occurs_at(html, needle, i));
        },
        Some(k) => {
            if k > i {
                assert(!occurs_at(html, needle, i));
            }
        },
    }
}

proof fn stands_nowhere(html: Seq<char>, needle: Seq<char>, from: int)
    requires
        0 <= from,
        forall|k: int| from <= k ==> !occurs_at(html, needle, k),
    ensures
        index_from(html, needle, from) is None,
{
    index_from_is_first(html, needle, from);
    if let Some(k) = index_from(html, needle, from) {
        assert(occurs_at(html, needle, k));
    }
}

proof fn closes_at(html: Seq<char>, reference: Seq<char>, c: char, start: int)
    requires
        0 <= start,
        start + reference.len() < html.len(),
        html.subrange(start, start + reference.len()) == reference,
        html[start + reference.len()] == c,
        !reference.contains(c),
    ensures
        index_from(html, seq![c], start) == Some(start + reference.len()),
{
    let end = start + reference.len();
    assert(html.subrange(end, end + 1) =~= seq![c]);
    assert forall|k: int| start <= k < end implies !occurs_at(html, seq![c], k) by {
        if occurs_at(html, seq![c], k) {
            assert(html.subrange(k, k + 1)[0] == c);
            assert(reference[k - start] == html.subrange(start, end)[k - start]);
            assert(reference.contains(c));
        }
    }
    stands_first(html, seq![c], start, end);
}

proof fn one_reference(
    assets: Seq<Asset>,
    html: Seq<char>,
    delim: Seq<char>,
    i: int,
    end: int,
    uri: Seq<char>,
)
    requires
        delim.len() > 0,
        0 <= i,
        i + delim.len() <= end < html.len(),
        index_from(html, delim, 0) == Some(i),
        index_from(html, seq![delim.last()], i + delim.len()) == Some(end),
        index_from(html, delim, end + 1) is None,
        resolved(assets, html.subrange(i + delim.len(), end)) == Ok::<Seq<char>, Seq<char>>(uri),
    ensures
        quoted(assets, html, delim, 0) == Ok::<Seq<char>, Seq<char>>(
            html.subrange(0, i + delim.len()) + uri.push(delim.last()) + html.skip(end + 1),
        ),
{
    assert(quoted(assets, html, delim, end + 1) == Ok::<Seq<char>, Seq<char>>(html.skip(end + 1)));
}

proof fn one_css_url(assets: Seq<Asset>, html: Seq<char>, i: int, end: int, uri: Seq<char>)
    requires
        0 <= i,
        index_from(html, "url("@, 0) == Some(i),
        ({
            let (skip, close) = css_close(html, i + 4);
            let start = i + 4 + skip;
            &&& start <= end < html.len()
            &&& index_from(html, seq![close], start) == Some(end)
            &&& resolved(assets, html.subrange(start, end)) == Ok::<Seq<char>, Seq<char>>(uri)
        }),
        index_from(html, "url("@, end) is None,
    ensures
        css_urls(assets, html, 0) == Ok::<Seq<char>, Seq<char>>(
            html.subrange(0, i + 4 + css_close(html, i + 4).0) + uri + html.skip(end),
        ),
{
    assert(css_urls(assets, html, end) == Ok::<Seq<char>, Seq<char>>(html.skip(end)));
}

proof fn pieces_of(
    a: Seq<char>,
    b: Seq<char>,
    c: Seq<char>,
    d: Seq<char>,
    e: Seq<char>,
)
    ensures
        ({
            let all = a + b + c + d + e;
            let (i, j) = ((a.len() + b.len()) as int, (a.len() + b.len() + c.len()) as int);
            &&& all.len() == a.len() + b.len() + c.len() + d.len() + e.len()
            &&& all.subrange(a.len() as int, i) == b
            &&& all.subrange(0, i) == a + b
            &&& all.subrange(i, j) == c
            &&& d.len() == 1 ==> all[j] == d[0]
            &&& d.len() == 1 ==> all.skip(j + 1) == e
            &&& all.skip(j) == d + e
        }),
{
    let all = a + b + c + d + e;
    let (i, j) = ((a.len() + b.len()) as int, (a.len() + b.len() + c.len()) as int);
    assert(all.subrange(a.len() as int, i) =~= b);
    assert(all.subrange(0, i) =~= a + b);
    assert(all.subrange(i, j) =~= c);
    if d.len() == 1 {
        assert(all.skip(j + 1) =~= e);
    }
    assert(all.skip(j) =~= d + e);
}

/// A page with one reference, to a file that was read, shows the file in its place: all
/// before the reference and all behind it stays.
pub proof fn a_reference_is_replaced_in_its_place(
    assets: Seq<Asset>,
    before: Seq<char>,
    delim: Seq<char>,
    reference: Seq<char>,
    behind: Seq<char>,
    uri: Seq<char>,
)
    requires
        delim.len() > 0,
        resolved(assets, reference) == Ok::<Seq<char>, Seq<char>>(uri),
        !reference.contains(delim.last()),
        ({
            let html = before + delim + reference + seq![delim.last()] + behind;
            let end = (before + delim + reference).len() + 1;
            &&& forall|k: int| 0 <= k < before.len() ==> !occurs_at(html, delim, k)
            &&& forall|k: int| end <= k ==> !occurs_at(html, delim, k)
        }),
    ensures
        quoted(assets, before + delim + reference + seq![delim.last()] + behind, delim, 0) == Ok::<
            Seq<char>,
            Seq<char>,
        >(before + delim + uri + seq![delim.last()] + behind),
{
    let q = delim.last();
    let html = before + delim + reference + seq![q] + behind;
    let (i, start) = (before.len() as int, (before.len() + delim.len()) as int);
    let end = start + reference.len();
    pieces_of(before, delim, reference, seq![q], behind);
    stands_first(html, delim, 0, i);
    closes_at(html, reference, q, start);
    assert((before + delim + reference).len() == end);
    stands_nowhere(html, delim, end + 1);
    one_reference(assets, html, delim, i, end, uri);
    assert(before + delim + uri.push(q) + behind =~= before + delim + uri + seq![q] + behind);
}

/// A page with one CSS URL, to a file that was read, shows the file in its place: in
/// double quotes, in single ones, or without.
pub proof fn a_css_url_is_replaced_in_its_place(
    assets: Seq<Asset>,
    before: Seq<char>,
    open: Seq<char>,
    close: char,
    reference: Seq<char>,
    behind: Seq<char>,
    uri: Seq<char>,
)
    requires
        (open == seq!['"'] && close == '"') || (open == seq!['\''] && close == '\'') || (open
            == Seq::<char>::empty() && close == ')' && reference.len() > 0 && reference[0] != '"'
            && reference[0] != '\''),
        resolved(assets, reference) == Ok::<Seq<char>, Seq<char>>(uri),
        !reference.contains(close),
        ({
            let html = before + "url("@ + open + reference + seq![close] + behind;
            let end = (before + "url("@ + open + reference).len();
            &&& forall|k: int| 0 <= k < before.len() ==> !occurs_at(html, "url("@, k)
            &&& forall|k: int| end <= k ==> !occurs_at(html, "url("@, k)
        }),
    ensures
        css_urls(assets, before + "url("@ + open + reference + seq![close] + behind, 0) == Ok::<
            Seq<char>,
            Seq<char>,
        >(before + "url("@ + open + uri + seq![close] + behind),
{
    reveal_strlit("url(");
    let delim = "url("@;
    let html = before + delim + open + reference + seq![close] + behind;
    let i = before.len() as int;
    let start = i + 4 + open.len();
    let end = start + reference.len();
    assert(delim.len() == 4);
    pieces_of(before + delim, open, reference, seq![close], behind);
    assert(html.subrange(i, i + 4) =~= delim);
    stands_first(html, delim, 0, i);
    if open.len() > 0 {
        assert(html[i + 4] == open[0]);
    } else {
        assert(html[i + 4] == reference[0]);
    }
    assert(css_close(html, i + 4) == (open.len() as int, close));
    closes_at(html, reference, close, start);
    assert((before + delim + open + reference).len() == end);
    stands_nowhere(html, delim, end);
    one_css_url(assets, html, i, end, uri);
    assert(before + delim + open + uri + (seq![close] + behind) =~= before + delim + open + uri
        + seq![close] + behind);
}

/// None of the other kinds of references stands in a text.
pub open spec fn holds_no_other(text: Seq<char>, kind: Seq<char>) -> bool {
    &&& kind != "src=\""@ ==> !occurs(text, "src=\""@)
    &&& kind != "src='"@ ==> !occurs(text, "src='"@)
    &&& kind != "href=\""@ ==> !occurs(text, "href=\""@)
    &&& kind != "href='"@ ==> !occurs(text, "href='"@)
    &&& kind != "url("@ ==> !occurs(text, "url("@)
}

proof fn nothing_is_replaced(assets: Seq<Asset>, html: Seq<char>, delim: Seq<char>)
    requires
        delim.len() > 0,
        !occurs(html, delim),
    ensures
        quoted(assets, html, delim, 0) == Ok::<Seq<char>, Seq<char>>(html),
{
    index_from_is_first(html, delim, 0);
    if let Some(i) = index_from(html, delim, 0) {
        assert(occurs_at(html, delim, i));
    }
    assert(html.skip(0) =~= html);
}

proof fn no_url_is_replaced(assets: Seq<Asset>, html: Seq<char>)
    requires
        !occurs(html, "url("@),
    ensures
        css_urls(assets, html, 0) == Ok::<Seq<char>, Seq<char>>(html),
{
    index_from_is_first(html, "url("@, 0);
    if let Some(i) = index_from(html, "url("@, 0) {
        assert(occurs_at(html, "url("@, i));
    }
    assert(html.skip(0) =~= html);
}

/// Every kind of reference is inlined: `src` and `href` in either kind of quotes, and CSS
/// URLs. A page with one kind of them comes to what inlining that kind comes to.
pub proof fn each_kind_of_reference_is_inlined(
    assets: Seq<Asset>,
    html: Seq<char>,
    kind: Seq<char>,
    shown: Seq<char>,
)
    requires
        holds_no_other(html, kind),
        holds_no_other(shown, kind),
        kind == "src=\""@ || kind == "src='"@ || kind == "href=\""@ || kind == "href='"@ || kind
            == "url("@,
        kind != "url("@ ==> quoted(assets, html, kind, 0) == Ok::<Seq<char>, Seq<char>>(shown),
        kind == "url("@ ==> css_urls(assets, html, 0) == Ok::<Seq<char>, Seq<char>>(shown),
    ensures
        inlined(assets, html) == Ok::<Seq<char>, Seq<char>>(shown),
{
    reveal_strlit("src=\"");
    reveal_strlit("src='");
    reveal_strlit("href=\"");
    reveal_strlit("href='");
    reveal_strlit("url(");
    assert("src=\""@[4] == '"' && "src='"@[4] == '\'' && "href=\""@[5] == '"' && "href='"@[5]
        == '\'');
    assert("src=\""@.len() == 5 && "src='"@.len() == 5 && "href=\""@.len() == 6 && "href='"@.len()
        == 6 && "url("@.len() == 4);
    if kind != "src=\""@ {
        nothing_is_replaced(assets, html, "src=\""@);
        nothing_is_replaced(assets, shown, "src=\""@);
    }
    if kind != "src='"@ {
        nothing_is_replaced(assets, html, "src='"@);
        nothing_is_replaced(assets, shown, "src='"@);
    }
    if kind != "href=\""@ {
        nothing_is_replaced(assets, html, "href=\""@);
        nothing_is_replaced(assets, shown, "href=\""@);
    }
    if kind != "href='"@ {
        nothing_is_replaced(assets, html, "href='"@);
        nothing_is_replaced(assets, shown, "href='"@);
    }
    if kind != "url("@ {
        no_url_is_replaced(assets, shown);
    }
}

} // verus!
