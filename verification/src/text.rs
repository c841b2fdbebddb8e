//! Character sequences: the small pieces of text handling that the emitters and
//! the parsers are built from.

use vstd::prelude::*;

verus! {

/// `String::push` appends one character.
pub assume_specification[ String::push ](s: &mut String, ch: char)
    ensures
        final(s)@ == old(s)@.push(ch),
;

/// `String::push_str` appends a string.
pub assume_specification[ String::push_str ](s: &mut String, string: &str)
    ensures
        final(s)@ == old(s)@ + string@,
;

/// Both hold the same characters.
pub fn same(a: &str, b: &str) -> (r: bool)
    ensures
        r == (a@ == b@),
{
    let (left, right) = (chars_of(a), chars_of(b));
    if left.len() != right.len() {
        return false;
    }
    for i in 0..left.len()
        invariant
            left@ == a@,
            right@ == b@,
            left@.len() == right@.len(),
            forall|k: int| 0 <= k < i ==> a@[k] == b@[k],
    {
        if left[i] != right[i] {
            return false;
        }
    }
    assert(a@ =~= b@);
    true
}

/// The characters of `s`, in order.
pub fn chars_of(s: &str) -> (r: Vec<char>)
    ensures
        r@ == s@,
{
    let mut out: Vec<char> = Vec::new();
    for c in it: s.chars()
        invariant
            out@ == s@.take(it.index()),
            it.seq() == s@,
    {
        out.push(c);
    }
    out
}

/// The string made of `chars[from..to]`.
pub fn string_of(chars: &Vec<char>, from: usize, to: usize) -> (r: String)
    requires
        from <= to <= chars@.len(),
    ensures
        r@ == chars@.subrange(from as int, to as int),
{
    let mut out = String::new();
    for i in from..to
        invariant
            from <= i <= to <= chars@.len(),
            out@ == chars@.subrange(from as int, i as int),
    {
        out.push(chars[i]);
    }
    out
}

/// A fresh copy of `s`.
pub fn copy_of(s: &str) -> (r: String)
    ensures
        r@ == s@,
{
    let mut out = String::new();
    out.push_str(s);
    out
}

/// A fresh copy of an optional text.
pub fn copy_of_opt(s: &Option<String>) -> (r: Option<String>)
    ensures
        opt_view(r) == opt_view(*s),
{
    match s {
        Some(t) => Some(copy_of(t.as_str())),
        None => None,
    }
}

/// What an optional text holds.
pub open spec fn opt_view(s: Option<String>) -> Option<Seq<char>> {
    match s {
        Some(t) => Some(t@),
        None => None,
    }
}

/// What a list of texts holds.
pub open spec fn texts(v: Seq<String>) -> Seq<Seq<char>> {
    v.map_values(|s: String| s@)
}

/// Fresh copies of a list of texts.
pub fn copy_all(v: &Vec<String>) -> (r: Vec<String>)
    ensures
        texts(r@) == texts(v@),
{
    let mut out: Vec<String> = Vec::new();
    for i in 0..v.len()
        invariant
            out@.len() == i,
            forall|k: int| 0 <= k < i ==> #[trigger] out@[k]@ == v@[k]@,
    {
        out.push(copy_of(v[i].as_str()));
    }
    assert(texts(out@) =~= texts(v@));
    out
}

// ---------------------------------------------------------------------------
// Searching
// ---------------------------------------------------------------------------

/// `needle` stands in `hay` at position `i`.
pub open spec fn occurs_at<A>(hay: Seq<A>, needle: Seq<A>, i: int) -> bool {
    &&& 0 <= i
    &&& i + needle.len() <= hay.len()
    &&& hay.subrange(i, i + needle.len()) == needle
}

/// `needle` stands somewhere in `hay`.
pub open spec fn occurs<A>(hay: Seq<A>, needle: Seq<A>) -> bool {
    exists|i: int| occurs_at(hay, needle, i)
}

/// The first position at or after `from` where `needle` stands in `hay`.
pub open spec fn index_from<A>(hay: Seq<A>, needle: Seq<A>, from: int) -> Option<int>
    decreases hay.len() - from,
{
    if from < 0 || from + needle.len() > hay.len() {
        None
    } else if occurs_at(hay, needle, from) {
        Some(from)
    } else if from + needle.len() == hay.len() {
        None
    } else {
        index_from(hay, needle, from + 1)
    }
}

/// `index_from` is the least position at which `needle` stands, and is absent
/// exactly when `needle` stands nowhere from `from` on.
pub proof fn index_from_is_first<A>(hay: Seq<A>, needle: Seq<A>, from: int)
    requires
        0 <= from,
    ensures
        match index_from(hay, needle, from) {
            Some(i) => from <= i && occurs_at(hay, needle, i) && forall|k: int|
                from <= k < i ==> !occurs_at(hay, needle, k),
            None => forall|k: int| from <= k ==> !occurs_at(hay, needle, k),
        },
    decreases hay.len() - from,
{
    if from + needle.len() > hay.len() {
    } else if occurs_at(hay, needle, from) {
    } else if from + needle.len() == hay.len() {
    } else {
        index_from_is_first(hay, needle, from + 1);
    }
}

/// Does `needle` stand in `hay` at position `i`?
pub fn matches_at(hay: &Vec<char>, needle: &Vec<char>, i: usize) -> (r: bool)
    ensures
        r == occurs_at(hay@, needle@, i as int),
{
    if hay.len() < needle.len() || i > hay.len() - needle.len() {
        return false;
    }
    for k in 0..needle.len()
        invariant
            i + needle.len() <= hay.len(),
            forall|j: int| 0 <= j < k ==> hay@[i + j] == needle@[j],
    {
        if hay[i + k] != needle[k] {
            assert(hay@.subrange(i as int, i + needle@.len())[k as int] != needle@[k as int]);
            return false;
        }
    }
    assert(hay@.subrange(i as int, i + needle@.len()) =~= needle@);
    true
}

/// The first position at or after `from` where `needle` stands in `hay`.
pub fn find_from(hay: &Vec<char>, needle: &Vec<char>, from: usize) -> (r: Option<usize>)
    ensures
        match r {
            Some(i) => index_from(hay@, needle@, from as int) == Some(i as int),
            None => index_from(hay@, needle@, from as int) is None,
        },
        r matches Some(i) ==> from <= i && i + needle@.len() <= hay@.len(),
{
    if hay.len() < needle.len() || from > hay.len() - needle.len() {
        return None;
    }
    let last = hay.len() - needle.len();
    let mut i: usize = from;
    loop
        invariant
            from <= i <= last,
            last == hay@.len() - needle@.len(),
            index_from(hay@, needle@, from as int) == index_from(hay@, needle@, i as int),
        decreases last - i,
    {
        if matches_at(hay, needle, i) {
            return Some(i);
        }
        if i == last {
            return None;
        }
        i += 1;
    }
}

/// Does `s` contain `needle`?
pub fn contains(s: &str, needle: &str) -> (r: bool)
    ensures
        r == occurs(s@, needle@),
{
    let hay = chars_of(s);
    let pat = chars_of(needle);
    let found = find_from(&hay, &pat, 0);
    proof {
        index_from_is_first(hay@, pat@, 0);
    }
    found.is_some()
}

/// `prefix` stands at the start of `s`.
pub open spec fn begins<A>(s: Seq<A>, prefix: Seq<A>) -> bool {
    occurs_at(s, prefix, 0)
}

/// `suffix` stands at the end of `s`.
pub open spec fn ends<A>(s: Seq<A>, suffix: Seq<A>) -> bool {
    occurs_at(s, suffix, s.len() - suffix.len())
}

/// Does `s` start with `prefix`?
pub fn starts_with(s: &str, prefix: &str) -> (r: bool)
    ensures
        r == begins(s@, prefix@),
{
    let hay = chars_of(s);
    let pat = chars_of(prefix);
    matches_at(&hay, &pat, 0)
}

/// Does `s` end with `suffix`?
pub fn ends_with(s: &str, suffix: &str) -> (r: bool)
    ensures
        r == ends(s@, suffix@),
{
    let hay = chars_of(s);
    let pat = chars_of(suffix);
    if pat.len() > hay.len() {
        return false;
    }
    matches_at(&hay, &pat, hay.len() - pat.len())
}

// ---------------------------------------------------------------------------
// Replacing
// ---------------------------------------------------------------------------

/// `text` from `from` on, with every occurrence of `pat` replaced by `rep`,
/// taken from left to right without overlaps.
pub open spec fn replaced(text: Seq<char>, pat: Seq<char>, rep: Seq<char>, from: int) -> Seq<char>
    decreases text.len() - from,
{
    if from < 0 || from > text.len() || pat.len() == 0 {
        Seq::empty()
    } else {
        match index_from(text, pat, from) {
            Some(i) => if from <= i && i + pat.len() <= text.len() {
                text.subrange(from, i) + rep + replaced(text, pat, rep, i + pat.len())
            } else {
                Seq::empty()
            },
            None => text.skip(from),
        }
    }
}

/// `text` with every occurrence of `pat` replaced by `rep`.
pub fn replace_all(text: &str, pat: &str, rep: &str) -> (r: String)
    requires
        pat@.len() > 0,
    ensures
        r@ == replaced(text@, pat@, rep@, 0),
{
    let hay = chars_of(text);
    let needle = chars_of(pat);
    let mut out = String::new();
    let mut from: usize = 0;
    loop
        invariant
            hay@ == text@,
            needle@ == pat@,
            pat@.len() > 0,
            from <= hay.len(),
            replaced(text@, pat@, rep@, 0) == out@ + replaced(text@, pat@, rep@, from as int),
        decreases hay@.len() - from,
    {
        match find_from(&hay, &needle, from) {
            Some(i) => {
                let piece = string_of(&hay, from, i);
                assert(i + needle.len() <= hay.len());
                proof {
                    let a = out@;
                    let b = text@.subrange(from as int, i as int);
                    let c = replaced(text@, pat@, rep@, i + pat@.len());
                    assert(a + (b + rep@ + c) =~= a + b + rep@ + c);
                }
                out.push_str(piece.as_str());
                out.push_str(rep);
                from = i + needle.len();
            },
            None => {
                let piece = string_of(&hay, from, hay.len());
                assert(text@.skip(from as int) =~= text@.subrange(from as int, text@.len() as int));
                out.push_str(piece.as_str());
                return out;
            },
        }
    }
}

/// How one character is written inside HTML text or a double-quoted attribute.
pub open spec fn html_char(c: char) -> Seq<char> {
    if c == '&' {
        "&amp;"@
    } else if c == '<' {
        "&lt;"@
    } else if c == '>' {
        "&gt;"@
    } else if c == '"' {
        "&quot;"@
    } else {
        seq![c]
    }
}

/// `s` written for HTML, character by character.
pub open spec fn html_text(s: Seq<char>) -> Seq<char>
    decreases s.len(),
{
    if s.len() == 0 {
        Seq::empty()
    } else {
        html_text(s.drop_last()) + html_char(s.last())
    }
}

/// Escape `s` for HTML text and double-quoted attributes.
pub fn html_escape(s: &str) -> (r: String)
    ensures
        r@ == html_text(s@),
{
    let chars = chars_of(s);
    let mut out = String::new();
    for i in 0..chars.len()
        invariant
            chars@ == s@,
            out@ == html_text(s@.take(i as int)),
    {
        let c = chars[i];
        proof {
            assert(s@.take(i + 1).drop_last() =~= s@.take(i as int));
            assert(out@ + seq![c] =~= out@.push(c));
        }
        if c == '&' {
            out.push_str("&amp;");
        } else if c == '<' {
            out.push_str("&lt;");
        } else if c == '>' {
            out.push_str("&gt;");
        } else if c == '"' {
            out.push_str("&quot;");
        } else {
            out.push(c);
        }
    }
    assert(s@.take(s@.len() as int) =~= s@);
    out
}

/// Escaping goes over concatenation: parts may be escaped one by one.
pub proof fn html_text_of_both(a: Seq<char>, b: Seq<char>)
    ensures
        html_text(a + b) == html_text(a) + html_text(b),
    decreases b.len(),
{
    if b.len() == 0 {
        assert(a + b =~= a);
        assert(html_text(a) + html_text(b) =~= html_text(a));
    } else {
        html_text_of_both(a, b.drop_last());
        assert((a + b).drop_last() =~= a + b.drop_last());
        assert(html_text(a + b) =~= html_text(a) + html_text(b));
    }
}

/// HTML text with the four entities undone, from left to right.
pub open spec fn html_read(s: Seq<char>) -> Seq<char>
    decreases s.len(),
{
    if s.len() == 0 {
        Seq::empty()
    } else if s.len() >= 5 && s.take(5) == "&amp;"@ {
        seq!['&'] + html_read(s.skip(5))
    } else if s.len() >= 4 && s.take(4) == "&lt;"@ {
        seq!['<'] + html_read(s.skip(4))
    } else if s.len() >= 4 && s.take(4) == "&gt;"@ {
        seq!['>'] + html_read(s.skip(4))
    } else if s.len() >= 6 && s.take(6) == "&quot;"@ {
        seq!['"'] + html_read(s.skip(6))
    } else {
        seq![s[0]] + html_read(s.skip(1))
    }
}

proof fn html_read_first(c: char, rest: Seq<char>)
    ensures
        html_read(html_char(c) + rest) == seq![c] + html_read(rest),
{
    reveal_strlit("&amp;");
    reveal_strlit("&lt;");
    reveal_strlit("&gt;");
    reveal_strlit("&quot;");
    let head = html_char(c);
    let s = head + rest;
    assert(s.skip(head.len() as int) =~= rest);
    assert(s.take(head.len() as int) =~= head);
    if c == '&' {
    } else if c == '<' {
        assert(s.len() >= 5 ==> s.take(5)[1] == 'l');
        assert("&amp;"@[1] == 'a');
    } else if c == '>' {
        assert(s.len() >= 5 ==> s.take(5)[1] == 'g');
        assert("&amp;"@[1] == 'a');
        assert(s.take(4)[1] == 'g' && "&lt;"@[1] == 'l');
    } else if c == '"' {
        assert(s.take(5)[1] == 'q' && s.take(4)[1] == 'q');
        assert("&amp;"@[1] == 'a' && "&lt;"@[1] == 'l' && "&gt;"@[1] == 'g');
    } else {
        assert(s[0] == c);
        assert(s.len() >= 5 ==> s.take(5)[0] == c);
        assert(s.len() >= 4 ==> s.take(4)[0] == c);
        assert(s.len() >= 6 ==> s.take(6)[0] == c);
        assert("&amp;"@[0] == '&' && "&lt;"@[0] == '&' && "&gt;"@[0] == '&' && "&quot;"@[0] == '&');
    }
}

/// Undoing the entities of escaped text gives the text back.
pub proof fn escaped_text_reads_back(s: Seq<char>)
    ensures
        html_read(html_text(s)) == s,
    decreases s.len(),
{
    if s.len() > 0 {
        let first = seq![s[0]];
        let rest = s.skip(1);
        assert(s =~= first + rest);
        html_text_of_both(first, rest);
        assert(first.drop_last() =~= Seq::<char>::empty());
        assert(html_text(first.drop_last()) == Seq::<char>::empty());
        assert(first.last() == s[0]);
        assert(html_text(first) =~= html_char(s[0]));
        html_read_first(s[0], html_text(rest));
        escaped_text_reads_back(rest);
    }
}

/// Escaped text cannot close the attribute or the element it stands in: it holds
/// no `<`, no `>` and no `"`.
pub proof fn html_text_is_inert(s: Seq<char>)
    ensures
        !html_text(s).contains('<'),
        !html_text(s).contains('>'),
        !html_text(s).contains('"'),
    decreases s.len(),
{
    reveal_strlit("&amp;");
    reveal_strlit("&lt;");
    reveal_strlit("&gt;");
    reveal_strlit("&quot;");
    if s.len() > 0 {
        html_text_is_inert(s.drop_last());
        let head = html_text(s.drop_last());
        let tail = html_char(s.last());
        assert forall|i: int| 0 <= i < html_text(s).len() implies html_text(s)[i] != '<'
            && html_text(s)[i] != '>' && html_text(s)[i] != '"' by {
            if i < head.len() {
                assert(head.contains(head[i]));
                assert(html_text(s)[i] == head[i]);
            } else {
                assert(html_text(s)[i] == tail[i - head.len()]);
            }
        }
    }
}

/// `s` with a backslash before every double quote.
pub open spec fn quoted_text(s: Seq<char>) -> Seq<char>
    decreases s.len(),
{
    if s.len() == 0 {
        Seq::empty()
    } else if s.last() == '"' {
        quoted_text(s.drop_last()) + seq!['\\', '"']
    } else {
        quoted_text(s.drop_last()).push(s.last())
    }
}

/// `s` with every double quote escaped.
pub fn escape_quotes(s: &str) -> (r: String)
    ensures
        r@ == quoted_text(s@),
{
    let chars = chars_of(s);
    let mut out = String::new();
    for i in 0..chars.len()
        invariant
            chars@ == s@,
            out@ == quoted_text(s@.take(i as int)),
    {
        let c = chars[i];
        proof {
            assert(s@.take(i + 1).drop_last() =~= s@.take(i as int));
            assert(out@ + seq!['\\', '"'] =~= out@.push('\\').push('"'));
        }
        if c == '"' {
            out.push('\\');
        }
        out.push(c);
    }
    assert(s@.take(s@.len() as int) =~= s@);
    out
}

/// The smaller of two lengths.
pub open spec fn min_len(a: int, b: int) -> int {
    if a < b {
        a
    } else {
        b
    }
}

/// The first `limit` characters of `s`.
pub fn take_chars(s: &str, limit: usize) -> (r: String)
    ensures
        r@ == s@.take(min_len(limit as int, s@.len() as int)),
{
    let chars = chars_of(s);
    let n = if limit < chars.len() {
        limit
    } else {
        chars.len()
    };
    string_of(&chars, 0, n)
}

/// The texts of `parts` with `sep` between neighbours.
pub open spec fn joined(parts: Seq<Seq<char>>, sep: Seq<char>) -> Seq<char>
    decreases parts.len(),
{
    if parts.len() == 0 {
        Seq::empty()
    } else if parts.len() == 1 {
        parts[0]
    } else {
        joined(parts.drop_last(), sep) + sep + parts.last()
    }
}

/// The texts of `parts` with `sep` between neighbours.
pub fn join(parts: &Vec<String>, sep: &str) -> (r: String)
    ensures
        r@ == joined(texts(parts@), sep@),
{
    let mut out = String::new();
    for i in 0..parts.len()
        invariant
            out@ == joined(texts(parts@).take(i as int), sep@),
    {
        proof {
            let t = texts(parts@).take(i + 1);
            assert(t.drop_last() =~= texts(parts@).take(i as int));
            assert(t.last() == parts@[i as int]@);
        }
        if i > 0 {
            out.push_str(sep);
        }
        out.push_str(parts[i].as_str());
        assert(i == 0 ==> Seq::<char>::empty() + parts@[0]@ =~= parts@[0]@);
    }
    assert(texts(parts@).take(parts@.len() as int) =~= texts(parts@));
    out
}

// ---------------------------------------------------------------------------
// Letter case, blanks
// ---------------------------------------------------------------------------

/// `c` in lower case, where it is an ASCII letter.
pub open spec fn lower_char(c: char) -> char {
    if 'A' <= c <= 'Z' {
        (c as int + 32) as char
    } else {
        c
    }
}

/// `s` with its ASCII letters in lower case.
pub open spec fn lower(s: Seq<char>) -> Seq<char> {
    s.map_values(|c: char| lower_char(c))
}

/// `c` in lower case, where it is an ASCII letter.
pub fn to_lower(c: char) -> (r: char)
    ensures
        r == lower_char(c),
{
    if c >= 'A' && c <= 'Z' {
        ((c as u8) + 32) as char
    } else {
        c
    }
}

/// `s` with its ASCII letters in lower case.
pub fn lower_text(s: &str) -> (r: String)
    ensures
        r@ == lower(s@),
{
    let chars = chars_of(s);
    let mut out = String::new();
    for i in 0..chars.len()
        invariant
            chars@ == s@,
            out@ == lower(s@).take(i as int),
    {
        out.push(to_lower(chars[i]));
        assert(out@ =~= lower(s@).take(i + 1));
    }
    assert(lower(s@).take(s@.len() as int) =~= lower(s@));
    out
}

/// `c` has the Unicode property White_Space.
pub open spec fn blank(c: char) -> bool {
    let n = c as int;
    9 <= n <= 13 || n == 32 || n == 0x85 || n == 0xa0 || n == 0x1680 || 0x2000 <= n <= 0x200a || n
        == 0x2028 || n == 0x2029 || n == 0x202f || n == 0x205f || n == 0x3000
}

/// Is `c` a blank?
pub fn is_blank(c: char) -> (r: bool)
    ensures
        r == blank(c),
{
    let n: u32 = c as u32;
    9 <= n && n <= 13 || n == 32 || n == 0x85 || n == 0xa0 || n == 0x1680 || 0x2000 <= n && n
        <= 0x200a || n == 0x2028 || n == 0x2029 || n == 0x202f || n == 0x205f || n == 0x3000
}

/// `s` without the blanks at its start.
pub open spec fn trim_start(s: Seq<char>) -> Seq<char>
    decreases s.len(),
{
    if s.len() > 0 && blank(s[0]) {
        trim_start(s.skip(1))
    } else {
        s
    }
}

/// `s` without the blanks at its end.
pub open spec fn trim_end(s: Seq<char>) -> Seq<char>
    decreases s.len(),
{
    if s.len() > 0 && blank(s.last()) {
        trim_end(s.drop_last())
    } else {
        s
    }
}

/// `s` without the blanks at either end.
pub open spec fn trimmed(s: Seq<char>) -> Seq<char> {
    trim_end(trim_start(s))
}

/// `s` without the blanks at either end.
pub fn trim(s: &str) -> (r: String)
    ensures
        r@ == trimmed(s@),
{
    let chars = chars_of(s);
    let mut from: usize = 0;
    assert(s@.skip(0) =~= s@);
    while from < chars.len() && is_blank(chars[from])
        invariant
            chars@ == s@,
            from <= chars.len(),
            trim_start(s@) == trim_start(s@.skip(from as int)),
        decreases chars.len() - from,
    {
        assert(s@.skip(from as int).skip(1) =~= s@.skip(from + 1));
        from += 1;
    }
    let ghost body = s@.skip(from as int);
    assert(trim_start(s@) == body);
    let mut to: usize = chars.len();
    assert(body.take(to - from) =~= body);
    while to > from && is_blank(chars[to - 1])
        invariant
            chars@ == s@,
            from <= to <= chars.len(),
            body == s@.skip(from as int),
            trim_end(body) == trim_end(body.take(to - from)),
        decreases to,
    {
        assert(body.take(to - from).drop_last() =~= body.take(to - 1 - from));
        to -= 1;
    }
    assert(trim_end(body) == body.take(to - from));
    assert(s@.subrange(from as int, to as int) =~= body.take(to - from));
    string_of(&chars, from, to)
}

/// Is the text empty?
pub fn is_empty(s: &str) -> (r: bool)
    ensures
        r == (s@.len() == 0),
{
    let chars = chars_of(s);
    chars.len() == 0
}

// ---------------------------------------------------------------------------
// Numbers
// ---------------------------------------------------------------------------

/// The decimal digit of `d`, for `d` from 0 to 9.
pub open spec fn digit(d: int) -> char {
    (48 + d) as char
}

/// `n` in decimal, without leading zeros.
pub open spec fn decimal(n: nat) -> Seq<char>
    decreases n,
{
    if n < 10 {
        seq![digit(n as int)]
    } else {
        decimal(n / 10).push(digit((n % 10) as int))
    }
}

/// `n` in decimal, with a minus sign where it is negative.
pub open spec fn decimal_int(n: int) -> Seq<char> {
    if n < 0 {
        seq!['-'] + decimal((-n) as nat)
    } else {
        decimal(n as nat)
    }
}

fn digit_char(d: u8) -> (c: char)
    requires
        d < 10,
    ensures
        c == digit(d as int),
{
    (48u8 + d) as char
}

/// Append `n` in decimal.
fn push_decimal(out: &mut String, n: u64)
    ensures
        final(out)@ == old(out)@ + decimal(n as nat),
    decreases n,
{
    let ghost before = out@;
    if n >= 10 {
        push_decimal(out, n / 10);
    }
    out.push(digit_char((n % 10) as u8));
    assert(out@ =~= before + decimal(n as nat));
}

/// `n` in decimal.
pub fn decimal_text(n: u64) -> (r: String)
    ensures
        r@ == decimal(n as nat),
{
    let mut out = String::new();
    push_decimal(&mut out, n);
    assert(out@ =~= decimal(n as nat));
    out
}

/// `n` in decimal, signed.
pub fn decimal_int_text(n: i64) -> (r: String)
    ensures
        r@ == decimal_int(n as int),
{
    if n < 0 {
        let magnitude: u64 = (-(n as i128)) as u64;
        let mut out = String::new();
        out.push('-');
        let rest = decimal_text(magnitude);
        out.push_str(rest.as_str());
        assert(out@ =~= seq!['-'] + decimal(magnitude as nat));
        out
    } else {
        decimal_text(n as u64)
    }
}

/// Two decimals are the same text only for the same number.
pub proof fn decimal_is_injective(a: nat, b: nat)
    requires
        decimal(a) == decimal(b),
    ensures
        a == b,
    decreases a,
{
    decimal_is_nonempty(a / 10);
    decimal_is_nonempty(b / 10);
    if a < 10 && b < 10 {
        assert(decimal(a)[0] == decimal(b)[0]);
        assert(decimal(a)[0] as int == 48 + a && decimal(b)[0] as int == 48 + b);
    } else if a < 10 {
        assert(decimal(b).len() > 1);
    } else if b < 10 {
        assert(decimal(a).len() > 1);
    } else {
        assert(decimal(a).last() == decimal(b).last());
        assert(decimal(a).last() as int == 48 + a % 10 && decimal(b).last() as int == 48 + b % 10);
        assert(decimal(a).drop_last() =~= decimal(a / 10));
        assert(decimal(b).drop_last() =~= decimal(b / 10));
        decimal_is_injective(a / 10, b / 10);
    }
}

/// A decimal has at least one digit.
pub proof fn decimal_is_nonempty(n: nat)
    ensures
        decimal(n).len() > 0,
    decreases n,
{
    if n >= 10 {
        decimal_is_nonempty(n / 10);
    }
}

/// A decimal holds digits only.
pub proof fn decimal_is_digits(n: nat)
    ensures
        forall|i: int|
            0 <= i < decimal(n).len() ==> 48 <= (#[trigger] decimal(n)[i]) as int <= 57,
    decreases n,
{
    if n >= 10 {
        decimal_is_digits(n / 10);
        assert forall|i: int| 0 <= i < decimal(n).len() implies 48 <= (
        #[trigger] decimal(n)[i]) as int <= 57 by {
            if i < decimal(n / 10).len() {
                assert(decimal(n)[i] == decimal(n / 10)[i]);
            }
        }
    }
}

/// Two signed decimals are the same text only for the same number.
pub proof fn decimal_int_is_injective(a: int, b: int)
    requires
        decimal_int(a) == decimal_int(b),
    ensures
        a == b,
{
    let x: nat = if a < 0 {
        (-a) as nat
    } else {
        a as nat
    };
    let y: nat = if b < 0 {
        (-b) as nat
    } else {
        b as nat
    };
    decimal_is_nonempty(x);
    decimal_is_nonempty(y);
    decimal_is_digits(x);
    decimal_is_digits(y);
    assert((a < 0) == (decimal_int(a)[0] == '-'));
    assert((b < 0) == (decimal_int(b)[0] == '-'));
    if a < 0 {
        assert(decimal_int(a).skip(1) =~= decimal(x));
        assert(decimal_int(b).skip(1) =~= decimal(y));
    }
    decimal_is_injective(x, y);
}

/// A text that ends in a dash and a number can be taken apart in one way only.
pub proof fn numbered_is_injective(head: Seq<char>, n: nat, other: Seq<char>, m: nat)
    requires
        head + "-"@ + decimal(n) == other + "-"@ + decimal(m),
    ensures
        head == other,
        n == m,
{
    reveal_strlit("-");
    decimal_is_digits(n);
    decimal_is_digits(m);
    let whole = head + "-"@ + decimal(n);
    let again = other + "-"@ + decimal(m);
    assert(whole == again);
    assert(whole.len() == again.len());
    let a = head.len() as int;
    let b = other.len() as int;
    assert((head + "-"@).len() == a + 1 && (other + "-"@).len() == b + 1);
    assert((head + "-"@)[a] == '-' && (other + "-"@)[b] == '-');
    assert(whole[a] == '-' && again[b] == '-');
    if a < b {
        let i = b - (a + 1);
        assert(0 <= i < decimal(n).len());
        assert(whole[b] == decimal(n)[i]);
    } else if b < a {
        let i = a - (b + 1);
        assert(0 <= i < decimal(m).len());
        assert(again[a] == decimal(m)[i]);
    }
    assert(whole.take(a) =~= head);
    assert(whole.take(a) =~= other);
    assert(whole.skip(a + 1) =~= decimal(n));
    assert(whole.skip(a + 1) =~= decimal(m));
    decimal_is_injective(n, m);
}

/// The lower-case hexadecimal digit of `d`, for `d` from 0 to 15.
pub open spec fn hex_digit(d: int) -> char {
    if d < 10 {
        digit(d)
    } else {
        (87 + d) as char
    }
}

/// A byte as two hexadecimal digits.
pub open spec fn hex_byte(b: u8) -> Seq<char> {
    seq![hex_digit(b as int / 16), hex_digit(b as int % 16)]
}

/// A colour as `#rrggbb`.
pub open spec fn hex_color_text(rgb: (u8, u8, u8)) -> Seq<char> {
    seq!['#'] + hex_byte(rgb.0) + hex_byte(rgb.1) + hex_byte(rgb.2)
}

fn hex_char(d: u8) -> (c: char)
    requires
        d < 16,
    ensures
        c == hex_digit(d as int),
{
    if d < 10 {
        (48u8 + d) as char
    } else {
        (87u8 + d) as char
    }
}

/// A colour as `#rrggbb`.
pub fn hex_color(rgb: (u8, u8, u8)) -> (r: String)
    ensures
        r@ == hex_color_text(rgb),
{
    let mut out = String::new();
    out.push('#');
    out.push(hex_char(rgb.0 / 16));
    out.push(hex_char(rgb.0 % 16));
    out.push(hex_char(rgb.1 / 16));
    out.push(hex_char(rgb.1 % 16));
    out.push(hex_char(rgb.2 / 16));
    out.push(hex_char(rgb.2 % 16));
    assert(out@ =~= hex_color_text(rgb));
    out
}

// ---------------------------------------------------------------------------
// Reading back what was written
// ---------------------------------------------------------------------------

/// What a character counts for as a decimal digit.
pub open spec fn digit_value(c: char) -> int {
    c as int - '0' as int
}

/// The number that a text of decimal digits stands for.
pub open spec fn read_decimal(s: Seq<char>) -> int
    decreases s.len(),
{
    if s.len() == 0 {
        0
    } else {
        10 * read_decimal(s.drop_last()) + digit_value(s.last())
    }
}

/// The number that a text of decimal digits, after a minus sign or not, stands for.
pub open spec fn read_number(s: Seq<char>) -> int {
    if s.len() > 0 && s[0] == '-' {
        -read_decimal(s.skip(1))
    } else {
        read_decimal(s)
    }
}

/// The text is a number: digits, at least one, after a minus sign or not.
pub open spec fn is_number(s: Seq<char>) -> bool {
    let digits = if s.len() > 0 && s[0] == '-' {
        s.skip(1)
    } else {
        s
    };
    digits.len() > 0 && forall|i: int|
        0 <= i < digits.len() ==> '0' <= #[trigger] digits[i] <= '9'
}

/// A number that is written in decimal is read back as it was, and starts with a zero
/// only where it is zero.
pub proof fn decimal_reads_back(n: nat)
    ensures
        read_decimal(decimal(n)) == n,
        is_number(decimal(n)),
        read_number(decimal(n)) == n,
        decimal(n)[0] == '0' ==> n == 0,
    decreases n,
{
    decimal_is_digits(n);
    decimal_is_nonempty(n);
    if n >= 10 {
        decimal_reads_back(n / 10);
        assert(decimal(n).drop_last() =~= decimal(n / 10));
        assert(decimal(n)[0] == decimal(n / 10)[0]);
    } else {
        assert(decimal(n).drop_last() =~= Seq::<char>::empty());
        assert(read_decimal(decimal(n).drop_last()) == 0);
    }
}

/// A signed number that is written in decimal is read back as it was.
pub proof fn decimal_int_reads_back(n: int)
    ensures
        is_number(decimal_int(n)),
        read_number(decimal_int(n)) == n,
{
    if n < 0 {
        decimal_reads_back((-n) as nat);
        decimal_is_digits((-n) as nat);
        assert(decimal_int(n).skip(1) =~= decimal((-n) as nat));
    } else {
        decimal_reads_back(n as nat);
    }
}

/// What a character counts for as a hexadecimal digit.
pub open spec fn hex_value(c: char) -> int {
    if 'a' <= c <= 'f' {
        c as int - 'a' as int + 10
    } else {
        c as int - '0' as int
    }
}

/// A colour is read back as it was: after the `#`, two digits each for its red, its
/// green and its blue, in that order.
pub proof fn hex_color_reads_back(rgb: (u8, u8, u8))
    ensures
        ({
            let s = hex_color_text(rgb);
            &&& s.len() == 7
            &&& s[0] == '#'
            &&& 16 * hex_value(s[1]) + hex_value(s[2]) == rgb.0
            &&& 16 * hex_value(s[3]) + hex_value(s[4]) == rgb.1
            &&& 16 * hex_value(s[5]) + hex_value(s[6]) == rgb.2
        }),
{
}

/// A text with the backslash before each double quote taken out.
pub open spec fn unquoted(s: Seq<char>) -> Seq<char>
    decreases s.len(),
{
    if s.len() == 0 {
        Seq::empty()
    } else if s.last() == '"' && s.len() >= 2 {
        unquoted(s.take(s.len() - 2)).push('"')
    } else {
        unquoted(s.drop_last()).push(s.last())
    }
}

/// Text whose quotes were escaped reads back as it was, and holds no quote without a
/// backslash before it.
pub proof fn quoted_text_reads_back(s: Seq<char>)
    ensures
        unquoted(quoted_text(s)) == s,
        forall|i: int|
            0 <= i < quoted_text(s).len() && #[trigger] quoted_text(s)[i] == '"' ==> i > 0
                && quoted_text(s)[i - 1] == '\\',
    decreases s.len(),
{
    if s.len() > 0 {
        quoted_text_reads_back(s.drop_last());
        let head = quoted_text(s.drop_last());
        let t = quoted_text(s);
        if s.last() == '"' {
            assert(t.take(t.len() - 2) =~= head);
            assert(t.last() == '"');
        } else {
            assert(t.drop_last() =~= head);
        }
        assert(s.drop_last().push(s.last()) =~= s);
        assert forall|i: int| 0 <= i < t.len() && #[trigger] t[i] == '"' implies i > 0 && t[i - 1]
            == '\\' by {
            if i < head.len() {
                assert(head[i] == '"');
                assert(t[i - 1] == head[i - 1]);
            }
        }
    }
}

/// A text stands in whatever it is put into.
pub proof fn part_occurs<A>(before: Seq<A>, part: Seq<A>, after: Seq<A>)
    ensures
        occurs(before + part + after, part),
        occurs_at(before + part + after, part, before.len() as int),
{
    let all = before + part + after;
    let i = before.len() as int;
    assert(all.subrange(i, i + part.len()) =~= part);
    assert(occurs_at(all, part, i));
}

/// What stands in a part stands in the whole.
pub proof fn occurs_within<A>(before: Seq<A>, part: Seq<A>, after: Seq<A>, needle: Seq<A>)
    requires
        occurs(part, needle),
    ensures
        occurs(before + part + after, needle),
{
    let all = before + part + after;
    let i = choose|i: int| occurs_at(part, needle, i);
    let j = before.len() + i;
    assert(all.subrange(j, j + needle.len()) =~= part.subrange(i, i + needle.len()));
    assert(occurs_at(all, needle, j));
}

/// Joined texts hold each of the texts, and with nothing between them are the texts one
/// after the other.
pub proof fn joined_holds_each(parts: Seq<Seq<char>>, sep: Seq<char>, i: int)
    requires
        0 <= i < parts.len(),
    ensures
        occurs(joined(parts, sep), parts[i]),
        parts.len() > 1 ==> occurs(joined(parts, sep), sep),
    decreases parts.len(),
{
    let empty = Seq::<char>::empty();
    if parts.len() == 1 {
        part_occurs(empty, parts[0], empty);
        assert(empty + parts[0] + empty =~= parts[0]);
    } else {
        let head = joined(parts.drop_last(), sep);
        part_occurs(head, sep, parts.last());
        if i == parts.len() - 1 {
            part_occurs(head + sep, parts.last(), empty);
            assert(head + sep + parts.last() + empty =~= joined(parts, sep));
        } else {
            joined_holds_each(parts.drop_last(), sep, i);
            occurs_within(empty, head, sep + parts.last(), parts[i]);
            assert(empty + head + (sep + parts.last()) =~= joined(parts, sep));
        }
    }
}

/// Joined texts are as long as the texts and what stands between them.
pub proof fn joined_length(parts: Seq<Seq<char>>, sep: Seq<char>)
    ensures
        parts.len() > 0 ==> joined(parts, sep).len() == total_length(parts) + (parts.len() - 1)
            * sep.len(),
    decreases parts.len(),
{
    if parts.len() == 1 {
        assert(total_length(parts.drop_last()) == 0);
        assert(0 * sep.len() == 0) by (nonlinear_arith);
    } else if parts.len() > 1 {
        joined_length(parts.drop_last(), sep);
        let (n, k) = (parts.len() - 2, sep.len() as int);
        assert(n * k + k == (n + 1) * k) by (nonlinear_arith);
    }
}

/// How many characters texts hold together.
pub open spec fn total_length(parts: Seq<Seq<char>>) -> nat
    decreases parts.len(),
{
    if parts.len() == 0 {
        0
    } else {
        total_length(parts.drop_last()) + parts.last().len()
    }
}

/// Lower case changes the capital letters of ASCII, each to the small one, and nothing
/// else.
pub proof fn lower_changes_capitals_only(s: Seq<char>)
    ensures
        lower(s).len() == s.len(),
        forall|i: int|
            0 <= i < s.len() ==> if 'A' <= #[trigger] s[i] <= 'Z' {
                lower(s)[i] as int - 'a' as int == s[i] as int - 'A' as int
            } else {
                lower(s)[i] == s[i]
            },
        lower(lower(s)) == lower(s),
{
    assert(lower(lower(s)) =~= lower(s));
}

proof fn trim_start_cuts_blanks(s: Seq<char>)
    ensures
        exists|k: int|
            0 <= k <= s.len() && #[trigger] s.skip(k) == trim_start(s) && forall|i: int|
                0 <= i < k ==> blank(#[trigger] s[i]),
        trim_start(s).len() > 0 ==> !blank(trim_start(s)[0]),
    decreases s.len(),
{
    if s.len() > 0 && blank(s[0]) {
        trim_start_cuts_blanks(s.skip(1));
        let k = choose|k: int|
            0 <= k <= s.skip(1).len() && #[trigger] s.skip(1).skip(k) == trim_start(s.skip(1))
                && forall|i: int| 0 <= i < k ==> blank(#[trigger] s.skip(1)[i]);
        assert(s.skip(k + 1) =~= s.skip(1).skip(k));
        assert forall|i: int| 0 <= i < k + 1 implies blank(#[trigger] s[i]) by {
            if i > 0 {
                assert(s.skip(1)[i - 1] == s[i]);
            }
        }
    } else {
        assert(s.skip(0) =~= s);
    }
}

proof fn trim_end_cuts_blanks(s: Seq<char>)
    ensures
        trim_end(s).len() <= s.len(),
        trim_end(s) == s.take(trim_end(s).len() as int),
        forall|i: int| trim_end(s).len() <= i < s.len() ==> blank(#[trigger] s[i]),
        trim_end(s).len() > 0 ==> !blank(trim_end(s).last()),
    decreases s.len(),
{
    if s.len() > 0 && blank(s.last()) {
        trim_end_cuts_blanks(s.drop_last());
        let n = trim_end(s).len() as int;
        assert(s.drop_last().take(n) =~= s.take(n));
        assert forall|i: int| n <= i < s.len() implies blank(#[trigger] s[i]) by {
            if i < s.len() - 1 {
                assert(s.drop_last()[i] == s[i]);
            }
        }
    } else {
        assert(s.take(s.len() as int) =~= s);
    }
}

/// A trimmed text starts and ends with what is no blank, and only blanks were cut off.
pub proof fn trimming_cuts_blanks_only(s: Seq<char>)
    ensures
        exists|k: int|
            #![trigger s.skip(k)]
            0 <= k && k + trimmed(s).len() <= s.len() && s.skip(k).take(trimmed(s).len() as int)
                == trimmed(s) && forall|i: int|
                0 <= i < k || k + trimmed(s).len() <= i < s.len() ==> blank(#[trigger] s[i]),
        trimmed(s).len() > 0 ==> !blank(trimmed(s)[0]) && !blank(trimmed(s).last()),
        blank(' ') && blank('\n') && blank('\t') && blank('\r'),
        forall|c: char| 'a' <= c <= 'z' || 'A' <= c <= 'Z' || '0' <= c <= '9' ==> !blank(c),
{
    trim_start_cuts_blanks(s);
    let k = choose|k: int|
        0 <= k <= s.len() && #[trigger] s.skip(k) == trim_start(s) && forall|i: int|
            0 <= i < k ==> blank(#[trigger] s[i]);
    let t = s.skip(k);
    trim_end_cuts_blanks(t);
    assert forall|i: int|
        0 <= i < k || k + trimmed(s).len() <= i < s.len() implies blank(#[trigger] s[i]) by {
        if i >= k {
            assert(t[i - k] == s[i]);
        }
    }
}

/// What stands in what stands in a text stands in the text.
pub proof fn occurs_through<A>(whole: Seq<A>, part: Seq<A>, needle: Seq<A>)
    requires
        occurs(whole, part),
        occurs(part, needle),
    ensures
        occurs(whole, needle),
{
    let i = choose|i: int| occurs_at(whole, part, i);
    let (before, after) = (whole.take(i), whole.skip(i + part.len()));
    assert(whole =~= before + part + after);
    occurs_within(before, part, after, needle);
}

/// What stands in the first of two texts stands in both together.
pub broadcast proof fn occurs_in_first(a: Seq<char>, b: Seq<char>, needle: Seq<char>)
    requires
        occurs(a, needle),
    ensures
        #[trigger] occurs(a + b, needle),
{
    let i = choose|i: int| occurs_at(a, needle, i);
    assert((a + b).subrange(i, i + needle.len()) =~= needle);
    assert(occurs_at(a + b, needle, i));
}

/// What stands in the second of two texts stands in both together.
pub broadcast proof fn occurs_in_second(a: Seq<char>, b: Seq<char>, needle: Seq<char>)
    requires
        occurs(b, needle),
    ensures
        #[trigger] occurs(a + b, needle),
{
    let i = choose|i: int| occurs_at(b, needle, i);
    let j = a.len() + i;
    assert((a + b).subrange(j, j + needle.len()) =~= b.subrange(i, i + needle.len()));
    assert(occurs_at(a + b, needle, j));
}

/// A text stands in itself.
pub broadcast proof fn occurs_in_itself(a: Seq<char>)
    ensures
        #[trigger] occurs(a, a),
{
    assert(a.subrange(0, a.len() as int) =~= a);
    assert(occurs_at(a, a, 0));
}

/// A text starts with what its first part starts with.
pub broadcast proof fn begins_in_first(a: Seq<char>, b: Seq<char>, prefix: Seq<char>)
    requires
        begins(a, prefix),
    ensures
        #[trigger] begins(a + b, prefix),
{
    assert((a + b).subrange(0, prefix.len() as int) =~= a.subrange(0, prefix.len() as int));
}

/// A text starts with itself.
pub broadcast proof fn begins_with_itself(a: Seq<char>)
    ensures
        #[trigger] begins(a, a),
{
    assert(a.subrange(0, a.len() as int) =~= a);
}

pub broadcast group group_parts {
    occurs_in_first,
    occurs_in_second,
    occurs_in_itself,
    begins_in_first,
    begins_with_itself,
}

proof fn found_first<A>(hay: Seq<A>, needle: Seq<A>, from: int, i: int)
    requires
        0 <= from <= i,
        occurs_at(hay, needle, i),
        forall|k: int| from <= k < i ==> !occurs_at(hay, needle, k),
    ensures
        index_from(hay, needle, from) == Some(i),
{
    index_from_is_first(hay, needle, from);
    match index_from(hay, needle, from) {
        None => {
            assert(!occurs_at(hay, needle, i));
        },
        Some(k) => {
            if k > i {
                assert(!occurs_at(hay, needle, i));
            }
        },
    }
}

/// A text that does not hold what is replaced stays as it is; one that holds it once has
/// it replaced in its place, with all before it and all behind it as it was.
pub proof fn what_is_replaced_is_replaced_in_its_place(
    before: Seq<char>,
    pat: Seq<char>,
    after: Seq<char>,
    rep: Seq<char>,
)
    requires
        pat.len() > 0,
        forall|k: int| k != before.len() ==> !#[trigger] occurs_at(before + pat + after, pat, k),
    ensures
        replaced(before + pat + after, pat, rep, 0) == before + rep + after,
{
    let text = before + pat + after;
    let i = before.len() as int;
    assert(text.subrange(i, i + pat.len()) =~= pat);
    found_first(text, pat, 0, i);
    nothing_to_replace(text, pat, rep, i + pat.len());
    assert(text.subrange(0, i) =~= before);
    assert(text.skip(i + pat.len()) =~= after);
}

/// A text that does not hold what is replaced, from a place on, stays as it is from there.
pub proof fn nothing_to_replace(text: Seq<char>, pat: Seq<char>, rep: Seq<char>, from: int)
    requires
        pat.len() > 0,
        0 <= from <= text.len(),
        forall|k: int| from <= k ==> !#[trigger] occurs_at(text, pat, k),
    ensures
        replaced(text, pat, rep, from) == text.skip(from),
{
    index_from_is_first(text, pat, from);
    if let Some(k) = index_from(text, pat, from) {
        assert(occurs_at(text, pat, k));
    }
}

} // verus!
