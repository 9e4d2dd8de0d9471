//! Reading command output and system files: searching text for words.
use vstd::prelude::*;
use vstd::std_specs::iter::IteratorSpec;
use vstd::string::*;

verus! {

/// Copies the characters of a string slice.
pub fn chars_of(s: &str) -> (r: Vec<char>)
    ensures
        r@ == s@,
{
    broadcast use axiom_spec_iter, next_postcondition;

    let mut it = s.chars();
    let mut r: Vec<char> = Vec::new();
    loop
        invariant
            it.obeys_prophetic_iter_laws(),
            r@ + it.remaining() == s@,
            it.decrease() is Some,
        decreases it.decrease()->0,
    {
        match it.next() {
            Some(c) => {
                r.push(c);
                assert(r@ + it.remaining() =~= s@);
            },
            None => {
                assert(r@ =~= s@);
                return r;
            },
        }
    }
}

/// Whether `needle` occurs in `hay` at position `i`.
pub open spec fn occurs_at(hay: Seq<char>, needle: Seq<char>, i: int) -> bool {
    0 <= i && i + needle.len() <= hay.len() && hay.subrange(i, i + needle.len()) == needle
}

/// Whether `needle` occurs anywhere in `hay`.
pub open spec fn text_contains(hay: Seq<char>, needle: Seq<char>) -> bool {
    exists|i: int| occurs_at(hay, needle, i)
}

fn occurs_at_exec(hay: &Vec<char>, needle: &Vec<char>, i: usize) -> (r: bool)
    requires
        i + needle@.len() <= hay@.len(),
    ensures
        r == occurs_at(hay@, needle@, i as int),
{
    let n = hay.len();
    let mut j: usize = 0;
    while j < needle.len()
        invariant
            n == hay@.len(),
            j <= needle@.len(),
            i + needle@.len() <= hay@.len(),
            forall|k: int| 0 <= k < j ==> hay@[i + k] == needle@[k],
        decreases needle@.len() - j,
    {
        if hay[i + j] != needle[j] {
            assert(hay@.subrange(i as int, i + needle@.len())[j as int] != needle@[j as int]);
            return false;
        }
        j = j + 1;
    }
    assert(hay@.subrange(i as int, i + needle@.len()) =~= needle@);
    true
}

/// Whether `needle` occurs in `hay`.
pub fn contains_chars(hay: &Vec<char>, needle: &Vec<char>) -> (r: bool)
    ensures
        r == text_contains(hay@, needle@),
{
    if needle.len() > hay.len() {
        return false;
    }
    if needle.len() == 0 {
        assert(hay@.subrange(0, 0) =~= needle@);
        assert(occurs_at(hay@, needle@, 0));
        return true;
    }
    let n = hay.len();
    let last = n - needle.len();
    let mut i: usize = 0;
    while i <= last
        invariant
            n == hay@.len(),
            last + needle@.len() == hay@.len(),
            needle@.len() > 0,
            i <= last + 1,
            forall|k: int| 0 <= k < i ==> !occurs_at(hay@, needle@, k),
        decreases last + 1 - i,
    {
        if occurs_at_exec(hay, needle, i) {
            return true;
        }
        i = i + 1;
    }
    false
}

/// Whether an os-release text names XeroLinux.
pub fn mentions_xerolinux(os_release: &str) -> (r: bool)
    ensures
        r == (text_contains(os_release@, "XeroLinux"@) || text_contains(
            os_release@,
            "xerolinux"@,
        )),
{
    let text = chars_of(os_release);
    contains_chars(&text, &chars_of("XeroLinux")) || contains_chars(&text, &chars_of("xerolinux"))
}

/// Whether the output of `flatpak list` names the package.
pub fn flatpak_listed(list_output: &str, package: &str) -> (r: bool)
    ensures
        r == text_contains(list_output@, package@),
{
    contains_chars(&chars_of(list_output), &chars_of(package))
}

/// Whether a character is white space in the Unicode sense, as
/// `char::is_whitespace` has it.
pub open spec fn is_white(c: char) -> bool {
    c == ' ' || ('\u{9}' <= c && c <= '\u{d}') || c == '\u{85}' || c == '\u{a0}' || c
        == '\u{1680}' || ('\u{2000}' <= c && c <= '\u{200a}') || c == '\u{2028}' || c
        == '\u{2029}' || c == '\u{202f}' || c == '\u{205f}' || c == '\u{3000}'
}

fn is_white_exec(c: char) -> (r: bool)
    ensures
        r == is_white(c),
{
    c == ' ' || ('\u{9}' <= c && c <= '\u{d}') || c == '\u{85}' || c == '\u{a0}' || c
        == '\u{1680}' || ('\u{2000}' <= c && c <= '\u{200a}') || c == '\u{2028}' || c
        == '\u{2029}' || c == '\u{202f}' || c == '\u{205f}' || c == '\u{3000}'
}

/// The pieces of a text between line feeds; the last one may be empty.
pub open spec fn pieces(s: Seq<char>) -> Seq<Seq<char>>
    decreases s.len(),
{
    if s.len() == 0 {
        seq![Seq::<char>::empty()]
    } else {
        let p = pieces(s.drop_last());
        if s.last() == '\n' {
            p.push(Seq::<char>::empty())
        } else {
            p.update(p.len() - 1, p.last().push(s.last()))
        }
    }
}

proof fn lemma_pieces_nonempty(s: Seq<char>)
    ensures
        pieces(s).len() >= 1,
    decreases s.len(),
{
    if s.len() > 0 {
        lemma_pieces_nonempty(s.drop_last());
    }
}

/// A line that ended in a line feed loses a carriage return before it.
pub open spec fn strip_cr(l: Seq<char>) -> Seq<char> {
    if l.len() > 0 && l.last() == '\r' {
        l.drop_last()
    } else {
        l
    }
}

/// The lines of a text that end in a line feed, without it (and without a
/// carriage return before it).
pub open spec fn ended_lines(s: Seq<char>) -> Seq<Seq<char>> {
    let p = pieces(s);
    Seq::new((p.len() - 1) as nat, |j: int| strip_cr(p[j]))
}

/// The lines of a text, as `str::lines` gives them: the ended lines, then
/// what follows the last line feed unless it is empty.
pub open spec fn text_lines(s: Seq<char>) -> Seq<Seq<char>> {
    let p = pieces(s);
    ended_lines(s) + if p.last().len() > 0 {
        seq![p.last()]
    } else {
        Seq::<Seq<char>>::empty()
    }
}

/// Whether `bounds` gives, in order, where each of `lines` stands in `text`.
pub open spec fn bounds_of(bounds: Seq<(usize, usize)>, text: Seq<char>, lines: Seq<Seq<char>>) -> bool {
    &&& bounds.len() == lines.len()
    &&& forall|j: int|
        0 <= j < bounds.len() ==> {
            &&& (#[trigger] bounds[j]).0 <= bounds[j].1 <= text.len()
            &&& text.subrange(bounds[j].0 as int, bounds[j].1 as int) == lines[j]
        }
}

/// Where each line of a text starts and ends.
pub fn line_bounds(text: &Vec<char>) -> (r: Vec<(usize, usize)>)
    ensures
        bounds_of(r@, text@, text_lines(text@)),
{
    let n = text.len();
    let mut r: Vec<(usize, usize)> = Vec::new();
    let mut start: usize = 0;
    let mut i: usize = 0;
    proof {
        assert(text@.take(0) =~= Seq::<char>::empty());
        assert(text@.subrange(0, 0) =~= Seq::<char>::empty());
    }
    while i < n
        invariant
            n == text@.len(),
            start <= i <= n,
            pieces(text@.take(i as int)).len() >= 1,
            pieces(text@.take(i as int)).last() == text@.subrange(start as int, i as int),
            bounds_of(r@, text@, ended_lines(text@.take(i as int))),
        decreases n - i,
    {
        let ghost before = pieces(text@.take(i as int));
        let c = text[i];
        proof {
            assert(text@.take(i + 1).drop_last() =~= text@.take(i as int));
            assert(text@.take(i + 1).last() == c);
        }
        if c == '\n' {
            let end = if i > start && text[i - 1] == '\r' {
                i - 1
            } else {
                i
            };
            proof {
                let l = text@.subrange(start as int, i as int);
                if i > start && text@[i - 1] == '\r' {
                    assert(text@.subrange(start as int, end as int) =~= l.drop_last());
                } else {
                    assert(text@.subrange(start as int, end as int) =~= l);
                }
                assert(text@.subrange(start as int, end as int) == strip_cr(l));
            }
            r.push((start, end));
            start = i + 1;
            proof {
                let after = pieces(text@.take(i + 1));
                assert(after == before.push(Seq::<char>::empty()));
                assert(ended_lines(text@.take(i + 1)) =~= ended_lines(text@.take(i as int)).push(
                    strip_cr(before.last()),
                ));
                assert(text@.subrange(start as int, i + 1) =~= Seq::<char>::empty());
            }
        } else {
            proof {
                let after = pieces(text@.take(i + 1));
                assert(after == before.update(before.len() - 1, before.last().push(c)));
                assert(ended_lines(text@.take(i + 1)) =~= ended_lines(text@.take(i as int)));
                assert(text@.subrange(start as int, i + 1) =~= text@.subrange(
                    start as int,
                    i as int,
                ).push(c));
            }
        }
        i = i + 1;
    }
    proof {
        assert(text@.take(n as int) =~= text@);
    }
    if start < n {
        r.push((start, n));
        proof {
            assert(text_lines(text@) =~= ended_lines(text@).push(pieces(text@).last()));
        }
    } else {
        proof {
            assert(text_lines(text@) =~= ended_lines(text@));
        }
    }
    r
}

/// A text without its leading white space.
pub open spec fn skip_white(l: Seq<char>) -> Seq<char>
    decreases l.len(),
{
    if l.len() > 0 && is_white(l[0]) {
        skip_white(l.drop_first())
    } else {
        l
    }
}

/// The characters before the first white space.
pub open spec fn take_word(l: Seq<char>) -> Seq<char>
    decreases l.len(),
{
    if l.len() == 0 || is_white(l[0]) {
        Seq::<char>::empty()
    } else {
        seq![l[0]] + take_word(l.drop_first())
    }
}

/// The first white-space-separated word of a line, or nothing.
pub open spec fn first_word(l: Seq<char>) -> Seq<char> {
    take_word(skip_white(l))
}

/// The first words of the lines that contain `pattern`, in order.
pub open spec fn matching_names(lines: Seq<Seq<char>>, pattern: Seq<char>) -> Seq<Seq<char>>
    decreases lines.len(),
{
    if lines.len() == 0 {
        Seq::<Seq<char>>::empty()
    } else {
        let rest = matching_names(lines.drop_last(), pattern);
        if text_contains(lines.last(), pattern) {
            rest.push(first_word(lines.last()))
        } else {
            rest
        }
    }
}

proof fn lemma_skip_white(l: Seq<char>, p: int)
    requires
        0 <= p <= l.len(),
        forall|k: int| 0 <= k < p ==> is_white(#[trigger] l[k]),
        p == l.len() || !is_white(l[p]),
    ensures
        skip_white(l) == l.subrange(p, l.len() as int),
    decreases p,
{
    if p == 0 {
        assert(l.subrange(0, l.len() as int) =~= l);
    } else {
        let t = l.drop_first();
        assert forall|k: int| 0 <= k < p - 1 implies is_white(#[trigger] t[k]) by {
            assert(t[k] == l[k + 1]);
        }
        lemma_skip_white(t, p - 1);
        assert(t.subrange(p - 1, t.len() as int) =~= l.subrange(p, l.len() as int));
    }
}

proof fn lemma_take_word(m: Seq<char>, q: int)
    requires
        0 <= q <= m.len(),
        forall|k: int| 0 <= k < q ==> !is_white(#[trigger] m[k]),
        q == m.len() || is_white(m[q]),
    ensures
        take_word(m) == m.subrange(0, q),
    decreases q,
{
    if q == 0 {
        assert(m.subrange(0, 0) =~= Seq::<char>::empty());
    } else {
        let t = m.drop_first();
        assert forall|k: int| 0 <= k < q - 1 implies !is_white(#[trigger] t[k]) by {
            assert(t[k] == m[k + 1]);
        }
        lemma_take_word(t, q - 1);
        assert(seq![m[0]] + t.subrange(0, q - 1) =~= m.subrange(0, q));
    }
}

/// Copies the characters between `a` and `b`.
fn chars_between(text: &Vec<char>, a: usize, b: usize) -> (r: Vec<char>)
    requires
        a <= b <= text@.len(),
    ensures
        r@ == text@.subrange(a as int, b as int),
{
    let mut r: Vec<char> = Vec::new();
    let mut k: usize = a;
    while k < b
        invariant
            a <= k <= b <= text@.len(),
            r@ == text@.subrange(a as int, k as int),
        decreases b - k,
    {
        r.push(text[k]);
        assert(r@ =~= text@.subrange(a as int, k + 1));
        k = k + 1;
    }
    r
}

/// Where the first word of `line` stands in it.
fn first_word_bounds(line: &Vec<char>) -> (r: (usize, usize))
    ensures
        r.0 <= r.1 <= line@.len(),
        line@.subrange(r.0 as int, r.1 as int) == first_word(line@),
{
    let n = line.len();
    let mut p: usize = 0;
    while p < n && is_white_exec(line[p])
        invariant
            n == line@.len(),
            p <= n,
            forall|k: int| 0 <= k < p ==> is_white(#[trigger] line@[k]),
        decreases n - p,
    {
        p = p + 1;
    }
    proof {
        lemma_skip_white(line@, p as int);
    }
    let mut q: usize = p;
    while q < n && !is_white_exec(line[q])
        invariant
            n == line@.len(),
            p <= q <= n,
            forall|k: int| p <= k < q ==> !is_white(#[trigger] line@[k]),
        decreases n - q,
    {
        q = q + 1;
    }
    proof {
        let m = line@.subrange(p as int, n as int);
        assert forall|k: int| 0 <= k < q - p implies !is_white(#[trigger] m[k]) by {
            assert(m[k] == line@[p + k]);
        }
        if q < n {
            assert(m[q - p] == line@[q as int]);
        }
        lemma_take_word(m, q - p);
        assert(m.subrange(0, q - p) =~= line@.subrange(p as int, q as int));
    }
    (p, q)
}

/// The names of the packages whose line in the output of a `-Q` query holds
/// `pattern`: the first word of each such line, in order.
pub fn package_names_matching(output: &str, pattern: &str) -> (r: Vec<String>)
    ensures
        crate::types::strings_view(r@) == matching_names(text_lines(output@), pattern@),
{
    let text = chars_of(output);
    let needle = chars_of(pattern);
    let bounds = line_bounds(&text);
    let ghost lines = text_lines(output@);
    let mut r: Vec<String> = Vec::new();
    let mut j: usize = 0;
    while j < bounds.len()
        invariant
            text@ == output@,
            needle@ == pattern@,
            bounds_of(bounds@, text@, lines),
            j <= bounds@.len(),
            crate::types::strings_view(r@) == matching_names(lines.take(j as int), pattern@),
        decreases bounds@.len() - j,
    {
        let (a, b) = bounds[j];
        let line = chars_between(&text, a, b);
        proof {
            assert(lines.take(j + 1).drop_last() =~= lines.take(j as int));
            assert(lines.take(j + 1).last() == line@);
        }
        if contains_chars(&line, &needle) {
            let (p, q) = first_word_bounds(&line);
            assert(a + q <= b);
            let word = String::from_str(output.substring_char(a + p, a + q));
            assert(word@ =~= line@.subrange(p as int, q as int));
            let ghost old_r = r@;
            r.push(word);
            assert(crate::types::strings_view(r@) =~= crate::types::strings_view(old_r).push(word@));
        }
        j = j + 1;
    }
    assert(lines.take(j as int) =~= lines);
    r
}

/// A text without its leading double quotes.
pub open spec fn trim_start_quotes(l: Seq<char>) -> Seq<char>
    decreases l.len(),
{
    if l.len() > 0 && l[0] == '"' {
        trim_start_quotes(l.drop_first())
    } else {
        l
    }
}

/// A text without its trailing double quotes.
pub open spec fn trim_end_quotes(l: Seq<char>) -> Seq<char>
    decreases l.len(),
{
    if l.len() > 0 && l.last() == '"' {
        trim_end_quotes(l.drop_last())
    } else {
        l
    }
}

/// The value of the last line that starts with `key`, after the key, without
/// surrounding double quotes.
pub open spec fn value_of(lines: Seq<Seq<char>>, key: Seq<char>) -> Option<Seq<char>>
    decreases lines.len(),
{
    if lines.len() == 0 {
        None
    } else {
        let l = lines.last();
        if key.len() <= l.len() && l.take(key.len() as int) == key {
            Some(trim_end_quotes(trim_start_quotes(l.skip(key.len() as int))))
        } else {
            value_of(lines.drop_last(), key)
        }
    }
}

proof fn lemma_trim_start(l: Seq<char>, p: int)
    requires
        0 <= p <= l.len(),
        forall|k: int| 0 <= k < p ==> #[trigger] l[k] == '"',
        p == l.len() || l[p] != '"',
    ensures
        trim_start_quotes(l) == l.subrange(p, l.len() as int),
    decreases p,
{
    if p == 0 {
        assert(l.subrange(0, l.len() as int) =~= l);
    } else {
        let t = l.drop_first();
        assert forall|k: int| 0 <= k < p - 1 implies #[trigger] t[k] == '"' by {
            assert(t[k] == l[k + 1]);
        }
        lemma_trim_start(t, p - 1);
        assert(t.subrange(p - 1, t.len() as int) =~= l.subrange(p, l.len() as int));
    }
}

proof fn lemma_trim_end(l: Seq<char>, q: int)
    requires
        0 <= q <= l.len(),
        forall|k: int| q <= k < l.len() ==> #[trigger] l[k] == '"',
        q == 0 || l[q - 1] != '"',
    ensures
        trim_end_quotes(l) == l.subrange(0, q),
    decreases l.len() - q,
{
    if q == l.len() {
        assert(l.subrange(0, q) =~= l);
    } else {
        let t = l.drop_last();
        assert forall|k: int| q <= k < t.len() implies #[trigger] t[k] == '"' by {
            assert(t[k] == l[k]);
        }
        lemma_trim_end(t, q);
        assert(t.subrange(0, q) =~= l.subrange(0, q));
    }
}

/// Whether `line` starts with `key`.
fn starts_with_chars(line: &Vec<char>, key: &Vec<char>) -> (r: bool)
    ensures
        r == (key@.len() <= line@.len() && line@.take(key@.len() as int) == key@),
{
    if key.len() > line.len() {
        return false;
    }
    let mut k: usize = 0;
    while k < key.len()
        invariant
            key@.len() <= line@.len(),
            k <= key@.len(),
            forall|i: int| 0 <= i < k ==> line@[i] == key@[i],
        decreases key@.len() - k,
    {
        if line[k] != key[k] {
            assert(line@.take(key@.len() as int)[k as int] != key@[k as int]);
            return false;
        }
        k = k + 1;
    }
    assert(line@.take(key@.len() as int) =~= key@);
    true
}

/// Where the value of a `KEY=value` line stands, without surrounding quotes.
fn value_bounds(line: &Vec<char>, from: usize) -> (r: (usize, usize))
    requires
        from <= line@.len(),
    ensures
        from <= r.0 <= r.1 <= line@.len(),
        line@.subrange(r.0 as int, r.1 as int) == trim_end_quotes(
            trim_start_quotes(line@.skip(from as int)),
        ),
{
    let n = line.len();
    let mut p: usize = from;
    while p < n && line[p] == '"'
        invariant
            n == line@.len(),
            from <= p <= n,
            forall|k: int| from <= k < p ==> #[trigger] line@[k] == '"',
        decreases n - p,
    {
        p = p + 1;
    }
    let mut q: usize = n;
    while q > p && line[q - 1] == '"'
        invariant
            n == line@.len(),
            p <= q <= n,
            forall|k: int| q <= k < n ==> #[trigger] line@[k] == '"',
        decreases q,
    {
        q = q - 1;
    }
    proof {
        let v = line@.skip(from as int);
        assert forall|k: int| 0 <= k < p - from implies #[trigger] v[k] == '"' by {
            assert(v[k] == line@[from + k]);
        }
        if p < n {
            assert(v[p - from] == line@[p as int]);
        }
        lemma_trim_start(v, p - from);
        let w = v.subrange(p - from, v.len() as int);
        assert(w =~= line@.subrange(p as int, n as int));
        assert forall|k: int| q - p <= k < w.len() implies #[trigger] w[k] == '"' by {
            assert(w[k] == line@[p + k]);
        }
        if q > p {
            assert(w[q - p - 1] == line@[q - 1]);
        }
        lemma_trim_end(w, q - p);
        assert(w.subrange(0, q - p) =~= line@.subrange(p as int, q as int));
    }
    (p, q)
}

/// The distribution's name and version in an os-release text: the values
/// of its last `NAME=` and `VERSION=` lines, when it has both.
pub fn parse_distribution_info(os_release: &str) -> (r: Option<(String, String)>)
    ensures
        match (value_of(text_lines(os_release@), "NAME="@), value_of(
            text_lines(os_release@),
            "VERSION="@,
        )) {
            (Some(n), Some(v)) => match r {
                Some((name, version)) => name@ == n && version@ == v,
                None => false,
            },
            _ => r is None,
        },
{
    let text = chars_of(os_release);
    let name_key = chars_of("NAME=");
    let version_key = chars_of("VERSION=");
    let bounds = line_bounds(&text);
    let ghost lines = text_lines(os_release@);
    let mut name: Option<String> = None;
    let mut version: Option<String> = None;
    let mut j: usize = 0;
    while j < bounds.len()
        invariant
            text@ == os_release@,
            name_key@ == "NAME="@,
            version_key@ == "VERSION="@,
            bounds_of(bounds@, text@, lines),
            j <= bounds@.len(),
            match value_of(lines.take(j as int), "NAME="@) {
                Some(n) => name is Some && name->0@ == n,
                None => name is None,
            },
            match value_of(lines.take(j as int), "VERSION="@) {
                Some(v) => version is Some && version->0@ == v,
                None => version is None,
            },
        decreases bounds@.len() - j,
    {
        let (a, b) = bounds[j];
        let line = chars_between(&text, a, b);
        proof {
            assert(lines.take(j + 1).drop_last() =~= lines.take(j as int));
            assert(lines.take(j + 1).last() == line@);
        }
        if starts_with_chars(&line, &name_key) {
            let (p, q) = value_bounds(&line, name_key.len());
            let value = String::from_str(os_release.substring_char(a + p, a + q));
            assert(value@ =~= line@.subrange(p as int, q as int));
            proof {
                reveal_strlit("NAME=");
                reveal_strlit("VERSION=");
                assert("NAME="@.len() == 5 && "NAME="@[0] == 'N');
                assert(line@.take(5)[0] == 'N');
                assert(line@[0] == 'N');
                if line@.len() >= 8 {
                    assert(line@.take(8)[0] == 'N');
                    assert("VERSION="@[0] == 'V');
                    assert(line@.take(8) != "VERSION="@);
                }
            }
            name = Some(value);
        } else if starts_with_chars(&line, &version_key) {
            let (p, q) = value_bounds(&line, version_key.len());
            let value = String::from_str(os_release.substring_char(a + p, a + q));
            assert(value@ =~= line@.subrange(p as int, q as int));
            version = Some(value);
        }
        j = j + 1;
    }
    assert(lines.take(j as int) =~= lines);
    match (name, version) {
        (Some(n), Some(v)) => Some((n, v)),
        _ => None,
    }
}

} // verus!
