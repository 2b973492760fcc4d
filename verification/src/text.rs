//! Text as sequences of characters: trimming, splitting, joining and comparing.

use vstd::prelude::*;

verus! {

/// Appends one character to the text. [`String::push`] documents exactly that: the given
/// character goes to the end of the string and nothing before it changes.
pub assume_specification[ String::push ](text: &mut String, c: char)
    ensures
        final(text)@ == old(text)@.push(c),
;

/// The texts a list of strings holds.
pub open spec fn texts(list: Seq<String>) -> Seq<Seq<char>> {
    Seq::new(list.len(), |i: int| list[i]@)
}

/// The text an optional string holds.
pub open spec fn text_of(value: Option<String>) -> Option<Seq<char>> {
    match value {
        Some(text) => Some(text@),
        None => None,
    }
}

/// The text an optional borrowed string holds.
pub open spec fn str_of(value: Option<&str>) -> Option<Seq<char>> {
    match value {
        Some(text) => Some(text@),
        None => None,
    }
}

/// The texts an optional list of strings holds.
pub open spec fn texts_of(value: Option<Vec<String>>) -> Option<Seq<Seq<char>>> {
    match value {
        Some(list) => Some(texts(list@)),
        None => None,
    }
}

/// The characters of a text, in order.
pub fn chars_of(text: &str) -> (r: Vec<char>)
    ensures
        r@ == text@,
{
    let mut out: Vec<char> = Vec::new();
    for c in it: text.chars()
        invariant
            out@ == it.seq().take(it.index() as int),
            it.seq() == text@,
    {
        out.push(c);
        assert(out@ =~= it.seq().take(it.index() + 1));
    }
    assert(out@ =~= text@);
    out
}

/// Whether two texts are the same.
pub fn same_text(a: &str, b: &str) -> (r: bool)
    ensures
        r == (a@ == b@),
{
    let left: String = a.to_owned();
    left == b.to_owned()
}

/// Whether an optional text is present and equal to `expected`.
pub fn is_text(value: &Option<String>, expected: &str) -> (r: bool)
    ensures
        r == (text_of(*value) == Some(expected@)),
{
    match value {
        Some(text) => same_text(text.as_str(), expected),
        None => false,
    }
}

/// Clones an optional string.
pub fn copy_opt(value: &Option<String>) -> (r: Option<String>)
    ensures
        text_of(r) == text_of(*value),
{
    match value {
        Some(text) => Some(text.clone()),
        None => None,
    }
}

/// Clones a list of strings.
pub fn copy_texts(list: &Vec<String>) -> (r: Vec<String>)
    ensures
        texts(r@) == texts(list@),
{
    let mut out: Vec<String> = Vec::new();
    let mut i: usize = 0;
    while i < list.len()
        invariant
            i <= list@.len(),
            texts(out@) =~= texts(list@).take(i as int),
        decreases list@.len() - i,
    {
        let ghost before = out@;
        out.push(list[i].clone());
        i += 1;
        assert(texts(out@) =~= texts(before).push(list@[i - 1]@));
    }
    assert(texts(out@) =~= texts(list@));
    out
}

/// A borrowed view of an optional string.
pub fn as_str_opt<'a>(value: &'a Option<String>) -> (r: Option<&'a str>)
    ensures
        str_of(r) == text_of(*value),
{
    match value {
        Some(text) => Some(text.as_str()),
        None => None,
    }
}

// ---------------------------------------------------------------------------------------------
// White space
// ---------------------------------------------------------------------------------------------

/// The characters with Unicode's White_Space property.
pub open spec fn is_white_space(c: char) -> bool {
    let n = c as int;
    ||| 0x09 <= n <= 0x0d
    ||| n == 0x20
    ||| n == 0x85
    ||| n == 0xa0
    ||| n == 0x1680
    ||| 0x2000 <= n <= 0x200a
    ||| n == 0x2028
    ||| n == 0x2029
    ||| n == 0x202f
    ||| n == 0x205f
    ||| n == 0x3000
}

/// The text without its leading white space.
pub open spec fn trimmed_start(s: Seq<char>) -> Seq<char>
    decreases s.len(),
{
    if s.len() > 0 && is_white_space(s[0]) {
        trimmed_start(s.skip(1))
    } else {
        s
    }
}

/// The text without its trailing white space.
pub open spec fn trimmed_end(s: Seq<char>) -> Seq<char>
    decreases s.len(),
{
    if s.len() > 0 && is_white_space(s.last()) {
        trimmed_end(s.drop_last())
    } else {
        s
    }
}

/// The text without white space at either end.
pub open spec fn trimmed(s: Seq<char>) -> Seq<char> {
    trimmed_end(trimmed_start(s))
}

/// A text that holds nothing but white space.
pub open spec fn is_blank(s: Seq<char>) -> bool {
    trimmed(s).len() == 0
}

proof fn start_is_not_white(s: Seq<char>)
    ensures
        trimmed_start(s).len() > 0 ==> !is_white_space(trimmed_start(s)[0]),
        trimmed_start(s).len() == 0 <==> forall|i: int|
            0 <= i < s.len() ==> is_white_space(#[trigger] s[i]),
    decreases s.len(),
{
    if s.len() > 0 && is_white_space(s[0]) {
        let rest = s.skip(1);
        start_is_not_white(rest);
        assert forall|i: int| 0 <= i < s.len() && trimmed_start(s).len() == 0 implies is_white_space(
            #[trigger] s[i],
        ) by {
            if i > 0 {
                assert(rest[i - 1] == s[i]);
            }
        }
        if trimmed_start(s).len() > 0 {
            let i = choose|i: int| 0 <= i < rest.len() && !is_white_space(#[trigger] rest[i]);
            assert(s[i + 1] == rest[i]);
        }
    } else if s.len() > 0 {
        assert(!is_white_space(s[0]));
    }
}

proof fn end_keeps_the_start(s: Seq<char>)
    requires
        s.len() > 0,
        !is_white_space(s[0]),
    ensures
        trimmed_end(s).len() > 0,
    decreases s.len(),
{
    if is_white_space(s.last()) {
        end_keeps_the_start(s.drop_last());
    }
}

/// A text is blank exactly when all its characters are white space.
pub proof fn blank_is_all_white(s: Seq<char>)
    ensures
        is_blank(s) <==> forall|i: int| 0 <= i < s.len() ==> is_white_space(#[trigger] s[i]),
{
    start_is_not_white(s);
    if trimmed_start(s).len() > 0 {
        end_keeps_the_start(trimmed_start(s));
    }
}

/// Whether the character is white space.
pub fn white_space(c: char) -> (r: bool)
    ensures
        r == is_white_space(c),
{
    let n: u32 = c as u32;
    (0x09 <= n && n <= 0x0d) || n == 0x20 || n == 0x85 || n == 0xa0 || n == 0x1680 || (0x2000 <= n
        && n <= 0x200a) || n == 0x2028 || n == 0x2029 || n == 0x202f || n == 0x205f || n == 0x3000
}

/// The part of `text` between its leading and its trailing white space.
pub fn trim<'a>(text: &'a str) -> (r: &'a str)
    ensures
        r@ == trimmed(text@),
{
    let chars: Vec<char> = chars_of(text);
    let mut from: usize = 0;
    assert(chars@.skip(0) =~= chars@);
    while from < chars.len() && white_space(chars[from])
        invariant
            from <= chars@.len(),
            trimmed_start(chars@) == trimmed_start(chars@.skip(from as int)),
        decreases chars@.len() - from,
    {
        assert(chars@.skip(from as int).skip(1) =~= chars@.skip(from + 1));
        from += 1;
    }
    let ghost rest = chars@.skip(from as int);
    let mut to: usize = chars.len();
    assert(chars@.subrange(from as int, to as int) =~= rest);
    while from < to && white_space(chars[to - 1])
        invariant
            from <= to <= chars@.len(),
            rest == chars@.skip(from as int),
            trimmed_end(rest) == trimmed_end(chars@.subrange(from as int, to as int)),
        decreases to,
    {
        assert(chars@.subrange(from as int, to as int).drop_last() =~= chars@.subrange(
            from as int,
            to - 1,
        ));
        to -= 1;
    }
    text.substring_char(from, to)
}

/// Whether the text holds nothing but white space.
pub fn blank(text: &str) -> (r: bool)
    ensures
        r == is_blank(text@),
{
    trim(text).is_empty()
}

// ---------------------------------------------------------------------------------------------
// Letters and case
// ---------------------------------------------------------------------------------------------

/// The lower-case form of an ASCII letter; any other character as it is.
pub open spec fn ascii_lower(c: char) -> char {
    if 'A' <= c <= 'Z' {
        ((c as int) + 32) as char
    } else {
        c
    }
}

/// Two texts that differ at most in the case of ASCII letters.
pub open spec fn same_ignoring_ascii_case(a: Seq<char>, b: Seq<char>) -> bool {
    &&& a.len() == b.len()
    &&& forall|i: int| 0 <= i < a.len() ==> ascii_lower(a[i]) == #[trigger] ascii_lower(b[i])
}

fn lower_code(c: char) -> (r: u32)
    ensures
        r == ascii_lower(c) as u32,
{
    let n: u32 = c as u32;
    if 'A' <= c && c <= 'Z' {
        n + 32
    } else {
        n
    }
}

/// Whether two texts differ at most in the case of ASCII letters.
pub fn eq_ignore_ascii_case(a: &str, b: &str) -> (r: bool)
    ensures
        r == same_ignoring_ascii_case(a@, b@),
{
    let left: Vec<char> = chars_of(a);
    let right: Vec<char> = chars_of(b);
    if left.len() != right.len() {
        return false;
    }
    let mut i: usize = 0;
    while i < left.len()
        invariant
            left@ == a@,
            right@ == b@,
            left@.len() == right@.len(),
            i <= left@.len(),
            forall|j: int| 0 <= j < i ==> ascii_lower(a@[j]) == #[trigger] ascii_lower(b@[j]),
        decreases left@.len() - i,
    {
        if lower_code(left[i]) != lower_code(right[i]) {
            assert(ascii_lower(a@[i as int]) != ascii_lower(b@[i as int]));
            return false;
        }
        i += 1;
    }
    true
}

/// What lower-casing gives, by the Unicode rules for whole texts.
pub uninterp spec fn lowercase(s: Seq<char>) -> Seq<char>;

/// Lower-cases a text with [`str::to_lowercase`], which maps each text to one lower-case text
/// by Unicode's tables; which text that is, is left to those tables.
#[verifier::external_body]
pub(crate) fn to_lowercase(text: &str) -> (r: String)
    ensures
        r@ == lowercase(text@),
{
    text.to_lowercase()
}

/// How a text is shown between quotes, with what cannot be shown plainly escaped.
pub uninterp spec fn quoted(s: Seq<char>) -> Seq<char>;

/// Renders a text with its `Debug` form through [`std::fmt::format`]. The quoting and escaping
/// are a function of the text alone; the escapes themselves are not spelled out here.
#[verifier::external_body]
pub(crate) fn quote(text: &str) -> (r: String)
    ensures
        r@ == quoted(text@),
{
    format!("{text:?}")
}

// ---------------------------------------------------------------------------------------------
// Searching
// ---------------------------------------------------------------------------------------------

/// `part` occurs in `whole`, starting at `at`.
pub open spec fn occurs_at(whole: Seq<char>, part: Seq<char>, at: int) -> bool {
    0 <= at <= whole.len() - part.len() && whole.subrange(at, at + part.len()) == part
}

/// `part` occurs somewhere in `whole`.
pub open spec fn occurs_in(whole: Seq<char>, part: Seq<char>) -> bool {
    exists|at: int| occurs_at(whole, part, at)
}

/// Whether `part` occurs in `whole` at `at`.
fn found_at(whole: &Vec<char>, part: &Vec<char>, at: usize) -> (r: bool)
    requires
        at + part@.len() <= whole@.len(),
    ensures
        r == occurs_at(whole@, part@, at as int),
{
    let size: usize = whole.len();
    let mut i: usize = 0;
    while i < part.len()
        invariant
            size == whole@.len(),
            at + part@.len() <= size,
            i <= part@.len(),
            forall|j: int| 0 <= j < i ==> whole@[at + j] == #[trigger] part@[j],
        decreases part@.len() - i,
    {
        if whole[at + i] != part[i] {
            assert(whole@.subrange(at as int, at + part@.len())[i as int] != part@[i as int]);
            return false;
        }
        i += 1;
    }
    assert(whole@.subrange(at as int, at + part@.len()) =~= part@);
    true
}

/// Whether `part` occurs in `whole`.
pub fn contains_text(whole: &str, part: &str) -> (r: bool)
    ensures
        r == occurs_in(whole@, part@),
{
    let hay: Vec<char> = chars_of(whole);
    let needle: Vec<char> = chars_of(part);
    if needle.len() > hay.len() {
        return false;
    }
    let last: usize = hay.len() - needle.len();
    let mut at: usize = 0;
    while at < last
        invariant
            hay@ == whole@,
            needle@ == part@,
            last == hay@.len() - needle@.len(),
            at <= last,
            forall|j: int| 0 <= j < at ==> !occurs_at(whole@, part@, j),
        decreases last - at,
    {
        if found_at(&hay, &needle, at) {
            return true;
        }
        at += 1;
    }
    found_at(&hay, &needle, last)
}

/// The text after `prefix`, where it starts with it.
pub open spec fn without_prefix(s: Seq<char>, prefix: Seq<char>) -> Option<Seq<char>> {
    if prefix.is_prefix_of(s) {
        Some(s.skip(prefix.len() as int))
    } else {
        None
    }
}

/// What follows `prefix` in `text`, where `text` starts with it.
pub fn strip_prefix<'a>(text: &'a str, prefix: &str) -> (r: Option<&'a str>)
    ensures
        str_of(r) == without_prefix(text@, prefix@),
{
    let whole: Vec<char> = chars_of(text);
    let part: Vec<char> = chars_of(prefix);
    if part.len() > whole.len() {
        return None;
    }
    if found_at(&whole, &part, 0) {
        let rest: &'a str = text.substring_char(part.len(), whole.len());
        assert(rest@ =~= text@.skip(prefix@.len() as int));
        Some(rest)
    } else {
        None
    }
}

/// The first place where `c` stands at or after `from`, or the end of the text.
pub open spec fn next_index(s: Seq<char>, c: char, from: int) -> int
    decreases s.len() - from,
{
    if 0 <= from < s.len() && s[from] != c {
        next_index(s, c, from + 1)
    } else {
        from
    }
}

/// The text before and after the first `c`, where there is one.
pub open spec fn split_first(s: Seq<char>, c: char) -> Option<(Seq<char>, Seq<char>)> {
    let at = next_index(s, c, 0);
    if at < s.len() {
        Some((s.take(at), s.skip(at + 1)))
    } else {
        None
    }
}

/// The parts of `text` before and after the first `c`, where there is one.
pub fn split_once<'a>(text: &'a str, c: char) -> (r: Option<(&'a str, &'a str)>)
    ensures
        match r {
            Some((before, after)) => split_first(text@, c) == Some((before@, after@)),
            None => split_first(text@, c) is None,
        },
{
    let chars: Vec<char> = chars_of(text);
    let mut at: usize = 0;
    while at < chars.len() && chars[at] != c
        invariant
            chars@ == text@,
            at <= chars@.len(),
            next_index(text@, c, 0) == next_index(text@, c, at as int),
        decreases chars@.len() - at,
    {
        at += 1;
    }
    if at < chars.len() {
        let before: &'a str = text.substring_char(0, at);
        let after: &'a str = text.substring_char(at + 1, chars.len());
        assert(before@ =~= text@.take(at as int));
        assert(after@ =~= text@.skip(at + 1));
        Some((before, after))
    } else {
        None
    }
}

// ---------------------------------------------------------------------------------------------
// Splitting and joining
// ---------------------------------------------------------------------------------------------

/// The parts between the separators: a separator ends one part and starts the next, any other
/// character belongs to the part it stands in.
pub open spec fn split(s: Seq<char>, sep: char) -> Seq<Seq<char>>
    decreases s.len(),
{
    if s.len() == 0 {
        seq![Seq::<char>::empty()]
    } else {
        let parts = split(s.drop_last(), sep);
        if s.last() == sep {
            parts.push(Seq::<char>::empty())
        } else {
            parts.drop_last().push(parts.last().push(s.last()))
        }
    }
}

/// The parts one after the other, with `sep` between each two.
pub open spec fn join(parts: Seq<Seq<char>>, sep: Seq<char>) -> Seq<char>
    decreases parts.len(),
{
    if parts.len() == 0 {
        Seq::empty()
    } else if parts.len() == 1 {
        parts[0]
    } else {
        join(parts.drop_last(), sep) + sep + parts.last()
    }
}

/// Splitting and joining at the same separator gives the text back, and there is always at
/// least one part, none of which holds the separator.
pub proof fn split_then_join(s: Seq<char>, sep: char)
    ensures
        join(split(s, sep), seq![sep]) == s,
        split(s, sep).len() >= 1,
        forall|i: int| 0 <= i < split(s, sep).len() ==> !(#[trigger] split(s, sep)[i]).contains(sep),
    decreases s.len(),
{
    if s.len() == 0 {
        assert(join(split(s, sep), seq![sep]) =~= s);
    } else {
        let head = s.drop_last();
        let parts = split(head, sep);
        split_then_join(head, sep);
        assert(s =~= head.push(s.last()));
        if s.last() == sep {
            assert(split(s, sep).drop_last() =~= parts);
            assert(join(split(s, sep), seq![sep]) =~= s);
        } else {
            let grown = parts.last().push(s.last());
            let all = split(s, sep);
            assert(all.drop_last() =~= parts.drop_last());
            assert(all.last() == grown);
            assert(join(all, seq![sep]) =~= s);
            assert forall|i: int| 0 <= i < all.len() implies !(#[trigger] all[i]).contains(sep) by {
                if i == all.len() - 1 {
                    let last = parts[parts.len() - 1];
                    assert(!last.contains(sep));
                    if grown.contains(sep) {
                        let k = choose|k: int| 0 <= k < grown.len() && grown[k] == sep;
                        assert(last[k] == sep);
                    }
                } else {
                    assert(all[i] == parts[i]);
                }
            }
        }
    }
}

/// A joined text has each of its parts in it.
pub proof fn join_holds_its_parts(parts: Seq<Seq<char>>, sep: Seq<char>, i: int, j: int)
    requires
        0 <= i < parts.len(),
        0 <= j < parts[i].len(),
    ensures
        join(parts, sep).contains(parts[i][j]),
    decreases parts.len(),
{
    let whole = join(parts, sep);
    let c = parts[i][j];
    if parts.len() == 1 {
        assert(whole[j] == c);
    } else {
        let head = join(parts.drop_last(), sep);
        if i == parts.len() - 1 {
            assert(whole[head.len() + sep.len() + j] == c);
        } else {
            assert(parts.drop_last()[i] == parts[i]);
            join_holds_its_parts(parts.drop_last(), sep, i, j);
            let k = choose|k: int| 0 <= k < head.len() && head[k] == c;
            assert(whole[k] == c);
        }
    }
}

/// The parts of `text` between the separators.
pub fn split_text(text: &str, sep: char) -> (r: Vec<String>)
    ensures
        texts(r@) == split(text@, sep),
{
    let chars: Vec<char> = chars_of(text);
    let mut parts: Vec<String> = Vec::new();
    let mut current: String = String::new();
    let mut i: usize = 0;
    assert(texts(parts@).push(current@) =~= split(text@.take(0), sep));
    while i < chars.len()
        invariant
            chars@ == text@,
            i <= chars@.len(),
            texts(parts@).push(current@) == split(text@.take(i as int), sep),
        decreases chars@.len() - i,
    {
        let ghost before = texts(parts@).push(current@);
        let ghost old_parts = parts@;
        let c: char = chars[i];
        assert(text@.take(i + 1).drop_last() =~= text@.take(i as int));
        if c == sep {
            parts.push(current);
            current = String::new();
            assert(texts(parts@) =~= before);
        } else {
            assert(before.drop_last() =~= texts(parts@));
            current.push(c);
        }
        i += 1;
    }
    assert(text@.take(i as int) =~= text@);
    let ghost before = texts(parts@).push(current@);
    parts.push(current);
    assert(texts(parts@) =~= before);
    parts
}

/// The parts one after the other, with `sep` between each two.
pub fn join_texts(parts: &Vec<String>, sep: &str) -> (r: String)
    ensures
        r@ == join(texts(parts@), sep@),
{
    let mut out: String = String::new();
    let mut i: usize = 0;
    while i < parts.len()
        invariant
            i <= parts@.len(),
            out@ == join(texts(parts@).take(i as int), sep@),
        decreases parts@.len() - i,
    {
        assert(texts(parts@).take(i + 1).drop_last() =~= texts(parts@).take(i as int));
        if i > 0 {
            out.append(sep);
        }
        out.append(parts[i].as_str());
        i += 1;
        assert(out@ =~= join(texts(parts@).take(i as int), sep@));
    }
    assert(texts(parts@).take(i as int) =~= texts(parts@));
    out
}

// ---------------------------------------------------------------------------------------------
// Laws
// ---------------------------------------------------------------------------------------------

/// The code points of white space, one by one.
pub proof fn white_space_by_code_point(c: char)
    ensures
        is_white_space(c) <==> seq![
            9u32, 10, 11, 12, 13, 32, 133, 160, 5760, 8192, 8193, 8194, 8195, 8196, 8197, 8198,
            8199, 8200, 8201, 8202, 8232, 8233, 8239, 8287, 12288,
        ].contains(c as u32),
{
    let codes = seq![
        9u32, 10, 11, 12, 13, 32, 133, 160, 5760, 8192, 8193, 8194, 8195, 8196, 8197, 8198,
        8199, 8200, 8201, 8202, 8232, 8233, 8239, 8287, 12288,
    ];
    let n = c as u32;
    assert(codes.len() == 25);
    if codes.contains(n) {
        let i = choose|i: int| 0 <= i < codes.len() && codes[i] == n;
        assert(0 <= i < 25);
    }
    if is_white_space(c) {
        let place = if n <= 13 {
            n - 9
        } else if n == 32 {
            5
        } else if n == 133 {
            6
        } else if n == 160 {
            7
        } else if n == 5760 {
            8
        } else if n <= 8202 {
            9 + n - 8192
        } else if n == 8232 {
            20
        } else if n == 8233 {
            21
        } else if n == 8239 {
            22
        } else if n == 8287 {
            23
        } else {
            24
        };
        assert(codes[place] == n);
    }
}

proof fn start_cuts_white(s: Seq<char>) -> (cut: int)
    ensures
        0 <= cut <= s.len(),
        trimmed_start(s) == s.skip(cut),
        forall|i: int| 0 <= i < cut ==> is_white_space(#[trigger] s[i]),
    decreases s.len(),
{
    if s.len() > 0 && is_white_space(s[0]) {
        let rest = s.skip(1);
        let cut = start_cuts_white(rest);
        assert(rest.skip(cut) =~= s.skip(cut + 1));
        assert forall|i: int| 0 <= i < cut + 1 implies is_white_space(#[trigger] s[i]) by {
            if i > 0 {
                assert(rest[i - 1] == s[i]);
            }
        }
        cut + 1
    } else {
        assert(s.skip(0) =~= s);
        0
    }
}

proof fn end_cuts_white(s: Seq<char>) -> (left: int)
    ensures
        0 <= left <= s.len(),
        trimmed_end(s) == s.take(left),
        forall|i: int| left <= i < s.len() ==> is_white_space(#[trigger] s[i]),
        left > 0 ==> !is_white_space(s[left - 1]),
    decreases s.len(),
{
    if s.len() > 0 && is_white_space(s.last()) {
        let rest = s.drop_last();
        let left = end_cuts_white(rest);
        assert(rest.take(left) =~= s.take(left));
        assert forall|i: int| left <= i < s.len() implies is_white_space(#[trigger] s[i]) by {
            if i < rest.len() {
                assert(rest[i] == s[i]);
            }
        }
        left
    } else {
        assert(s.take(s.len() as int) =~= s);
        s.len() as int
    }
}

/// Trimming takes away white space alone, at the ends alone, and all of it there: the text is
/// what was taken off before, what is left, and what was taken off behind, and what is left
/// neither starts nor ends with white space.
pub proof fn trimming_takes_off_the_white_ends(s: Seq<char>) -> (r: (int, int))
    ensures
        0 <= r.0 <= r.1 <= s.len(),
        trimmed(s) == s.subrange(r.0, r.1),
        forall|i: int| 0 <= i < r.0 ==> is_white_space(#[trigger] s[i]),
        forall|i: int| r.1 <= i < s.len() ==> is_white_space(#[trigger] s[i]),
        r.0 < r.1 ==> !is_white_space(s[r.0]) && !is_white_space(s[r.1 - 1]),
{
    let cut = start_cuts_white(s);
    let rest = s.skip(cut);
    let left = end_cuts_white(rest);
    start_is_not_white(s);
    assert(rest.take(left) =~= s.subrange(cut, cut + left));
    assert forall|i: int| cut + left <= i < s.len() implies is_white_space(#[trigger] s[i]) by {
        assert(rest[i - cut] == s[i]);
    }
    if left > 0 {
        assert(rest[0] == s[cut]);
        assert(rest[left - 1] == s[cut + left - 1]);
    }
    (cut, cut + left)
}

/// White space put around a text changes nothing of what trimming leaves.
pub proof fn white_space_around_is_ignored(before: Seq<char>, s: Seq<char>, behind: Seq<char>)
    requires
        forall|i: int| 0 <= i < before.len() ==> is_white_space(#[trigger] before[i]),
        forall|i: int| 0 <= i < behind.len() ==> is_white_space(#[trigger] behind[i]),
        s.len() > 0,
        !is_white_space(s[0]),
        !is_white_space(s.last()),
    ensures
        trimmed(before + s + behind) == s,
{
    let whole = before + s + behind;
    let (from, to) = trimming_takes_off_the_white_ends(whole);
    let a = before.len() as int;
    let b = a + s.len();
    assert(whole[a] == s[0]);
    assert(whole[b - 1] == s.last());
    if from > a {
        assert(is_white_space(whole[a]));
    }
    if to < b {
        assert(is_white_space(whole[b - 1]));
    }
    if from < a {
        assert(whole[from] == before[from]);
    }
    if to > b {
        assert(whole[to - 1] == behind[to - 1 - b]);
    }
    assert(whole.subrange(a, b) =~= s);
}

/// Lower-casing touches the letters from A to Z alone, and moves each by thirty-two places.
pub proof fn only_ascii_letters_have_a_case(c: char)
    ensures
        65 <= c as int <= 90 ==> ascii_lower(c) as int == c as int + 32,
        !(65 <= c as int <= 90) ==> ascii_lower(c) == c,
{
}

/// Texts that differ at most in case are as long as each other, and at each place hold the same
/// character or the two cases of one ASCII letter.
pub proof fn case_is_all_that_differs(a: Seq<char>, b: Seq<char>)
    ensures
        same_ignoring_ascii_case(a, b) <==> a.len() == b.len() && forall|i: int|
            0 <= i < a.len() ==> {
                ||| #[trigger] a[i] == b[i]
                ||| 65 <= a[i] as int <= 90 && b[i] as int == a[i] as int + 32
                ||| 65 <= b[i] as int <= 90 && a[i] as int == b[i] as int + 32
            },
{
    if same_ignoring_ascii_case(a, b) {
        assert forall|i: int| 0 <= i < a.len() implies {
            ||| #[trigger] a[i] == b[i]
            ||| 65 <= a[i] as int <= 90 && b[i] as int == a[i] as int + 32
            ||| 65 <= b[i] as int <= 90 && a[i] as int == b[i] as int + 32
        } by {
            assert(ascii_lower(a[i]) == ascii_lower(b[i]));
            only_ascii_letters_have_a_case(a[i]);
            only_ascii_letters_have_a_case(b[i]);
        }
    }
    if a.len() == b.len() && forall|i: int|
        0 <= i < a.len() ==> {
            ||| #[trigger] a[i] == b[i]
            ||| 65 <= a[i] as int <= 90 && b[i] as int == a[i] as int + 32
            ||| 65 <= b[i] as int <= 90 && a[i] as int == b[i] as int + 32
        } {
        assert forall|i: int| 0 <= i < a.len() implies ascii_lower(a[i]) == #[trigger] ascii_lower(
            b[i],
        ) by {
            only_ascii_letters_have_a_case(a[i]);
            only_ascii_letters_have_a_case(b[i]);
            assert(a[i] == b[i] || a[i] != b[i]);
        }
    }
}

/// A part occurs in a text exactly where the text is something, the part, and something more.
pub proof fn a_part_occurs_between_any_two_texts(
    before: Seq<char>,
    part: Seq<char>,
    behind: Seq<char>,
)
    ensures
        occurs_in(before + part + behind, part),
{
    let whole = before + part + behind;
    assert(whole.subrange(before.len() as int, (before.len() + part.len()) as int) =~= part);
    assert(occurs_at(whole, part, before.len() as int));
}

/// A text that a part occurs in is something, the part, and something more.
pub proof fn what_a_part_occurs_in_holds_it(whole: Seq<char>, part: Seq<char>)
    requires
        occurs_in(whole, part),
    ensures
        exists|before: Seq<char>, behind: Seq<char>| #[trigger] (before + part + behind) == whole,
{
    let at = choose|at: int| occurs_at(whole, part, at);
    let before = whole.take(at);
    let behind = whole.skip(at + part.len());
    assert(before + part + behind =~= whole);
}

/// What follows a prefix is what was put behind it, and where there is such a rest the text is
/// the prefix and the rest.
pub proof fn a_prefix_comes_off_and_goes_on(prefix: Seq<char>, rest: Seq<char>, s: Seq<char>)
    ensures
        without_prefix(prefix + rest, prefix) == Some(rest),
        without_prefix(s, prefix) matches Some(left) ==> s == prefix + left,
{
    assert((prefix + rest).skip(prefix.len() as int) =~= rest);
    if without_prefix(s, prefix) is Some {
        assert(s =~= prefix + without_prefix(s, prefix)->0);
    }
}

proof fn next_index_is_first(s: Seq<char>, c: char, from: int)
    requires
        0 <= from <= s.len(),
    ensures
        from <= next_index(s, c, from) <= s.len(),
        forall|i: int| from <= i < next_index(s, c, from) ==> #[trigger] s[i] != c,
        next_index(s, c, from) < s.len() ==> s[next_index(s, c, from)] == c,
    decreases s.len() - from,
{
    if from < s.len() && s[from] != c {
        next_index_is_first(s, c, from + 1);
    }
}

/// A text is split at its first separator: before it stands none, and the two parts with the
/// separator between them are the text. Without a separator it is not split.
pub proof fn a_text_is_split_at_its_first_separator(s: Seq<char>, c: char)
    ensures
        split_first(s, c) is None <==> !s.contains(c),
        split_first(s, c) matches Some((before, behind)) ==> !before.contains(c) && s == before
            + seq![c] + behind,
{
    next_index_is_first(s, c, 0);
    let at = next_index(s, c, 0);
    if at < s.len() {
        assert(s.contains(c));
        let before = s.take(at);
        if before.contains(c) {
            let k = choose|k: int| 0 <= k < before.len() && before[k] == c;
            assert(s[k] == c);
        }
        assert(s =~= before + seq![c] + s.skip(at + 1));
    } else if s.contains(c) {
        let k = choose|k: int| 0 <= k < s.len() && s[k] == c;
        assert(s[k] != c);
    }
}

/// What stands before a first separator and what stands behind it are the two parts.
pub proof fn two_texts_come_apart_at_the_separator(before: Seq<char>, c: char, behind: Seq<char>)
    requires
        !before.contains(c),
    ensures
        split_first(before + seq![c] + behind, c) == Some((before, behind)),
{
    let s = before + seq![c] + behind;
    next_index_is_first(s, c, 0);
    let at = next_index(s, c, 0);
    let n = before.len() as int;
    assert(s[n] == c);
    if at < n {
        assert(before[at] == s[at]);
        assert(before.contains(c));
    }
    if at > n {
        assert(s[n] != c);
    }
    assert(s.take(n) =~= before);
    assert(s.skip(n + 1) =~= behind);
}

/// Splitting at a separator between two texts gives the parts of the one and then those of the
/// other.
pub proof fn split_of_two_texts(a: Seq<char>, sep: char, b: Seq<char>)
    ensures
        split(a + seq![sep] + b, sep) == split(a, sep) + split(b, sep),
    decreases b.len(),
{
    let whole = a + seq![sep] + b;
    if b.len() == 0 {
        assert(whole.drop_last() =~= a);
        assert(whole.last() == sep);
        assert(split(b, sep) =~= seq![Seq::<char>::empty()]);
        assert(split(whole, sep) =~= split(a, sep) + split(b, sep));
    } else {
        split_of_two_texts(a, sep, b.drop_last());
        split_then_join(b.drop_last(), sep);
        assert(whole.drop_last() =~= a + seq![sep] + b.drop_last());
        let first = split(a, sep);
        let rest = split(b.drop_last(), sep);
        assert((first + rest).last() == rest.last());
        assert((first + rest).drop_last() =~= first + rest.drop_last());
        assert(split(whole, sep) =~= first + split(b, sep));
    }
}

/// A text without the separator is one part.
pub proof fn text_without_separator_is_one_part(s: Seq<char>, sep: char)
    requires
        !s.contains(sep),
    ensures
        split(s, sep) == seq![s],
    decreases s.len(),
{
    if s.len() > 0 {
        let rest = s.drop_last();
        assert(s[s.len() - 1] == s.last());
        if rest.contains(sep) {
            let k = choose|k: int| 0 <= k < rest.len() && rest[k] == sep;
            assert(s[k] == sep);
        }
        text_without_separator_is_one_part(rest, sep);
        assert(rest.push(s.last()) =~= s);
        assert(split(s, sep) =~= seq![s]);
    } else {
        assert(s =~= Seq::empty());
    }
}

/// Joining two lists of parts joins what each gives, with the separator between the two.
pub proof fn join_of_two_lists(a: Seq<Seq<char>>, b: Seq<Seq<char>>, sep: Seq<char>)
    requires
        a.len() > 0,
        b.len() > 0,
    ensures
        join(a + b, sep) == join(a, sep) + sep + join(b, sep),
        join(seq![a[0]], sep) == a[0],
    decreases b.len(),
{
    assert((a + b).drop_last() =~= a + b.drop_last());
    if b.len() == 1 {
        assert(a + b.drop_last() =~= a);
    } else {
        join_of_two_lists(a, b.drop_last(), sep);
        assert(join(a + b, sep) =~= join(a, sep) + sep + join(b, sep));
    }
}

/// Parts that do not hold the separator come back when what was joined with it is split.
pub proof fn join_then_split(parts: Seq<Seq<char>>, sep: char)
    requires
        parts.len() > 0,
        forall|i: int| 0 <= i < parts.len() ==> !(#[trigger] parts[i]).contains(sep),
    ensures
        split(join(parts, seq![sep]), sep) == parts,
    decreases parts.len(),
{
    let last = parts.last();
    assert(last == parts[parts.len() - 1]);
    text_without_separator_is_one_part(last, sep);
    if parts.len() > 1 {
        let before = parts.drop_last();
        assert forall|i: int| 0 <= i < before.len() implies !(#[trigger] before[i]).contains(
            sep,
        ) by {
            assert(before[i] == parts[i]);
        }
        join_then_split(before, sep);
        split_of_two_texts(join(before, seq![sep]), sep, last);
        assert(before + seq![last] =~= parts);
    } else {
        assert(parts =~= seq![last]);
    }
}

} // verus!
