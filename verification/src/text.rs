//! Text utilities: joining, searching, paths written as text, and case mapping.

use vstd::prelude::*;
use vstd::string::{StrSliceExecFns, StringExecFns};

verus! {

/// Whether `a` and `b` are the same text.
pub fn same_text(a: &str, b: &str) -> (same: bool)
    ensures
        same == (a@ == b@),
{
    String::from_str(a) == String::from_str(b)
}

/// The texts that `strings` hold.
pub open spec fn texts(strings: Seq<String>) -> Seq<Seq<char>> {
    strings.map_values(|s: String| s@)
}

/// Whether no text occurs twice among `names`.
pub open spec fn distinct(names: Seq<Seq<char>>) -> bool {
    forall|i: int, j: int| 0 <= i < j < names.len() ==> names[i] != names[j]
}

/// Names that are distinct stay so with one more that is none of them.
pub proof fn lemma_distinct_push(names: Seq<Seq<char>>, name: Seq<char>)
    requires
        distinct(names),
        !names.contains(name),
    ensures
        distinct(names.push(name)),
{
    let longer = names.push(name);
    assert forall|i: int, j: int| 0 <= i < j < longer.len() implies longer[i] != longer[j] by {
        if j == names.len() {
            assert(names.contains(names[i]));
        }
    }
}

/// `parts` in a row, with `sep` between each two.
pub open spec fn joined(parts: Seq<Seq<char>>, sep: Seq<char>) -> Seq<char>
    decreases parts.len(),
{
    if parts.len() == 0 {
        Seq::empty()
    } else if parts.len() == 1 {
        parts[0]
    } else {
        joined(parts.drop_last(), sep) + sep + parts.last()
    }
}

/// Joins `parts` with `sep` between each two.
pub fn join(parts: &Vec<String>, sep: &str) -> (text: String)
    ensures
        text@ == joined(texts(parts@), sep@),
{
    let mut text = String::new();
    let mut i: usize = 0;
    while i < parts.len()
        invariant
            i <= parts.len(),
            text@ == joined(texts(parts@).take(i as int), sep@),
        decreases parts.len() - i,
    {
        proof {
            let upto = texts(parts@).take(i + 1);
            assert(upto.drop_last() == texts(parts@).take(i as int));
            assert(upto.last() == parts@[i as int]@);
        }
        if i > 0 {
            text.append(sep);
        }
        text.append(parts[i].as_str());
        i += 1;
    }
    proof {
        assert(texts(parts@).take(parts@.len() as int) == texts(parts@));
    }
    text
}

/// The place of the first `c` in `text` at or after `from`; the length of
/// `text` where there is none.
pub open spec fn position_from(text: Seq<char>, c: char, from: int) -> int
    decreases text.len() - from,
{
    if from < 0 || from >= text.len() {
        text.len() as int
    } else if text[from] == c {
        from
    } else {
        position_from(text, c, from + 1)
    }
}

/// Finds the first `c` in `text` at or after `from`.
pub fn find_from(text: &str, c: char, from: usize) -> (at: usize)
    requires
        from <= text@.len(),
    ensures
        at == position_from(text@, c, from as int),
        from <= at <= text@.len(),
        at < text@.len() ==> text@[at as int] == c,
        forall|k: int| from <= k < at ==> text@[k] != c,
{
    let len = text.unicode_len();
    let mut at = from;
    while at < len && text.get_char(at) != c
        invariant
            len == text@.len(),
            from <= at <= len,
            position_from(text@, c, from as int) == position_from(text@, c, at as int),
            forall|k: int| from <= k < at ==> text@[k] != c,
        decreases len - at,
    {
        at += 1;
    }
    at
}

/// `segment` appended to the path `base`: an absolute `segment` takes the
/// place of `base`, and a separator is put in where `base` does not end in one.
pub open spec fn path_join(base: Seq<char>, segment: Seq<char>) -> Seq<char> {
    if segment.len() > 0 && segment[0] == '/' {
        segment
    } else if base.len() == 0 || base.last() == '/' {
        base + segment
    } else {
        base + "/"@ + segment
    }
}

/// Appends `segment` to the path `base`.
pub fn join_path(base: &str, segment: &str) -> (path: String)
    ensures
        path@ == path_join(base@, segment@),
{
    let base_len = base.unicode_len();
    let segment_len = segment.unicode_len();
    if segment_len > 0 && segment.get_char(0) == '/' {
        String::from_str(segment)
    } else if base_len == 0 || base.get_char(base_len - 1) == '/' {
        String::from_str(base).concat(segment)
    } else {
        let mut path = String::from_str(base);
        path.append("/");
        path.append(segment);
        path
    }
}

/// The path of the directory that holds `path`; `None` where `path` ends in
/// a root or is empty.
pub uninterp spec fn path_parent(path: Seq<char>) -> Option<Seq<char>>;

/// `Path::parent`, on paths written as text.
#[verifier::external_body]
pub(crate) fn parent_path(path: &str) -> (parent: Option<String>)
    ensures
        match path_parent(path@) {
            Some(text) => parent matches Some(p) && p@ == text,
            None => parent is None,
        },
{
    std::path::Path::new(path).parent().map(|p| p.to_string_lossy().into_owned())
}

/// The last name of `path`; `None` where `path` ends in `..` or is a root.
pub uninterp spec fn path_file_name(path: Seq<char>) -> Option<Seq<char>>;

/// `Path::file_name`, on paths written as text.
#[verifier::external_body]
pub(crate) fn file_name(path: &str) -> (name: Option<String>)
    ensures
        match path_file_name(path@) {
            Some(text) => name matches Some(n) && n@ == text,
            None => name is None,
        },
{
    std::path::Path::new(path).file_name().map(|n| n.to_string_lossy().into_owned())
}

/// `text` as a diagnostic shows it: in double quotes, with what needs it escaped.
pub uninterp spec fn debug_quoted(text: Seq<char>) -> Seq<char>;

/// The `Debug` form of a `str`.
#[verifier::external_body]
pub(crate) fn quote(text: &str) -> (quoted: String)
    ensures
        quoted@ == debug_quoted(text@),
{
    format!("{:?}", text)
}

/// `text` in upper case.
pub uninterp spec fn uppercase(text: Seq<char>) -> Seq<char>;

/// `str::to_uppercase`.
#[verifier::external_body]
pub(crate) fn to_uppercase(text: &str) -> (upper: String)
    ensures
        upper@ == uppercase(text@),
{
    text.to_uppercase()
}

/// `text` in lower case.
pub uninterp spec fn lowercase(text: Seq<char>) -> Seq<char>;

/// `str::to_lowercase`.
#[verifier::external_body]
pub(crate) fn to_lowercase(text: &str) -> (lower: String)
    ensures
        lower@ == lowercase(text@),
{
    text.to_lowercase()
}

/// The character `c` in upper case: one character or more.
pub uninterp spec fn char_uppercase(c: char) -> Seq<char>;

/// `char::to_uppercase`, its characters gathered in a string.
#[verifier::external_body]
pub(crate) fn char_to_uppercase(c: char) -> (upper: String)
    ensures
        upper@ == char_uppercase(c),
{
    c.to_uppercase().collect()
}

/// `String::push`: the character is added at the end.
pub assume_specification[ String::push ](text: &mut String, c: char)
    ensures
        final(text)@ == old(text)@.push(c),
;

/// `text` with `to` in the place of every `from`.
pub open spec fn replaced(text: Seq<char>, from: char, to: char) -> Seq<char> {
    text.map_values(
        |c: char|
            if c == from {
                to
            } else {
                c
            },
    )
}

/// Puts `to` in the place of every `from` in `text`.
pub fn replace_char(text: &str, from: char, to: char) -> (changed: String)
    ensures
        changed@ == replaced(text@, from, to),
{
    let len = text.unicode_len();
    let mut changed = String::new();
    let mut i: usize = 0;
    while i < len
        invariant
            len == text@.len(),
            i <= len,
            changed@ == replaced(text@.take(i as int), from, to),
        decreases len - i,
    {
        let c = text.get_char(i);
        changed.push(
            if c == from {
                to
            } else {
                c
            },
        );
        proof {
            assert(replaced(text@.take(i + 1), from, to) =~= replaced(
                text@.take(i as int),
                from,
                to,
            ).push(
                if c == from {
                    to
                } else {
                    c
                },
            ));
        }
        i += 1;
    }
    proof {
        assert(text@.take(len as int) == text@);
    }
    changed
}

/// The texts made of each of `items` by `line`, in a row.
pub open spec fn lines(items: Seq<Seq<char>>, line: spec_fn(Seq<char>) -> Seq<char>) -> Seq<char>
    decreases items.len(),
{
    if items.len() == 0 {
        Seq::empty()
    } else {
        lines(items.drop_last(), line) + line(items.last())
    }
}

/// One more item adds its text at the end.
pub proof fn lemma_lines_step(items: Seq<Seq<char>>, line: spec_fn(Seq<char>) -> Seq<char>, i: int)
    requires
        0 <= i < items.len(),
    ensures
        lines(items.take(i + 1), line) == lines(items.take(i), line) + line(items[i]),
{
    assert(items.take(i + 1).drop_last() == items.take(i));
}

} // verus!
