//! Which files count as images.

use vstd::prelude::*;

verus! {

/// File name extensions of the formats that can be decoded, in lower case.
pub const IMAGE_EXTENSIONS: [&'static str; 20] = [
    "jpg",
    "jpeg",
    "png",
    "gif",
    "bmp",
    "tga",
    "tiff",
    "tif",
    "webp",
    "ico",
    "pnm",
    "pbm",
    "pgm",
    "ppm",
    "pam",
    "dds",
    "hdr",
    "exr",
    "ff",
    "qoi",
];

/// What `str::to_lowercase` makes of a string.
pub uninterp spec fn lowercased(s: Seq<char>) -> Seq<char>;

/// Whether `s` is one of `IMAGE_EXTENSIONS`.
pub open spec fn known_extension(s: Seq<char>) -> bool {
    exists|i: int| 0 <= i < 20 && s == #[trigger] IMAGE_EXTENSIONS[i]@
}

/// The lower-case form of `s` by `str::to_lowercase`, which goes by the
/// Unicode tables and by nothing else.
#[verifier::external_body]
fn lowercase(s: &str) -> (r: String)
    ensures
        r@ == lowercased(s@),
{
    s.to_lowercase()
}

/// Whether `lower`, an extension already in lower case, names an image
/// format.
pub fn is_known_extension(lower: &str) -> (r: bool)
    ensures
        r == known_extension(lower@),
{
    let wanted = lower.to_owned();
    let mut i: usize = 0;
    while i < 20
        invariant
            i <= 20,
            wanted@ == lower@,
            forall|j: int| 0 <= j < i ==> lower@ != #[trigger] IMAGE_EXTENSIONS[j]@,
        decreases 20 - i,
    {
        let candidate = IMAGE_EXTENSIONS[i].to_owned();
        if wanted == candidate {
            return true;
        }
        i = i + 1;
    }
    false
}

/// Whether a file with this extension is an image, whatever the case the
/// extension is written in. A file without extension is none.
pub fn is_image_file(extension: Option<&str>) -> (r: bool)
    ensures
        r == match extension {
            Some(e) => known_extension(lowercased(e@)),
            None => false,
        },
{
    match extension {
        Some(e) => {
            let lower = lowercase(e);
            is_known_extension(lower.as_str())
        },
        None => false,
    }
}

/// Whether `c` is white space, as Unicode has it.
pub open spec fn is_space(c: char) -> bool {
    let u = c as u32;
    ||| 0x09 <= u <= 0x0d
    ||| u == 0x20
    ||| u == 0x85
    ||| u == 0xa0
    ||| u == 0x1680
    ||| 0x2000 <= u <= 0x200a
    ||| u == 0x2028
    ||| u == 0x2029
    ||| u == 0x202f
    ||| u == 0x205f
    ||| u == 0x3000
}

/// First place from `i` on where `s` has no white space; its length where
/// there is none.
pub open spec fn leading(s: Seq<char>, i: int) -> int
    decreases s.len() - i,
{
    if 0 <= i < s.len() && is_space(s[i]) {
        leading(s, i + 1)
    } else {
        i
    }
}

/// Last place down from `j` before which `s` has no white space; `lo` where
/// there is none above it.
pub open spec fn trailing(s: Seq<char>, j: int, lo: int) -> int
    decreases j - lo,
{
    if lo < j <= s.len() && is_space(s[j - 1]) {
        trailing(s, j - 1, lo)
    } else {
        j
    }
}

/// `s` without the white space at its two ends.
pub open spec fn trimmed(s: Seq<char>) -> Seq<char> {
    let a = leading(s, 0);
    s.subrange(a, trailing(s, s.len() as int, a))
}

/// Length of the column break that `s` has at `i`: 1 for a tab, 2 for two
/// spaces, 0 for none.
pub open spec fn break_len(s: Seq<char>, i: int) -> int {
    if s[i] == '\t' {
        1
    } else if s[i] == ' ' && i + 1 < s.len() && s[i + 1] == ' ' {
        2
    } else {
        0
    }
}

/// The column `piece` as a field: trimmed, and dropped where nothing is
/// left of it.
pub open spec fn field_of(piece: Seq<char>) -> Seq<Seq<char>> {
    if trimmed(piece).len() > 0 {
        seq![trimmed(piece)]
    } else {
        Seq::empty()
    }
}

/// The fields of `s` from the column that starts at `start`, where the
/// search for the column's end has come to `i`.
pub open spec fn fields_from(s: Seq<char>, start: int, i: int) -> Seq<Seq<char>>
    decreases s.len() - i,
{
    if !(0 <= start <= i < s.len()) {
        field_of(s.subrange(start, s.len() as int))
    } else if break_len(s, i) > 0 {
        field_of(s.subrange(start, i)) + fields_from(s, i + break_len(s, i), i + break_len(s, i))
    } else {
        fields_from(s, start, i + 1)
    }
}

/// The fields of a line of a file list: its columns, which a tab or two
/// spaces set apart, each trimmed, the empty ones left out.
pub open spec fn fields(line: Seq<char>) -> Seq<Seq<char>> {
    fields_from(line, 0, 0)
}

/// The word of `s` that started at `start` and ends before `end`; none
/// where `start` is negative.
pub open spec fn word_of(s: Seq<char>, start: int, end: int) -> Seq<Seq<char>> {
    if start >= 0 {
        seq![s.subrange(start, end)]
    } else {
        Seq::empty()
    }
}

/// The words of `s` from `i` on, where `start` is the place the word
/// under way began at, or negative between two words.
pub open spec fn words_from(s: Seq<char>, start: int, i: int) -> Seq<Seq<char>>
    decreases s.len() - i,
{
    if !(0 <= i < s.len()) {
        word_of(s, start, s.len() as int)
    } else if is_space(s[i]) {
        word_of(s, start, i) + words_from(s, -1, i + 1)
    } else {
        words_from(
            s,
            if start >= 0 {
                start
            } else {
                i
            },
            i + 1,
        )
    }
}

/// The words of `s`: its longest stretches without white space.
pub open spec fn words(s: Seq<char>) -> Seq<Seq<char>> {
    words_from(s, -1, 0)
}

/// What each of the strings stands for.
pub open spec fn views(parts: Seq<&str>) -> Seq<Seq<char>> {
    Seq::new(parts.len(), |k: int| parts[k]@)
}

/// Whether `c` is white space.
pub fn is_whitespace(c: char) -> (r: bool)
    ensures
        r == is_space(c),
{
    let u = c as u32;
    (0x09 <= u && u <= 0x0d) || u == 0x20 || u == 0x85 || u == 0xa0 || u == 0x1680 || (0x2000 <= u
        && u <= 0x200a) || u == 0x2028 || u == 0x2029 || u == 0x202f || u == 0x205f || u == 0x3000
}

/// The characters of `text`.
fn chars_of(text: &str) -> (v: Vec<char>)
    ensures
        v@ == text@,
{
    broadcast use vstd::string::group_string_axioms;

    let mut v: Vec<char> = Vec::new();
    for c in it: text.chars()
        invariant
            it.seq() == text@,
            v@ == text@.take(it.index()),
    {
        v.push(c);
        proof {
            assert(text@.take(it.index() + 1) =~= text@.take(it.index()).push(c));
        }
    }
    proof {
        assert(text@.take(text@.len() as int) =~= text@);
    }
    v
}

/// Adds the column of `line` from `start` to `end` to `out` as a field.
fn push_field<'a>(
    line: &'a str,
    chars: &Vec<char>,
    start: usize,
    end: usize,
    out: &mut Vec<&'a str>,
)
    requires
        chars@ == line@,
        start <= end <= chars@.len(),
    ensures
        views(final(out)@) == views(old(out)@) + field_of(line@.subrange(start as int, end as int)),
{
    let ghost piece = line@.subrange(start as int, end as int);
    let mut a = start;
    while a < end && is_whitespace(chars[a])
        invariant
            start <= a <= end <= chars@.len(),
            chars@ == line@,
            piece == line@.subrange(start as int, end as int),
            leading(piece, a - start) == leading(piece, 0),
        decreases end - a,
    {
        a = a + 1;
    }
    let mut b = end;
    while b > a && is_whitespace(chars[b - 1])
        invariant
            start <= a <= b <= end <= chars@.len(),
            chars@ == line@,
            piece == line@.subrange(start as int, end as int),
            trailing(piece, b - start, a - start) == trailing(piece, piece.len() as int, a - start),
        decreases b - a,
    {
        b = b - 1;
    }
    proof {
        assert(trimmed(piece) =~= line@.subrange(a as int, b as int));
    }
    if a < b {
        let field = line.substring_char(a, b);
        let ghost before = out@;
        out.push(field);
        proof {
            assert(views(out@) =~= views(before) + seq![trimmed(piece)]);
        }
    } else {
        proof {
            assert(views(out@) =~= views(out@) + Seq::<Seq<char>>::empty());
        }
    }
}

/// The fields of a line of a file list: its columns, which a tab or two
/// spaces set apart, each without the white space at its ends, the empty
/// ones left out.
pub fn list_fields<'a>(line: &'a str) -> (r: Vec<&'a str>)
    ensures
        views(r@) == fields(line@),
{
    let chars = chars_of(line);
    let n = chars.len();
    let mut out: Vec<&'a str> = Vec::new();
    let mut start: usize = 0;
    let mut i: usize = 0;
    proof {
        assert(views(out@) =~= Seq::<Seq<char>>::empty());
    }
    while i < n
        invariant
            chars@ == line@,
            n == chars@.len(),
            start <= i <= n,
            views(out@) + fields_from(line@, start as int, i as int) == fields(line@),
        decreases n - i,
    {
        let c = chars[i];
        let step: usize = if c == '\t' {
            1
        } else if c == ' ' && i + 1 < n && chars[i + 1] == ' ' {
            2
        } else {
            0
        };
        if step > 0 {
            let ghost before = views(out@);
            push_field(line, &chars, start, i, &mut out);
            proof {
                assert(break_len(line@, i as int) == step);
                assert(views(out@) + fields_from(line@, i + step, i + step) =~= before + (field_of(
                    line@.subrange(start as int, i as int),
                ) + fields_from(line@, i + step, i + step)));
            }
            i = i + step;
            start = i;
        } else {
            i = i + 1;
        }
    }
    push_field(line, &chars, start, n, &mut out);
    out
}

/// The words of `text`: its longest stretches without white space.
pub fn split_words<'a>(text: &'a str) -> (r: Vec<&'a str>)
    ensures
        views(r@) == words(text@),
{
    let chars = chars_of(text);
    let n = chars.len();
    let mut out: Vec<&'a str> = Vec::new();
    let mut start: Option<usize> = None;
    let mut i: usize = 0;
    proof {
        assert(views(out@) =~= Seq::<Seq<char>>::empty());
    }
    while i < n
        invariant
            chars@ == text@,
            n == chars@.len(),
            i <= n,
            start matches Some(st) ==> st < i,
            views(out@) + words_from(
                text@,
                match start {
                    Some(st) => st as int,
                    None => -1,
                },
                i as int,
            ) == words(text@),
        decreases n - i,
    {
        if is_whitespace(chars[i]) {
            match start {
                Some(st) => {
                    let word = text.substring_char(st, i);
                    let ghost before = out@;
                    out.push(word);
                    proof {
                        assert(views(out@) =~= views(before) + word_of(text@, st as int, i as int));
                        assert(views(out@) + words_from(text@, -1, i + 1) =~= views(before) + (
                        word_of(text@, st as int, i as int) + words_from(text@, -1, i + 1)));
                    }
                },
                None => {
                    proof {
                        assert(views(out@) + words_from(text@, -1, i + 1) =~= views(out@) + (
                        word_of(text@, -1, i as int) + words_from(text@, -1, i + 1)));
                    }
                },
            }
            start = None;
        } else if start.is_none() {
            start = Some(i);
        }
        i = i + 1;
    }
    match start {
        Some(st) => {
            let word = text.substring_char(st, n);
            let ghost before = out@;
            out.push(word);
            proof {
                assert(views(out@) =~= views(before) + word_of(text@, st as int, n as int));
            }
        },
        None => {
            proof {
                assert(views(out@) + word_of(text@, -1, n as int) =~= views(out@));
            }
        },
    }
    out
}

/// Whether the viewer is told of the `count`-th file found: of the first,
/// and of every hundredth.
pub fn announces(count: usize) -> (r: bool)
    ensures
        r == (count == 1 || count % 100 == 0),
{
    count == 1 || count % 100 == 0
}

} // verus!
