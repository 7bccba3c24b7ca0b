//! File names and extensions, read from a path given as text, and which
//! extensions the viewer offers to open.
use vstd::prelude::*;
use crate::text::{chars_of, string_from_chars, spec_middle_ellipsis, lemma_middle_ellipsis_keeps_both_ends};

verus! {

/// Index of the last occurrence of `c` in `s`, or -1 when `c` does not occur.
pub open spec fn last_index_of(s: Seq<char>, c: char) -> int
    decreases s.len(),
{
    if s.len() == 0 {
        -1
    } else if s.last() == c {
        s.len() - 1
    } else {
        last_index_of(s.drop_last(), c)
    }
}

pub proof fn lemma_last_index_of_bounds(s: Seq<char>, c: char)
    ensures
        -1 <= last_index_of(s, c) < s.len(),
        last_index_of(s, c) >= 0 ==> s[last_index_of(s, c)] == c,
        forall|k: int| last_index_of(s, c) < k < s.len() ==> s[k] != c,
    decreases s.len(),
{
    if s.len() > 0 && s.last() != c {
        lemma_last_index_of_bounds(s.drop_last(), c);
        assert forall|k: int| last_index_of(s, c) < k < s.len() implies s[k] != c by {
            if k < s.len() - 1 {
                assert(s.drop_last()[k] == s[k]);
            }
        }
    }
}

/// `last_index_of` is the position before a run of characters other than `c`
/// that reaches the end of `s`.
pub proof fn lemma_last_index_of_is(s: Seq<char>, c: char, start: int)
    requires
        0 <= start <= s.len(),
        forall|k: int| start <= k < s.len() ==> s[k] != c,
        start == 0 || s[start - 1] == c,
    ensures
        last_index_of(s, c) == start - 1,
    decreases s.len(),
{
    if s.len() > 0 && s.last() != c {
        lemma_last_index_of_is(s.drop_last(), c, start);
    }
}

/// The components of a path written with `/` separators, as `Path::components`
/// sees them on Unix: empty parts (from a root or from repeated or trailing
/// separators) and `.` parts are dropped; everything else, `..` included, is
/// a component.
pub open spec fn components(s: Seq<char>) -> Seq<Seq<char>>
    decreases s.len(),
{
    if s.len() == 0 {
        seq![]
    } else {
        let k = last_index_of(s, '/');
        let seg = s.subrange(k + 1, s.len() as int);
        let rest = if k < 0 {
            seq![]
        } else {
            proof {
                lemma_last_index_of_bounds(s, '/');
            }
            components(s.subrange(0, k))
        };
        if seg.len() == 0 || seg == seq!['.'] {
            rest
        } else {
            rest.push(seg)
        }
    }
}

/// The final component of a path, unless there is none or it is `..`
/// (`Path::file_name`).
pub open spec fn file_name(s: Seq<char>) -> Option<Seq<char>> {
    let comps = components(s);
    if comps.len() == 0 || comps.last() == seq!['.', '.'] {
        None
    } else {
        Some(comps.last())
    }
}

/// The extension of a file name: what follows its last `.`, unless there is no
/// `.` or the only one starts the name (`Path::extension` on a file name).
pub open spec fn name_extension(name: Seq<char>) -> Option<Seq<char>> {
    let d = last_index_of(name, '.');
    if d <= 0 {
        None
    } else {
        Some(name.subrange(d + 1, name.len() as int))
    }
}

/// ASCII upper-case letters mapped to lower case, everything else unchanged.
pub open spec fn ascii_lower(c: char) -> char {
    if 'A' <= c <= 'Z' {
        ((c as u32) + 32) as char
    } else {
        c
    }
}

pub open spec fn ascii_lower_seq(s: Seq<char>) -> Seq<char> {
    Seq::new(s.len(), |i: int| ascii_lower(s[i]))
}

/// The lower-cased extension of a path, or the empty text when it has none.
pub open spec fn spec_ext_of(path: Seq<char>) -> Seq<char> {
    match file_name(path) {
        Some(name) => match name_extension(name) {
            Some(e) => ascii_lower_seq(e),
            None => seq![],
        },
        None => seq![],
    }
}

/// The extensions the viewer offers to open: every one of them decodes.
pub open spec fn is_image_ext(e: Seq<char>) -> bool {
    ||| e == "jpg"@
    ||| e == "jpeg"@
    ||| e == "png"@
    ||| e == "gif"@
    ||| e == "bmp"@
    ||| e == "webp"@
    ||| e == "tif"@
    ||| e == "tiff"@
    ||| e == "ppm"@
    ||| e == "pgm"@
    ||| e == "pbm"@
    ||| e == "pnm"@
    ||| e == "tga"@
    ||| e == "ico"@
    ||| e == "dds"@
    ||| e == "hdr"@
    ||| e == "exr"@
    ||| e == "qoi"@
    ||| e == "ff"@
}

pub open spec fn is_jpeg_ext(e: Seq<char>) -> bool {
    e == "jpg"@ || e == "jpeg"@
}

/// The extensions offered for opening are exactly jpg, jpeg, png, gif, bmp,
/// webp, tif, tiff, ppm, pgm, pbm, pnm, tga, ico, dds, hdr, exr, qoi and ff
/// (compared after lower-casing): each of them is offered, and nothing else
/// is. Both JPEG spellings are JPEG, and every JPEG file is offered.
pub proof fn lemma_offered_extensions()
    ensures
        is_image_ext("jpg"@),
        is_image_ext("jpeg"@),
        is_image_ext("png"@),
        is_image_ext("gif"@),
        is_image_ext("bmp"@),
        is_image_ext("webp"@),
        is_image_ext("tif"@),
        is_image_ext("tiff"@),
        is_image_ext("ppm"@),
        is_image_ext("pgm"@),
        is_image_ext("pbm"@),
        is_image_ext("pnm"@),
        is_image_ext("tga"@),
        is_image_ext("ico"@),
        is_image_ext("dds"@),
        is_image_ext("hdr"@),
        is_image_ext("exr"@),
        is_image_ext("qoi"@),
        is_image_ext("ff"@),
        forall|e: Seq<char>|
            #[trigger] is_image_ext(e) <==> (e == "jpg"@ || e == "jpeg"@ || e == "png"@ || e == "gif"@
                || e == "bmp"@ || e == "webp"@ || e == "tif"@ || e == "tiff"@
                || e == "ppm"@ || e == "pgm"@ || e == "pbm"@ || e == "pnm"@
                || e == "tga"@ || e == "ico"@ || e == "dds"@ || e == "hdr"@
                || e == "exr"@ || e == "qoi"@ || e == "ff"@),
        is_jpeg_ext("jpg"@),
        is_jpeg_ext("jpeg"@),
        forall|e: Seq<char>| #[trigger] is_jpeg_ext(e) <==> (e == "jpg"@ || e == "jpeg"@),
        forall|e: Seq<char>| is_jpeg_ext(e) ==> #[trigger] is_image_ext(e),
{
}

/// Whether `v` holds exactly the characters of `lit`.
pub fn chars_equal(v: &Vec<char>, lit: &str) -> (r: bool)
    ensures
        r == (v@ == lit@),
{
    let w = chars_of(lit);
    if v.len() != w.len() {
        return false;
    }
    let mut i: usize = 0;
    while i < v.len()
        invariant
            v.len() == w.len(),
            w@ == lit@,
            i <= v.len(),
            forall|k: int| 0 <= k < i ==> v@[k] == w@[k],
        decreases v.len() - i,
    {
        if v[i] != w[i] {
            return false;
        }
        i = i + 1;
    }
    assert(v@ =~= w@);
    true
}

/// The range `[from, to)` of `s` that holds its file name, if it has one.
fn file_name_range(s: &Vec<char>) -> (r: Option<(usize, usize)>)
    ensures
        match r {
            Some((from, to)) => from <= to <= s.len() && file_name(s@) == Some(
                s@.subrange(from as int, to as int),
            ),
            None => file_name(s@) is None,
        },
{
    let mut end: usize = s.len();
    assert(s@.subrange(0, end as int) =~= s@);
    loop
        invariant
            end <= s.len(),
            components(s@.subrange(0, end as int)) == components(s@),
        decreases end,
    {
        let ghost t = s@.subrange(0, end as int);
        let mut start: usize = end;
        while start > 0 && s[start - 1] != '/'
            invariant
                start <= end <= s.len(),
                forall|k: int| start <= k < end ==> s@[k] != '/',
            decreases start,
        {
            start = start - 1;
        }
        proof {
            lemma_last_index_of_is(t, '/', start as int);
            assert(t.subrange(start as int, end as int) =~= s@.subrange(start as int, end as int));
        }
        let is_dot = end - start == 1 && s[start] == '.';
        if end > start && !is_dot {
            assert(s@.subrange(start as int, end as int) != seq!['.']) by {
                if end == start + 1 {
                    assert(s@.subrange(start as int, end as int)[0] == s@[start as int]);
                }
            }
            // the last component of the path
            let is_parent = end - start == 2 && s[start] == '.' && s[start + 1] == '.';
            proof {
                if start > 0 {
                    assert(t.subrange(0, start - 1) =~= s@.subrange(0, start - 1));
                }
            }
            if is_parent {
                assert(s@.subrange(start as int, end as int) =~= seq!['.', '.']);
                return None;
            }
            assert(s@.subrange(start as int, end as int) != seq!['.', '.']) by {
                if end == start + 2 {
                    assert(s@.subrange(start as int, end as int)[0] == s@[start as int]);
                    assert(s@.subrange(start as int, end as int)[1] == s@[start + 1]);
                }
            }
            return Some((start, end));
        }
        proof {
            if end == start + 1 {
                assert(s@.subrange(start as int, end as int) =~= seq!['.']);
            }
        }
        if start == 0 {
            return None;
        }
        proof {
            assert(t.subrange(0, start - 1) =~= s@.subrange(0, start - 1));
        }
        end = start - 1;
    }
}

/// The lower-cased characters of the extension of `path`, empty when it has none.
pub fn ext_chars_of(path: &str) -> (r: Vec<char>)
    ensures
        r@ == spec_ext_of(path@),
{
    let s = chars_of(path);
    let range = file_name_range(&s);
    let mut out: Vec<char> = Vec::new();
    match range {
        None => {
            assert(out@ =~= spec_ext_of(path@));
            out
        },
        Some((from, to)) => {
            let ghost name = s@.subrange(from as int, to as int);
            // find the last '.' in the name
            let mut d: usize = to;
            while d > from && s[d - 1] != '.'
                invariant
                    from <= d <= to <= s.len(),
                    forall|k: int| d <= k < to ==> s@[k] != '.',
                decreases d,
            {
                d = d - 1;
            }
            proof {
                lemma_last_index_of_is(name, '.', d - from);
            }
            if d - from <= 1 {
                assert(out@ =~= spec_ext_of(path@));
                return out;
            }
            let mut i = d;
            while i < to
                invariant
                    d <= i <= to <= s.len(),
                    out@ =~= ascii_lower_seq(s@.subrange(d as int, i as int)),
                decreases to - i,
            {
                let c = s[i];
                let l = if 'A' <= c && c <= 'Z' {
                    ((c as u8) + 32) as char
                } else {
                    c
                };
                out.push(l);
                i = i + 1;
            }
            assert(name.subrange(d - from, name.len() as int) =~= s@.subrange(d as int, to as int));
            out
        },
    }
}

/// The characters of the file name of `path`, if it has one.
pub fn file_name_chars(path: &str) -> (r: Option<Vec<char>>)
    ensures
        match r {
            Some(v) => file_name(path@) == Some(v@),
            None => file_name(path@) is None,
        },
{
    let s = chars_of(path);
    match file_name_range(&s) {
        None => None,
        Some((from, to)) => {
            let mut out: Vec<char> = Vec::new();
            let mut i = from;
            while i < to
                invariant
                    from <= i <= to <= s.len(),
                    out@ =~= s@.subrange(from as int, i as int),
                decreases to - i,
            {
                out.push(s[i]);
                i = i + 1;
            }
            Some(out)
        },
    }
}

/// The file name of `path` as text, or the empty text when it has none.
pub open spec fn file_name_text(path: Seq<char>) -> Seq<char> {
    match file_name(path) {
        Some(n) => n,
        None => seq![],
    }
}

/// The file name of `path`, or an empty string when it has none.
pub fn file_name_string(path: &str) -> (r: String)
    ensures
        r@ == file_name_text(path@),
{
    match file_name_chars(path) {
        Some(v) => string_from_chars(&v),
        None => String::new(),
    }
}

/// `v` with ASCII letters lower-cased.
pub fn lower_chars(v: &Vec<char>) -> (r: Vec<char>)
    ensures
        r@ == ascii_lower_seq(v@),
{
    let mut out: Vec<char> = Vec::new();
    let mut i: usize = 0;
    while i < v.len()
        invariant
            i <= v.len(),
            out@ =~= ascii_lower_seq(v@.subrange(0, i as int)),
        decreases v.len() - i,
    {
        let c = v[i];
        let l = if 'A' <= c && c <= 'Z' {
            ((c as u8) + 32) as char
        } else {
            c
        };
        out.push(l);
        i = i + 1;
    }
    assert(v@.subrange(0, v@.len() as int) =~= v@);
    out
}

/// Lower-cased extension of `path`, or an empty string.
pub fn ext_of(path: &str) -> (r: String)
    ensures
        r@ == spec_ext_of(path@),
{
    let e = ext_chars_of(path);
    string_from_chars(&e)
}

/// Whether `path` names a file the viewer offers to open, by its extension,
/// case-insensitively.
pub fn is_image(path: &str) -> (r: bool)
    ensures
        r == is_image_ext(spec_ext_of(path@)),
{
    let e = ext_chars_of(path);
    chars_equal(&e, "jpg") || chars_equal(&e, "jpeg") || chars_equal(&e, "png")
        || chars_equal(&e, "gif") || chars_equal(&e, "bmp") || chars_equal(&e, "webp")
        || chars_equal(&e, "tif") || chars_equal(&e, "tiff") || chars_equal(&e, "ppm")
        || chars_equal(&e, "pgm") || chars_equal(&e, "pbm") || chars_equal(&e, "pnm")
        || chars_equal(&e, "tga") || chars_equal(&e, "ico") || chars_equal(&e, "dds")
        || chars_equal(&e, "hdr") || chars_equal(&e, "exr") || chars_equal(&e, "qoi")
        || chars_equal(&e, "ff")
}

/// Whether `path` is a JPEG file by its extension, case-insensitively.
pub fn is_jpeg(path: &str) -> (r: bool)
    ensures
        r == is_jpeg_ext(spec_ext_of(path@)),
{
    let e = ext_chars_of(path);
    chars_equal(&e, "jpg") || chars_equal(&e, "jpeg")
}


proof fn lemma_last_dot_ignores_case(s: Seq<char>)
    ensures
        last_index_of(ascii_lower_seq(s), '.') == last_index_of(s, '.'),
    decreases s.len(),
{
    if s.len() > 0 {
        assert(ascii_lower_seq(s).drop_last() =~= ascii_lower_seq(s.drop_last()));
        lemma_last_dot_ignores_case(s.drop_last());
    }
}

/// Whether a path names an image (or a JPEG) does not depend on the case of
/// its file name: two paths whose file names differ only in ASCII case have
/// the same lower-cased extension.
pub proof fn lemma_extension_ignores_case(p: Seq<char>, q: Seq<char>)
    requires
        file_name(p) is Some,
        file_name(q) is Some,
        ascii_lower_seq(file_name(p)->0) == ascii_lower_seq(file_name(q)->0),
    ensures
        spec_ext_of(p) == spec_ext_of(q),
        is_image_ext(spec_ext_of(p)) == is_image_ext(spec_ext_of(q)),
        is_jpeg_ext(spec_ext_of(p)) == is_jpeg_ext(spec_ext_of(q)),
{
    let n = file_name(p)->0;
    let m = file_name(q)->0;
    assert(n.len() == ascii_lower_seq(n).len());
    assert(m.len() == ascii_lower_seq(m).len());
    lemma_last_dot_ignores_case(n);
    lemma_last_dot_ignores_case(m);
    let d = last_index_of(n, '.');
    if d > 0 {
        lemma_last_index_of_bounds(n, '.');
        assert(ascii_lower_seq(n.subrange(d + 1, n.len() as int)) =~= ascii_lower_seq(n).subrange(
            d + 1,
            n.len() as int,
        ));
        assert(ascii_lower_seq(m.subrange(d + 1, m.len() as int)) =~= ascii_lower_seq(m).subrange(
            d + 1,
            m.len() as int,
        ));
    }
}

/// Shortening a file name keeps its extension visible: when the name has an
/// extension that, with its dot, fits in the kept tail (`floor((max - 1) / 2)`
/// characters), the shortened name ends with that dot and extension.
pub proof fn lemma_middle_ellipsis_keeps_extension(s: Seq<char>, max: nat)
    requires
        max >= 1,
        name_extension(s) is Some,
        (name_extension(s)->0).len() + 1 <= (max as int - 1) / 2,
    ensures
        ({
            let e = name_extension(s)->0;
            let out = spec_middle_ellipsis(s, max);
            &&& out.len() >= e.len() + 1
            &&& out.subrange(out.len() - (e.len() + 1), out.len() as int) == seq!['.'] + e
        }),
{
    let e = name_extension(s)->0;
    let d = last_index_of(s, '.');
    lemma_last_index_of_bounds(s, '.');
    let k = e.len() + 1;
    assert(s.subrange(s.len() - k, s.len() as int) =~= seq!['.'] + e);
    let out = spec_middle_ellipsis(s, max);
    if s.len() > max {
        lemma_middle_ellipsis_keeps_both_ends(s, max);
        let back = (max as int - 1) / 2;
        let ot = out.subrange(out.len() - back, out.len() as int);
        let st = s.subrange(s.len() - back, s.len() as int);
        assert(out.len() == max);
        assert(ot == st);
        assert(out.subrange(out.len() - k, out.len() as int) =~= ot.subrange(back - k, back));
        assert(s.subrange(s.len() - k, s.len() as int) =~= st.subrange(back - k, back));
    }
}

} // verus!
