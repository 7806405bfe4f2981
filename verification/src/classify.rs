//! Which files are images to convert: a test on the file extension alone.

use crate::path::{extension_of, last_dot_between, name_bounds, names_a_file, to_chars};
use vstd::prelude::*;

verus! {

/// The recognised kinds of source image, one for each recognised extension.
#[derive(Clone, Copy, Debug, PartialEq, Eq, Structural)]
pub enum ImageKind {
    /// A file whose extension is `png`.
    Png,
    /// A file whose extension is `jpg`.
    Jpg,
    /// A file whose extension is `jpeg`.
    Jpeg,
}

/// An ASCII capital letter turned into its small letter; any other character
/// as it is.
pub open spec fn ascii_lower(c: char) -> char {
    if 'A' <= c && c <= 'Z' {
        ((c as u8 + 32) as u8) as char
    } else {
        c
    }
}

/// Whether two texts are equal once ASCII capitals are read as small letters.
pub open spec fn same_ignoring_case(a: Seq<char>, b: Seq<char>) -> bool {
    a.len() == b.len() && forall|i: int| 0 <= i < a.len() ==> ascii_lower(a[i]) == ascii_lower(b[i])
}

/// The kind that an extension stands for, in whatever casing it is written.
pub open spec fn kind_of_extension(ext: Seq<char>) -> Option<ImageKind> {
    if same_ignoring_case(ext, seq!['p', 'n', 'g']) {
        Some(ImageKind::Png)
    } else if same_ignoring_case(ext, seq!['j', 'p', 'g']) {
        Some(ImageKind::Jpg)
    } else if same_ignoring_case(ext, seq!['j', 'p', 'e', 'g']) {
        Some(ImageKind::Jpeg)
    } else {
        None
    }
}

/// The kind of image that a path names, judged by the extension of its file
/// name; `None` for a path without file name, without extension or with any
/// other extension.
pub open spec fn kind_of(path: Seq<char>) -> Option<ImageKind> {
    match extension_of(path) {
        Some(ext) => kind_of_extension(ext),
        None => None,
    }
}

/// Whether a path names a file to convert.
pub open spec fn is_image_path(path: Seq<char>) -> bool {
    kind_of(path) is Some
}

fn to_ascii_lower(c: char) -> (lower: char)
    ensures
        lower == ascii_lower(c),
{
    if 'A' <= c && c <= 'Z' {
        ((c as u8) + 32) as char
    } else {
        c
    }
}

/// The kind that the characters of `chars` from `from` up to `to` stand for.
fn kind_between(chars: &Vec<char>, from: usize, to: usize) -> (kind: Option<ImageKind>)
    requires
        from <= to <= chars.len(),
    ensures
        kind == kind_of_extension(chars@.subrange(from as int, to as int)),
{
    let ghost ext = chars@.subrange(from as int, to as int);
    let ghost png = seq!['p', 'n', 'g'];
    let ghost jpg = seq!['j', 'p', 'g'];
    let ghost jpeg = seq!['j', 'p', 'e', 'g'];
    let len = to - from;
    if len == 3 {
        let a = to_ascii_lower(chars[from]);
        let b = to_ascii_lower(chars[from + 1]);
        let c = to_ascii_lower(chars[from + 2]);
        proof {
            assert(ext[0] == chars@[from as int] && ext[1] == chars@[from + 1] && ext[2]
                == chars@[from + 2]);
            assert(same_ignoring_case(ext, png) <==> a == 'p' && b == 'n' && c == 'g') by {
                if same_ignoring_case(ext, png) {
                    assert(ascii_lower(ext[0]) == ascii_lower(png[0]));
                    assert(ascii_lower(ext[1]) == ascii_lower(png[1]));
                    assert(ascii_lower(ext[2]) == ascii_lower(png[2]));
                }
            }
            assert(same_ignoring_case(ext, jpg) <==> a == 'j' && b == 'p' && c == 'g') by {
                if same_ignoring_case(ext, jpg) {
                    assert(ascii_lower(ext[0]) == ascii_lower(jpg[0]));
                    assert(ascii_lower(ext[1]) == ascii_lower(jpg[1]));
                    assert(ascii_lower(ext[2]) == ascii_lower(jpg[2]));
                }
            }
        }
        if a == 'p' && b == 'n' && c == 'g' {
            Some(ImageKind::Png)
        } else if a == 'j' && b == 'p' && c == 'g' {
            Some(ImageKind::Jpg)
        } else {
            None
        }
    } else if len == 4 {
        let a = to_ascii_lower(chars[from]);
        let b = to_ascii_lower(chars[from + 1]);
        let c = to_ascii_lower(chars[from + 2]);
        let d = to_ascii_lower(chars[from + 3]);
        proof {
            assert(ext[0] == chars@[from as int] && ext[1] == chars@[from + 1] && ext[2]
                == chars@[from + 2] && ext[3] == chars@[from + 3]);
            assert(same_ignoring_case(ext, jpeg) <==> a == 'j' && b == 'p' && c == 'e' && d
                == 'g') by {
                if same_ignoring_case(ext, jpeg) {
                    assert(ascii_lower(ext[0]) == ascii_lower(jpeg[0]));
                    assert(ascii_lower(ext[1]) == ascii_lower(jpeg[1]));
                    assert(ascii_lower(ext[2]) == ascii_lower(jpeg[2]));
                    assert(ascii_lower(ext[3]) == ascii_lower(jpeg[3]));
                }
            }
        }
        if a == 'j' && b == 'p' && c == 'e' && d == 'g' {
            Some(ImageKind::Jpeg)
        } else {
            None
        }
    } else {
        None
    }
}

/// Tells what kind of image a path names, by the extension of its file name
/// and without regard to the casing of that extension.
pub fn classify(path: &str) -> (kind: Option<ImageKind>)
    ensures
        kind == kind_of(path@),
{
    let chars = to_chars(path);
    let (start, end) = name_bounds(&chars);
    let ghost name = chars@.subrange(start as int, end as int);
    if !names_a_file(&chars, start, end) {
        return None;
    }
    match last_dot_between(&chars, start, end) {
        Some(dot) => {
            if dot > start {
                assert(name.skip(dot - start + 1) == chars@.subrange(dot + 1, end as int));
                kind_between(&chars, dot + 1, end)
            } else {
                None
            }
        },
        None => None,
    }
}

/// Whether a path names a file to convert: its extension is `png`, `jpg` or
/// `jpeg` in any casing.
pub fn is_image(path: &str) -> (eligible: bool)
    ensures
        eligible == is_image_path(path@),
{
    classify(path).is_some()
}

} // verus!
