//! Where a converted file goes: the source path's place below the input root,
//! mirrored below the output root, with the extension of a JPEG file.

use crate::path::{
    components, extension_of, file_name, is_absolute, is_dot, is_dot_dot, is_name, join,
    last_dot_between, lemma_components_are_names, lemma_join, lemma_with_extension, name_stem,
    split, starts_at_root, to_chars, with_extension, SEPARATOR,
};
use vstd::prelude::*;

verus! {

/// The source path does not lie below the input root, so it has no place
/// below the output root.
#[derive(Clone, Copy, Debug, PartialEq, Eq, Structural)]
pub struct PathMappingFailure;

/// The extension that every output path gets.
pub open spec fn output_extension() -> Seq<char> {
    seq!['j', 'p', 'g']
}

/// The components of `path` that follow those of `root`. A `.` that begins
/// them is left out: it names the root again.
pub open spec fn relative_to(path: Seq<char>, root: Seq<char>) -> Seq<Seq<char>> {
    let rest = components(path).skip(components(root).len() as int);
    if rest.len() > 0 && is_dot(rest[0]) {
        rest.skip(1)
    } else {
        rest
    }
}

/// Whether `path` lies strictly below `root`: both are absolute or both are
/// relative, the components of `root` begin those of `path`, and something
/// follows them.
pub open spec fn is_under(path: Seq<char>, root: Seq<char>) -> bool {
    &&& is_absolute(path) == is_absolute(root)
    &&& components(root).len() <= components(path).len()
    &&& components(path).take(components(root).len() as int) == components(root)
    &&& relative_to(path, root).len() > 0
}

/// A relative path with the extension of its file name replaced by the
/// output extension. The directories stay as they are, and so does a path
/// that ends in `..`, which has no file name.
pub open spec fn mirrored(relative: Seq<Seq<char>>) -> Seq<Seq<char>> {
    if is_dot_dot(relative.last()) {
        relative
    } else {
        relative.drop_last().push(with_extension(relative.last(), output_extension()))
    }
}

/// The output path of a candidate, where it has one.
pub open spec fn mapped_path(
    candidate: Seq<char>,
    input_root: Seq<char>,
    output_root: Seq<char>,
) -> Option<Seq<char>> {
    if is_under(candidate, input_root) {
        Some(join(output_root, mirrored(relative_to(candidate, input_root))))
    } else {
        None
    }
}

/// What follows the root in a path below it are names, none of them `.`,
/// and the last of them is the path's final component.
pub proof fn lemma_relative_names(path: Seq<char>, root: Seq<char>)
    requires
        is_under(path, root),
    ensures
        forall|i: int|
            0 <= i < relative_to(path, root).len() ==> is_name(#[trigger] relative_to(path, root)[i])
                && !is_dot(relative_to(path, root)[i]),
        relative_to(path, root).last() == components(path).last(),
        !is_dot_dot(relative_to(path, root).last()) ==> file_name(path) == relative_to(
            path,
            root,
        ).last(),
{
    let all = components(path);
    let depth = components(root).len() as int;
    let rest = all.skip(depth);
    let relative = relative_to(path, root);
    lemma_components_are_names(path);
    let dropped: int = if rest.len() > 0 && is_dot(rest[0]) {
        1
    } else {
        0
    };
    assert forall|i: int| 0 <= i < relative.len() implies is_name(#[trigger] relative[i])
        && !is_dot(relative[i]) by {
        assert(relative[i] == all[depth + dropped + i]);
    }
    assert(relative.last() == all[all.len() - 1]);
}

/// The output path of every candidate below the input root that has a file
/// name lies below the output root, in the same directories relative to it,
/// under the same file stem, and its extension is the output extension
/// whatever the candidate's extension was.
pub proof fn lemma_mapped_path_mirrors_candidate(
    candidate: Seq<char>,
    input_root: Seq<char>,
    output_root: Seq<char>,
)
    requires
        is_under(candidate, input_root),
        file_name(candidate).len() > 0,
    ensures
        mapped_path(candidate, input_root, output_root) is Some,
        ({
            let out = mapped_path(candidate, input_root, output_root)->0;
            let relative = relative_to(candidate, input_root);
            &&& is_under(out, output_root)
            &&& relative_to(out, output_root) == mirrored(relative)
            &&& relative_to(out, output_root).drop_last() == relative.drop_last()
            &&& name_stem(file_name(out)) == name_stem(file_name(candidate))
            &&& extension_of(out) == Some(output_extension())
        }),
{
    let relative = relative_to(candidate, input_root);
    let renamed = with_extension(relative.last(), output_extension());
    let target = mirrored(relative);
    let out = join(output_root, target);
    lemma_relative_names(candidate, input_root);
    assert(!is_dot_dot(relative.last()));
    lemma_with_extension(relative.last(), output_extension());
    assert forall|i: int| 0 <= i < target.len() implies is_name(#[trigger] target[i]) && !is_dot(
        target[i],
    ) by {
        if i < relative.len() - 1 {
            assert(target[i] == relative[i]);
        } else {
            assert(target[i] == renamed);
        }
    }
    lemma_join(output_root, target);
    let base = components(output_root);
    assert((base + target).take(base.len() as int) == base);
    assert((base + target).skip(base.len() as int) == target);
    assert(target.drop_last() == relative.drop_last());
}

/// Whether a component is `.`.
fn is_dot_name(name: &str) -> (dot: bool)
    ensures
        dot == is_dot(name@),
{
    let chars = to_chars(name);
    chars.len() == 1 && chars[0] == '.'
}

/// The components of `candidate` and the index among them at which its path
/// relative to `input_root` begins; `None` where `candidate` does not lie
/// strictly below `input_root`.
fn below_root(candidate: &str, input_root: &str) -> (found: Option<(Vec<String>, usize)>)
    ensures
        match found {
            Some((names, first)) => {
                &&& is_under(candidate@, input_root@)
                &&& first < names.len()
                &&& names.deep_view() == components(candidate@)
                &&& names.deep_view().skip(first as int) == relative_to(candidate@, input_root@)
            },
            None => !is_under(candidate@, input_root@),
        },
{
    let candidate_chars = to_chars(candidate);
    let root_chars = to_chars(input_root);
    if starts_at_root(&candidate_chars) != starts_at_root(&root_chars) {
        return None;
    }
    let names = split(candidate);
    let root_names = split(input_root);
    let depth = root_names.len();
    if depth > names.len() {
        return None;
    }
    let mut i: usize = 0;
    while i < depth
        invariant
            i <= depth <= names.len(),
            depth == root_names.len(),
            names.deep_view() == components(candidate@),
            root_names.deep_view() == components(input_root@),
            forall|j: int| 0 <= j < i ==> components(candidate@)[j] == components(input_root@)[j],
        decreases depth - i,
    {
        assert(names.deep_view()[i as int] == names[i as int]@);
        assert(root_names.deep_view()[i as int] == root_names[i as int]@);
        if !(names[i] == root_names[i]) {
            return None;
        }
        i += 1;
    }
    assert(components(candidate@).take(depth as int) == components(input_root@));
    let ghost rest = components(candidate@).skip(depth as int);
    let mut first = depth;
    if first < names.len() {
        assert(names.deep_view()[first as int] == names[first as int]@);
        assert(rest[0] == names[first as int]@);
        if is_dot_name(names[first].as_str()) {
            first = first + 1;
        }
    }
    assert(relative_to(candidate@, input_root@) == components(candidate@).skip(first as int));
    if first >= names.len() {
        return None;
    }
    Some((names, first))
}

/// Joins the names from `first` on onto `output_root`, the last of them with
/// its extension replaced.
fn join_mirrored(output_root: &str, names: &Vec<String>, first: usize) -> (out: String)
    requires
        first < names.len(),
        forall|j: int| first <= j < names.len() ==> is_name(#[trigger] names.deep_view()[j]),
    ensures
        out@ == join(output_root@, mirrored(names.deep_view().skip(first as int))),
{
    let ghost relative = names.deep_view().skip(first as int);
    proof {
        reveal_strlit("/");
        reveal_strlit(".jpg");
    }
    let mut out = output_root.to_owned();
    let root_end = to_chars(output_root);
    let mut needs_separator = root_end.len() > 0 && root_end[root_end.len() - 1] != SEPARATOR;
    let last = names.len() - 1;
    let mut k: usize = first;
    assert(relative.take(0) == Seq::<Seq<char>>::empty());
    while k < last
        invariant
            first <= k <= last,
            last == names.len() - 1,
            relative == names.deep_view().skip(first as int),
            out@ == join(output_root@, relative.take(k - first)),
            needs_separator == !(out@.len() == 0 || out@.last() == SEPARATOR),
            forall|j: int| first <= j < names.len() ==> is_name(#[trigger] names.deep_view()[j]),
            "/"@ == seq![SEPARATOR],
        decreases last - k,
    {
        let ghost before = out@;
        let ghost name = names[k as int]@;
        assert(names.deep_view()[k as int] == name);
        assert(relative[k - first] == name);
        assert(relative.take(k - first + 1).drop_last() == relative.take(k - first));
        assert(relative.take(k - first + 1).last() == name);
        if needs_separator {
            out.append("/");
            assert(out@ == before.push(SEPARATOR));
        }
        out.append(names[k].as_str());
        assert(out@.last() == name.last());
        needs_separator = true;
        k += 1;
    }
    assert(relative.take(last - first) == relative.drop_last());

    let file = names[last].as_str();
    let file_chars = to_chars(file);
    assert(names.deep_view()[last as int] == file@);
    assert(relative.last() == file@);
    assert(file_chars@.subrange(0, file_chars.len() as int) == file@);
    let ghost before = out@;
    if needs_separator {
        out.append("/");
        assert(out@ == before.push(SEPARATOR));
    }
    if file_chars.len() == 2 && file_chars[0] == '.' && file_chars[1] == '.' {
        out.append(file);
        assert(relative.drop_last().push(relative.last()) == relative);
        return out;
    }
    let stem_len = match last_dot_between(&file_chars, 0, file_chars.len()) {
        Some(dot) => if dot > 0 {
            dot
        } else {
            file_chars.len()
        },
        None => file_chars.len(),
    };
    let stem = file.substring_char(0, stem_len);
    assert(stem@ == name_stem(file@)) by {
        assert(file@.take(file@.len() as int) == file@);
    }
    out.append(stem);
    out.append(".jpg");
    proof {
        let renamed = with_extension(file@, output_extension());
        assert(".jpg"@ == seq!['.'] + output_extension());
        assert(stem@ + ".jpg"@ == renamed);
        assert(mirrored(relative).drop_last() == relative.drop_last());
    }
    out
}

/// Computes where the converted copy of `candidate` goes: its path relative
/// to `input_root`, joined onto `output_root`, with the extension of the file
/// name replaced by `jpg`. Fails exactly where `candidate` does not lie
/// strictly below `input_root`.
pub fn map_path(candidate: &str, input_root: &str, output_root: &str) -> (mapped: Result<
    String,
    PathMappingFailure,
>)
    ensures
        match mapped {
            Ok(out) => mapped_path(candidate@, input_root@, output_root@) == Some(out@),
            Err(_) => mapped_path(candidate@, input_root@, output_root@) is None,
        },
{
    match below_root(candidate, input_root) {
        Some((names, first)) => {
            proof {
                lemma_components_are_names(candidate@);
            }
            Ok(join_mirrored(output_root, &names, first))
        },
        None => Err(PathMappingFailure),
    }
}

} // verus!
