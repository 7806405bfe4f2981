//! Slash-separated paths as text: components, file names, extensions.
//!
//! A path is read as the file system reads it. Its components are the runs
//! of characters between separators, but a `.` names the directory it stands
//! in and counts as a component only where it begins a relative path. A
//! component `..` stays a component; neither `.` nor `..` is a file name.

use vstd::prelude::*;

verus! {

/// The character that separates the components of a path.
pub const SEPARATOR: char = '/';

/// Whether `name` is `.`, which names the directory it stands in.
pub open spec fn is_dot(name: Seq<char>) -> bool {
    name.len() == 1 && name[0] == '.'
}

/// Whether `name` is `..`, which names the directory above.
pub open spec fn is_dot_dot(name: Seq<char>) -> bool {
    name.len() == 2 && name[0] == '.' && name[1] == '.'
}

/// Whether `s` ends in something that adds no component: a separator, or a
/// `.` that follows a separator.
pub open spec fn ends_in_filler(s: Seq<char>) -> bool {
    s.len() > 0 && (s.last() == SEPARATOR || (s.last() == '.' && s.len() >= 2 && s[s.len() - 2]
        == SEPARATOR))
}

/// `s` without the separators and `.` components that close it.
pub open spec fn trim_closing(s: Seq<char>) -> Seq<char>
    decreases s.len(),
{
    if ends_in_filler(s) {
        trim_closing(s.drop_last())
    } else {
        s
    }
}

/// The length of the longest suffix of `s` that holds no separator.
pub open spec fn trailing_name_len(s: Seq<char>) -> nat
    decreases s.len(),
{
    if s.len() == 0 || s.last() == SEPARATOR {
        0
    } else {
        1 + trailing_name_len(s.drop_last())
    }
}

/// The final component of a path, or the empty sequence where the path has
/// no component at all.
pub open spec fn last_component(path: Seq<char>) -> Seq<char> {
    let t = trim_closing(path);
    t.skip(t.len() - trailing_name_len(t))
}

/// What stands before the final component: the path cut off where that
/// component begins.
pub open spec fn before_last_component(path: Seq<char>) -> Seq<char> {
    let t = trim_closing(path);
    t.take(t.len() - trailing_name_len(t))
}

/// The components of a path, first to last. A `.` is among them only as the
/// first component of a relative path.
pub open spec fn components(path: Seq<char>) -> Seq<Seq<char>>
    decreases path.len(),
    via components_decreases
{
    if last_component(path).len() == 0 {
        Seq::empty()
    } else {
        components(before_last_component(path)).push(last_component(path))
    }
}

#[via_fn]
proof fn components_decreases(path: Seq<char>) {
    lemma_trim_closing(path);
    lemma_trailing_name_len(trim_closing(path));
}

/// The file name of a path: its final component, unless that is `.` or `..`.
/// The empty sequence where the path has no file name.
pub open spec fn file_name(path: Seq<char>) -> Seq<char> {
    let last = last_component(path);
    if is_dot(last) || is_dot_dot(last) {
        Seq::empty()
    } else {
        last
    }
}

/// Trimming keeps a prefix of the text, and what it keeps does not end in a
/// separator nor in a `.` after a separator.
pub proof fn lemma_trim_closing(s: Seq<char>)
    ensures
        trim_closing(s).len() <= s.len(),
        trim_closing(s) == s.take(trim_closing(s).len() as int),
        !ends_in_filler(trim_closing(s)),
    decreases s.len(),
{
    if ends_in_filler(s) {
        let init = s.drop_last();
        lemma_trim_closing(init);
        let t = trim_closing(init);
        assert(t == s.take(t.len() as int));
    } else {
        assert(s == s.take(s.len() as int));
    }
}

/// The trailing name is a separator-free suffix that a separator, or the
/// start of the text, precedes.
pub proof fn lemma_trailing_name_len(s: Seq<char>)
    ensures
        trailing_name_len(s) <= s.len(),
        forall|i: int| s.len() - trailing_name_len(s) <= i < s.len() ==> s[i] != SEPARATOR,
        trailing_name_len(s) < s.len() ==> s[s.len() - trailing_name_len(s) - 1] == SEPARATOR,
        s.len() > 0 && s.last() != SEPARATOR ==> trailing_name_len(s) > 0,
    decreases s.len(),
{
    if s.len() == 0 || s.last() == SEPARATOR {
    } else {
        let init = s.drop_last();
        lemma_trailing_name_len(init);
        assert forall|i: int| s.len() - trailing_name_len(s) <= i < s.len() implies s[i]
            != SEPARATOR by {
            if i < init.len() {
                assert(init[i] == s[i]);
            }
        }
        if trailing_name_len(s) < s.len() {
            assert(init[init.len() - trailing_name_len(init) - 1] == s[s.len() - trailing_name_len(
                s,
            ) - 1]);
        }
    }
}

/// Whether `name` can stand as one component: it is not empty and holds no
/// separator.
pub open spec fn is_name(name: Seq<char>) -> bool {
    name.len() > 0 && forall|i: int| 0 <= i < name.len() ==> name[i] != SEPARATOR
}

/// Whether a path starts at the root of the file system.
pub open spec fn is_absolute(path: Seq<char>) -> bool {
    path.len() > 0 && path[0] == SEPARATOR
}

/// The index of the last full stop in `name`, or -1 where it has none.
pub open spec fn last_dot(name: Seq<char>) -> int
    decreases name.len(),
{
    if name.len() == 0 {
        -1
    } else if name.last() == '.' {
        name.len() - 1
    } else {
        last_dot(name.drop_last())
    }
}

/// The extension of a file name: what follows its last full stop, unless that
/// full stop is the name's first character (a hidden file has no extension).
pub open spec fn name_extension(name: Seq<char>) -> Option<Seq<char>> {
    let dot = last_dot(name);
    if dot > 0 {
        Some(name.skip(dot + 1))
    } else {
        None
    }
}

/// The file name without its extension and the full stop before it.
pub open spec fn name_stem(name: Seq<char>) -> Seq<char> {
    let dot = last_dot(name);
    if dot > 0 {
        name.take(dot)
    } else {
        name
    }
}

/// The extension of the file name of a path; `None` where the path has no
/// file name or its file name has no extension.
pub open spec fn extension_of(path: Seq<char>) -> Option<Seq<char>> {
    name_extension(file_name(path))
}

/// `name` with its extension, if it has one, replaced by `ext`.
pub open spec fn with_extension(name: Seq<char>, ext: Seq<char>) -> Seq<char> {
    name_stem(name).push('.') + ext
}

/// `base` with one more component, set off by a separator unless `base` is
/// empty or already ends in one.
pub open spec fn push_name(base: Seq<char>, name: Seq<char>) -> Seq<char> {
    if base.len() == 0 || base.last() == SEPARATOR {
        base + name
    } else {
        base.push(SEPARATOR) + name
    }
}

/// `base` with the components `names` appended in order.
pub open spec fn join(base: Seq<char>, names: Seq<Seq<char>>) -> Seq<char>
    decreases names.len(),
{
    if names.len() == 0 {
        base
    } else {
        push_name(join(base, names.drop_last()), names.last())
    }
}

/// The last full stop is where `last_dot` says, and no full stop follows it.
pub proof fn lemma_last_dot(name: Seq<char>)
    ensures
        -1 <= last_dot(name) < name.len(),
        last_dot(name) >= 0 ==> name[last_dot(name)] == '.',
        forall|i: int| last_dot(name) < i < name.len() ==> name[i] != '.',
    decreases name.len(),
{
    if name.len() > 0 && name.last() != '.' {
        let init = name.drop_last();
        lemma_last_dot(init);
        assert forall|i: int| last_dot(name) < i < name.len() implies name[i] != '.' by {
            if i < init.len() {
                assert(init[i] == name[i]);
            }
        }
    }
}

/// A separator-free text appended after a separator, or to nothing, is the
/// trailing name of the whole.
pub proof fn lemma_trailing_name_of_concat(prefix: Seq<char>, name: Seq<char>)
    requires
        prefix.len() == 0 || prefix.last() == SEPARATOR,
        forall|i: int| 0 <= i < name.len() ==> name[i] != SEPARATOR,
    ensures
        trailing_name_len(prefix + name) == name.len(),
    decreases name.len(),
{
    if name.len() == 0 {
        assert(prefix + name == prefix);
    } else {
        let init = name.drop_last();
        assert((prefix + name).drop_last() == prefix + init);
        assert((prefix + name).last() == name.last());
        lemma_trailing_name_of_concat(prefix, init);
    }
}

/// The final component of a path is a name, where there is one, and it is
/// `.` only where the whole path comes to `.`: nothing stands before it.
pub proof fn lemma_last_component(path: Seq<char>)
    ensures
        last_component(path).len() > 0 ==> is_name(last_component(path)),
        is_dot(last_component(path)) ==> before_last_component(path).len() == 0,
        before_last_component(path).len() < path.len() || path.len() == 0,
{
    let trimmed = trim_closing(path);
    let name = last_component(path);
    lemma_trim_closing(path);
    lemma_trailing_name_len(trimmed);
    assert forall|i: int| 0 <= i < name.len() implies name[i] != SEPARATOR by {
        assert(name[i] == trimmed[trimmed.len() - trailing_name_len(trimmed) + i]);
    }
    if is_dot(name) {
        assert(trimmed.last() == name[0]);
    }
}

/// Every component of a path is a name, and none but the first is `.`.
pub proof fn lemma_components_are_names(path: Seq<char>)
    ensures
        forall|i: int| 0 <= i < components(path).len() ==> is_name(#[trigger] components(path)[i]),
        forall|i: int| 1 <= i < components(path).len() ==> !is_dot(#[trigger] components(path)[i]),
    decreases path.len(),
{
    let name = last_component(path);
    lemma_last_component(path);
    if name.len() > 0 {
        let rest = components(before_last_component(path));
        lemma_components_are_names(before_last_component(path));
        assert(before_last_component(path).len() == 0 ==> rest.len() == 0) by {
            if before_last_component(path).len() == 0 {
                assert(trim_closing(before_last_component(path)) == before_last_component(path));
            }
        }
        assert forall|i: int| 0 <= i < components(path).len() implies is_name(
            #[trigger] components(path)[i],
        ) by {
            if i < rest.len() {
                assert(components(path)[i] == rest[i]);
            } else {
                assert(components(path)[i] == name);
            }
        }
        assert forall|i: int| 1 <= i < components(path).len() implies !is_dot(
            #[trigger] components(path)[i],
        ) by {
            if i < rest.len() {
                assert(components(path)[i] == rest[i]);
            } else {
                assert(components(path)[i] == name);
            }
        }
    }
}

/// The directory of a path holds all its components but the last, and is
/// absolute exactly where the path is.
pub proof fn lemma_before_last_component(path: Seq<char>)
    requires
        last_component(path).len() > 0,
    ensures
        components(before_last_component(path)) == components(path).drop_last(),
        is_absolute(before_last_component(path)) == is_absolute(path),
{
    let trimmed = trim_closing(path);
    lemma_trim_closing(path);
    lemma_trailing_name_len(trimmed);
    assert(components(path).drop_last() == components(before_last_component(path)));
    if before_last_component(path).len() > 0 {
        assert(before_last_component(path)[0] == path[0]);
    } else {
        assert(trimmed[0] == path[0]);
    }
}

/// A separator at the end of a path adds no component.
pub proof fn lemma_components_ignore_trailing_separator(path: Seq<char>)
    ensures
        components(path.push(SEPARATOR)) == components(path),
        last_component(path.push(SEPARATOR)) == last_component(path),
{
    let longer = path.push(SEPARATOR);
    assert(longer.drop_last() == path);
    assert(trim_closing(longer) == trim_closing(path));
}

/// Pushing a name other than `.` adds exactly that component, and leaves the
/// path as absolute or as relative as it was.
pub proof fn lemma_push_name(base: Seq<char>, name: Seq<char>)
    requires
        is_name(name),
        !is_dot(name),
    ensures
        components(push_name(base, name)) == components(base).push(name),
        last_component(push_name(base, name)) == name,
        is_absolute(push_name(base, name)) == is_absolute(base),
{
    let whole = push_name(base, name);
    let prefix = if base.len() == 0 || base.last() == SEPARATOR {
        base
    } else {
        base.push(SEPARATOR)
    };
    assert(whole == prefix + name);
    assert(whole.last() == name.last());
    if name.len() >= 2 {
        assert(whole[whole.len() - 2] == name[name.len() - 2]);
    }
    assert(!ends_in_filler(whole));
    assert(trim_closing(whole) == whole);
    lemma_trailing_name_of_concat(prefix, name);
    assert(whole.skip(whole.len() - name.len()) == name);
    assert(whole.take(whole.len() - name.len()) == prefix);
    assert(last_component(whole) == name);
    assert(before_last_component(whole) == prefix);
    if prefix != base {
        lemma_components_ignore_trailing_separator(base);
    }
}

/// Joining names, none of them `.`, onto a base appends them to its
/// components.
pub proof fn lemma_join(base: Seq<char>, names: Seq<Seq<char>>)
    requires
        forall|i: int| 0 <= i < names.len() ==> is_name(#[trigger] names[i]) && !is_dot(names[i]),
    ensures
        components(join(base, names)) == components(base) + names,
        is_absolute(join(base, names)) == is_absolute(base),
        names.len() > 0 ==> last_component(join(base, names)) == names.last(),
    decreases names.len(),
{
    if names.len() == 0 {
        assert(components(base) + names == components(base));
    } else {
        let init = names.drop_last();
        assert forall|i: int| 0 <= i < init.len() implies is_name(#[trigger] init[i]) && !is_dot(
            init[i],
        ) by {
            assert(init[i] == names[i]);
        }
        lemma_join(base, init);
        lemma_push_name(join(base, init), names.last());
        assert((components(base) + init).push(names.last()) == components(base) + names);
    }
}

/// Replacing the extension of a file name keeps the stem and yields a file
/// name whose extension is the new one.
pub proof fn lemma_with_extension(name: Seq<char>, ext: Seq<char>)
    requires
        is_name(name),
        ext.len() > 0,
        forall|i: int| 0 <= i < ext.len() ==> ext[i] != SEPARATOR && ext[i] != '.',
    ensures
        is_name(with_extension(name, ext)),
        !is_dot(with_extension(name, ext)),
        !is_dot_dot(with_extension(name, ext)),
        name_extension(with_extension(name, ext)) == Some(ext),
        name_stem(with_extension(name, ext)) == name_stem(name),
{
    let stem = name_stem(name);
    let renamed = with_extension(name, ext);
    lemma_last_dot(name);
    assert(stem.len() > 0);
    lemma_last_dot_of_concat(stem.push('.'), ext);
    assert(stem.push('.').drop_last() == stem);
    assert(last_dot(renamed) == stem.len());
    assert(renamed.skip(stem.len() as int + 1) == ext);
    assert(renamed.take(stem.len() as int) == stem);
}

/// Text without a full stop, appended to a text, does not move the last full
/// stop.
pub proof fn lemma_last_dot_of_concat(prefix: Seq<char>, tail: Seq<char>)
    requires
        forall|i: int| 0 <= i < tail.len() ==> tail[i] != '.',
    ensures
        last_dot(prefix + tail) == last_dot(prefix),
    decreases tail.len(),
{
    if tail.len() == 0 {
        assert(prefix + tail == prefix);
    } else {
        let init = tail.drop_last();
        assert((prefix + tail).drop_last() == prefix + init);
        assert((prefix + tail).last() == tail.last());
        lemma_last_dot_of_concat(prefix, init);
    }
}

/// Copies the characters of a string into a vector.
pub fn to_chars(text: &str) -> (chars: Vec<char>)
    ensures
        chars@ == text@,
{
    let mut chars: Vec<char> = Vec::new();
    for c in it: text.chars()
        invariant
            it.seq() == text@,
            chars@ == text@.take(it.index()),
    {
        chars.push(c);
    }
    chars
}

/// Where the final component lies in `chars`: its first index and the index
/// after its last. The two are equal where there is no component.
pub(crate) fn name_bounds(chars: &Vec<char>) -> (span: (usize, usize))
    ensures
        span.0 <= span.1 <= chars.len(),
        chars@.subrange(span.0 as int, span.1 as int) == last_component(chars@),
        chars@.take(span.0 as int) == before_last_component(chars@),
{
    let mut end = chars.len();
    assert(chars@.take(end as int) == chars@);
    while end > 0 && (chars[end - 1] == SEPARATOR || (chars[end - 1] == '.' && end >= 2 && chars[end
        - 2] == SEPARATOR))
        invariant
            end <= chars.len(),
            trim_closing(chars@) == trim_closing(chars@.take(end as int)),
        decreases end,
    {
        assert(chars@.take(end as int).drop_last() == chars@.take(end - 1));
        end -= 1;
    }
    let mut start = end;
    while start > 0 && chars[start - 1] != SEPARATOR
        invariant
            start <= end <= chars.len(),
            trailing_name_len(chars@.take(end as int)) == (end - start) + trailing_name_len(
                chars@.take(start as int),
            ),
        decreases start,
    {
        assert(chars@.take(start as int).drop_last() == chars@.take(start - 1));
        start -= 1;
    }
    proof {
        let trimmed = chars@.take(end as int);
        assert(!ends_in_filler(trimmed));
        assert(trim_closing(trimmed) == trimmed);
        assert(trimmed.skip(start as int) == chars@.subrange(start as int, end as int));
        assert(trimmed.take(start as int) == chars@.take(start as int));
    }
    (start, end)
}

/// Whether the characters of `chars` from `start` up to `end` are a file
/// name: neither nothing, nor `.`, nor `..`.
pub(crate) fn names_a_file(chars: &Vec<char>, start: usize, end: usize) -> (named: bool)
    requires
        start <= end <= chars.len(),
    ensures
        named == {
            let name = chars@.subrange(start as int, end as int);
            name.len() > 0 && !is_dot(name) && !is_dot_dot(name)
        },
{
    let ghost name = chars@.subrange(start as int, end as int);
    let len = end - start;
    if len == 0 {
        false
    } else if len == 1 {
        assert(name[0] == chars@[start as int]);
        chars[start] != '.'
    } else if len == 2 {
        assert(name[0] == chars@[start as int] && name[1] == chars@[start + 1]);
        !(chars[start] == '.' && chars[start + 1] == '.')
    } else {
        true
    }
}

/// The index in `chars` of the last full stop between `start` and `end`.
pub(crate) fn last_dot_between(chars: &Vec<char>, start: usize, end: usize) -> (dot: Option<usize>)
    requires
        start <= end <= chars.len(),
    ensures
        match dot {
            Some(at) => start <= at < end && last_dot(chars@.subrange(start as int, end as int))
                == at - start,
            None => last_dot(chars@.subrange(start as int, end as int)) == -1,
        },
{
    let mut k = end;
    while k > start && chars[k - 1] != '.'
        invariant
            start <= k <= end <= chars.len(),
            last_dot(chars@.subrange(start as int, end as int)) == last_dot(
                chars@.subrange(start as int, k as int),
            ),
        decreases k,
    {
        assert(chars@.subrange(start as int, k as int).drop_last() == chars@.subrange(
            start as int,
            k - 1,
        ));
        k -= 1;
    }
    if k > start {
        Some(k - 1)
    } else {
        None
    }
}

/// Whether the path starts with a separator.
pub(crate) fn starts_at_root(chars: &Vec<char>) -> (absolute: bool)
    ensures
        absolute == is_absolute(chars@),
{
    chars.len() > 0 && chars[0] == SEPARATOR
}

/// The directory that holds the final component of a path: the path cut off
/// where that component begins.
pub fn directory_of(path: &str) -> (directory: String)
    ensures
        directory@ == before_last_component(path@),
{
    let chars = to_chars(path);
    let (start, _) = name_bounds(&chars);
    path.substring_char(0, start).to_owned()
}

/// Splits a path into its components.
pub fn split(path: &str) -> (parts: Vec<String>)
    ensures
        parts.deep_view() == components(path@),
{
    let chars = to_chars(path);
    let n = chars.len();
    let mut parts: Vec<String> = Vec::new();
    let mut start: usize = 0;
    let mut i: usize = 0;
    assert(chars@.take(0) == Seq::<char>::empty());
    assert(parts.deep_view() == Seq::<Seq<char>>::empty());
    while i < n
        invariant
            n == chars.len(),
            chars@ == path@,
            start <= i <= n,
            start > 0 ==> chars@[start - 1] == SEPARATOR,
            i - start == trailing_name_len(chars@.take(i as int)),
            parts.deep_view() == components(chars@.take(start as int)),
        decreases n - i,
    {
        let ghost upto = chars@.take(i as int);
        let ghost next = chars@.take(i + 1);
        assert(next.drop_last() == upto);
        if chars[i] == SEPARATOR {
            assert(trim_closing(next) == trim_closing(upto));
            if start < i {
                if start > 0 && i - start == 1 && chars[start] == '.' {
                    proof {
                        assert(upto.drop_last() == chars@.take(start as int));
                        assert(ends_in_filler(upto));
                        assert(trim_closing(upto) == trim_closing(chars@.take(start as int)));
                    }
                } else {
                    let ghost before = parts.deep_view();
                    let name = path.substring_char(start, i);
                    parts.push(name.to_owned());
                    proof {
                        assert(parts.deep_view() == before.push(name@));
                        lemma_trailing_name_len(upto);
                        assert(upto.last() == chars@[i - 1]);
                        if i - start >= 2 {
                            assert(upto[i - 2] != SEPARATOR);
                        } else {
                            assert(upto.last() == chars@[start as int]);
                        }
                        assert(!ends_in_filler(upto));
                        assert(trim_closing(upto) == upto);
                        assert(upto.skip(start as int) == name@);
                        assert(upto.take(start as int) == chars@.take(start as int));
                    }
                }
            }
            start = i + 1;
        }
        i += 1;
    }
    assert(chars@.take(n as int) == chars@);
    if start < n {
        if start > 0 && n - start == 1 && chars[start] == '.' {
            proof {
                assert(chars@.drop_last() == chars@.take(start as int));
                assert(ends_in_filler(chars@));
                assert(trim_closing(chars@) == trim_closing(chars@.take(start as int)));
            }
        } else {
            let ghost before = parts.deep_view();
            let name = path.substring_char(start, n);
            parts.push(name.to_owned());
            proof {
                assert(parts.deep_view() == before.push(name@));
                lemma_trailing_name_len(chars@);
                if n - start >= 2 {
                    assert(chars@[n - 2] != SEPARATOR);
                } else {
                    assert(chars@.last() == chars@[start as int]);
                }
                assert(!ends_in_filler(chars@));
                assert(trim_closing(chars@) == chars@);
                assert(chars@.skip(start as int) == name@);
            }
        }
    }
    parts
}

} // verus!
