//! File paths as text: names, extensions and directories of `/`-separated
//! paths.
use crate::text::{chars_of, lower_all, lower_text, same_text, slice_to_chars, text_of};
use vstd::prelude::*;

verus! {

/// `path` without trailing separators and trailing `.` components; a lone root
/// or a lone `.` stays.
pub open spec fn trim_tail(path: Seq<char>) -> Seq<char>
    decreases path.len(),
{
    if path.len() <= 1 {
        path
    } else if path.last() == '/' {
        trim_tail(path.drop_last())
    } else if path.last() == '.' && path[path.len() - 2] == '/' {
        trim_tail(path.drop_last())
    } else {
        path
    }
}

/// Where the last component of `path` starts: behind its last separator.
pub open spec fn name_start(path: Seq<char>) -> int
    decreases path.len(),
{
    if path.len() == 0 || path.last() == '/' {
        path.len() as int
    } else {
        name_start(path.drop_last())
    }
}

/// The last component of `path`, which may be empty, `.` or `..`.
pub open spec fn last_component(path: Seq<char>) -> Seq<char> {
    let body = trim_tail(path);
    body.subrange(name_start(body), body.len() as int)
}

/// The file name that `path` ends with: its last component, unless that is
/// empty, `.` or `..`.
pub open spec fn file_name(path: Seq<char>) -> Option<Seq<char>> {
    let name = last_component(path);
    if name.len() == 0 || name == seq!['.'] || name == seq!['.', '.'] {
        None
    } else {
        Some(name)
    }
}

/// The position of the last `.` of `name`, or -1.
pub open spec fn last_dot(name: Seq<char>) -> int
    decreases name.len(),
{
    if name.len() == 0 {
        -1
    } else if name.last() == '.' {
        name.len() - 1
    } else {
        last_dot(name.drop_last())
    }
}

/// The extension of a file name: what follows its last `.`, unless that is the
/// first character or there is none.
pub open spec fn name_extension(name: Seq<char>) -> Option<Seq<char>> {
    let dot = last_dot(name);
    if dot <= 0 {
        None
    } else {
        Some(name.subrange(dot + 1, name.len() as int))
    }
}

/// The extension of the file that `path` names.
pub open spec fn extension(path: Seq<char>) -> Option<Seq<char>> {
    match file_name(path) {
        Some(name) => name_extension(name),
        None => None,
    }
}

/// What stands in front of the last component of `path`; empty where the path
/// has one component alone.
pub open spec fn parent(path: Seq<char>) -> Seq<char> {
    let body = trim_tail(path);
    let start = name_start(body);
    if start == body.len() {
        Seq::empty()
    } else {
        trim_tail(body.take(start))
    }
}

/// The directory of the file that `path` names; `.` where the path gives none.
pub open spec fn directory(path: Seq<char>) -> Seq<char> {
    if parent(path).len() == 0 {
        seq!['.']
    } else {
        parent(path)
    }
}

/// The path of `name` inside `dir`.
pub open spec fn joined(dir: Seq<char>, name: Seq<char>) -> Seq<char> {
    if dir.len() == 0 {
        name
    } else if dir.last() == '/' {
        dir + name
    } else {
        dir.push('/') + name
    }
}

/// Where the last component starts: behind the last separator.
pub proof fn lemma_name_start(path: Seq<char>)
    ensures
        0 <= name_start(path) <= path.len(),
        name_start(path) > 0 ==> path[name_start(path) - 1] == '/',
        forall|k: int| name_start(path) <= k < path.len() ==> path[k] != '/',
    decreases path.len(),
{
    if path.len() > 0 && path.last() != '/' {
        lemma_name_start(path.drop_last());
        assert forall|k: int| name_start(path) <= k < path.len() implies path[k] != '/' by {
            if k < path.len() - 1 {
                assert(path.drop_last()[k] == path[k]);
            }
        }
    }
}

proof fn lemma_last_dot(name: Seq<char>)
    ensures
        -1 <= last_dot(name) < name.len(),
        last_dot(name) >= 0 ==> name[last_dot(name)] == '.',
        forall|k: int| last_dot(name) < k < name.len() ==> name[k] != '.',
    decreases name.len(),
{
    if name.len() > 0 && name.last() != '.' {
        lemma_last_dot(name.drop_last());
        assert forall|k: int| last_dot(name) < k < name.len() implies name[k] != '.' by {
            if k < name.len() - 1 {
                assert(name.drop_last()[k] == name[k]);
            }
        }
    }
}

/// How many characters of `chars` are left without its trailing separators and
/// `.` components.
fn body_length(chars: &[char], len: usize) -> (body: usize)
    requires
        len <= chars@.len(),
    ensures
        body <= len,
        chars@.take(body as int) == trim_tail(chars@.take(len as int)),
{
    let mut end: usize = len;
    while end > 1 && (chars[end - 1] == '/' || (chars[end - 1] == '.' && chars[end - 2] == '/'))
        invariant
            end <= len <= chars@.len(),
            trim_tail(chars@.take(end as int)) == trim_tail(chars@.take(len as int)),
        decreases end,
    {
        assert(chars@.take(end as int).drop_last() == chars@.take(end - 1));
        end = end - 1;
    }
    assert(end > 1 ==> chars@.take(end as int).last() == chars@[end - 1]);
    assert(end > 1 ==> chars@.take(end as int)[end - 2] == chars@[end - 2]);
    end
}

/// Where the last component of the first `len` characters starts.
fn start_of_name(chars: &[char], len: usize) -> (start: usize)
    requires
        len <= chars@.len(),
    ensures
        start <= len,
        start as int == name_start(chars@.take(len as int)),
{
    let mut start: usize = len;
    while start > 0 && chars[start - 1] != '/'
        invariant
            start <= len <= chars@.len(),
            name_start(chars@.take(start as int)) == name_start(chars@.take(len as int)),
        decreases start,
    {
        assert(chars@.take(start as int).drop_last() == chars@.take(start - 1));
        start = start - 1;
    }
    start
}

/// The file name that `path` ends with.
pub fn file_name_of(path: &str) -> (name: Option<String>)
    ensures
        match name {
            Some(name) => file_name(path@) == Some(name@),
            None => file_name(path@) is None,
        },
{
    let chars: Vec<char> = chars_of(path);
    assert(path@.take(path@.len() as int) == path@);
    let end: usize = body_length(chars.as_slice(), chars.len());
    let start: usize = start_of_name(chars.as_slice(), end);
    let name: Vec<char> = slice_to_chars(chars.as_slice(), start, end);
    assert(name@ == last_component(path@));
    if name.len() == 0 {
        return None;
    }
    if name.len() == 1 && name[0] == '.' {
        assert(name@ =~= seq!['.']);
        return None;
    }
    if name.len() == 2 && name[0] == '.' && name[1] == '.' {
        assert(name@ =~= seq!['.', '.']);
        return None;
    }
    Some(text_of(name.as_slice()))
}

/// The extension of a file name.
pub fn extension_of_name(name: &str) -> (extension: Option<String>)
    ensures
        match extension {
            Some(ext) => name_extension(name@) == Some(ext@),
            None => name_extension(name@) is None,
        },
{
    let chars: Vec<char> = chars_of(name);
    let mut end: usize = chars.len();
    assert(name@.take(name@.len() as int) == name@);
    while end > 0 && chars[end - 1] != '.'
        invariant
            chars@ == name@,
            end <= name@.len(),
            last_dot(name@.take(end as int)) == last_dot(name@),
        decreases end,
    {
        assert(name@.take(end as int).drop_last() == name@.take(end - 1));
        end = end - 1;
    }
    if end <= 1 {
        return None;
    }
    Some(text_of(slice_to_chars(chars.as_slice(), end, chars.len()).as_slice()))
}

/// The extension of the file that `path` names.
pub fn extension_of(path: &str) -> (ext: Option<String>)
    ensures
        match ext {
            Some(ext) => extension(path@) == Some(ext@),
            None => extension(path@) is None,
        },
{
    match file_name_of(path) {
        Some(name) => extension_of_name(name.as_str()),
        None => None,
    }
}

/// The extension of the file that `path` names, in lower case.
pub open spec fn lower_extension(path: Seq<char>) -> Option<Seq<char>> {
    match extension(path) {
        Some(ext) => Some(lower_all(ext)),
        None => None,
    }
}

/// The extension of the file that `path` names, in lower case.
pub fn lower_extension_of(path: &str) -> (ext: Option<String>)
    ensures
        match ext {
            Some(ext) => lower_extension(path@) == Some(ext@),
            None => lower_extension(path@) is None,
        },
{
    match extension_of(path) {
        Some(ext) => Some(lower_text(ext.as_str())),
        None => None,
    }
}

/// Whether `path` has the extension `wanted` in any ASCII case; `wanted` is
/// written in lower case.
pub fn has_extension(path: &str, wanted: &str) -> (r: bool)
    ensures
        r == (lower_extension(path@) == Some(wanted@)),
{
    match lower_extension_of(path) {
        Some(ext) => same_text(ext.as_str(), wanted),
        None => false,
    }
}

/// What stands in front of the last component of `path`; empty where the path
/// has one component alone.
pub fn parent_of(path: &str) -> (dir: String)
    ensures
        dir@ == parent(path@),
{
    let chars: Vec<char> = chars_of(path);
    assert(path@.take(path@.len() as int) == path@);
    let end: usize = body_length(chars.as_slice(), chars.len());
    let start: usize = start_of_name(chars.as_slice(), end);
    assert(path@.take(end as int).take(start as int) == path@.take(start as int));
    if start == end {
        return String::new();
    }
    let parent: usize = body_length(chars.as_slice(), start);
    let dir: Vec<char> = slice_to_chars(chars.as_slice(), 0, parent);
    assert(dir@ == path@.take(parent as int));
    text_of(dir.as_slice())
}

/// The directory of the file that `path` names; `.` where the path gives none.
pub fn archive_directory(path: &str) -> (dir: String)
    ensures
        dir@ == directory(path@),
{
    let dir: String = parent_of(path);
    if dir.as_str().unicode_len() == 0 {
        let mut here: String = String::new();
        here.push('.');
        assert(here@ =~= seq!['.']);
        return here;
    }
    dir
}

/// The path of `name` inside `dir`.
pub fn join(dir: &str, name: &str) -> (path: String)
    ensures
        path@ == joined(dir@, name@),
{
    let chars: Vec<char> = chars_of(dir);
    let mut path: String = dir.to_owned();
    if chars.len() > 0 && chars[chars.len() - 1] != '/' {
        path.push('/');
    }
    path.append(name);
    path
}

/// The same path with the extension `ext` in place of its own, if it names a
/// file.
pub open spec fn with_extension(path: Seq<char>, ext: Seq<char>) -> Seq<char> {
    let body = trim_tail(path);
    match (file_name(path), extension(path)) {
        (Some(_), Some(old_ext)) => body.take(body.len() - old_ext.len()) + ext,
        (Some(_), None) => body.push('.') + ext,
        (None, _) => path,
    }
}

/// The same path with the extension `ext` in place of its own, if it names a
/// file.
pub fn replace_extension(path: &str, ext: &str) -> (replaced: String)
    ensures
        replaced@ == with_extension(path@, ext@),
{
    let chars: Vec<char> = chars_of(path);
    assert(path@.take(path@.len() as int) == path@);
    let end: usize = body_length(chars.as_slice(), chars.len());
    match (file_name_of(path), extension_of(path)) {
        (Some(_), Some(old_ext)) => {
            let old_len: usize = old_ext.as_str().unicode_len();
            proof {
                let body = trim_tail(path@);
                lemma_name_start(body);
                lemma_last_dot(last_component(path@));
            }
            let head: Vec<char> = slice_to_chars(chars.as_slice(), 0, end - old_len);
            assert(head@ == path@.take(end as int).take(end - old_len));
            let mut replaced: String = text_of(head.as_slice());
            replaced.append(ext);
            replaced
        },
        (Some(_), None) => {
            let head: Vec<char> = slice_to_chars(chars.as_slice(), 0, end);
            assert(head@ == path@.take(end as int));
            let mut replaced: String = text_of(head.as_slice());
            replaced.push('.');
            replaced.append(ext);
            replaced
        },
        (None, _) => path.to_owned(),
    }
}

proof fn lemma_name_start_is(path: Seq<char>, at: int)
    requires
        0 <= at <= path.len(),
        at > 0 ==> path[at - 1] == '/',
        forall|k: int| at <= k < path.len() ==> path[k] != '/',
    ensures
        name_start(path) == at,
{
    lemma_name_start(path);
    let found = name_start(path);
    if found < at {
        assert(path[at - 1] == '/');
    } else if found > at {
        assert(path[found - 1] == '/');
    }
}

proof fn lemma_last_dot_is(name: Seq<char>, at: int)
    requires
        0 <= at < name.len(),
        name[at] == '.',
        forall|k: int| at < k < name.len() ==> name[k] != '.',
    ensures
        last_dot(name) == at,
{
    lemma_last_dot(name);
    if last_dot(name) > at {
        assert(name[last_dot(name)] == '.');
    } else if last_dot(name) < at {
        assert(name[at] != '.');
    }
}

/// What follows the last dot of a name is its extension, whatever stands before it, and
/// replacing the extension replaces just that.
pub proof fn law_extensions_follow_the_last_dot(
    stem: Seq<char>,
    ext: Seq<char>,
    other: Seq<char>,
)
    requires
        stem.len() > 0,
        stem.last() != '/',
        ext.len() > 0,
        !ext.contains('.'),
        !ext.contains('/'),
    ensures
        extension(stem.push('.') + ext) == Some(ext),
        with_extension(stem.push('.') + ext, other) == stem.push('.') + other,
        lower_extension(stem.push('.') + ext) == Some(lower_all(ext)),
{
    let path = stem.push('.') + ext;
    assert(path.last() == ext.last());
    assert(ext.contains(ext.last()));
    assert(trim_tail(path) == path);
    lemma_name_start(stem);
    let start = name_start(stem);
    assert forall|k: int| start <= k < path.len() implies path[k] != '/' by {
        if k < stem.len() {
            assert(path[k] == stem[k]);
        } else if k > stem.len() {
            assert(path[k] == ext[k - stem.len() - 1]);
            assert(ext.contains(ext[k - stem.len() - 1]));
        }
    }
    lemma_name_start_is(path, start);
    assert(start < stem.len()) by {
        if start == stem.len() {
            assert(stem[start - 1] == '/');
        }
    }
    let name = path.subrange(start, path.len() as int);
    assert(last_component(path) == name);
    assert(name.last() == ext.last());
    let dot = stem.len() - start;
    assert(name[dot] == '.');
    assert forall|k: int| dot < k < name.len() implies name[k] != '.' by {
        assert(name[k] == ext[k - dot - 1]);
        assert(ext.contains(ext[k - dot - 1]));
    }
    lemma_last_dot_is(name, dot);
    assert(name.subrange(dot + 1, name.len() as int) =~= ext);
    assert(path.take(path.len() - ext.len()) =~= stem.push('.'));
}

/// A name that is joined to a directory is the file name of the whole, and the
/// directory is its parent.
pub proof fn law_joined_names_are_told_apart_again(dir: Seq<char>, name: Seq<char>)
    requires
        dir.len() > 0,
        dir.last() != '/',
        dir.last() != '.',
        name.len() > 0,
        !name.contains('/'),
        name != seq!['.'],
        name != seq!['.', '.'],
    ensures
        joined(dir, name) == dir.push('/') + name,
        joined(dir.push('/'), name) == dir.push('/') + name,
        joined(Seq::empty(), name) == name,
        file_name(joined(dir, name)) == Some(name),
        parent(joined(dir, name)) == dir,
{
    let path = dir.push('/') + name;
    let start = dir.len() + 1;
    assert(path.last() == name.last());
    assert(name.contains(name.last()));
    if name.len() == 1 {
        assert(name =~= seq![name[0]]);
        assert(name[0] != '.');
    } else {
        assert(path[path.len() - 2] == name[name.len() - 2]);
        assert(name.contains(name[name.len() - 2]));
    }
    assert(trim_tail(path) == path);
    assert(path[dir.len() as int] == '/');
    assert forall|k: int| start <= k < path.len() implies path[k] != '/' by {
        assert(path[k] == name[k - start]);
        assert(name.contains(name[k - start]));
    }
    lemma_name_start_is(path, start as int);
    assert(path.subrange(start as int, path.len() as int) =~= name);
    assert(path.take(start as int) =~= dir.push('/'));
    assert(dir.push('/').drop_last() =~= dir);
    assert(trim_tail(dir.push('/')) == trim_tail(dir));
    assert(trim_tail(dir) == dir);
}

/// A path without a directory lies in the directory that is worked in.
pub proof fn law_bare_names_lie_in_the_working_directory(name: Seq<char>)
    requires
        name.len() > 0,
        !name.contains('/'),
    ensures
        parent(name).len() == 0,
        directory(name) == seq!['.'],
{
    assert(name.contains(name.last()));
    if name.len() > 1 {
        assert(name.contains(name[name.len() - 2]));
    }
    assert(trim_tail(name) == name);
    assert forall|k: int| 0 <= k < name.len() implies name[k] != '/' by {
        assert(name.contains(name[k]));
    }
    lemma_name_start_is(name, 0);
    assert(name.take(0) =~= Seq::<char>::empty());
}

} // verus!
