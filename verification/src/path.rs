//! Paths as text: the components of a path, the name it ends in, the
//! directory it lies in, and the places of the bundled tools.
//!
//! A path is split at `/` and at `\`. Its components are the runs of other
//! characters between them, so that a doubled or a trailing separator
//! changes nothing.

use vstd::prelude::*;
use crate::text::{from_chars, push_str, same_chars, starts_with, starts_with_chars, to_chars, views};

verus! {

/// `c` parts two components of a path.
pub open spec fn is_separator(c: char) -> bool {
    c == '/' || c == '\\'
}

/// The number of characters before the first separator of `path`, or the
/// length of `path` where it holds none.
pub open spec fn first_component_len(path: Seq<char>) -> nat
    decreases path.len(),
{
    if path.len() == 0 || is_separator(path[0]) {
        0
    } else {
        1 + first_component_len(path.skip(1))
    }
}

/// The components of `path`: the runs of characters between its separators
/// that are not empty, in their order.
pub open spec fn components(path: Seq<char>) -> Seq<Seq<char>>
    decreases path.len(),
{
    if path.len() == 0 {
        Seq::empty()
    } else {
        let n = first_component_len(path) as int;
        if n == 0 {
            components(path.skip(1))
        } else if n >= path.len() {
            seq![path]
        } else {
            seq![path.take(n)] + components(path.skip(n + 1))
        }
    }
}

/// `path` starts at the root: its first character is a separator.
pub open spec fn is_rooted(path: Seq<char>) -> bool {
    path.len() > 0 && is_separator(path[0])
}

/// The name that `path` ends in: its last component, unless the path has
/// none or ends in `.` or `..`.
pub open spec fn file_name(path: Seq<char>) -> Option<Seq<char>> {
    let parts = components(path);
    if parts.len() == 0 || parts.last() == "."@ || parts.last() == ".."@ {
        None
    } else {
        Some(parts.last())
    }
}

/// `path` lies directly in the directory `dir`: without its last component
/// it has the components of `dir`, and both start at the root or neither.
pub open spec fn is_child_of(path: Seq<char>, dir: Seq<char>) -> bool {
    &&& components(path).len() > 0
    &&& components(path).drop_last() == components(dir)
    &&& is_rooted(path) == is_rooted(dir)
}

/// `base` with `rest` below it: a `\` stands between them unless `base` is
/// empty or ends in a separator.
pub open spec fn join(base: Seq<char>, rest: Seq<char>) -> Seq<char> {
    if base.len() == 0 || is_separator(base.last()) {
        base + rest
    } else {
        base + seq!['\\'] + rest
    }
}

/// The text that marks a path of extended length.
pub open spec fn long_path_mark() -> Seq<char> {
    seq!['\\', '\\', '?', '\\']
}

/// The stored form of a path: its canonical form without the mark of an
/// extended-length path, or the path as given where it has no canonical form.
pub open spec fn normalized(path: Seq<char>, canonical: Option<Seq<char>>) -> Seq<char> {
    match canonical {
        Some(found) => if starts_with(found, long_path_mark()) {
            found.skip(4)
        } else {
            found
        },
        None => path,
    }
}

/// `first_component_len` is the one position up to which no separator stands
/// and at which one does, or the path ends.
pub proof fn lemma_first_component_len(path: Seq<char>, n: int)
    requires
        0 <= n <= path.len(),
        forall|j: int| 0 <= j < n ==> !is_separator(path[j]),
        n == path.len() || is_separator(path[n]),
    ensures
        first_component_len(path) == n,
    decreases path.len(),
{
    if path.len() == 0 || is_separator(path[0]) {
    } else {
        lemma_first_component_len(path.skip(1), n - 1);
    }
}

/// The components of `path`.
pub fn split_components(path: &Vec<char>) -> (parts: Vec<Vec<char>>)
    ensures
        views(parts@) == components(path@),
{
    let mut parts: Vec<Vec<char>> = Vec::new();
    let mut part: Vec<char> = Vec::new();
    let mut start: usize = 0;
    let mut i: usize = 0;
    proof {
        assert(path@.skip(0) =~= path@);
        assert(views(parts@) + components(path@) =~= components(path@));
        assert(part@ =~= path@.subrange(0, 0));
    }
    while i < path.len()
        invariant
            start <= i <= path.len(),
            part@ == path@.subrange(start as int, i as int),
            forall|j: int| start <= j < i ==> !is_separator(path@[j]),
            components(path@) == views(parts@) + components(path@.skip(start as int)),
        decreases path.len() - i,
    {
        let c = path[i];
        if c == '/' || c == '\\' {
            proof {
                let rest = path@.skip(start as int);
                assert forall|j: int| 0 <= j < i - start implies !is_separator(rest[j]) by {
                    assert(rest[j] == path@[start + j]);
                }
                assert(rest[i - start] == path@[i as int]);
                lemma_first_component_len(rest, i - start);
                assert(rest.take(i - start) =~= part@);
                assert(rest.skip(i - start + 1) =~= path@.skip(i + 1));
                assert(rest.skip(1) =~= path@.skip(start + 1));
            }
            if part.len() > 0 {
                let ghost before = views(parts@);
                let ghost done = part@;
                parts.push(part);
                part = Vec::new();
                proof {
                    assert(views(parts@) =~= before + seq![done]);
                }
            }
            start = i + 1;
            proof {
                assert(path@.subrange(start as int, i + 1) =~= Seq::<char>::empty());
            }
        } else {
            part.push(c);
            proof {
                assert(part@ =~= path@.subrange(start as int, i + 1));
            }
        }
        i += 1;
    }
    if start < path.len() {
        proof {
            let rest = path@.skip(start as int);
            assert forall|j: int| 0 <= j < rest.len() implies !is_separator(rest[j]) by {
                assert(rest[j] == path@[start + j]);
            }
            lemma_first_component_len(rest, rest.len() as int);
            assert(part@ =~= rest);
        }
        let ghost before = views(parts@);
        let ghost done = part@;
        parts.push(part);
        proof {
            assert(views(parts@) =~= before + seq![done]);
        }
    } else {
        proof {
            assert(path@.skip(start as int) =~= Seq::<char>::empty());
            assert(views(parts@) + Seq::<Seq<char>>::empty() =~= views(parts@));
        }
    }
    parts
}

/// The name that `path` ends in, if it ends in one.
pub fn file_name_of(path: &str) -> (name: Option<String>)
    ensures
        name is Some <==> file_name(path@) is Some,
        name matches Some(text) ==> Some(text@) == file_name(path@),
{
    let chars = to_chars(path);
    let parts = split_components(&chars);
    if parts.len() == 0 {
        return None;
    }
    let last = &parts[parts.len() - 1];
    assert(last@ == components(path@).last()) by {
        assert(views(parts@)[parts.len() - 1] == last@);
    }
    let dot = to_chars(".");
    let dots = to_chars("..");
    if same_chars(last, &dot) || same_chars(last, &dots) {
        return None;
    }
    Some(from_chars(last))
}

/// Whether `path` lies directly in the directory `dir`.
pub fn is_child_path(path: &str, dir: &str) -> (child: bool)
    ensures
        child == is_child_of(path@, dir@),
{
    let path_chars = to_chars(path);
    let dir_chars = to_chars(dir);
    let path_rooted = path_chars.len() > 0 && (path_chars[0] == '/' || path_chars[0] == '\\');
    let dir_rooted = dir_chars.len() > 0 && (dir_chars[0] == '/' || dir_chars[0] == '\\');
    if path_rooted != dir_rooted {
        return false;
    }
    let path_parts = split_components(&path_chars);
    let dir_parts = split_components(&dir_chars);
    if path_parts.len() == 0 || path_parts.len() - 1 != dir_parts.len() {
        assert(components(path@).drop_last().len() != components(dir@).len()
            || components(path@).len() == 0);
        return false;
    }
    let mut i: usize = 0;
    while i < dir_parts.len()
        invariant
            i <= dir_parts.len(),
            path_parts.len() == dir_parts.len() + 1,
            views(path_parts@) == components(path@),
            views(dir_parts@) == components(dir@),
            forall|j: int| 0 <= j < i ==> components(path@)[j] == components(dir@)[j],
        decreases dir_parts.len() - i,
    {
        proof {
            assert(views(path_parts@)[i as int] == path_parts@[i as int]@);
            assert(views(dir_parts@)[i as int] == dir_parts@[i as int]@);
        }
        if !same_chars(&path_parts[i], &dir_parts[i]) {
            assert(components(path@).drop_last()[i as int] != components(dir@)[i as int]);
            return false;
        }
        i += 1;
    }
    assert(components(path@).drop_last() =~= components(dir@));
    true
}

/// `base` with `rest` below it.
pub fn join_path(base: &str, rest: &str) -> (joined: String)
    ensures
        joined@ == join(base@, rest@),
{
    let mut out = to_chars(base);
    let n = out.len();
    if n > 0 && out[n - 1] != '/' && out[n - 1] != '\\' {
        out.push('\\');
    }
    push_str(&mut out, rest);
    from_chars(&out)
}

/// The directory of the bundled tools below the directory of the program.
pub fn get_tools_path(current_exe_dir: &str) -> (path: String)
    ensures
        path@ == join(current_exe_dir@, "tools"@),
{
    join_path(current_exe_dir, "tools")
}

/// The directory of the bundled proxy below the directory of the program.
pub fn get_nginx_path(current_exe_dir: &str) -> (path: String)
    ensures
        path@ == join(current_exe_dir@, "tools/nginx-1.23.3"@),
{
    join_path(current_exe_dir, "tools/nginx-1.23.3")
}

/// The directory of the bundled database below the directory of the program.
pub fn get_mysql_path(current_exe_dir: &str) -> (path: String)
    ensures
        path@ == join(current_exe_dir@, "tools/mysql-8.4.5-winx64"@),
{
    join_path(current_exe_dir, "tools/mysql-8.4.5-winx64")
}

/// The directory of the bundled PHP below the directory of the program.
pub fn get_php_path(current_exe_dir: &str) -> (path: String)
    ensures
        path@ == join(current_exe_dir@, "tools/php-8.4.8-nts-Win32-vs17-x64"@),
{
    join_path(current_exe_dir, "tools/php-8.4.8-nts-Win32-vs17-x64")
}

/// The form in which a path is stored in the registry.
///
/// `canonical` is what the file system gave as the canonical form of
/// `path_str`, if it gave one. The mark of an extended-length path at its
/// start is dropped. Without a canonical form the path stays as given.
pub fn normalize_path_string(path_str: &str, canonical: Option<&str>) -> (stored: String)
    ensures
        stored@ == normalized(
            path_str@,
            match canonical {
                Some(found) => Some(found@),
                None => None,
            },
        ),
{
    match canonical {
        Some(found) => {
            let chars = to_chars(found);
            let mut mark: Vec<char> = Vec::new();
            mark.push('\\');
            mark.push('\\');
            mark.push('?');
            mark.push('\\');
            assert(mark@ =~= long_path_mark());
            if starts_with_chars(&chars, &mark) {
                let mut out: Vec<char> = Vec::new();
                let mut i: usize = 4;
                while i < chars.len()
                    invariant
                        4 <= i <= chars.len(),
                        out@ == chars@.subrange(4, i as int),
                    decreases chars.len() - i,
                {
                    out.push(chars[i]);
                    proof {
                        assert(out@ =~= chars@.subrange(4, i + 1));
                    }
                    i += 1;
                }
                assert(out@ =~= chars@.skip(4));
                from_chars(&out)
            } else {
                from_chars(&chars)
            }
        },
        None => {
            let chars = to_chars(path_str);
            from_chars(&chars)
        },
    }
}

/// `name` is one component of a path: it is not empty and holds no
/// separator.
pub open spec fn is_plain_name(name: Seq<char>) -> bool {
    &&& name.len() > 0
    &&& forall|i: int| 0 <= i < name.len() ==> !is_separator(name[i])
}

/// What `first_component_len` returns lies within the path, no separator
/// stands before it, and one stands at it unless the path ends there.
pub proof fn lemma_first_component_len_bounds(path: Seq<char>)
    ensures
        first_component_len(path) <= path.len(),
        forall|j: int| 0 <= j < first_component_len(path) ==> !is_separator(path[j]),
        first_component_len(path) < path.len() ==> is_separator(
            path[first_component_len(path) as int],
        ),
    decreases path.len(),
{
    if path.len() == 0 || is_separator(path[0]) {
    } else {
        let rest = path.skip(1);
        lemma_first_component_len_bounds(rest);
        assert forall|j: int| 0 <= j < first_component_len(path) implies !is_separator(
            path[j],
        ) by {
            if j > 0 {
                assert(rest[j - 1] == path[j]);
            }
        }
        if first_component_len(path) < path.len() {
            assert(rest[first_component_len(rest) as int] == path[first_component_len(
                path,
            ) as int]);
        }
    }
}

/// The components of a path that is empty or ends in a separator, followed
/// by another path, are the components of the one and then those of the
/// other.
pub proof fn lemma_components_concat(head: Seq<char>, tail: Seq<char>)
    requires
        head.len() == 0 || is_separator(head.last()),
    ensures
        components(head + tail) == components(head) + components(tail),
    decreases head.len(),
{
    if head.len() == 0 {
        assert(head + tail =~= tail);
        assert(components(head) + components(tail) =~= components(tail));
    } else {
        lemma_first_component_len_bounds(head);
        let n = first_component_len(head) as int;
        if n >= head.len() {
            assert(!is_separator(head[head.len() - 1]));
        }
        let whole = head + tail;
        assert forall|j: int| 0 <= j < n implies !is_separator(whole[j]) by {
            assert(whole[j] == head[j]);
        }
        assert(whole[n] == head[n]);
        lemma_first_component_len(whole, n);
        if n == 0 {
            let rest = head.skip(1);
            assert(whole.skip(1) =~= rest + tail);
            if rest.len() > 0 {
                assert(rest.last() == head.last());
            }
            lemma_components_concat(rest, tail);
        } else {
            let rest = head.skip(n + 1);
            assert(whole.take(n) =~= head.take(n));
            assert(whole.skip(n + 1) =~= rest + tail);
            if rest.len() > 0 {
                assert(rest.last() == head.last());
            }
            lemma_components_concat(rest, tail);
            assert(components(whole) =~= components(head) + components(tail));
        }
    }
}

/// A separator at the end of a path adds no component.
pub proof fn lemma_components_trailing_separator(path: Seq<char>, separator: char)
    requires
        is_separator(separator),
    ensures
        components(path.push(separator)) == components(path),
    decreases path.len(),
{
    let whole = path.push(separator);
    if path.len() == 0 {
        assert(whole.skip(1) =~= Seq::<char>::empty());
        assert(components(whole.skip(1)) =~= Seq::<Seq<char>>::empty());
    } else {
        lemma_first_component_len_bounds(path);
        let n = first_component_len(path) as int;
        assert forall|j: int| 0 <= j < n implies !is_separator(whole[j]) by {
            assert(whole[j] == path[j]);
        }
        if n < path.len() {
            assert(whole[n] == path[n]);
        } else {
            assert(whole[n] == separator);
        }
        lemma_first_component_len(whole, n);
        if n == 0 {
            assert(whole.skip(1) =~= path.skip(1).push(separator));
            lemma_components_trailing_separator(path.skip(1), separator);
        } else if n >= path.len() {
            assert(whole.take(n) =~= path);
            assert(whole.skip(n + 1) =~= Seq::<char>::empty());
            assert(components(whole.skip(n + 1)) =~= Seq::<Seq<char>>::empty());
            assert(components(whole) =~= seq![path]);
        } else {
            assert(whole.take(n) =~= path.take(n));
            assert(whole.skip(n + 1) =~= path.skip(n + 1).push(separator));
            lemma_components_trailing_separator(path.skip(n + 1), separator);
        }
    }
}

/// A path made of a directory and a plain name below it has the components
/// of the directory and then the name: it lies directly in the directory,
/// and it ends in the name unless the name is `.` or `..`.
pub proof fn law_joined_path_lies_in_its_directory(dir: Seq<char>, name: Seq<char>)
    requires
        is_plain_name(name),
    ensures
        components(join(dir, name)) == components(dir).push(name),
        is_child_of(join(dir, name), dir),
        name != "."@ && name != ".."@ ==> file_name(join(dir, name)) == Some(name),
{
    lemma_first_component_len(name, name.len() as int);
    assert(components(name) =~= seq![name]);
    let joined = join(dir, name);
    if dir.len() == 0 {
        assert(joined =~= name);
        assert(components(dir).push(name) =~= seq![name]);
    } else if is_separator(dir.last()) {
        lemma_components_concat(dir, name);
        assert(components(dir) + seq![name] =~= components(dir).push(name));
        assert(joined[0] == dir[0]);
    } else {
        let head = dir.push('\\');
        assert(joined =~= head + name);
        lemma_components_concat(head, name);
        lemma_components_trailing_separator(dir, '\\');
        assert(components(dir) + seq![name] =~= components(dir).push(name));
        assert(joined[0] == dir[0]);
    }
    assert(components(joined).drop_last() =~= components(dir));
}

} // verus!
