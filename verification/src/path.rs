//! File paths, as texts whose parts are separated by `/`.

use crate::text::{chars_of, slice_of, spells, text_of};
use vstd::prelude::*;
use vstd::string::StringExecFns;

verus! {

/// The path `child` as seen from directory `parent`: an absolute path stays what
/// it is.
pub open spec fn joined(parent: Seq<char>, child: Seq<char>) -> Seq<char> {
    if child.len() > 0 && child[0] == '/' {
        child
    } else if parent.len() == 0 || parent.last() == '/' {
        parent + child
    } else {
        parent + seq!['/'] + child
    }
}

/// The path of `child` as seen from directory `parent`.
pub fn join_path(parent: &str, child: &str) -> (r: String)
    ensures
        r@ == joined(parent@, child@),
{
    let p = chars_of(parent);
    let c = chars_of(child);
    if c.len() > 0 && c[0] == '/' {
        return child.to_owned();
    }
    let mut out = parent.to_owned();
    if p.len() > 0 && p[p.len() - 1] != '/' {
        out.push('/');
        assert(out@ =~= parent@ + seq!['/']);
    }
    out.append(child);
    out
}

/// The last `/` among the first `n` characters, or -1.
pub open spec fn last_slash(path: Seq<char>, n: int) -> int
    decreases n,
{
    if n <= 0 {
        -1
    } else if path[n - 1] == '/' {
        n - 1
    } else {
        last_slash(path, n - 1)
    }
}

/// The directory that holds a file: what stands before its last `/`. The file is
/// one of the root directory where that is nothing, and of no named directory
/// where it has no `/`.
pub open spec fn folder_of(path: Seq<char>) -> Seq<char> {
    let slash = last_slash(path, path.len() as int);
    if slash < 0 {
        Seq::empty()
    } else if slash == 0 {
        seq!['/']
    } else {
        path.take(slash)
    }
}

/// The directory that holds a file.
pub fn parent_path(path: &str) -> (r: String)
    ensures
        r@ == folder_of(path@),
{
    let chars = chars_of(path);
    let mut n: usize = chars.len();
    while n > 0
        invariant
            n <= chars.len(),
            chars@ == path@,
            last_slash(path@, path@.len() as int) == last_slash(path@, n as int),
        decreases n,
    {
        if chars[n - 1] == '/' {
            let end: usize = if n == 1 {
                1
            } else {
                n - 1
            };
            let folder = text_of(&chars, 0, end);
            assert(folder@ =~= folder_of(path@));
            return folder;
        }
        n = n - 1;
    }
    String::new()
}

/// Where a path ends without the `/` and the `.` names at its end.
pub open spec fn name_end(path: Seq<char>, n: int) -> int
    decreases n,
{
    if n <= 0 {
        0
    } else if path[n - 1] == '/' || (n >= 2 && path[n - 1] == '.' && path[n - 2] == '/') {
        name_end(path, n - 1)
    } else {
        n
    }
}

/// Where the last name of a path begins.
pub open spec fn name_start(path: Seq<char>) -> int {
    last_slash(path, name_end(path, path.len() as int)) + 1
}

/// The last name of a path. A path that names nothing, or goes up at its end, has none.
pub open spec fn file_name(path: Seq<char>) -> Option<Seq<char>> {
    let end = name_end(path, path.len() as int);
    let name = path.subrange(name_start(path), end);
    if end == 0 || name == "."@ || name == ".."@ {
        None
    } else {
        Some(name)
    }
}

/// The path with `name` in place of its last name. Where it has none, `name` comes behind it.
pub open spec fn renamed(path: Seq<char>, name: Seq<char>) -> Seq<char> {
    if file_name(path) is None {
        joined(path, name)
    } else {
        let end = name_end(path, name_start(path));
        joined(
            if end > 0 {
                path.take(end)
            } else if path[0] == '/' {
                seq!['/']
            } else {
                Seq::empty()
            },
            name,
        )
    }
}

fn end_of_name(chars: &Vec<char>, n: usize) -> (r: usize)
    requires
        n <= chars.len(),
    ensures
        r == name_end(chars@, n as int),
        r <= n,
{
    let mut end: usize = n;
    while end > 0 && (chars[end - 1] == '/' || (end >= 2 && chars[end - 1] == '.' && chars[end - 2]
        == '/'))
        invariant
            end <= n <= chars.len(),
            name_end(chars@, n as int) == name_end(chars@, end as int),
        decreases end,
    {
        end = end - 1;
    }
    end
}

/// The path of a file whose name is that of another with `ending` behind it, in the same
/// directory. Where the path has no last name, `ending` is the whole name of the file.
pub fn with_ending(path: &str, ending: &str) -> (r: String)
    ensures
        r@ == renamed(
            path@,
            match file_name(path@) {
                Some(name) => name + ending@,
                None => ending@,
            },
        ),
{
    let chars = chars_of(path);
    let end = end_of_name(&chars, chars.len());
    let mut start: usize = end;
    while start > 0 && chars[start - 1] != '/'
        invariant
            start <= end <= chars.len(),
            last_slash(chars@, end as int) == last_slash(chars@, start as int),
        decreases start,
    {
        start = start - 1;
    }
    let ghost name = path@.subrange(start as int, end as int);
    assert(start == name_start(path@));
    let part = slice_of(&chars, start, end);
    assert(part@ =~= name);
    if end == 0 || spells(&part, ".") || spells(&part, "..") {
        return join_path(path, ending);
    }
    let folder_end = end_of_name(&chars, start);
    let folder = if folder_end > 0 {
        text_of(&chars, 0, folder_end)
    } else if chars[0] == '/' {
        text_of(&chars, 0, 1)
    } else {
        String::new()
    };
    assert(folder@ =~= (if folder_end > 0 {
        path@.take(folder_end as int)
    } else if path@[0] == '/' {
        seq!['/']
    } else {
        Seq::empty()
    }));
    let mut file = text_of(&chars, start, end);
    file.append(ending);
    assert(file@ =~= name + ending@);
    join_path(&folder, &file)
}

/// A file that is joined to a directory lies in that directory.
pub proof fn joined_file_lies_in_folder(folder: Seq<char>, name: Seq<char>)
    requires
        folder.len() > 0,
        folder.last() != '/',
        !name.contains('/'),
    ensures
        folder_of(joined(folder, name)) == folder,
{
    let path = joined(folder, name);
    assert(path == folder + seq!['/'] + name);
    slash_before_name(path, folder.len() as int, path.len() as int);
    assert forall|i: int| folder.len() < i < path.len() implies path[i] != '/' by {
        assert(path[i] == name[i - folder.len() - 1]);
    }
    slash_before_name(path, folder.len() as int, path.len() as int);
    assert(path.take(folder.len() as int) =~= folder);
}

proof fn slash_before_name(path: Seq<char>, slash: int, n: int)
    requires
        0 <= slash < n <= path.len(),
        path[slash] == '/',
    ensures
        (forall|i: int| slash < i < n ==> path[i] != '/') ==> last_slash(path, n) == slash,
    decreases n,
{
    if slash < n - 1 {
        slash_before_name(path, slash, n - 1);
    }
}


/// An absolute path is the same from every directory. Any other path comes behind the
/// directory, with one `/` between them.
pub proof fn paths_are_joined(parent: Seq<char>, child: Seq<char>)
    ensures
        child.len() > 0 && child[0] == '/' ==> joined(parent, child) == child,
        !(child.len() > 0 && child[0] == '/') ==> {
            let r = joined(parent, child);
            &&& r.take(parent.len() as int) == parent
            &&& r.skip(r.len() - child.len()) == child
            &&& parent.len() == 0 || parent.last() == '/' ==> r.len() == parent.len() + child.len()
            &&& parent.len() > 0 && parent.last() != '/' ==> r.len() == parent.len() + 1
                + child.len() && r[parent.len() as int] == '/'
        },
{
    if !(child.len() > 0 && child[0] == '/') {
        let r = joined(parent, child);
        assert(r.take(parent.len() as int) =~= parent);
        assert(r.skip(r.len() - child.len()) =~= child);
    }
}

/// A path without a `/` lies in no named directory, and one whose only `/` is its first
/// character in the root directory.
pub proof fn plain_names_have_no_folder(name: Seq<char>)
    requires
        !name.contains('/'),
    ensures
        folder_of(name) == Seq::<char>::empty(),
        folder_of(seq!['/'] + name) == seq!['/'],
{
    no_slash_is_found(name, name.len() as int);
    let path = seq!['/'] + name;
    assert forall|i: int| 0 < i < path.len() implies path[i] != '/' by {
        assert(path[i] == name[i - 1]);
    }
    slash_before_name(path, 0, path.len() as int);
}

proof fn no_slash_is_found(path: Seq<char>, n: int)
    requires
        n <= path.len(),
        !path.contains('/'),
    ensures
        last_slash(path, n) == -1,
    decreases n,
{
    if n > 0 {
        assert(path.contains(path[n - 1]));
        no_slash_is_found(path, n - 1);
    }
}

/// A file is renamed inside its directory: what stands before its name stays, and its name
/// is replaced.
pub proof fn files_are_renamed_in_place(folder: Seq<char>, name: Seq<char>, new: Seq<char>)
    requires
        folder.len() > 0,
        folder.last() != '/',
        folder.last() != '.',
        name.len() > 0,
        name.last() != '.',
        !name.contains('/'),
        new.len() == 0 || new[0] != '/',
    ensures
        file_name(folder + seq!['/'] + name) == Some(name),
        renamed(folder + seq!['/'] + name, new) == folder + seq!['/'] + new,
{
    let path = folder + seq!['/'] + name;
    let at = folder.len() as int;
    assert(name.contains(name.last()));
    assert(path.last() == name.last());
    assert(name_end(path, path.len() as int) == path.len());
    assert forall|i: int| at < i < path.len() implies path[i] != '/' by {
        assert(path[i] == name[i - at - 1]);
        assert(name.contains(path[i]));
    }
    slash_before_name(path, at, path.len() as int);
    assert(name_start(path) == at + 1);
    assert(path.subrange(at + 1, path.len() as int) =~= name);
    reveal_strlit(".");
    reveal_strlit("..");
    assert("."@.last() == '.');
    assert(".."@.last() == '.');
    assert(name_end(path, at + 1) == at) by {
        assert(path[at] == '/');
        assert(path[at - 1] == folder.last());
        assert(name_end(path, at) == at);
    }
    assert(path.take(at) =~= folder);
}

} // verus!
