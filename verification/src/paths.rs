//! Paths inside one storage location. They are absolute and written with `/`.
use crate::text::chars_of;
use vstd::prelude::*;
use vstd::string::{StrSliceExecFns, StringExecFns};

verus! {

/// The path of the top directory.
pub open spec fn root() -> Seq<char> {
    seq!['/']
}

/// `path` starts at the top directory.
pub open spec fn is_absolute(path: Seq<char>) -> bool {
    path.len() > 0 && path[0] == '/'
}

/// The position of the last `/`, or -1 where there is none.
pub open spec fn last_slash(path: Seq<char>) -> int
    decreases path.len(),
{
    if path.len() == 0 {
        -1
    } else if path.last() == '/' {
        path.len() - 1
    } else {
        last_slash(path.drop_last())
    }
}

/// The path of the entry `name` of the directory `dir`.
pub open spec fn joined(dir: Seq<char>, name: Seq<char>) -> Seq<char> {
    if dir.len() > 0 && dir.last() == '/' {
        dir + name
    } else {
        dir + root() + name
    }
}

/// What stands before the last `/`; the top directory where that would be nothing.
pub open spec fn parent(path: Seq<char>) -> Seq<char> {
    if last_slash(path) <= 0 {
        root()
    } else {
        path.take(last_slash(path))
    }
}

pub(crate) proof fn last_slash_position(path: Seq<char>)
    ensures
        -1 <= last_slash(path) < path.len(),
        last_slash(path) >= 0 ==> path[last_slash(path)] == '/',
        forall|i: int| last_slash(path) < i < path.len() ==> path[i] != '/',
    decreases path.len(),
{
    if path.len() > 0 && path.last() != '/' {
        last_slash_position(path.drop_last());
        assert forall|i: int| last_slash(path) < i < path.len() implies path[i] != '/' by {
            if i < path.len() - 1 {
                assert(path.drop_last()[i] == path[i]);
            }
        }
    }
}

proof fn last_slash_is(path: Seq<char>, at: int)
    requires
        0 <= at < path.len(),
        path[at] == '/',
        forall|i: int| at < i < path.len() ==> path[i] != '/',
    ensures
        last_slash(path) == at,
{
    last_slash_position(path);
}

/// `name` can name an entry of a directory.
pub open spec fn is_plain_name(name: Seq<char>) -> bool {
    name.len() > 0 && !name.contains('/')
}

/// `path` is absolute and has one `/` before every name and none behind the last.
pub open spec fn is_clean(path: Seq<char>) -> bool {
    ||| path == root()
    ||| {
        &&& is_absolute(path)
        &&& path.last() != '/'
        &&& forall|i: int|
            0 <= i < path.len() - 1 && #[trigger] path[i] == '/' ==> path[i + 1] != '/'
    }
}

/// `path` is the top directory or does not end in `/`, so that a `/` set behind it starts a
/// new name.
pub open spec fn has_no_trailing_slash(path: Seq<char>) -> bool {
    path == root() || (path.len() > 0 && path.last() != '/')
}

/// Going into an entry of a directory and back up leads to that directory again.
pub proof fn parent_of_joined(dir: Seq<char>, name: Seq<char>)
    requires
        has_no_trailing_slash(dir),
        !name.contains('/'),
    ensures
        parent(joined(dir, name)) == dir,
{
    let path = joined(dir, name);
    let at: int = if dir == root() {
        0
    } else {
        dir.len() as int
    };
    assert forall|i: int| at < i < path.len() implies path[i] != '/' by {
        assert(path[i] == name[i - at - 1]);
    }
    last_slash_is(path, at);
    if dir != root() {
        assert(path.take(at) == dir);
    }
}

/// Going down and up by plain names keeps paths clean.
pub proof fn clean_paths_stay_clean(path: Seq<char>, name: Seq<char>)
    requires
        is_clean(path),
    ensures
        is_clean(parent(path)),
        is_plain_name(name) ==> is_clean(joined(path, name)),
{
    last_slash_position(path);
    let at = last_slash(path);
    if at > 0 {
        let up = path.take(at);
        assert(up.last() == path[at - 1]);
        assert(path[at] == '/');
        assert forall|i: int| 0 <= i < up.len() - 1 && #[trigger] up[i] == '/' implies up[i + 1]
            != '/' by {
            assert(path[i] == '/');
        }
    }
    if is_plain_name(name) {
        let down = joined(path, name);
        let start: int = down.len() - name.len();
        assert(down.last() == name[name.len() - 1]);
        assert forall|i: int| 0 <= i < down.len() - 1 && #[trigger] down[i] == '/' implies down[i
            + 1] != '/' by {
            if i + 1 >= start {
                assert(down[i + 1] == name[i + 1 - start]);
            } else {
                assert(path[i] == '/');
                if i + 1 < path.len() {
                    assert(down[i + 1] == path[i + 1]);
                }
            }
        }
    }
}

/// Paths stay absolute on the way down and on the way up.
pub proof fn absolute_paths_stay_absolute(path: Seq<char>, name: Seq<char>)
    requires
        is_absolute(path),
    ensures
        is_absolute(joined(path, name)),
        is_absolute(parent(path)),
{
    last_slash_position(path);
}

/// Every step up from below the top shortens the path, and the top is its own parent.
pub proof fn going_up_ends_at_the_root(path: Seq<char>)
    requires
        is_absolute(path),
    ensures
        path == root() ==> parent(path) == root(),
        path != root() ==> parent(path).len() < path.len(),
{
    last_slash_position(path);
    if path.len() == 1 {
        assert(path == root());
    }
}

/// The path of the entry `name` of the directory `dir`.
pub fn join_path(dir: &str, name: &str) -> (path: String)
    ensures
        path@ == joined(dir@, name@),
{
    let chars: Vec<char> = chars_of(dir);
    let mut path: String = dir.to_owned();
    if chars.len() == 0 || chars[chars.len() - 1] != '/' {
        proof {
            reveal_strlit("/");
        }
        path.append("/");
        assert("/"@ == root());
    }
    path.append(name);
    path
}

/// The directory that holds `path`.
pub fn parent_path(path: &str) -> (dir: String)
    ensures
        dir@ == parent(path@),
{
    let chars: Vec<char> = chars_of(path);
    let mut i: usize = chars.len();
    assert(path@.take(i as int) == path@);
    while i > 0 && chars[i - 1] != '/'
        invariant
            chars@ == path@,
            i <= chars.len(),
            last_slash(path@) == last_slash(path@.take(i as int)),
        decreases i,
    {
        assert(path@.take(i as int).drop_last() == path@.take(i - 1));
        i -= 1;
    }
    if i <= 1 {
        proof {
            reveal_strlit("/");
            assert("/"@ == root());
        }
        "/".to_owned()
    } else {
        path.substring_char(0, i - 1).to_owned()
    }
}

} // verus!
