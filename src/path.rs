use vstd::prelude::*;

verus! {

/// `name` inside the directory `dir`; `name` alone when `dir` is empty.
pub open spec fn joined(dir: Seq<char>, name: Seq<char>) -> Seq<char> {
    if dir.len() == 0 {
        name
    } else if dir.last() == '/' {
        dir + name
    } else {
        dir + seq!['/'] + name
    }
}

/// `name` inside the directory `dir`; `name` alone when `dir` is empty.
pub fn join_path(dir: &String, name: &str) -> (r: String)
    ensures
        r@ == joined(dir@, name@),
{
    let n = dir.unicode_len();
    if n == 0 {
        return String::from_str(name);
    }
    let mut r = dir.clone();
    if dir.get_char(n - 1) != '/' {
        proof {
            reveal_strlit("/");
        }
        r.append("/");
    }
    r.append(name);
    r
}

/// `path` with a leading `~/` replaced by the home directory `home`.
pub open spec fn expanded(path: Seq<char>, home: Seq<char>) -> Seq<char> {
    if path.len() >= 2 && path[0] == '~' && path[1] == '/' {
        joined(home, path.subrange(2, path.len() as int))
    } else {
        path
    }
}

/// Replaces a leading `~/` of `path` by the home directory `home`.
pub fn expand_home(path: String, home: &String) -> (r: String)
    ensures
        r@ == expanded(path@, home@),
{
    let n = path.unicode_len();
    if n >= 2 && path.get_char(0) == '~' && path.get_char(1) == '/' {
        join_path(home, path.substring_char(2, n))
    } else {
        path
    }
}

} // verus!
