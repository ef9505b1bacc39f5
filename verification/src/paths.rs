//! Relative paths as text, with `/` between their parts: joining, file
//! names, and the order in which a map keyed by paths walks them.

use vstd::prelude::*;
use vstd::string::*;
use crate::text::{chars_of, string_of_range};

verus! {

/// A path followed by one more part, with one `/` between them.
pub open spec fn joined_path(base: Seq<char>, part: Seq<char>) -> Seq<char> {
    if base.len() == 0 {
        part
    } else if base.last() == '/' {
        base + part
    } else {
        base + "/"@ + part
    }
}

/// A path followed by one more part.
pub fn join_path(base: &str, part: &str) -> (path: String)
    ensures
        path@ == joined_path(base@, part@),
{
    let chars = chars_of(base);
    if chars.len() == 0 {
        return part.to_string();
    }
    let mut path = base.to_string();
    if chars[chars.len() - 1] != '/' {
        path.append("/");
    }
    path.append(part);
    path
}

/// The position after the last `/` of a path, or 0 where it has none.
pub open spec fn name_start(path: Seq<char>) -> int
    decreases path.len(),
{
    if path.len() == 0 {
        0
    } else if path.last() == '/' {
        path.len() as int
    } else {
        name_start(path.drop_last())
    }
}

/// The file name of a relative path with `/` between its parts: what
/// follows the last `/`, or the whole path where it has none.
pub open spec fn base_name(path: Seq<char>) -> Seq<char> {
    path.skip(name_start(path))
}

/// The file name of a relative path.
pub fn file_name_of(path: &str) -> (name: String)
    ensures
        name@ == base_name(path@),
{
    let chars = chars_of(path);
    let mut start: usize = chars.len();
    proof {
        assert(chars@.take(chars.len() as int) =~= chars@);
    }
    while start > 0 && chars[start - 1] != '/'
        invariant
            start <= chars.len(),
            name_start(chars@) == name_start(chars@.take(start as int)),
        decreases start,
    {
        proof {
            assert(chars@.take(start as int).drop_last() =~= chars@.take(start - 1));
        }
        start = start - 1;
    }
    proof {
        if start > 0 {
            assert(chars@.take(start as int).last() == '/');
        }
        assert(chars@.subrange(start as int, chars.len() as int) =~= chars@.skip(start as int));
    }
    string_of_range(&chars, start, chars.len())
}

/// Whether one character comes before another in the order of paths: `/`
/// comes before every other character, so that paths are ordered part by
/// part; other characters are ordered by their code points.
pub open spec fn char_before(x: char, y: char) -> bool {
    x != y && (x == '/' || (y != '/' && (x as int) < (y as int)))
}

/// Whether path `a` comes before path `b`: at the first place where they
/// differ `a` has the character that comes first, or `a` ends there and
/// `b` does not.
pub open spec fn path_before(a: Seq<char>, b: Seq<char>) -> bool
    decreases a.len(),
{
    if b.len() == 0 {
        false
    } else if a.len() == 0 {
        true
    } else if a[0] != b[0] {
        char_before(a[0], b[0])
    } else {
        path_before(a.skip(1), b.skip(1))
    }
}

/// No path comes before itself.
pub proof fn lemma_not_before_itself(a: Seq<char>)
    ensures
        !path_before(a, a),
    decreases a.len(),
{
    if a.len() > 0 {
        lemma_not_before_itself(a.skip(1));
    }
}

/// Of two different paths one comes before the other.
pub proof fn lemma_one_comes_first(a: Seq<char>, b: Seq<char>)
    ensures
        a == b || path_before(a, b) || path_before(b, a),
    decreases a.len(),
{
    if a.len() == 0 || b.len() == 0 {
        if a.len() == 0 && b.len() == 0 {
            assert(a =~= b);
        }
    } else if a[0] == b[0] {
        lemma_one_comes_first(a.skip(1), b.skip(1));
        if a.skip(1) == b.skip(1) {
            assert(a =~= seq![a[0]] + a.skip(1));
            assert(b =~= seq![b[0]] + b.skip(1));
        }
    }
}

/// Where `a` comes before `b` and `b` before `c`, `a` comes before `c`.
pub proof fn lemma_before_is_transitive(a: Seq<char>, b: Seq<char>, c: Seq<char>)
    requires
        path_before(a, b),
        path_before(b, c),
    ensures
        path_before(a, c),
    decreases a.len(),
{
    if a.len() > 0 && a[0] == b[0] && b[0] == c[0] {
        lemma_before_is_transitive(a.skip(1), b.skip(1), c.skip(1));
    }
}

/// Whether one character comes before another in the order of paths.
fn comes_first(x: char, y: char) -> (before: bool)
    ensures
        before == char_before(x, y),
{
    if x == '/' {
        y != '/'
    } else if y == '/' {
        false
    } else {
        x < y
    }
}

/// Whether path `a` comes before path `b`.
pub fn comes_before(a: &Vec<char>, b: &Vec<char>) -> (before: bool)
    ensures
        before == path_before(a@, b@),
{
    let mut i: usize = 0;
    proof {
        assert(a@.skip(0) =~= a@);
        assert(b@.skip(0) =~= b@);
    }
    while i < a.len() && i < b.len()
        invariant
            i <= a.len(),
            i <= b.len(),
            path_before(a@, b@) == path_before(a@.skip(i as int), b@.skip(i as int)),
        decreases a.len() - i,
    {
        let x = a[i];
        let y = b[i];
        proof {
            assert(a@.skip(i as int)[0] == x);
            assert(b@.skip(i as int)[0] == y);
            assert(a@.skip(i as int).skip(1) =~= a@.skip(i + 1));
            assert(b@.skip(i as int).skip(1) =~= b@.skip(i + 1));
        }
        if x != y {
            proof {
                assert(path_before(a@.skip(i as int), b@.skip(i as int)) == char_before(x, y));
            }
            return comes_first(x, y);
        }
        proof {
            assert(path_before(a@.skip(i as int), b@.skip(i as int)) == path_before(
                a@.skip(i + 1),
                b@.skip(i + 1),
            ));
        }
        i = i + 1;
    }
    proof {
        if i < b.len() {
            assert(a@.skip(i as int).len() == 0);
            assert(b@.skip(i as int).len() > 0);
        } else {
            assert(b@.skip(i as int).len() == 0);
        }
    }
    i < b.len()
}

} // verus!
