//! The file name and the extension of a path, read as `std::path::Path`
//! reads a Unix path: `/` separates components, empty and `.` components
//! are skipped.

use vstd::prelude::*;
use crate::text::{chars_of, substring, last_index_of, lemma_last_index_of, lemma_last_index_of_is};

verus! {

/// `Path::file_name`: the last component of `p`, unless there is none or
/// it is `..`.
pub open spec fn file_name_of(p: Seq<char>) -> Option<Seq<char>>
    decreases p.len(),
{
    if p.len() == 0 {
        None
    } else if p.last() == '/' {
        file_name_of(p.drop_last())
    } else {
        let k = last_index_of(p, '/');
        proof {
            lemma_last_index_of(p, '/');
        }
        let seg = p.skip(k + 1);
        if seg == seq!['.'] {
            file_name_of(p.take(k + 1))
        } else if seg == seq!['.', '.'] {
            None
        } else {
            Some(seg)
        }
    }
}

/// `Path::extension` of a file name: what follows its last `.`, unless the
/// name has no `.` other than one that starts it, or is `..`.
pub open spec fn extension_of(name: Seq<char>) -> Option<Seq<char>> {
    let k = last_index_of(name, '.');
    if name == seq!['.', '.'] || k <= 0 {
        None
    } else {
        Some(name.skip(k + 1))
    }
}

/// The extension of the path `p`, if it has a file name with one.
pub open spec fn path_extension(p: Seq<char>) -> Option<Seq<char>> {
    match file_name_of(p) {
        Some(name) => extension_of(name),
        None => None,
    }
}

/// The extension is what follows the last `.` of the name: it holds no `.`,
/// and a `.` that is not the name's first character stands just before it.
/// A name has none exactly when it is `..` or has no `.` after its first
/// character.
pub proof fn law_extension_after_last_dot(name: Seq<char>)
    ensures
        extension_of(name) matches Some(e) ==> {
            &&& e.len() + 2 <= name.len()
            &&& name[name.len() - e.len() - 1] == '.'
            &&& name.skip(name.len() - e.len()) == e
            &&& !e.contains('.')
        },
        extension_of(name) is None <==> (name == seq!['.', '.'] || forall|i: int|
            0 < i < name.len() ==> name[i] != '.'),
{
    lemma_last_index_of(name, '.');
    let k = last_index_of(name, '.');
    if let Some(e) = extension_of(name) {
        assert(e.len() == name.len() - k - 1);
        assert forall|i: int| 0 <= i < e.len() implies e[i] != '.' by {
            assert(e[i] == name[k + 1 + i]);
        }
    }
    if name != seq!['.', '.'] && k > 0 {
        assert(!(forall|i: int| 0 < i < name.len() ==> name[i] != '.'));
    }
}

/// The file name is the last component of the path: it is not empty, holds
/// no `/`, is neither `.` nor `..`, starts the path or follows a `/`, and
/// only `/` and `.` come after it.
pub proof fn law_file_name_is_last_component(p: Seq<char>)
    ensures
        file_name_of(p) matches Some(n) ==> {
            &&& n.len() > 0
            &&& !n.contains('/')
            &&& n != seq!['.']
            &&& n != seq!['.', '.']
            &&& exists|k: int|
                0 <= k && k + n.len() <= p.len() && #[trigger] p.subrange(k, k + n.len()) == n && (k == 0
                    || p[k - 1] == '/') && forall|j: int|
                    k + n.len() <= j < p.len() ==> (p[j] == '/' || p[j] == '.')
        },
    decreases p.len(),
{
    if p.len() == 0 {
    } else if p.last() == '/' {
        let q = p.drop_last();
        law_file_name_is_last_component(q);
        if let Some(n) = file_name_of(p) {
            let k = choose|k: int|
                0 <= k && k + n.len() <= q.len() && #[trigger] q.subrange(k, k + n.len()) == n && (k == 0
                    || q[k - 1] == '/') && forall|j: int|
                    k + n.len() <= j < q.len() ==> (q[j] == '/' || q[j] == '.');
            assert(p.subrange(k, k + n.len()) =~= q.subrange(k, k + n.len()));
            assert forall|j: int| k + n.len() <= j < p.len() implies (p[j] == '/' || p[j] == '.') by {
                if j < q.len() {
                    assert(p[j] == q[j]);
                }
            }
        }
    } else {
        lemma_last_index_of(p, '/');
        let k = last_index_of(p, '/');
        let seg = p.skip(k + 1);
        if seg == seq!['.'] {
            let q = p.take(k + 1);
            law_file_name_is_last_component(q);
            if let Some(n) = file_name_of(p) {
                let m = choose|m: int|
                    0 <= m && m + n.len() <= q.len() && #[trigger] q.subrange(m, m + n.len()) == n && (m == 0
                        || q[m - 1] == '/') && forall|j: int|
                        m + n.len() <= j < q.len() ==> (q[j] == '/' || q[j] == '.');
                assert(p.subrange(m, m + n.len()) =~= q.subrange(m, m + n.len()));
                assert forall|j: int| m + n.len() <= j < p.len() implies (p[j] == '/' || p[j] == '.') by {
                    if j < q.len() {
                        assert(p[j] == q[j]);
                    } else {
                        assert(seg.len() == 1 && seg[0] == '.');
                        assert(j == k + 1);
                        assert(p[j] == seg[0]);
                    }
                }
            }
        } else if seg != seq!['.', '.'] {
            assert(seg.len() > 0);
            assert forall|i: int| 0 <= i < seg.len() implies seg[i] != '/' by {
                assert(seg[i] == p[k + 1 + i]);
            }
            assert(p.subrange(k + 1, k + 1 + seg.len()) =~= seg);
        }
    }
}

/// One past the position of the last `c` among the first `end` characters
/// of `cs`, or 0 when there is none.
fn after_last(cs: &Vec<char>, end: usize, c: char) -> (i: usize)
    requires
        end <= cs@.len(),
    ensures
        i <= end,
        i - 1 == last_index_of(cs@.take(end as int), c),
{
    let mut i: usize = end;
    while i > 0 && cs[i - 1] != c
        invariant
            i <= end <= cs@.len(),
            forall|j: int| i <= j < end ==> cs@[j] != c,
        decreases i,
    {
        i = i - 1;
    }
    proof {
        lemma_last_index_of_is(cs@.take(end as int), c, i - 1);
    }
    i
}

/// The last component of `path`, as `Path::file_name` gives it.
pub fn file_name(path: &str) -> (r: Option<String>)
    ensures
        r matches Some(n) ==> file_name_of(path@) == Some(n@),
        r is None ==> file_name_of(path@) is None,
{
    let cs = chars_of(path);
    let mut end: usize = cs.len();
    assert(path@.take(end as int) =~= path@);
    loop
        invariant
            cs@ == path@,
            end <= cs@.len(),
            file_name_of(path@) == file_name_of(path@.take(end as int)),
        decreases end,
    {
        let ghost p = path@.take(end as int);
        if end == 0 {
            return None;
        }
        if cs[end - 1] == '/' {
            assert(p.drop_last() =~= path@.take(end - 1));
            end = end - 1;
        } else {
            let start = after_last(&cs, end, '/');
            proof {
                lemma_last_index_of(p, '/');
            }
            let len: usize = end - start;
            let ghost seg = p.skip(start as int);
            assert(seg =~= path@.subrange(start as int, end as int));
            if len == 1 && cs[start] == '.' {
                assert(seg =~= seq!['.']);
                assert(p.take(start as int) =~= path@.take(start as int));
                end = start;
            } else if len == 2 && cs[start] == '.' && cs[start + 1] == '.' {
                assert(seg =~= seq!['.', '.']);
                return None;
            } else {
                assert(seg != seq!['.']) by {
                    if len == 1 {
                        assert(seg[0] != '.');
                    }
                }
                assert(seg != seq!['.', '.']) by {
                    if len == 2 {
                        assert(seg[0] != '.' || seg[1] != '.');
                    }
                }
                return Some(substring(path, start, end));
            }
        }
    }
}

/// The extension of the file name `name`, as `Path::extension` gives it.
pub fn extension(name: &str) -> (r: Option<String>)
    ensures
        r matches Some(e) ==> extension_of(name@) == Some(e@),
        r is None ==> extension_of(name@) is None,
{
    let cs = chars_of(name);
    let n = cs.len();
    if n == 2 && cs[0] == '.' && cs[1] == '.' {
        assert(name@ =~= seq!['.', '.']);
        return None;
    }
    assert(name@ != seq!['.', '.']) by {
        if n == 2 {
            assert(name@[0] != '.' || name@[1] != '.');
        }
    }
    let i = after_last(&cs, n, '.');
    assert(cs@.take(n as int) =~= name@);
    if i <= 1 {
        None
    } else {
        let e = substring(name, i, n);
        assert(e@ =~= name@.skip(i as int));
        Some(e)
    }
}

} // verus!
