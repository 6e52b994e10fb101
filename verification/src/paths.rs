//! The path model: joining, parent directories, root stripping, the
//! root-relative rewriting the resolver needs, and the sanitizing of
//! archive entry paths at the unpacking boundary.

use vstd::prelude::*;
use vstd::string::StrSliceExecFns;
use vstd::string::StringExecFns;

use crate::errors::Error;
use crate::text::{join_seqs, push_char, split_seq, split_string, str_eq, views};

verus! {

/// Whether a path is absolute.
pub open spec fn is_abs(p: Seq<char>) -> bool {
    p.len() > 0 && p[0] == '/'
}

/// Appends `p` to `base` as a path: an absolute `p` replaces `base`, a
/// relative one is put behind a single separator.
pub open spec fn spec_path_join(base: Seq<char>, p: Seq<char>) -> Seq<char> {
    if is_abs(p) {
        p
    } else if base.len() == 0 {
        p
    } else if base.last() == '/' {
        base + p
    } else {
        base + seq!['/'] + p
    }
}

/// Joins two paths, as [`spec_path_join`] says.
pub fn path_join(base: &str, p: &str) -> (r: String)
    ensures
        r@ == spec_path_join(base@, p@),
{
    let pn: usize = p.unicode_len();
    if pn > 0 && p.get_char(0) == '/' {
        return p.to_owned();
    }
    let bn: usize = base.unicode_len();
    if bn == 0 {
        return p.to_owned();
    }
    let mut r = base.to_owned();
    if base.get_char(bn - 1) != '/' {
        push_char(&mut r, '/');
        proof {
            assert(r@ =~= base@ + seq!['/']);
        }
    }
    r.append(p);
    r
}

/// The directory a path lies in: everything before the last separator;
/// `None` for the empty path and for the root alone.
pub open spec fn spec_parent(p: Seq<char>) -> Option<Seq<char>> {
    if p.len() == 0 || p == seq!['/'] {
        None
    } else {
        match find_last(p, '/') {
            None => Some(Seq::empty()),
            Some(i) => if i == 0 {
                Some(seq!['/'])
            } else {
                Some(p.take(i))
            },
        }
    }
}

/// The index of the last occurrence of `c` in `s`, if any.
pub open spec fn find_last(s: Seq<char>, c: char) -> Option<int>
    decreases s.len(),
{
    if s.len() == 0 {
        None
    } else if s.last() == c {
        Some(s.len() - 1)
    } else {
        find_last(s.drop_last(), c)
    }
}

/// Everything `find_last` passes over is free of `c`.
pub proof fn lemma_find_last(s: Seq<char>, c: char)
    ensures
        match find_last(s, c) {
            Some(i) => 0 <= i < s.len() && s[i] == c && (forall|j: int| i < j < s.len() ==> s[j] != c),
            None => forall|j: int| 0 <= j < s.len() ==> s[j] != c,
        },
    decreases s.len(),
{
    if s.len() > 0 && s.last() != c {
        lemma_find_last(s.drop_last(), c);
        assert(forall|j: int| 0 <= j < s.len() - 1 ==> s.drop_last()[j] == s[j]);
    }
}

/// The parent directory of `p`, as [`spec_parent`] says.
pub fn path_parent(p: &str) -> (r: Option<String>)
    ensures
        match r {
            Some(d) => spec_parent(p@) == Some(d@),
            None => spec_parent(p@) is None,
        },
{
    let n: usize = p.unicode_len();
    if n == 0 {
        return None;
    }
    let mut i: usize = n;
    proof {
        assert(p@.take(n as int) =~= p@);
        reveal_strlit("/");
        assert("/"@ =~= seq!['/']);
    }
    while i > 0
        invariant
            n == p@.len(),
            n > 0,
            i <= n,
            find_last(p@, '/') == find_last(p@.take(i as int), '/'),
        decreases i,
    {
        proof {
            assert(p@.take(i as int).drop_last() =~= p@.take(i - 1 as int));
        }
        if p.get_char(i - 1) == '/' {
            proof {
                assert(p@.take(i as int).last() == p@[i - 1]);
            }
            if i == 1 {
                if n == 1 {
                    proof {
                        assert(p@ =~= seq!['/']);
                    }
                    return None;
                }
                proof {
                    reveal_strlit("/");
                    assert("/"@ =~= seq!['/']);
                    assert(p@ != seq!['/']);
                }
                return Some("/".to_owned());
            }
            let d = p.substring_char(0, i - 1).to_owned();
            proof {
                assert(p@.len() >= 2);
                assert(p@ != seq!['/']);
                assert(d@ =~= p@.take(i - 1));
            }
            return Some(d);
        }
        i -= 1;
    }
    proof {
        assert(p@.take(0) =~= Seq::<char>::empty());
        assert(p@ != seq!['/']) by {
            if p@ == seq!['/'] {
                assert(find_last(p@, '/') == Some(0int));
            }
        }
    }
    Some(String::new())
}

/// Whether `p` lies under the directory `root`: it is the root itself
/// or continues it right after a separator.
pub open spec fn under_root(p: Seq<char>, root: Seq<char>) -> bool {
    p == root || (p.len() > root.len() && p.take(root.len() as int) == root && p[root.len() as int]
        == '/')
}

/// What is left of `p` below `root`: empty for the root itself, else
/// the part behind the separator.
pub open spec fn spec_strip_root(p: Seq<char>, root: Seq<char>) -> Seq<char> {
    if p == root {
        Seq::empty()
    } else {
        p.skip(root.len() as int + 1)
    }
}

/// Strips `root` from the front of `p` when `p` lies under it.
pub fn strip_root(p: &str, root: &str) -> (r: Option<String>)
    ensures
        match r {
            Some(rest) => under_root(p@, root@) && rest@ == spec_strip_root(p@, root@),
            None => !under_root(p@, root@),
        },
{
    let pn: usize = p.unicode_len();
    let rn: usize = root.unicode_len();
    if str_eq(p, root) {
        return Some(String::new());
    }
    if pn <= rn {
        return None;
    }
    if !crate::text::matches_at(p, root, 0) {
        proof {
            assert(p@.subrange(0, root@.len() as int) =~= p@.take(root@.len() as int));
        }
        return None;
    }
    if p.get_char(rn) != '/' {
        return None;
    }
    let rest = p.substring_char(rn + 1, pn).to_owned();
    proof {
        assert(p@.subrange(0, root@.len() as int) =~= p@.take(root@.len() as int));
        assert(rest@ =~= p@.skip(root@.len() as int + 1));
    }
    Some(rest)
}

/// Rewrites an absolute path to one relative to the project root, or,
/// for vendored files, relative to the vendored package's own
/// directory (the leading per-package directory is stripped). A
/// relative path is kept; a path under neither root is refused.
pub open spec fn spec_make_relative(p: Seq<char>, project: Seq<char>, vendor: Seq<char>) -> Result<
    Seq<char>,
    Error,
> {
    if !is_abs(p) {
        Ok(p)
    } else if under_root(p, project) {
        Ok(spec_strip_root(p, project))
    } else if under_root(p, vendor) {
        let rest = spec_strip_root(p, vendor);
        if rest.len() == 0 {
            Err(Error::NoPrefix)
        } else {
            match find_first(rest, '/') {
                None => Ok(Seq::empty()),
                Some(i) => Ok(rest.skip(i + 1)),
            }
        }
    } else {
        Err(Error::PathOutsideRoots)
    }
}

/// The index of the first occurrence of `c` in `s`, if any.
pub open spec fn find_first(s: Seq<char>, c: char) -> Option<int>
    decreases s.len(),
{
    if s.len() == 0 {
        None
    } else if s[0] == c {
        Some(0int)
    } else {
        match find_first(s.drop_first(), c) {
            None => None,
            Some(i) => Some(i + 1),
        }
    }
}

/// Everything before the first occurrence is free of `c`.
pub proof fn lemma_find_first(s: Seq<char>, c: char)
    ensures
        match find_first(s, c) {
            Some(i) => 0 <= i < s.len() && s[i] == c && (forall|j: int| 0 <= j < i ==> s[j] != c),
            None => forall|j: int| 0 <= j < s.len() ==> s[j] != c,
        },
    decreases s.len(),
{
    if s.len() > 0 && s[0] != c {
        lemma_find_first(s.drop_first(), c);
        assert(forall|j: int| 1 <= j < s.len() ==> s.drop_first()[j - 1] == s[j]);
    }
}

/// Finds the first occurrence of `c` in `s`.
pub fn str_find(s: &str, c: char) -> (r: Option<usize>)
    ensures
        match r {
            Some(i) => find_first(s@, c) == Some(i as int),
            None => find_first(s@, c) is None,
        },
{
    let n: usize = s.unicode_len();
    let mut i: usize = 0;
    proof {
        assert(s@.skip(0) =~= s@);
    }
    while i < n
        invariant
            n == s@.len(),
            i <= n,
            find_first(s@, c) == match find_first(s@.skip(i as int), c) {
                None => None::<int>,
                Some(j) => Some(j + i),
            },
        decreases n - i,
    {
        proof {
            assert(s@.skip(i as int)[0] == s@[i as int]);
            assert(s@.skip(i as int).drop_first() =~= s@.skip(i + 1 as int));
        }
        if s.get_char(i) == c {
            return Some(i);
        }
        i += 1;
    }
    proof {
        assert(s@.skip(n as int) =~= Seq::<char>::empty());
    }
    None
}

/// Rewrites one referenced path, as [`spec_make_relative`] says.
pub fn make_relative(path: &str, project_dir: &str, vendor_dir: &str) -> (r: Result<String, Error>)
    ensures
        match r {
            Ok(p) => spec_make_relative(path@, project_dir@, vendor_dir@) == Ok::<_, Error>(p@),
            Err(e) => spec_make_relative(path@, project_dir@, vendor_dir@) == Err::<Seq<char>, _>(e),
        },
{
    let n: usize = path.unicode_len();
    if n == 0 || path.get_char(0) != '/' {
        return Ok(path.to_owned());
    }
    if let Some(rest) = strip_root(path, project_dir) {
        return Ok(rest);
    }
    if let Some(rest) = strip_root(path, vendor_dir) {
        if rest.as_str().unicode_len() == 0 {
            return Err(Error::NoPrefix);
        }
        match str_find(rest.as_str(), '/') {
            None => {
                return Ok(String::new());
            },
            Some(i) => {
                let rn: usize = rest.as_str().unicode_len();
                proof {
                    lemma_find_first(rest@, '/');
                }
                let out = rest.as_str().substring_char(i + 1, rn).to_owned();
                proof {
                    assert(out@ =~= rest@.skip(find_first(rest@, '/')->Some_0 + 1));
                }
                return Ok(out);
            },
        }
    }
    Err(Error::PathOutsideRoots)
}

/// Whether a path piece is a real component: not empty, not `.`.
pub open spec fn keep_component(c: Seq<char>) -> bool {
    c.len() > 0 && c != "."@
}

/// The pieces that are real components, in order.
pub open spec fn keep_components(pieces: Seq<Seq<char>>) -> Seq<Seq<char>>
    decreases pieces.len(),
{
    if pieces.len() == 0 {
        Seq::empty()
    } else if keep_component(pieces[0]) {
        seq![pieces[0]] + keep_components(pieces.drop_first())
    } else {
        keep_components(pieces.drop_first())
    }
}

/// Filtering grows one piece at a time from the right.
pub proof fn lemma_keep_push(pieces: Seq<Seq<char>>, last: Seq<char>)
    ensures
        keep_components(pieces.push(last)) == if keep_component(last) {
            keep_components(pieces).push(last)
        } else {
            keep_components(pieces)
        },
    decreases pieces.len(),
{
    if pieces.len() == 0 {
        assert(pieces.push(last).drop_first() =~= pieces);
        if keep_component(last) {
            assert(keep_components(pieces.push(last)) =~= keep_components(pieces).push(last));
        }
    } else {
        assert(pieces.push(last).drop_first() =~= pieces.drop_first().push(last));
        lemma_keep_push(pieces.drop_first(), last);
        if keep_component(last) {
            assert(keep_components(pieces.push(last)) =~= keep_components(pieces).push(last));
        } else {
            assert(keep_components(pieces.push(last)) =~= keep_components(pieces));
        }
    }
}

/// The meaningful components of a tarball entry path: the pieces
/// between separators, without empty pieces and without `.`.
pub open spec fn entry_components(p: Seq<char>) -> Seq<Seq<char>> {
    keep_components(split_seq(p, '/'))
}

/// The components kept after the leading per-package directory is
/// dropped; nothing is left when there was no component at all.
pub open spec fn rest_components(p: Seq<char>) -> Seq<Seq<char>> {
    if entry_components(p).len() == 0 {
        Seq::empty()
    } else {
        entry_components(p).drop_first()
    }
}

/// Whether the entry path holds a parent-directory component.
pub open spec fn has_parent_component(p: Seq<char>) -> bool {
    split_seq(p, '/').contains(".."@)
}

/// Checks one tarball entry path before anything is written for it: a
/// parent-directory component anywhere is refused outright, and the
/// leading component (the per-package directory in a source archive)
/// is dropped. On success the returned path is relative, holds no
/// `..` and no `.` component, and is the `/`-join of the entry's
/// remaining components.
pub fn sanitize_entry_path(p: &str) -> (r: Result<String, Error>)
    ensures
        r is Err <==> has_parent_component(p@),
        r matches Err(e) ==> e == Error::ParentDirInArchive,
        r matches Ok(out) ==> out@ == join_seqs(rest_components(p@), seq!['/']),
{
    let pieces = split_string(p, '/');
    let ghost all = split_seq(p@, '/');
    let mut kept: Vec<String> = Vec::new();
    let mut i: usize = 0;
    proof {
        assert(all.take(0) =~= Seq::<Seq<char>>::empty());
    }
    while i < pieces.len()
        invariant
            views(pieces@) == all,
            all == split_seq(p@, '/'),
            i <= pieces@.len(),
            views(kept@) == keep_components(all.take(i as int)),
            forall|j: int| 0 <= j < i ==> all[j] != ".."@,
        decreases pieces@.len() - i,
    {
        let piece = &pieces[i];
        proof {
            assert(all.take(i + 1 as int) =~= all.take(i as int).push(all[i as int]));
            lemma_keep_push(all.take(i as int), all[i as int]);
            assert(piece@ == all[i as int]);
            reveal_strlit("..");
            reveal_strlit(".");
        }
        if str_eq(piece.as_str(), "..") {
            proof {
                assert(all[i as int] == ".."@);
                assert(all.contains(".."@));
            }
            return Err(Error::ParentDirInArchive);
        }
        if piece.as_str().unicode_len() > 0 && !str_eq(piece.as_str(), ".") {
            kept.push(piece.clone());
            proof {
                assert(keep_component(all[i as int]));
                assert(views(kept@) =~= keep_components(all.take(i + 1 as int)));
            }
        } else {
            proof {
                assert(!keep_component(all[i as int]));
                assert(views(kept@) =~= keep_components(all.take(i + 1 as int)));
            }
        }
        i += 1;
    }
    proof {
        assert(all.take(all.len() as int) =~= all);
        assert(!has_parent_component(p@)) by {
            if all.contains(".."@) {
                let w = choose|w: int| 0 <= w < all.len() && all[w] == ".."@;
            }
        }
    }
    if kept.len() == 0 {
        proof {
            assert(rest_components(p@) =~= Seq::<Seq<char>>::empty());
        }
        return Ok(String::new());
    }
    let mut rest: Vec<String> = Vec::new();
    let mut j: usize = 1;
    proof {
        assert(views(rest@) =~= views(kept@).drop_first().take(0));
    }
    while j < kept.len()
        invariant
            1 <= j,
            j <= kept@.len(),
            kept@.len() > 0,
            views(kept@) == entry_components(p@),
            views(rest@) == views(kept@).drop_first().take(j - 1),
        decreases kept@.len() - j,
    {
        rest.push(kept[j].clone());
        proof {
            assert(views(kept@).drop_first()[j - 1] == views(kept@)[j as int]);
            assert(views(kept@).drop_first().take(j as int) =~= views(kept@).drop_first().take(
                j - 1,
            ).push(views(kept@)[j as int]));
        }
        j += 1;
    }
    proof {
        assert(views(rest@) =~= views(kept@).drop_first());
        assert(views(rest@) =~= rest_components(p@));
    }
    let out = crate::text::join_strings(&rest, "/");
    proof {
        reveal_strlit("/");
        assert("/"@ =~= seq!['/']);
    }
    Ok(out)
}

} // verus!
