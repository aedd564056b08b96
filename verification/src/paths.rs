//! Paths as text. `/` separates the components of a path. An empty
//! component is passed over, and so is the component `.` unless the path
//! begins with it. A path that begins with `/` is rooted. Two paths name the
//! same place where they have the same components.
use crate::text::{
    append_chars, count_trailing, from_chars, same_chars, split, split_chars,
    subrange, to_chars, trailing, views, CharClass,
};
use vstd::prelude::*;

verus! {

/// The pieces that name something: all but the empty ones and `.`.
pub open spec fn named_pieces(pieces: Seq<Seq<char>>) -> Seq<Seq<char>>
    decreases pieces.len(),
{
    if pieces.len() == 0 {
        seq![]
    } else {
        let before = named_pieces(pieces.drop_last());
        let piece = pieces.last();
        if piece.len() == 0 || piece == seq!['.'] {
            before
        } else {
            before.push(piece)
        }
    }
}

/// Whether `path` begins at the root of the file system.
pub open spec fn is_rooted(path: Seq<char>) -> bool {
    path.len() > 0 && path[0] == '/'
}

/// The components of `path`: first the root where the path is rooted, or
/// `.` where the path begins with that component, then the pieces between
/// separators that name something.
pub open spec fn components(path: Seq<char>) -> Seq<Seq<char>> {
    let pieces = split(path, seq!['/']);
    let segments = named_pieces(pieces);
    if is_rooted(path) {
        seq![seq!['/']] + segments
    } else if pieces[0] == seq!['.'] {
        seq![seq!['.']] + segments
    } else {
        segments
    }
}

/// The last component of `path`, unless there is none or it is the root,
/// `.` or `..`.
pub open spec fn file_name(path: Seq<char>) -> Option<Seq<char>> {
    let parts = components(path);
    if parts.len() > 0 && parts.last() != seq!['/'] && parts.last() != seq!['.']
        && parts.last() != seq!['.', '.'] {
        Some(parts.last())
    } else {
        None
    }
}

/// Whether the file name of `path` ends with a dot and `extension`, with
/// something before the dot.
pub open spec fn has_extension(path: Seq<char>, extension: Seq<char>) -> bool {
    match file_name(path) {
        Some(name) => name.len() >= extension.len() + 2 && (seq!['.'] + extension).is_suffix_of(
            name,
        ),
        None => false,
    }
}

/// Whether `path` names a Python source file.
pub open spec fn is_python_path(path: Seq<char>) -> bool {
    has_extension(path, seq!['p', 'y'])
}

/// `relative` seen from `base`: `relative` itself where it is rooted or
/// `base` is empty, else the two with one separator between them.
pub open spec fn join(base: Seq<char>, relative: Seq<char>) -> Seq<char> {
    if is_rooted(relative) || base.len() == 0 {
        relative
    } else if base.last() == '/' {
        base + relative
    } else {
        base + seq!['/'] + relative
    }
}

/// Whether two paths name the same place: they have the same components.
pub open spec fn same_place(a: Seq<char>, b: Seq<char>) -> bool {
    components(a) == components(b)
}

/// Whether `path` lies at or below `base`: the components of `base` are the
/// first components of `path`.
pub open spec fn is_under(path: Seq<char>, base: Seq<char>) -> bool {
    components(base).is_prefix_of(components(path))
}

/// `path` without what stands behind its last component and names nothing:
/// separators, and `.` behind a separator. The first character stays, so the
/// root stays the root.
pub open spec fn without_trailing_separators(path: Seq<char>) -> Seq<char>
    decreases path.len(),
{
    if path.len() > 1 && (path.last() == '/' || (path.last() == '.' && path[path.len() - 2]
        == '/')) {
        without_trailing_separators(path.drop_last())
    } else {
        path
    }
}

/// `path` without its last component and what stands between it and the
/// component before. The root and the empty path have no parent; the parent
/// of a path directly under the root is the root, and the parent of a single
/// component is the empty path.
pub open spec fn parent(path: Seq<char>) -> Option<Seq<char>> {
    let whole = without_trailing_separators(path);
    let head = whole.take(whole.len() - trailing(whole, CharClass::IsNot('/')));
    if whole.len() == 0 || whole == seq!['/'] {
        None
    } else {
        Some(without_trailing_separators(head))
    }
}

fn named(pieces: &Vec<Vec<char>>) -> (out: Vec<Vec<char>>)
    ensures
        views(out@) == named_pieces(views(pieces@)),
{
    let mut out: Vec<Vec<char>> = Vec::new();
    let mut i: usize = 0;
    while i < pieces.len()
        invariant
            i <= pieces.len(),
            views(out@) == named_pieces(views(pieces@).take(i as int)),
        decreases pieces.len() - i,
    {
        let piece = &pieces[i];
        proof {
            assert(views(pieces@).take(i + 1).drop_last() == views(pieces@).take(i as int));
        }
        let is_dot = piece.len() == 1 && piece[0] == '.';
        proof {
            assert(is_dot == (piece@ == seq!['.'])) by {
                if is_dot {
                    assert(piece@ =~= seq!['.']);
                }
            }
        }
        if piece.len() > 0 && !is_dot {
            let copy = piece.clone();
            out.push(copy);
        }
        i += 1;
    }
    proof {
        assert(views(pieces@).take(pieces.len() as int) == views(pieces@));
    }
    out
}

/// The components of a path.
pub fn components_of(path: &Vec<char>) -> (out: Vec<Vec<char>>)
    ensures
        views(out@) == components(path@),
{
    let slash: Vec<char> = vec!['/'];
    proof {
        assert(slash@ == seq!['/']);
    }
    let pieces = split_chars(path, &slash);
    let mut segments = named(&pieces);
    let rooted = path.len() > 0 && path[0] == '/';
    let dotted = pieces[0].len() == 1 && pieces[0][0] == '.';
    proof {
        if dotted {
            assert(pieces@[0]@ =~= seq!['.']);
        }
    }
    if rooted || dotted {
        let mut out: Vec<Vec<char>> = Vec::new();
        let first: Vec<char> = if rooted {
            slash
        } else {
            vec!['.']
        };
        proof {
            assert(first@ == if rooted {
                seq!['/']
            } else {
                seq!['.']
            });
        }
        out.push(first);
        out.append(&mut segments);
        out
    } else {
        segments
    }
}

/// The last component of a path, unless there is none or it is the root,
/// `.` or `..`.
pub fn file_name_of(path: &str) -> (name: Option<String>)
    ensures
        match name {
            Some(n) => file_name(path@) == Some(n@),
            None => file_name(path@) is None,
        },
{
    let chars = to_chars(path);
    let parts = components_of(&chars);
    if parts.len() == 0 {
        return None;
    }
    let last = &parts[parts.len() - 1];
    let is_root = last.len() == 1 && last[0] == '/';
    let is_here = last.len() == 1 && last[0] == '.';
    let is_up = last.len() == 2 && last[0] == '.' && last[1] == '.';
    proof {
        if is_root {
            assert(last@ =~= seq!['/']);
        }
        if is_here {
            assert(last@ =~= seq!['.']);
        }
        if is_up {
            assert(last@ =~= seq!['.', '.']);
        }
    }
    if is_root || is_here || is_up {
        None
    } else {
        Some(from_chars(last))
    }
}

/// Whether the file name of `path` is `name`.
pub fn is_named(path: &str, name: &str) -> (r: bool)
    ensures
        r == (file_name(path@) == Some(name@)),
{
    match file_name_of(path) {
        Some(n) => {
            let wanted: String = name.to_owned();
            n == wanted
        },
        None => false,
    }
}

/// `relative` seen from `base`.
pub fn join_paths(base: &str, relative: &str) -> (joined: String)
    ensures
        joined@ == join(base@, relative@),
{
    let base_chars = to_chars(base);
    let relative_chars = to_chars(relative);
    if (relative_chars.len() > 0 && relative_chars[0] == '/') || base_chars.len() == 0 {
        return from_chars(&relative_chars);
    }
    let mut joined = base_chars;
    if joined[joined.len() - 1] != '/' {
        joined.push('/');
    }
    append_chars(&mut joined, &relative_chars);
    from_chars(&joined)
}

/// Whether `path` lies at or below `base`.
pub fn path_is_under(path: &str, base: &str) -> (r: bool)
    ensures
        r == is_under(path@, base@),
{
    let path_chars = to_chars(path);
    let base_chars = to_chars(base);
    let path_parts = components_of(&path_chars);
    let base_parts = components_of(&base_chars);
    if base_parts.len() > path_parts.len() {
        return false;
    }
    let ghost p = components(path@);
    let ghost b = components(base@);
    let mut i: usize = 0;
    while i < base_parts.len()
        invariant
            i <= base_parts.len() <= path_parts.len(),
            p == views(path_parts@),
            b == views(base_parts@),
            p == components(path@),
            b == components(base@),
            forall|j: int| 0 <= j < i ==> p[j] == b[j],
        decreases base_parts.len() - i,
    {
        if !same_chars(&path_parts[i], &base_parts[i]) {
            proof {
                assert(b[i as int] == base_parts@[i as int]@);
            }
            return false;
        }
        i += 1;
    }
    true
}

/// The length of the first `len` characters of `path` without what stands
/// behind their last component and names nothing.
fn trimmed_length(path: &Vec<char>, len: usize) -> (end: usize)
    requires
        len <= path.len(),
    ensures
        end <= len,
        path@.take(end as int) == without_trailing_separators(path@.take(len as int)),
{
    let mut end: usize = len;
    while end > 1 && (path[end - 1] == '/' || (path[end - 1] == '.' && path[end - 2] == '/'))
        invariant
            end <= len <= path.len(),
            without_trailing_separators(path@.take(len as int)) == without_trailing_separators(
                path@.take(end as int),
            ),
        decreases end,
    {
        proof {
            assert(path@.take(end as int).drop_last() == path@.take(end - 1));
        }
        end -= 1;
    }
    end
}

/// Whether two paths name the same place.
pub fn is_same_place(a: &str, b: &str) -> (r: bool)
    ensures
        r == same_place(a@, b@),
{
    let a_chars = to_chars(a);
    let b_chars = to_chars(b);
    let a_parts = components_of(&a_chars);
    let b_parts = components_of(&b_chars);
    if a_parts.len() != b_parts.len() {
        return false;
    }
    let ghost p = components(a@);
    let ghost q = components(b@);
    let mut i: usize = 0;
    while i < a_parts.len()
        invariant
            i <= a_parts.len(),
            a_parts.len() == b_parts.len(),
            p == views(a_parts@),
            q == views(b_parts@),
            p == components(a@),
            q == components(b@),
            forall|j: int| 0 <= j < i ==> p[j] == q[j],
        decreases a_parts.len() - i,
    {
        proof {
            assert(p[i as int] == a_parts@[i as int]@);
            assert(q[i as int] == b_parts@[i as int]@);
        }
        if !same_chars(&a_parts[i], &b_parts[i]) {
            return false;
        }
        i += 1;
    }
    proof {
        assert(p =~= q);
    }
    true
}

/// `path` without its last component.
pub fn parent_of(path: &str) -> (r: Option<String>)
    ensures
        match r {
            Some(p) => parent(path@) == Some(p@),
            None => parent(path@) is None,
        },
{
    let chars = to_chars(path);
    let end = trimmed_length(&chars, chars.len());
    let whole = subrange(&chars, 0, end);
    proof {
        assert(chars@.take(chars.len() as int) == chars@);
        if whole.len() == 1 && whole[0] == '/' {
            assert(whole@ =~= seq!['/']);
        }
    }
    if whole.len() == 0 || (whole.len() == 1 && whole[0] == '/') {
        return None;
    }
    let last = count_trailing(&whole, CharClass::IsNot('/'));
    let above = trimmed_length(&whole, whole.len() - last);
    Some(from_chars(&subrange(&whole, 0, above)))
}

} // verus!
