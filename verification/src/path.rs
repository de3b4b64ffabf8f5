//! The final component of a slash-separated path, as `Path::file_name`
//! reads it on Unix.

use vstd::prelude::*;

verus! {

/// The pieces of `s` between slashes, in order (`"a//b"` gives
/// `["a", "", "b"]`; the empty string gives one empty piece).
pub open spec fn split_slash(s: Seq<char>) -> Seq<Seq<char>>
    decreases s.len(),
{
    if s.len() == 0 {
        seq![Seq::empty()]
    } else {
        let init = split_slash(s.drop_last());
        if s.last() == '/' {
            init.push(Seq::empty())
        } else {
            init.update(init.len() - 1, init.last().push(s.last()))
        }
    }
}

/// A piece that names something: neither empty nor the current directory `.`.
pub open spec fn is_named(piece: Seq<char>) -> bool {
    piece.len() > 0 && piece != seq!['.']
}

/// The last piece of `pieces` that names something, if any.
pub open spec fn last_named(pieces: Seq<Seq<char>>) -> Option<Seq<char>>
    decreases pieces.len(),
{
    if pieces.len() == 0 {
        None
    } else if is_named(pieces.last()) {
        Some(pieces.last())
    } else {
        last_named(pieces.drop_last())
    }
}

/// The file name of a path: its last named component, unless that is the
/// parent directory `..`, in which case there is none. Empty pieces (from
/// repeated or trailing slashes) and `.` pieces are skipped.
pub open spec fn path_file_name(path: Seq<char>) -> Option<Seq<char>> {
    match last_named(split_slash(path)) {
        Some(piece) => if piece == seq!['.', '.'] {
            None
        } else {
            Some(piece)
        },
        None => None,
    }
}

/// There is always at least one piece.
pub proof fn lemma_split_slash_nonempty(s: Seq<char>)
    ensures
        split_slash(s).len() >= 1,
    decreases s.len(),
{
    if s.len() > 0 {
        lemma_split_slash_nonempty(s.drop_last());
    }
}

/// No piece of a path holds a slash.
pub proof fn lemma_pieces_have_no_slash(s: Seq<char>)
    ensures
        forall|i: int| 0 <= i < split_slash(s).len() ==> !(#[trigger] split_slash(s)[i]).contains('/'),
    decreases s.len(),
{
    lemma_split_slash_nonempty(s);
    if s.len() > 0 {
        let init = split_slash(s.drop_last());
        lemma_pieces_have_no_slash(s.drop_last());
        lemma_split_slash_nonempty(s.drop_last());
        if s.last() != '/' {
            let grown = init.last().push(s.last());
            assert forall|k: int| 0 <= k < grown.len() implies grown[k] != '/' by {
                if k < init.last().len() {
                    assert(grown[k] == init[init.len() - 1][k]);
                    if grown[k] == '/' {
                        assert(init[init.len() - 1].contains('/'));
                    }
                }
            }
        } else {
            assert(!Seq::<char>::empty().contains('/'));
        }
    }
}

/// The last named piece, when there is one, is one of the pieces.
proof fn lemma_last_named_is_piece(pieces: Seq<Seq<char>>)
    ensures
        last_named(pieces) matches Some(p) ==> is_named(p) && pieces.contains(p),
    decreases pieces.len(),
{
    if pieces.len() > 0 {
        lemma_last_named_is_piece(pieces.drop_last());
        if is_named(pieces.last()) {
            assert(pieces[pieces.len() - 1] == pieces.last());
        } else if let Some(p) = last_named(pieces.drop_last()) {
            let j = choose|j: int| 0 <= j < pieces.drop_last().len() && pieces.drop_last()[j] == p;
            assert(pieces[j] == p);
        }
    }
}

/// A file name is a single component: it holds no slash, and it is neither
/// empty, nor `.`, nor `..`.
pub proof fn law_file_name_is_one_component(path: Seq<char>)
    ensures
        path_file_name(path) matches Some(name) ==> !name.contains('/') && name.len() > 0 && name
            != seq!['.'] && name != seq!['.', '.'],
{
    lemma_pieces_have_no_slash(path);
    lemma_last_named_is_piece(split_slash(path));
    if let Some(name) = path_file_name(path) {
        let pieces = split_slash(path);
        let j = choose|j: int| 0 <= j < pieces.len() && pieces[j] == name;
        assert(!pieces[j].contains('/'));
    }
}

/// Splitting `dir` followed by a slash and a component without slashes
/// ends with that component.
proof fn lemma_split_ends_with(dir: Seq<char>, name: Seq<char>)
    requires
        !name.contains('/'),
    ensures
        split_slash(dir.push('/') + name).last() == name,
        split_slash(dir.push('/') + name).len() >= 2,
        split_slash(dir.push('/') + name).drop_last() == split_slash(dir),
    decreases name.len(),
{
    lemma_split_slash_nonempty(dir);
    if name.len() == 0 {
        assert(dir.push('/') + name =~= dir.push('/'));
        assert(dir.push('/').drop_last() =~= dir);
    } else {
        let init = name.drop_last();
        assert(!init.contains('/')) by {
            if init.contains('/') {
                let j = choose|j: int| 0 <= j < init.len() && init[j] == '/';
                assert(name[j] == '/');
            }
        }
        assert(name[name.len() - 1] != '/');
        lemma_split_ends_with(dir, init);
        assert((dir.push('/') + name).drop_last() =~= dir.push('/') + init);
        assert(init.push(name.last()) =~= name);
        let sp = split_slash(dir.push('/') + init);
        assert(split_slash(dir.push('/') + name).drop_last() =~= sp.drop_last());
    }
}

/// The file name of a directory path followed by a slash and a named
/// component (not `..`, holding no slash) is that component.
pub proof fn law_file_name_of_joined_path(dir: Seq<char>, name: Seq<char>)
    requires
        !name.contains('/'),
        is_named(name),
        name != seq!['.', '.'],
    ensures
        path_file_name(dir.push('/') + name) == Some(name),
{
    lemma_split_ends_with(dir, name);
}

/// The file name of a directory path followed by a slash and a component
/// is that component, whatever characters it holds, provided it is not
/// empty, holds no slash, and is neither `.` nor `..`.
pub proof fn law_file_name_of_component(dir: Seq<char>, name: Seq<char>)
    requires
        name.len() > 0,
        !name.contains('/'),
        name != seq!['.'],
        name != seq!['.', '.'],
    ensures
        path_file_name(dir.push('/') + name) == Some(name),
{
    law_file_name_of_joined_path(dir, name);
}

/// The view of an optional string.
pub open spec fn opt_chars(o: Option<String>) -> Option<Seq<char>> {
    match o {
        Some(s) => Some(s@),
        None => None,
    }
}

/// Whether the characters `cs` name something (see `is_named`).
fn names_something(cs: &Vec<char>) -> (b: bool)
    ensures
        b == is_named(cs@),
{
    if cs.len() == 0 {
        false
    } else if cs.len() == 1 && cs[0] == '.' {
        assert(cs@ =~= seq!['.']);
        false
    } else {
        assert(cs@.len() != 1 ==> cs@ != seq!['.']);
        assert(cs@.len() == 1 && cs@[0] != '.' ==> cs@ != seq!['.']);
        true
    }
}

/// The file name of `path` (see `path_file_name`).
pub fn file_name(path: &str) -> (name: Option<String>)
    ensures
        opt_chars(name) == path_file_name(path@),
{
    let cs = crate::text::chars_of(path);
    let mut cur: Vec<char> = Vec::new();
    let mut last: Option<Vec<char>> = None;
    let mut i: usize = 0;
    proof {
        assert(cs@.take(0) =~= Seq::<char>::empty());
    }
    while i < cs.len()
        invariant
            i <= cs@.len(),
            split_slash(cs@.take(i as int)).len() >= 1,
            split_slash(cs@.take(i as int)).last() == cur@,
            match last {
                Some(v) => last_named(split_slash(cs@.take(i as int)).drop_last()) == Some(v@),
                None => last_named(split_slash(cs@.take(i as int)).drop_last()) is None,
            },
        decreases cs@.len() - i,
    {
        let c = cs[i];
        let ghost before = split_slash(cs@.take(i as int));
        proof {
            assert(cs@.take(i + 1).drop_last() =~= cs@.take(i as int));
            assert(cs@.take(i + 1).last() == c);
        }
        if c == '/' {
            let named = names_something(&cur);
            proof {
                assert(split_slash(cs@.take(i + 1)).drop_last() =~= before);
            }
            if named {
                last = Some(cur);
            }
            cur = Vec::new();
            proof {
                assert(split_slash(cs@.take(i + 1)).last() =~= cur@);
            }
        } else {
            cur.push(c);
            proof {
                assert(split_slash(cs@.take(i + 1)).drop_last() =~= before.drop_last());
            }
        }
        i = i + 1;
    }
    proof {
        assert(cs@.take(cs@.len() as int) =~= cs@);
    }
    let named = names_something(&cur);
    let found: Option<Vec<char>> = if named {
        Some(cur)
    } else {
        last
    };
    match found {
        Some(v) => {
            if v.len() == 2 && v[0] == '.' && v[1] == '.' {
                assert(v@ =~= seq!['.', '.']);
                None
            } else {
                assert(v@.len() != 2 ==> v@ != seq!['.', '.']);
                assert(v@.len() == 2 && (v@[0] != '.' || v@[1] != '.') ==> v@ != seq!['.', '.']);
                Some(crate::text::string_of(&v))
            }
        },
        None => None,
    }
}

} // verus!
