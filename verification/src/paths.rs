//! File paths as text, with `/` between their components. The application hands
//! over the paths of Windows in this form too.
use crate::text;
use vstd::prelude::*;
use vstd::string::*;

verus! {

/// The components of a path: what stands between slashes, without empty
/// pieces and without `.`.
pub open spec fn components_spec(path: Seq<char>) -> Seq<Seq<char>> {
    text::split_spec(path, '/').filter(is_component())
}

/// A piece of a path that names something.
pub open spec fn is_component() -> spec_fn(Seq<char>) -> bool {
    |piece: Seq<char>| piece.len() > 0 && piece != seq!['.']
}

/// The last component of a path, where it names a file.
pub open spec fn file_name_spec(path: Seq<char>) -> Option<Seq<char>> {
    let parts = components_spec(path);
    if parts.len() == 0 || parts.last() == seq!['.', '.'] {
        None
    } else {
        Some(parts.last())
    }
}

/// The place of the last dot in a name, or -1.
pub open spec fn last_dot(name: Seq<char>) -> int
    decreases name.len(),
{
    if name.len() == 0 {
        -1
    } else if name.last() == '.' {
        name.len() - 1
    } else {
        last_dot(name.drop_last())
    }
}

/// A file name without its extension. A dot at the start begins no extension.
pub open spec fn stem_of(name: Seq<char>) -> Seq<char> {
    if last_dot(name) <= 0 {
        name
    } else {
        name.take(last_dot(name))
    }
}

/// The last component of a path without its extension.
pub open spec fn file_stem_spec(path: Seq<char>) -> Option<Seq<char>> {
    match file_name_spec(path) {
        Some(name) => Some(stem_of(name)),
        None => None,
    }
}

/// The components of a path.
pub fn components(path: &str) -> (r: Vec<String>)
    ensures
        text::texts(r@) == components_spec(path@),
{
    let pieces = text::split_char(path, '/');
    let ghost all = text::texts(pieces@);
    let mut r: Vec<String> = Vec::new();
    let mut i: usize = 0;
    proof {
        reveal(Seq::filter);
        assert(all.take(0) =~= Seq::empty());
        assert(text::texts(r@) =~= all.take(0).filter(is_component()));
    }
    while i < pieces.len()
        invariant
            i <= pieces@.len(),
            all == text::texts(pieces@),
            text::texts(r@) == all.take(i as int).filter(is_component()),
        decreases pieces@.len() - i,
    {
        proof {
            reveal(Seq::filter);
            reveal_strlit(".");
            assert(all.take(i + 1).drop_last() =~= all.take(i as int));
            assert(seq!['.'] =~= "."@);
        }
        let ghost before = r@;
        if !pieces[i].as_str().is_empty() && !text::str_eq(pieces[i].as_str(), ".") {
            r.push(pieces[i].clone());
            assert(text::texts(r@) =~= text::texts(before).push(pieces@[i as int]@));
        }
        i = i + 1;
    }
    assert(all.take(pieces@.len() as int) =~= all);
    r
}

/// The last component of a path, where it names a file.
pub fn file_name(path: &str) -> (r: Option<String>)
    ensures
        match r {
            Some(name) => file_name_spec(path@) == Some(name@),
            None => file_name_spec(path@) is None,
        },
{
    let parts = components(path);
    proof {
        reveal_strlit("..");
        assert(seq!['.', '.'] =~= ".."@);
    }
    if parts.len() == 0 {
        return None;
    }
    let last = &parts[parts.len() - 1];
    if text::str_eq(last.as_str(), "..") {
        None
    } else {
        Some(last.clone())
    }
}

/// A file name without its extension.
pub fn stem(name: &str) -> (r: String)
    ensures
        r@ == stem_of(name@),
{
    let v = text::chars_of(name);
    let mut n: usize = v.len();
    assert(v@.take(n as int) =~= v@);
    while n > 0 && v[n - 1] != '.'
        invariant
            n <= v@.len(),
            last_dot(v@) == last_dot(v@.take(n as int)),
        decreases n,
    {
        assert(v@.take(n as int).drop_last() =~= v@.take(n - 1));
        n = n - 1;
    }
    if n <= 1 {
        name.to_owned()
    } else {
        assert(v@.take(n as int).last() == '.');
        assert(v@.subrange(0, n - 1) =~= v@.take(n - 1));
        text::substring_of(&v, 0, n - 1)
    }
}

/// The last component of a path without its extension.
pub fn file_stem(path: &str) -> (r: Option<String>)
    ensures
        match r {
            Some(name) => file_stem_spec(path@) == Some(name@),
            None => file_stem_spec(path@) is None,
        },
{
    match file_name(path) {
        Some(name) => Some(stem(name.as_str())),
        None => None,
    }
}

/// The last component of a path is what stands behind its last slash.
pub proof fn law_file_name_is_behind_the_last_slash(folder: Seq<char>, name: Seq<char>)
    requires
        !name.contains('/'),
        name.len() > 0,
        name != seq!['.'],
        name != seq!['.', '.'],
    ensures
        file_name_spec(folder.push('/') + name) == Some(name),
        file_name_spec(name) == Some(name),
{
    text::lemma_split_add(folder, '/', name);
    lemma_filter_last(text::split_spec(folder, '/'), name);
    text::lemma_split_whole(name, '/');
    lemma_filter_last(Seq::empty(), name);
    assert(seq![name] =~= Seq::<Seq<char>>::empty().push(name));
}

proof fn lemma_filter_last(parts: Seq<Seq<char>>, name: Seq<char>)
    requires
        name.len() > 0,
        name != seq!['.'],
    ensures
        parts.push(name).filter(is_component()) == parts.filter(is_component()).push(name),
{
    reveal(Seq::filter);
    assert(parts.push(name).drop_last() =~= parts);
    assert(parts.push(name).last() == name);
}

/// A file name is its stem, and where it has an extension, a dot and the
/// extension.
pub proof fn law_stem_leaves_the_extension(stem: Seq<char>, extension: Seq<char>)
    requires
        stem.len() > 0,
        !extension.contains('.'),
    ensures
        stem_of(stem + "."@ + extension) == stem,
        !stem.contains('.') ==> stem_of(stem) == stem,
{
    reveal_strlit(".");
    let name = stem + "."@ + extension;
    lemma_last_dot(stem + "."@, extension);
    assert((stem + "."@).last() == '.');
    assert(name.take(stem.len() as int) =~= stem);
    if !stem.contains('.') {
        lemma_no_dot(stem);
    }
}

proof fn lemma_last_dot(s: Seq<char>, tail: Seq<char>)
    requires
        s.len() > 0,
        s.last() == '.',
        !tail.contains('.'),
    ensures
        last_dot(s + tail) == s.len() - 1,
    decreases tail.len(),
{
    if tail.len() == 0 {
        assert(s + tail =~= s);
    } else {
        assert((s + tail).last() == tail.last());
        assert(tail.contains(tail[tail.len() - 1]));
        assert((s + tail).drop_last() =~= s + tail.drop_last());
        assert forall|c: char| tail.drop_last().contains(c) implies tail.contains(c) by {
            let i = choose|i: int| 0 <= i < tail.drop_last().len() && tail.drop_last()[i] == c;
            assert(tail[i] == c);
        }
        lemma_last_dot(s, tail.drop_last());
    }
}

proof fn lemma_no_dot(s: Seq<char>)
    requires
        !s.contains('.'),
    ensures
        last_dot(s) == -1,
    decreases s.len(),
{
    if s.len() > 0 {
        assert(s.contains(s[s.len() - 1]));
        assert forall|c: char| s.drop_last().contains(c) implies s.contains(c) by {
            let i = choose|i: int| 0 <= i < s.drop_last().len() && s.drop_last()[i] == c;
            assert(s[i] == c);
        }
        lemma_no_dot(s.drop_last());
    }
}

} // verus!
