//! Paths as text with `/` between the segments.

use vstd::prelude::*;
use crate::text::{
    chars_of, concat_chars, join, lemma_index_of, lemma_split_join, lemma_split_pieces,
    optional_text, slice_chars, split, split_chars, string_of, string_views, views,
};

verus! {

/// The separator between the segments of a path.
pub const SEPARATOR: char = '/';

/// The pieces of `parts` that are not empty, in order.
pub open spec fn non_empty(parts: Seq<Seq<char>>) -> Seq<Seq<char>>
    decreases parts.len(),
{
    if parts.len() == 0 {
        parts
    } else if parts.last().len() == 0 {
        non_empty(parts.drop_last())
    } else {
        non_empty(parts.drop_last()).push(parts.last())
    }
}

/// The segments of `path`: what stands between its separators, empty pieces
/// left out.
pub open spec fn segments(path: Seq<char>) -> Seq<Seq<char>> {
    non_empty(split(path, SEPARATOR))
}

/// Whether `path` starts at the root.
pub open spec fn is_absolute(path: Seq<char>) -> bool {
    path.len() > 0 && path[0] == SEPARATOR
}

/// The path made of `parts`, from the root if `absolute` is set.
pub open spec fn assemble(absolute: bool, parts: Seq<Seq<char>>) -> Seq<char> {
    if absolute {
        seq![SEPARATOR] + join(parts, SEPARATOR)
    } else {
        join(parts, SEPARATOR)
    }
}

/// `rest` below `base`: `rest` alone where it starts at the root, otherwise
/// `base`, a separator unless `base` is empty or ends in one, and `rest`.
pub open spec fn joined(base: Seq<char>, rest: Seq<char>) -> Seq<char> {
    if is_absolute(rest) {
        rest
    } else if base.len() == 0 || base.last() == SEPARATOR {
        base + rest
    } else {
        base + seq![SEPARATOR] + rest
    }
}

/// The last segment of `path`, if it has one.
pub open spec fn file_name(path: Seq<char>) -> Option<Seq<char>> {
    let parts = segments(path);
    if parts.len() == 0 {
        None
    } else {
        Some(parts.last())
    }
}

/// Position of the last `c` in `s`, or -1 when `s` holds none.
pub open spec fn last_index_of(s: Seq<char>, c: char) -> int
    decreases s.len(),
{
    if s.len() == 0 {
        -1
    } else if s.last() == c {
        s.len() - 1
    } else {
        last_index_of(s.drop_last(), c)
    }
}

/// The extension of the file name `name`: what follows its last dot. A name
/// without a dot has none, and neither has one whose only dot comes first.
pub open spec fn extension(name: Seq<char>) -> Option<Seq<char>> {
    let dot = last_index_of(name, '.');
    if dot <= 0 {
        None
    } else {
        Some(name.skip(dot + 1))
    }
}

/// `last_index_of` is the one position that holds `c` with no `c` after it.
pub proof fn lemma_last_index_of(s: Seq<char>, c: char, i: int)
    requires
        -1 <= i < s.len(),
        i >= 0 ==> s[i] == c,
        forall|k: int| i < k < s.len() ==> s[k] != c,
    ensures
        last_index_of(s, c) == i,
    decreases s.len(),
{
    if s.len() == 0 {
    } else if i == s.len() - 1 {
    } else {
        assert(s.last() != c);
        let t = s.drop_last();
        assert forall|k: int| i < k < t.len() implies t[k] != c by {
            assert(t[k] == s[k]);
        }
        lemma_last_index_of(t, c, i);
    }
}

/// The strings that hold the texts of `parts`.
pub fn strings_of(parts: &Vec<Vec<char>>) -> (r: Vec<String>)
    ensures
        string_views(r@) == views(parts@),
{
    let mut r: Vec<String> = Vec::new();
    let mut i: usize = 0;
    while i < parts.len()
        invariant
            0 <= i <= parts.len(),
            r.len() == i,
            forall|k: int| 0 <= k < i ==> r[k]@ == parts[k]@,
        decreases parts.len() - i,
    {
        r.push(string_of(&parts[i]));
        i = i + 1;
    }
    assert(string_views(r@) =~= views(parts@));
    r
}

/// The segments of `path`.
pub fn segments_of(path: &str) -> (r: Vec<String>)
    ensures
        string_views(r@) == segments(path@),
{
    let chars = chars_of(path);
    let pieces = split_chars(&chars, SEPARATOR);
    let mut r: Vec<String> = Vec::new();
    let mut i: usize = 0;
    let ghost all = views(pieces@);
    assert(all.take(0) =~= Seq::<Seq<char>>::empty());
    while i < pieces.len()
        invariant
            0 <= i <= pieces.len(),
            all == views(pieces@),
            string_views(r@) == non_empty(all.take(i as int)),
        decreases pieces.len() - i,
    {
        proof {
            assert(all.take(i + 1).drop_last() =~= all.take(i as int));
            assert(all.take(i + 1).last() == pieces[i as int]@);
        }
        if pieces[i].len() > 0 {
            let piece = string_of(&pieces[i]);
            proof {
                assert(string_views(r@.push(piece)) =~= string_views(r@).push(piece@));
            }
            r.push(piece);
        }
        i = i + 1;
    }
    assert(all.take(pieces.len() as int) =~= all);
    r
}

/// Whether `path` starts at the root.
pub fn starts_at_root(path: &str) -> (r: bool)
    ensures
        r == is_absolute(path@),
{
    let chars = chars_of(path);
    chars.len() > 0 && chars[0] == SEPARATOR
}

/// `rest` below `base`.
pub fn join_paths(base: &str, rest: &str) -> (r: String)
    ensures
        r@ == joined(base@, rest@),
{
    let b = chars_of(base);
    let t = chars_of(rest);
    if t.len() > 0 && t[0] == SEPARATOR {
        return rest.to_owned();
    }
    if b.len() == 0 || b[b.len() - 1] == SEPARATOR {
        let whole = concat_chars(&b, &t);
        return string_of(&whole);
    }
    let mut head = b;
    head.push(SEPARATOR);
    let whole = concat_chars(&head, &t);
    assert(whole@ =~= base@ + seq![SEPARATOR] + rest@);
    string_of(&whole)
}

/// The last segment of `path`, if it has one.
pub fn file_name_of(path: &str) -> (r: Option<String>)
    ensures
        optional_text(r) == file_name(path@),
{
    let mut parts = segments_of(path);
    let ghost before = parts@;
    match parts.pop() {
        Some(last) => {
            assert(string_views(before).last() == last@);
            Some(last)
        },
        None => None,
    }
}

/// The extension of the file name `name`, if it has one.
pub fn extension_of(name: &str) -> (r: Option<String>)
    ensures
        optional_text(r) == extension(name@),
{
    let chars = chars_of(name);
    let mut i: usize = chars.len();
    while i > 0
        invariant
            0 <= i <= chars.len(),
            chars@ == name@,
            forall|k: int| i <= k < chars.len() ==> chars@[k] != '.',
        decreases i,
    {
        if chars[i - 1] == '.' {
            proof {
                lemma_last_index_of(chars@, '.', i - 1);
            }
            if i - 1 == 0 {
                return None;
            }
            let tail = slice_chars(&chars, i, chars.len());
            assert(chars@.skip(i as int) =~= chars@.subrange(i as int, chars.len() as int));
            return Some(string_of(&tail));
        }
        i = i - 1;
    }
    proof {
        lemma_last_index_of(chars@, '.', -1);
    }
    None
}

/// The texts of `parts` joined with `sep` between neighbours.
pub fn join_strings(parts: &Vec<String>, sep: char) -> (r: Vec<char>)
    ensures
        r@ == join(string_views(parts@), sep),
{
    let n = parts.len();
    let mut r: Vec<char> = Vec::new();
    let mut i: usize = n;
    let ghost all = string_views(parts@);
    assert(all.skip(n as int) =~= Seq::<Seq<char>>::empty());
    while i > 0
        invariant
            0 <= i <= n,
            n == parts.len(),
            all == string_views(parts@),
            r@ == join(all.skip(i as int), sep),
        decreases i,
    {
        i = i - 1;
        let piece = chars_of(parts[i].as_str());
        proof {
            let tail = all.skip(i as int);
            assert(tail[0] == parts[i as int]@);
            assert(tail.drop_first() =~= all.skip(i + 1));
        }
        if i + 1 == n {
            r = piece;
        } else {
            let mut head = piece;
            head.push(sep);
            r = concat_chars(&head, &r);
            assert(r@ =~= parts[i as int]@ + seq![sep] + join(all.skip(i + 1), sep));
        }
    }
    assert(all.skip(0) =~= all);
    r
}

/// The path made of `parts`, from the root if `absolute` is set.
pub fn assemble_path(absolute: bool, parts: &Vec<String>) -> (r: String)
    ensures
        r@ == assemble(absolute, string_views(parts@)),
{
    let body = join_strings(parts, SEPARATOR);
    if absolute {
        let mut head: Vec<char> = Vec::new();
        head.push(SEPARATOR);
        let whole = concat_chars(&head, &body);
        assert(head@ =~= seq![SEPARATOR]);
        string_of(&whole)
    } else {
        string_of(&body)
    }
}

/// The directory that holds `path`: the path without its last segment. A path
/// without segments has none.
pub open spec fn parent(path: Seq<char>) -> Option<Seq<char>> {
    let parts = segments(path);
    if parts.len() == 0 {
        None
    } else {
        Some(assemble(is_absolute(path), parts.drop_last()))
    }
}

/// The directory that holds `path`, if it has one.
pub fn parent_of(path: &str) -> (r: Option<String>)
    ensures
        optional_text(r) == parent(path@),
{
    let mut parts = segments_of(path);
    let ghost before = string_views(parts@);
    if parts.len() == 0 {
        return None;
    }
    parts.pop();
    assert(string_views(parts@) =~= before.drop_last());
    Some(assemble_path(starts_at_root(path), &parts))
}

/// What `non_empty` keeps is not empty and was among the pieces.
pub proof fn lemma_non_empty_members(parts: Seq<Seq<char>>)
    ensures
        non_empty(parts).len() <= parts.len(),
        forall|i: int|
            0 <= i < non_empty(parts).len() ==> (#[trigger] non_empty(parts)[i]).len() > 0
                && parts.contains(non_empty(parts)[i]),
    decreases parts.len(),
{
    if parts.len() > 0 {
        let before = parts.drop_last();
        lemma_non_empty_members(before);
        assert forall|i: int| 0 <= i < non_empty(parts).len() implies (#[trigger] non_empty(
            parts,
        )[i]).len() > 0 && parts.contains(non_empty(parts)[i]) by {
            if i < non_empty(before).len() {
                assert(non_empty(parts)[i] == non_empty(before)[i]);
                assert(before.contains(non_empty(before)[i]));
                let j = choose|j: int| 0 <= j < before.len() && before[j] == non_empty(before)[i];
                assert(parts[j] == non_empty(parts)[i]);
            } else {
                assert(parts[parts.len() - 1] == non_empty(parts)[i]);
            }
        }
    }
}

/// Pieces of which none is empty are all kept.
pub proof fn lemma_non_empty_keeps(parts: Seq<Seq<char>>)
    requires
        forall|i: int| 0 <= i < parts.len() ==> (#[trigger] parts[i]).len() > 0,
    ensures
        non_empty(parts) == parts,
    decreases parts.len(),
{
    if parts.len() > 0 {
        let before = parts.drop_last();
        assert forall|i: int| 0 <= i < before.len() implies (#[trigger] before[i]).len() > 0 by {
            assert(before[i] == parts[i]);
        }
        lemma_non_empty_keeps(before);
        assert(before.push(parts.last()) =~= parts);
    }
}

/// An empty piece in front of pieces of which none is empty is left out, and
/// the others are kept.
pub proof fn lemma_non_empty_after_empty(parts: Seq<Seq<char>>)
    requires
        forall|i: int| 0 <= i < parts.len() ==> (#[trigger] parts[i]).len() > 0,
    ensures
        non_empty(seq![Seq::<char>::empty()] + parts) == parts,
    decreases parts.len(),
{
    let front = seq![Seq::<char>::empty()];
    let all = front + parts;
    if parts.len() == 0 {
        assert(all.drop_last() =~= Seq::<Seq<char>>::empty());
        assert(all.last().len() == 0);
        assert(non_empty(Seq::<Seq<char>>::empty()) =~= Seq::<Seq<char>>::empty());
        assert(non_empty(all) == non_empty(all.drop_last()));
        assert(non_empty(all) =~= parts);
    } else {
        let before = parts.drop_last();
        assert forall|i: int| 0 <= i < before.len() implies (#[trigger] before[i]).len() > 0 by {
            assert(before[i] == parts[i]);
        }
        lemma_non_empty_after_empty(before);
        assert(all.drop_last() =~= front + before);
        assert(all.last() == parts.last());
        assert(before.push(parts.last()) =~= parts);
    }
}

/// Taking a path apart undoes putting it together: the segments of the path
/// made of `parts` are `parts`, where none of them is empty or holds a
/// separator.
pub proof fn lemma_segments_assemble(absolute: bool, parts: Seq<Seq<char>>)
    requires
        forall|i: int|
            0 <= i < parts.len() ==> (#[trigger] parts[i]).len() > 0 && !parts[i].contains(
                SEPARATOR,
            ),
    ensures
        segments(assemble(absolute, parts)) == parts,
{
    let body = join(parts, SEPARATOR);
    let empty = Seq::<char>::empty();
    if parts.len() == 0 {
        assert(body =~= empty);
        assert(split(empty, SEPARATOR) =~= seq![empty]);
        assert(seq![empty].drop_last() =~= Seq::<Seq<char>>::empty());
        assert(seq![empty].last().len() == 0);
        assert(non_empty(Seq::<Seq<char>>::empty()) =~= Seq::<Seq<char>>::empty());
        assert(non_empty(seq![empty]) == non_empty(seq![empty].drop_last()));
        assert(non_empty(seq![empty]) =~= parts);
    } else {
        lemma_split_join(parts, SEPARATOR);
        lemma_non_empty_keeps(parts);
    }
    if absolute {
        let path = seq![SEPARATOR] + body;
        lemma_index_of(path, SEPARATOR, 0);
        assert(path.take(0) =~= empty);
        assert(path.skip(1) =~= body);
        assert(split(path, SEPARATOR) == seq![empty] + split(body, SEPARATOR));
        if parts.len() == 0 {
            assert(seq![empty] + seq![empty] =~= seq![empty, empty]);
            assert(seq![empty, empty].drop_last() =~= seq![empty]);
            assert(seq![empty, empty].last().len() == 0);
            assert(non_empty(seq![empty, empty]) == non_empty(seq![empty, empty].drop_last()));
            assert(non_empty(seq![empty, empty]) =~= parts);
        } else {
            lemma_non_empty_after_empty(parts);
        }
    }
}

/// No segment of a path is empty or holds a separator.
pub proof fn lemma_segments_plain(path: Seq<char>)
    ensures
        forall|i: int|
            0 <= i < segments(path).len() ==> (#[trigger] segments(path)[i]).len() > 0
                && !segments(path)[i].contains(SEPARATOR),
{
    let pieces = split(path, SEPARATOR);
    lemma_split_pieces(path, SEPARATOR);
    lemma_non_empty_members(pieces);
    assert forall|i: int| 0 <= i < segments(path).len() implies (#[trigger] segments(
        path,
    )[i]).len() > 0 && !segments(path)[i].contains(SEPARATOR) by {
        let x = segments(path)[i];
        assert(pieces.contains(x));
        let j = choose|j: int| 0 <= j < pieces.len() && pieces[j] == x;
        assert(!pieces[j].contains(SEPARATOR));
    }
}

} // verus!
