//! Line-oriented text helpers, stated over the character view of strings.

use vstd::prelude::*;

verus! {

/// The view of each string of `v`, in order.
pub open spec fn views(v: Seq<String>) -> Seq<Seq<char>> {
    Seq::new(v.len(), |i: int| v[i]@)
}

/// Position of the first character of `s` that is a separator, or the
/// length of `s` where there is none.
pub open spec fn first_index(s: Seq<char>, is_sep: spec_fn(char) -> bool) -> int
    decreases s.len(),
{
    if s.len() == 0 || is_sep(s[0]) {
        0
    } else {
        1 + first_index(s.skip(1), is_sep)
    }
}

/// The pieces of `s` between its separators. There is always at least one
/// piece; a separator at the very end leaves an empty last piece.
pub open spec fn split_by(s: Seq<char>, is_sep: spec_fn(char) -> bool) -> Seq<Seq<char>>
    decreases s.len(),
{
    let i = first_index(s, is_sep);
    if 0 <= i < s.len() {
        seq![s.take(i)] + split_by(s.skip(i + 1), is_sep)
    } else {
        seq![s]
    }
}

/// The test that holds of the character `sep` alone.
pub open spec fn is_char(sep: char) -> spec_fn(char) -> bool {
    |c: char| c == sep
}

/// The pieces of `s` between occurrences of the character `sep`.
pub open spec fn split_on(s: Seq<char>, sep: char) -> Seq<Seq<char>> {
    split_by(s, is_char(sep))
}

/// The pieces of `parts` written one after another with `sep` between them.
pub open spec fn join_with(parts: Seq<Seq<char>>, sep: Seq<char>) -> Seq<char>
    decreases parts.len(),
{
    if parts.len() == 0 {
        Seq::empty()
    } else if parts.len() == 1 {
        parts[0]
    } else {
        join_with(parts.drop_last(), sep) + sep + parts.last()
    }
}

/// `first_index` stays within the sequence, points at a separator when it is
/// inside, and nothing before it is a separator.
pub proof fn lemma_first_index(s: Seq<char>, is_sep: spec_fn(char) -> bool)
    ensures
        0 <= first_index(s, is_sep) <= s.len(),
        first_index(s, is_sep) < s.len() ==> is_sep(s[first_index(s, is_sep)]),
        forall|j: int| 0 <= j < first_index(s, is_sep) ==> !is_sep(s[j]),
    decreases s.len(),
{
    if s.len() == 0 || is_sep(s[0]) {
    } else {
        lemma_first_index(s.skip(1), is_sep);
        let k = first_index(s.skip(1), is_sep);
        assert forall|j: int| 0 <= j < 1 + k implies !is_sep(s[j]) by {
            if j > 0 {
                assert(s.skip(1)[j - 1] == s[j]);
            }
        }
    }
}

/// Where position `i` holds the first separator of `s`, `first_index` is `i`;
/// where `s` holds none and `i` is its length, likewise.
pub proof fn lemma_first_index_is(s: Seq<char>, is_sep: spec_fn(char) -> bool, i: int)
    requires
        0 <= i <= s.len(),
        forall|j: int| 0 <= j < i ==> !is_sep(s[j]),
        i < s.len() ==> is_sep(s[i]),
    ensures
        first_index(s, is_sep) == i,
{
    lemma_first_index(s, is_sep);
}

/// A split has at least one piece, and no piece holds a separator.
pub proof fn lemma_split_pieces(s: Seq<char>, is_sep: spec_fn(char) -> bool)
    ensures
        split_by(s, is_sep).len() >= 1,
        forall|k: int, j: int|
            0 <= k < split_by(s, is_sep).len() && 0 <= j < split_by(s, is_sep)[k].len()
                ==> !is_sep(#[trigger] split_by(s, is_sep)[k][j]),
    decreases s.len(),
{
    lemma_first_index(s, is_sep);
    let i = first_index(s, is_sep);
    if 0 <= i < s.len() {
        lemma_split_pieces(s.skip(i + 1), is_sep);
        let rest = split_by(s.skip(i + 1), is_sep);
        assert forall|k: int, j: int|
            0 <= k < split_by(s, is_sep).len() && 0 <= j < split_by(s, is_sep)[k].len()
            implies !is_sep(#[trigger] split_by(s, is_sep)[k][j]) by {
            if k > 0 {
                assert(split_by(s, is_sep)[k] == rest[k - 1]);
            }
        }
    }
}

/// Joining a first piece and at least one more puts the separator after
/// the first piece and joins the rest behind it.
pub proof fn lemma_join_first(first: Seq<char>, rest: Seq<Seq<char>>, sep: Seq<char>)
    requires
        rest.len() >= 1,
    ensures
        join_with(seq![first] + rest, sep) == first + sep + join_with(rest, sep),
    decreases rest.len(),
{
    let all = seq![first] + rest;
    assert(all.last() == rest.last());
    if rest.len() == 1 {
        assert(all.drop_last() =~= seq![first]);
        assert(join_with(seq![first], sep) == first);
        assert(join_with(rest, sep) == rest[0]);
        assert(join_with(all, sep) =~= first + sep + join_with(rest, sep));
    } else {
        assert(all.drop_last() =~= seq![first] + rest.drop_last());
        lemma_join_first(first, rest.drop_last(), sep);
        assert(join_with(all, sep) =~= first + sep + join_with(rest, sep));
    }
}

/// Splitting at a character loses nothing: the pieces joined with that
/// character give the text back.
pub proof fn lemma_join_split(s: Seq<char>, sep: char)
    ensures
        join_with(split_on(s, sep), seq![sep]) == s,
    decreases s.len(),
{
    let is_sep = is_char(sep);
    lemma_first_index(s, is_sep);
    let i = first_index(s, is_sep);
    if 0 <= i < s.len() {
        let rest = split_by(s.skip(i + 1), is_sep);
        lemma_join_split(s.skip(i + 1), sep);
        lemma_split_pieces(s.skip(i + 1), is_sep);
        lemma_join_first(s.take(i), rest, seq![sep]);
        assert(s.take(i) + seq![sep] + s.skip(i + 1) =~= s);
    }
}

/// Joining loses nothing either: where there is at least one piece and no
/// piece holds the character, splitting the joined text gives the pieces back.
pub proof fn lemma_split_join(parts: Seq<Seq<char>>, sep: char)
    requires
        parts.len() >= 1,
        forall|k: int, j: int|
            0 <= k < parts.len() && 0 <= j < parts[k].len() ==> #[trigger] parts[k][j] != sep,
    ensures
        split_on(join_with(parts, seq![sep]), sep) == parts,
    decreases parts.len(),
{
    let is_sep = is_char(sep);
    let first = parts[0];
    let rest = parts.skip(1);
    let joined = join_with(parts, seq![sep]);
    assert(parts =~= seq![first] + rest);
    if rest.len() == 0 {
        assert(joined == first);
        assert forall|j: int| 0 <= j < first.len() implies !is_sep(first[j]) by {
            assert(parts[0][j] != sep);
        }
        lemma_first_index_is(first, is_sep, first.len() as int);
    } else {
        lemma_join_first(first, rest, seq![sep]);
        let tail = join_with(rest, seq![sep]);
        assert(joined == first + seq![sep] + tail);
        assert forall|j: int| 0 <= j < first.len() implies !is_sep(joined[j]) by {
            assert(parts[0][j] != sep);
        }
        lemma_first_index_is(joined, is_sep, first.len() as int);
        assert(joined.take(first.len() as int) =~= first);
        assert(joined.skip(first.len() as int + 1) =~= tail);
        assert forall|k: int, j: int|
            0 <= k < rest.len() && 0 <= j < rest[k].len() implies #[trigger] rest[k][j]
            != sep by {
            assert(parts[k + 1][j] != sep);
        }
        lemma_split_join(rest, sep);
    }
}

/// Splits `s` at every `sep`, as `str::split` does for a single character.
pub fn split(s: &str, sep: char) -> (parts: Vec<String>)
    ensures
        views(parts@) == split_on(s@, sep),
{
    let len: usize = s.unicode_len();
    let mut parts: Vec<String> = Vec::new();
    let mut start: usize = 0;
    let mut i: usize = 0;
    let ghost is_sep = is_char(sep);
    proof {
        assert(s@.skip(0) =~= s@);
        assert(views(parts@) + split_by(s@, is_sep) =~= split_by(s@, is_sep));
    }
    for c in it: s.chars()
        invariant
            it.seq() == s@,
            len == s@.len(),
            i == it.index(),
            0 <= start <= i <= len,
            is_sep == is_char(sep),
            forall|j: int| start <= j < i ==> s@[j] != sep,
            views(parts@) + split_by(s@.skip(start as int), is_sep) == split_by(s@, is_sep),
    {
        if c == sep {
            let piece = s.substring_char(start, i).to_owned();
            proof {
                let tail = s@.skip(start as int);
                lemma_first_index_is(tail, is_sep, i - start);
                assert(tail.take(i - start) =~= s@.subrange(start as int, i as int));
                assert(tail.skip(i - start + 1) =~= s@.skip(i + 1));
                assert(views(parts@.push(piece)) =~= views(parts@) + seq![piece@]);
            }
            parts.push(piece);
            start = i + 1;
        }
        i = i + 1;
    }
    let piece = s.substring_char(start, len).to_owned();
    proof {
        let tail = s@.skip(start as int);
        lemma_first_index_is(tail, is_sep, len - start);
        assert(tail =~= s@.subrange(start as int, len as int));
        assert(views(parts@.push(piece)) =~= views(parts@) + seq![piece@]);
    }
    parts.push(piece);
    parts
}

/// Whether `c` is white space: the code points with the Unicode property
/// `White_Space`, which is what `char::is_whitespace` tests.
pub open spec fn is_white_space(c: char) -> bool {
    let n = c as u32;
    ||| 0x09 <= n <= 0x0d
    ||| n == 0x20
    ||| n == 0x85
    ||| n == 0xa0
    ||| n == 0x1680
    ||| 0x2000 <= n <= 0x200a
    ||| n == 0x2028
    ||| n == 0x2029
    ||| n == 0x202f
    ||| n == 0x205f
    ||| n == 0x3000
}

/// Tells whether `c` is white space.
pub fn is_whitespace(c: char) -> (b: bool)
    ensures
        b == is_white_space(c),
{
    let n: u32 = c as u32;
    (0x09 <= n && n <= 0x0d) || n == 0x20 || n == 0x85 || n == 0xa0 || n == 0x1680 || (0x2000 <= n
        && n <= 0x200a) || n == 0x2028 || n == 0x2029 || n == 0x202f || n == 0x205f || n == 0x3000
}

/// The test that holds of white space.
pub open spec fn white_space() -> spec_fn(char) -> bool {
    |c: char| is_white_space(c)
}

/// The test that holds of the sequences that are not empty.
pub open spec fn filled() -> spec_fn(Seq<char>) -> bool {
    |piece: Seq<char>| piece.len() > 0
}

/// The words of `s`: its pieces between white space, without the empty ones.
pub open spec fn words(s: Seq<char>) -> Seq<Seq<char>> {
    split_by(s, white_space()).filter(filled())
}

/// Splits `s` into its words, as `str::split_whitespace` does.
pub fn split_whitespace(s: &str) -> (parts: Vec<String>)
    ensures
        views(parts@) == words(s@),
{
    let len: usize = s.unicode_len();
    let mut parts: Vec<String> = Vec::new();
    let mut start: usize = 0;
    let mut i: usize = 0;
    let ghost is_sep = white_space();
    let ghost mut pieces: Seq<Seq<char>> = Seq::empty();
    proof {
        reveal(Seq::filter);
        assert(s@.skip(0) =~= s@);
        assert(pieces + split_by(s@, is_sep) =~= split_by(s@, is_sep));
    }
    for c in it: s.chars()
        invariant
            it.seq() == s@,
            len == s@.len(),
            i == it.index(),
            0 <= start <= i <= len,
            is_sep == white_space(),
            forall|j: int| start <= j < i ==> !is_white_space(s@[j]),
            pieces + split_by(s@.skip(start as int), is_sep) == split_by(s@, is_sep),
            views(parts@) == pieces.filter(filled()),
    {
        if is_whitespace(c) {
            proof {
                let piece = s@.subrange(start as int, i as int);
                let tail = s@.skip(start as int);
                lemma_first_index_is(tail, is_sep, i - start);
                assert(tail.take(i - start) =~= piece);
                assert(tail.skip(i - start + 1) =~= s@.skip(i + 1));
                assert(pieces.push(piece) + split_by(s@.skip(i + 1), is_sep) =~= pieces + (seq![
                    piece,
                ] + split_by(s@.skip(i + 1), is_sep)));
                reveal(Seq::filter);
                assert(pieces.push(piece).drop_last() =~= pieces);
                pieces = pieces.push(piece);
            }
            if start < i {
                let word = s.substring_char(start, i).to_owned();
                proof {
                    assert(views(parts@.push(word)) =~= views(parts@).push(word@));
                }
                parts.push(word);
            }
            start = i + 1;
        }
        i = i + 1;
    }
    proof {
        let piece = s@.subrange(start as int, len as int);
        let tail = s@.skip(start as int);
        lemma_first_index_is(tail, is_sep, len - start);
        assert(tail =~= piece);
        assert(pieces.push(piece) =~= pieces + seq![piece]);
        reveal(Seq::filter);
        assert(pieces.push(piece).drop_last() =~= pieces);
    }
    if start < len {
        let word = s.substring_char(start, len).to_owned();
        proof {
            assert(views(parts@.push(word)) =~= views(parts@).push(word@));
        }
        parts.push(word);
    }
    parts
}

/// Writes the strings of `parts` one after another with `sep` between them.
pub fn join(parts: &Vec<String>, sep: &str) -> (joined: String)
    ensures
        joined@ == join_with(views(parts@), sep@),
{
    let mut joined = String::new();
    let mut i: usize = 0;
    while i < parts.len()
        invariant
            0 <= i <= parts.len(),
            joined@ == join_with(views(parts@).take(i as int), sep@),
        decreases parts.len() - i,
    {
        if i > 0 {
            joined.append(sep);
        }
        joined.append(parts[i].as_str());
        proof {
            let next = views(parts@).take(i + 1);
            assert(next.drop_last() =~= views(parts@).take(i as int));
            assert(next.last() == parts[i as int]@);
            assert(joined@ =~= join_with(next, sep@));
        }
        i = i + 1;
    }
    proof {
        assert(views(parts@).take(i as int) =~= views(parts@));
    }
    joined
}

/// `line` with every space character taken out.
pub open spec fn without_spaces(line: Seq<char>) -> Seq<char> {
    line.filter(|c: char| c != ' ')
}

/// A line is a comment when, spaces taken out, it begins with `#`.
pub open spec fn is_comment(line: Seq<char>) -> bool {
    without_spaces(line).len() > 0 && without_spaces(line)[0] == '#'
}

/// What `without_spaces` keeps of a line whose first `i` characters are spaces:
/// nothing where `i` is the length, else something that starts with `line[i]`.
pub proof fn lemma_leading_spaces(line: Seq<char>, i: int)
    requires
        0 <= i <= line.len(),
        forall|j: int| 0 <= j < i ==> line[j] == ' ',
        i < line.len() ==> line[i] != ' ',
    ensures
        i == line.len() ==> without_spaces(line).len() == 0,
        i < line.len() ==> without_spaces(line).len() > 0 && without_spaces(line)[0] == line[i],
{
    let keep = |c: char| c != ' ';
    let head = line.take(i);
    let tail = line.skip(i);
    assert(line =~= head + tail);
    Seq::filter_distributes_over_add(head, tail, keep);
    assert(head.filter(keep).len() == 0) by {
        if head.filter(keep).len() > 0 {
            head.lemma_filter_pred(keep, 0);
            head.lemma_filter_contains_rev(keep, head.filter(keep)[0]);
        }
    }
    assert(head.filter(keep) + tail.filter(keep) =~= tail.filter(keep));
    if i < line.len() {
        let one = seq![line[i]];
        let rest = tail.skip(1);
        assert(tail =~= one + rest);
        Seq::filter_distributes_over_add(one, rest, keep);
        assert(one.filter(keep) =~= one) by {
            reveal_with_fuel(Seq::filter, 2);
            assert(one.drop_last() =~= Seq::<char>::empty());
        }
    } else {
        assert(tail =~= Seq::<char>::empty());
        tail.lemma_filter_len(keep);
    }
}

/// Tells whether `line` is a comment.
pub fn is_comment_line(line: &str) -> (b: bool)
    ensures
        b == is_comment(line@),
{
    let mut i: usize = 0;
    let len: usize = line.unicode_len();
    for c in it: line.chars()
        invariant
            it.seq() == line@,
            len == line@.len(),
            i == it.index(),
            i <= len,
            forall|j: int| 0 <= j < i ==> line@[j] == ' ',
    {
        if c != ' ' {
            proof {
                lemma_leading_spaces(line@, i as int);
            }
            return c == '#';
        }
        i = i + 1;
    }
    proof {
        lemma_leading_spaces(line@, len as int);
    }
    false
}

/// A copy of every string of `v`, in order.
pub fn copy_all(v: &Vec<String>) -> (copy: Vec<String>)
    ensures
        views(copy@) == views(v@),
{
    let mut copy: Vec<String> = Vec::new();
    let mut i: usize = 0;
    while i < v.len()
        invariant
            0 <= i <= v.len(),
            copy@.len() == i,
            views(copy@) == views(v@).take(i as int),
        decreases v.len() - i,
    {
        let item = v[i].clone();
        proof {
            let grown = views(copy@.push(item));
            assert forall|j: int| 0 <= j < i + 1 implies grown[j] == views(v@)[j] by {
                if j < i {
                    assert(views(copy@)[j] == views(v@).take(i as int)[j]);
                }
            }
            assert(grown =~= views(v@).take(i + 1));
        }
        copy.push(item);
        i = i + 1;
    }
    proof {
        assert(views(v@).take(i as int) =~= views(v@));
    }
    copy
}

} // verus!
