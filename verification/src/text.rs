//! Strings as sequences of characters: the operations that the rest of the
//! library needs, each with its meaning over `Seq<char>`.
use vstd::prelude::*;
use vstd::string::*;

verus! {

broadcast use vstd::seq_lib::group_seq_properties;

/// The text of each string of a list.
pub open spec fn texts(v: Seq<String>) -> Seq<Seq<char>> {
    Seq::new(v.len(), |i: int| v[i]@)
}

/// Characters with the Unicode property `White_Space`.
pub open spec fn is_whitespace_spec(c: char) -> bool {
    ||| '\u{9}' <= c <= '\u{d}'
    ||| c == ' '
    ||| c == '\u{85}'
    ||| c == '\u{a0}'
    ||| c == '\u{1680}'
    ||| '\u{2000}' <= c <= '\u{200a}'
    ||| c == '\u{2028}'
    ||| c == '\u{2029}'
    ||| c == '\u{202f}'
    ||| c == '\u{205f}'
    ||| c == '\u{3000}'
}

/// Tells whether `c` is white space.
pub fn is_whitespace(c: char) -> (b: bool)
    ensures
        b == is_whitespace_spec(c),
{
    ('\u{9}' <= c && c <= '\u{d}') || c == ' ' || c == '\u{85}' || c == '\u{a0}' || c == '\u{1680}'
        || ('\u{2000}' <= c && c <= '\u{200a}') || c == '\u{2028}' || c == '\u{2029}' || c
        == '\u{202f}' || c == '\u{205f}' || c == '\u{3000}'
}

/// `String::push` of std: puts one character at the end.
pub assume_specification[ String::push ](s: &mut String, c: char)
    ensures
        final(s)@ == old(s)@.push(c),
;

/// What std's `{:?}` writes for a string: the text between quotes, with the
/// escapes that `str::escape_debug` gives.
pub uninterp spec fn debug_quoted(s: Seq<char>) -> Seq<char>;

/// A text of printable ASCII characters without quotation marks and backslashes.
pub open spec fn is_plain_ascii(s: Seq<char>) -> bool {
    forall|i: int|
        0 <= i < s.len() ==> ' ' <= #[trigger] s[i] <= '~' && s[i] != '"' && s[i] != '\'' && s[i]
            != '\\'
}

/// Formats a string with std's `{:?}`; the result is a function of the text
/// alone, and of printable ASCII text without quotation marks and backslashes it
/// is that text between quotation marks.
#[verifier::external_body]
pub(crate) fn debug_text(s: &str) -> (r: String)
    ensures
        r@ == debug_quoted(s@),
        is_plain_ascii(s@) ==> r@ == "\""@ + s@ + "\""@,
{
    format!("{s:?}")
}

/// The Unicode lower-case form of a text, as `str::to_lowercase` of std gives it.
pub uninterp spec fn lowercase(s: Seq<char>) -> Seq<char>;

/// Calls `str::to_lowercase` of std; the result is a function of the text
/// alone, and of ASCII text it is the text with its letters in lower case.
#[verifier::external_body]
pub(crate) fn to_lowercase(s: &str) -> (r: String)
    ensures
        r@ == lowercase(s@),
        vstd::utf8::is_ascii_chars(s@) ==> r@ == ascii_lower_spec(s@),
{
    s.to_lowercase()
}

/// The Unicode upper-case form of a text, as `str::to_uppercase` of std gives it.
pub uninterp spec fn uppercase(s: Seq<char>) -> Seq<char>;

/// Calls `str::to_uppercase` of std; the result is a function of the text
/// alone, and of ASCII text it is the text with its letters in upper case.
#[verifier::external_body]
pub(crate) fn to_uppercase(s: &str) -> (r: String)
    ensures
        r@ == uppercase(s@),
        vstd::utf8::is_ascii_chars(s@) ==> r@ == ascii_upper_spec(s@),
{
    s.to_uppercase()
}

/// Tells whether two strings hold the same text.
pub fn str_eq(a: &str, b: &str) -> (r: bool)
    ensures
        r == (a@ == b@),
{
    a.to_owned() == b.to_owned()
}

/// The characters of a string.
pub fn chars_of(s: &str) -> (v: Vec<char>)
    ensures
        v@ == s@,
{
    let mut v: Vec<char> = Vec::new();
    for c in it: s.chars()
        invariant
            it.seq() == s@,
            v@ == s@.take(it.index()),
    {
        v.push(c);
        assert(s@.take(it.index() + 1) =~= s@.take(it.index()).push(c));
    }
    assert(s@.take(s@.len() as int) =~= s@);
    v
}

/// The string that holds the given characters.
pub fn string_of(v: &[char]) -> (s: String)
    ensures
        s@ == v@,
{
    let mut s = String::new();
    let mut i: usize = 0;
    while i < v.len()
        invariant
            i <= v@.len(),
            s@ == v@.take(i as int),
        decreases v@.len() - i,
    {
        s.push(v[i]);
        i = i + 1;
        assert(v@.take(i as int) =~= v@.take(i - 1).push(v@[i - 1]));
    }
    assert(v@.take(v@.len() as int) =~= v@);
    s
}

/// The string that holds the characters `from..to` of `v`.
pub fn substring_of(v: &Vec<char>, from: usize, to: usize) -> (s: String)
    requires
        from <= to <= v@.len(),
    ensures
        s@ == v@.subrange(from as int, to as int),
{
    let mut s = String::new();
    let mut i: usize = from;
    while i < to
        invariant
            from <= i <= to <= v@.len(),
            s@ == v@.subrange(from as int, i as int),
        decreases to - i,
    {
        s.push(v[i]);
        i = i + 1;
        assert(v@.subrange(from as int, i as int) =~= v@.subrange(from as int, i - 1).push(
            v@[i - 1],
        ));
    }
    s
}

/// Tells whether the list holds the text `s`.
pub fn list_contains(v: &Vec<String>, s: &str) -> (r: bool)
    ensures
        r == texts(v@).contains(s@),
{
    let mut i: usize = 0;
    while i < v.len()
        invariant
            i <= v@.len(),
            forall|k: int| 0 <= k < i ==> texts(v@)[k] != s@,
        decreases v@.len() - i,
    {
        if str_eq(v[i].as_str(), s) {
            assert(texts(v@)[i as int] == s@);
            return true;
        }
        i = i + 1;
    }
    false
}

/// Copies a list of strings.
pub fn clone_strings(v: &Vec<String>) -> (r: Vec<String>)
    ensures
        texts(r@) == texts(v@),
        r@ == v@,
{
    let mut r: Vec<String> = Vec::new();
    let mut i: usize = 0;
    while i < v.len()
        invariant
            i <= v@.len(),
            r@ == v@.take(i as int),
        decreases v@.len() - i,
    {
        r.push(v[i].clone());
        i = i + 1;
        assert(v@.take(i as int) =~= v@.take(i - 1).push(v@[i - 1]));
    }
    assert(v@.take(v@.len() as int) =~= v@);
    r
}

/// Tells whether `s` begins with `prefix`.
pub fn starts_with(s: &str, prefix: &str) -> (r: bool)
    ensures
        r == prefix@.is_prefix_of(s@),
{
    let v = chars_of(s);
    let p = chars_of(prefix);
    if p.len() > v.len() {
        return false;
    }
    let mut i: usize = 0;
    while i < p.len()
        invariant
            v@ == s@,
            p@ == prefix@,
            i <= p@.len() <= v@.len(),
            forall|k: int| 0 <= k < i ==> p@[k] == v@[k],
        decreases p@.len() - i,
    {
        if p[i] != v[i] {
            assert(v@.subrange(0, p@.len() as int)[i as int] != p@[i as int]);
            return false;
        }
        i = i + 1;
    }
    assert(p@ =~= v@.subrange(0, p@.len() as int));
    true
}

/// Tells whether `s` ends with `suffix`.
pub fn ends_with(s: &str, suffix: &str) -> (r: bool)
    ensures
        r == suffix@.is_suffix_of(s@),
{
    let v = chars_of(s);
    let p = chars_of(suffix);
    if p.len() > v.len() {
        return false;
    }
    let d: usize = v.len() - p.len();
    let mut i: usize = 0;
    while i < p.len()
        invariant
            v@ == s@,
            p@ == suffix@,
            i <= p.len() <= v.len(),
            d == v.len() - p.len(),
            forall|k: int| 0 <= k < i ==> p@[k] == v@[d + k],
        decreases p@.len() - i,
    {
        if p[i] != v[d + i] {
            assert(v@.subrange(d as int, v@.len() as int)[i as int] != p@[i as int]);
            return false;
        }
        i = i + 1;
    }
    assert(p@ =~= v@.subrange(d as int, v@.len() as int));
    true
}

/// What is left of `s` behind `prefix`, where `s` begins with it.
pub fn strip_prefix(s: &str, prefix: &str) -> (r: Option<String>)
    ensures
        match r {
            Some(rest) => prefix@.is_prefix_of(s@) && rest@ == s@.skip(prefix@.len() as int),
            None => !prefix@.is_prefix_of(s@),
        },
{
    if starts_with(s, prefix) {
        let v = chars_of(s);
        let n: usize = prefix.unicode_len();
        let rest = substring_of(&v, n, v.len());
        assert(v@.subrange(n as int, v@.len() as int) =~= s@.skip(n as int));
        Some(rest)
    } else {
        None
    }
}

/// What is left of `s` before `suffix`, where `s` ends with it.
pub fn strip_suffix(s: &str, suffix: &str) -> (r: Option<String>)
    ensures
        match r {
            Some(rest) => suffix@.is_suffix_of(s@) && rest@ == s@.take(s@.len() - suffix@.len()),
            None => !suffix@.is_suffix_of(s@),
        },
{
    if ends_with(s, suffix) {
        let v = chars_of(s);
        let n: usize = suffix.unicode_len();
        let rest = substring_of(&v, 0, v.len() - n);
        assert(v@.subrange(0, v@.len() - n) =~= s@.take(v@.len() - n));
        Some(rest)
    } else {
        None
    }
}

/// Tells whether the character `c` occurs in `s`.
pub fn contains_char(s: &str, c: char) -> (r: bool)
    ensures
        r == s@.contains(c),
{
    let v = chars_of(s);
    let mut i: usize = 0;
    while i < v.len()
        invariant
            v@ == s@,
            i <= v@.len(),
            forall|k: int| 0 <= k < i ==> v@[k] != c,
        decreases v@.len() - i,
    {
        if v[i] == c {
            return true;
        }
        i = i + 1;
    }
    false
}

/// The text `needle` stands in `s` at the position `i`.
pub open spec fn occurs_at(s: Seq<char>, needle: Seq<char>, i: int) -> bool {
    &&& 0 <= i
    &&& i + needle.len() <= s.len()
    &&& s.subrange(i, i + needle.len()) == needle
}

/// The text `needle` stands somewhere in `s`.
pub open spec fn contains_text(s: Seq<char>, needle: Seq<char>) -> bool {
    exists|i: int| occurs_at(s, needle, i)
}

/// The position at which `needle` first stands in `s`.
pub fn find_str(s: &str, needle: &str) -> (r: Option<usize>)
    ensures
        match r {
            Some(i) => occurs_at(s@, needle@, i as int) && forall|k: int|
                0 <= k < i ==> !occurs_at(s@, needle@, k),
            None => !contains_text(s@, needle@),
        },
{
    let v = chars_of(s);
    let p = chars_of(needle);
    if p.len() > v.len() {
        return None;
    }
    let last: usize = v.len() - p.len();
    let mut i: usize = 0;
    while i <= last
        invariant
            v@ == s@,
            p@ == needle@,
            last == v.len() - p.len(),
            i <= last + 1,
            forall|k: int| 0 <= k < i ==> !occurs_at(s@, needle@, k),
        decreases last + 1 - i,
    {
        let mut j: usize = 0;
        let mut same = true;
        while j < p.len() && same
            invariant
                v@ == s@,
                p@ == needle@,
                j <= p@.len(),
                i <= last,
                last == v.len() - p.len(),
                same ==> forall|k: int| 0 <= k < j ==> p@[k] == v@[i + k],
                !same ==> exists|k: int| 0 <= k < p@.len() && p@[k] != v@[i + k],
            decreases p@.len() - j, (if same { 1int } else { 0int }),
        {
            if p[j] != v[i + j] {
                assert(p@[j as int] != v@[i + j]);
                same = false;
            } else {
                j = j + 1;
            }
        }
        if same {
            assert(s@.subrange(i as int, i + p@.len()) =~= p@);
            return Some(i);
        }
        assert(!occurs_at(s@, needle@, i as int)) by {
            let k = choose|k: int| 0 <= k < p@.len() && p@[k] != v@[i + k];
            assert(s@.subrange(i as int, i + p@.len())[k] == v@[i + k]);
        }
        if i == last {
            return None;
        }
        i = i + 1;
    }
    None
}

/// Tells whether the text `needle` stands in `s`.
pub fn contains_str(s: &str, needle: &str) -> (r: bool)
    ensures
        r == contains_text(s@, needle@),
{
    match find_str(s, needle) {
        Some(_) => true,
        None => false,
    }
}

/// The pieces of `s` between the occurrences of `c`: one more than there are
/// occurrences.
pub open spec fn split_spec(s: Seq<char>, c: char) -> Seq<Seq<char>>
    decreases s.len(),
{
    if s.len() == 0 {
        seq![Seq::<char>::empty()]
    } else {
        let before = split_spec(s.drop_last(), c);
        if s.last() == c {
            before.push(Seq::<char>::empty())
        } else {
            before.drop_last().push(before.last().push(s.last()))
        }
    }
}

/// There is always a first piece.
pub proof fn lemma_split_nonempty(s: Seq<char>, c: char)
    ensures
        split_spec(s, c).len() >= 1,
    decreases s.len(),
{
    if s.len() > 0 {
        lemma_split_nonempty(s.drop_last(), c);
    }
}

/// The first piece is what stands before the first `c`, the whole text where
/// there is none.
pub proof fn lemma_first_part(s: Seq<char>, c: char)
    ensures
        ({
            let first = split_spec(s, c)[0];
            &&& first.len() <= s.len()
            &&& first == s.take(first.len() as int)
            &&& !first.contains(c)
            &&& first.len() < s.len() ==> s[first.len() as int] == c
            &&& first.len() == s.len() <==> split_spec(s, c).len() == 1
        }),
    decreases s.len(),
{
    if s.len() > 0 {
        let init = s.drop_last();
        let before = split_spec(init, c);
        let first = split_spec(s, c)[0];
        lemma_split_nonempty(init, c);
        lemma_first_part(init, c);
        if s.last() != c && before.len() == 1 {
            assert(before[0] =~= init);
            assert(first =~= s);
            assert forall|i: int| 0 <= i < first.len() implies first[i] != c by {
                if i < init.len() {
                    assert(before[0][i] == init[i]);
                    assert(before[0].contains(init[i]));
                }
            }
        } else {
            assert(first == before[0]);
            assert(first =~= s.take(first.len() as int));
        }
    }
}

/// What stands before the first separator is the first piece.
pub proof fn lemma_first_part_is(first: Seq<char>, c: char, rest: Seq<char>)
    requires
        !first.contains(c),
    ensures
        split_spec(first.push(c) + rest, c)[0] == first,
{
    let s = first.push(c) + rest;
    let part = split_spec(s, c)[0];
    lemma_first_part(s, c);
    assert(s[first.len() as int] == c);
    if part.len() < first.len() {
        assert(s[part.len() as int] == first[part.len() as int]);
        assert(first.contains(first[part.len() as int]));
    } else if part.len() > first.len() {
        assert(part[first.len() as int] == c);
        assert(part.contains(part[first.len() as int]));
    } else {
        assert(part =~= first);
    }
}

/// What a split gives, put together again with the separator, is the text, and
/// no piece holds the separator.
pub proof fn law_split_is_undone_by_join(s: Seq<char>, c: char)
    ensures
        join_spec(split_spec(s, c), seq![c]) == s,
        forall|i: int| 0 <= i < split_spec(s, c).len() ==> !(#[trigger] split_spec(s, c)[i]).contains(c),
    decreases s.len(),
{
    let all = split_spec(s, c);
    if s.len() > 0 {
        let init = s.drop_last();
        let before = split_spec(init, c);
        lemma_split_nonempty(init, c);
        law_split_is_undone_by_join(init, c);
        if s.last() == c {
            assert(all.drop_last() =~= before);
            assert(join_spec(all, seq![c]) =~= init + seq![c]);
            assert(s =~= init + seq![c]);
            assert forall|i: int| 0 <= i < all.len() implies !(#[trigger] all[i]).contains(c) by {
                if i < before.len() {
                    assert(all[i] == before[i]);
                }
            }
        } else {
            assert(all.drop_last() =~= before.drop_last());
            assert(all.last() == before.last().push(s.last()));
            if before.len() == 1 {
                assert(join_spec(all, seq![c]) =~= s);
            } else {
                assert(join_spec(before, seq![c]) == join_spec(before.drop_last(), seq![c])
                    + seq![c] + before.last());
                assert(join_spec(all, seq![c]) == join_spec(all.drop_last(), seq![c]) + seq![c]
                    + all.last());
                assert(join_spec(all, seq![c]) =~= init.push(s.last()));
            }
            assert forall|i: int| 0 <= i < all.len() implies !(#[trigger] all[i]).contains(c) by {
                if i < before.len() - 1 {
                    assert(all[i] == before[i]);
                } else {
                    assert(!before[before.len() - 1].contains(c));
                    assert forall|k: int| 0 <= k < all[i].len() implies all[i][k] != c by {
                        if k < before.last().len() {
                            assert(before.last().contains(before.last()[k]));
                        }
                    }
                }
            }
        }
    } else {
        assert(join_spec(all, seq![c]) =~= s);
    }
}

/// Splits `s` at each occurrence of `c`.
pub fn split_char(s: &str, c: char) -> (r: Vec<String>)
    ensures
        texts(r@) == split_spec(s@, c),
{
    let v = chars_of(s);
    let mut r: Vec<String> = Vec::new();
    let mut current = String::new();
    let mut i: usize = 0;
    assert(texts(r@).push(current@) =~= split_spec(v@.take(0), c));
    while i < v.len()
        invariant
            i <= v@.len(),
            texts(r@).push(current@) == split_spec(v@.take(i as int), c),
        decreases v@.len() - i,
    {
        let ghost before = texts(r@).push(current@);
        assert(v@.take(i + 1).drop_last() =~= v@.take(i as int));
        assert(before.drop_last() =~= texts(r@));
        if v[i] == c {
            r.push(current);
            current = String::new();
            assert(texts(r@) =~= before);
        } else {
            current.push(v[i]);
        }
        i = i + 1;
    }
    assert(v@.take(v@.len() as int) =~= v@);
    r.push(current);
    assert(texts(r@) =~= split_spec(s@, c));
    r
}

/// The parts with `sep` between each two of them.
pub open spec fn join_spec(parts: Seq<Seq<char>>, sep: Seq<char>) -> Seq<char>
    decreases parts.len(),
{
    if parts.len() == 0 {
        Seq::empty()
    } else if parts.len() == 1 {
        parts[0]
    } else {
        join_spec(parts.drop_last(), sep) + sep + parts.last()
    }
}

/// Puts the parts together with `sep` between each two of them.
pub fn join(parts: &Vec<String>, sep: &str) -> (r: String)
    ensures
        r@ == join_spec(texts(parts@), sep@),
{
    let mut r = String::new();
    let mut i: usize = 0;
    while i < parts.len()
        invariant
            i <= parts@.len(),
            r@ == join_spec(texts(parts@).take(i as int), sep@),
        decreases parts@.len() - i,
    {
        if i > 0 {
            r.append(sep);
        }
        r.append(parts[i].as_str());
        assert(texts(parts@).take(i + 1).drop_last() =~= texts(parts@).take(i as int));
        assert(texts(parts@).take(i + 1).last() == parts@[i as int]@);
        if i == 0 {
            assert(Seq::<char>::empty() + parts@[0]@ =~= parts@[0]@);
        }
        i = i + 1;
    }
    assert(texts(parts@).take(parts@.len() as int) =~= texts(parts@));
    r
}

/// `s` without the white space at its start.
pub open spec fn trim_start_spec(s: Seq<char>) -> Seq<char>
    decreases s.len(),
{
    if s.len() > 0 && is_whitespace_spec(s[0]) {
        trim_start_spec(s.skip(1))
    } else {
        s
    }
}

/// `s` without the white space at its end.
pub open spec fn trim_end_spec(s: Seq<char>) -> Seq<char>
    decreases s.len(),
{
    if s.len() > 0 && is_whitespace_spec(s.last()) {
        trim_end_spec(s.drop_last())
    } else {
        s
    }
}

/// `s` without the white space at its two ends.
pub open spec fn trim_spec(s: Seq<char>) -> Seq<char> {
    trim_end_spec(trim_start_spec(s))
}

/// What is left ends in no white space and is a beginning of `s`, and it has the
/// first character of `s` unless that is white space.
pub proof fn lemma_trim_end(s: Seq<char>)
    ensures
        trim_end_spec(s).len() <= s.len(),
        trim_end_spec(s) == s.take(trim_end_spec(s).len() as int),
        trim_end_spec(trim_end_spec(s)) == trim_end_spec(s),
        s.len() > 0 && !is_whitespace_spec(s[0]) ==> trim_end_spec(s).len() > 0
            && trim_end_spec(s)[0] == s[0],
    decreases s.len(),
{
    if s.len() > 0 && is_whitespace_spec(s.last()) {
        lemma_trim_end(s.drop_last());
        let n = trim_end_spec(s).len() as int;
        assert(s.drop_last().take(n) =~= s.take(n));
    } else {
        assert(s.take(s.len() as int) =~= s);
    }
}

/// What is left begins with no white space.
pub proof fn lemma_trim_start(s: Seq<char>)
    ensures
        trim_start_spec(s).len() > 0 ==> !is_whitespace_spec(trim_start_spec(s)[0]),
        trim_start_spec(trim_start_spec(s)) == trim_start_spec(s),
    decreases s.len(),
{
    if s.len() > 0 && is_whitespace_spec(s[0]) {
        lemma_trim_start(s.skip(1));
    }
}

/// A character before a text stays where something of the text stays.
pub proof fn lemma_trim_end_behind(x: char, s: Seq<char>)
    ensures
        trim_end_spec(seq![x] + s) == (if trim_end_spec(s).len() == 0 {
            trim_end_spec(seq![x])
        } else {
            seq![x] + trim_end_spec(s)
        }),
    decreases s.len(),
{
    let t = seq![x] + s;
    if s.len() == 0 {
        assert(t =~= seq![x]);
    } else {
        assert(t.last() == s.last());
        if is_whitespace_spec(s.last()) {
            assert(t.drop_last() =~= seq![x] + s.drop_last());
            lemma_trim_end_behind(x, s.drop_last());
        }
    }
}

/// It does not matter at which end the white space is taken away first.
pub proof fn lemma_trim_commutes(s: Seq<char>)
    ensures
        trim_start_spec(trim_end_spec(s)) == trim_end_spec(trim_start_spec(s)),
    decreases s.len(),
{
    if s.len() > 0 {
        if is_whitespace_spec(s[0]) {
            let rest = s.skip(1);
            lemma_trim_commutes(rest);
            lemma_trim_end_behind(s[0], rest);
            assert(seq![s[0]] + rest =~= s);
            let kept = trim_end_spec(rest);
            if kept.len() == 0 {
                reveal_with_fuel(trim_end_spec, 2);
                assert(seq![s[0]].last() == s[0]);
                assert(seq![s[0]].drop_last() =~= Seq::empty());
                assert(trim_end_spec(seq![s[0]]) =~= Seq::empty());
                assert(kept =~= Seq::empty());
            } else {
                assert((seq![s[0]] + kept).skip(1) =~= kept);
            }
        } else {
            lemma_trim_end(s);
        }
    }
}

/// Trimmed text stays as it is, and so does what trims the end first.
pub proof fn lemma_trim_again(s: Seq<char>)
    ensures
        trim_spec(trim_spec(s)) == trim_spec(s),
        trim_spec(trim_end_spec(s)) == trim_spec(s),
{
    lemma_trim_commutes(s);
    lemma_trim_start(s);
    lemma_trim_end(trim_start_spec(s));
    lemma_trim_commutes(trim_start_spec(s));
}

/// A text without a separator is one piece.
pub proof fn lemma_split_whole(s: Seq<char>, c: char)
    requires
        !s.contains(c),
    ensures
        split_spec(s, c) == seq![s],
    decreases s.len(),
{
    if s.len() == 0 {
        assert(s =~= Seq::empty());
    } else {
        assert(s.contains(s.last()));
        assert forall|x: char| s.drop_last().contains(x) implies s.contains(x) by {
            let i = choose|i: int| 0 <= i < s.drop_last().len() && s.drop_last()[i] == x;
            assert(s[i] == x);
        }
        lemma_split_whole(s.drop_last(), c);
        assert(s.drop_last().push(s.last()) =~= s);
        assert(split_spec(s, c) =~= seq![s]);
    }
}

/// A separator and a text without one behind `s` make one more piece.
pub proof fn lemma_split_add(s: Seq<char>, c: char, t: Seq<char>)
    requires
        !t.contains(c),
    ensures
        split_spec(s.push(c) + t, c) == split_spec(s, c).push(t),
    decreases t.len(),
{
    let whole = s.push(c) + t;
    if t.len() == 0 {
        assert(whole =~= s.push(c));
        assert(whole.drop_last() =~= s);
        assert(t =~= Seq::empty());
    } else {
        assert(t.contains(t.last()));
        assert forall|x: char| t.drop_last().contains(x) implies t.contains(x) by {
            let i = choose|i: int| 0 <= i < t.drop_last().len() && t.drop_last()[i] == x;
            assert(t[i] == x);
        }
        lemma_split_add(s, c, t.drop_last());
        assert(whole.drop_last() =~= s.push(c) + t.drop_last());
        assert(whole.last() == t.last());
        let before = split_spec(s, c).push(t.drop_last());
        assert(before.drop_last() =~= split_spec(s, c));
        assert(t.drop_last().push(t.last()) =~= t);
    }
}

/// What a join gives, split at the separator, are the parts again, as long as no
/// part holds the separator.
pub proof fn law_join_is_undone_by_split(parts: Seq<Seq<char>>, c: char)
    requires
        parts.len() > 0,
        forall|i: int| 0 <= i < parts.len() ==> !(#[trigger] parts[i]).contains(c),
    ensures
        split_spec(join_spec(parts, seq![c]), c) == parts,
    decreases parts.len(),
{
    assert(!parts[parts.len() - 1].contains(c));
    if parts.len() == 1 {
        lemma_split_whole(parts[0], c);
        assert(parts =~= seq![parts[0]]);
    } else {
        let init = parts.drop_last();
        assert forall|i: int| 0 <= i < init.len() implies !(#[trigger] init[i]).contains(c) by {
            assert(!parts[i].contains(c));
        }
        law_join_is_undone_by_split(init, c);
        lemma_split_add(join_spec(init, seq![c]), c, parts.last());
        assert(join_spec(init, seq![c]).push(c) + parts.last() =~= join_spec(parts, seq![c]));
        assert(init.push(parts.last()) =~= parts);
    }
}

/// Where a text stands in a part of another, it stands in the whole.
pub proof fn lemma_part_occurs(before: Seq<char>, part: Seq<char>, behind: Seq<char>)
    ensures
        contains_text(before + part + behind, part),
{
    let whole = before + part + behind;
    assert(whole.subrange(before.len() as int, (before.len() + part.len()) as int) =~= part);
    assert(occurs_at(whole, part, before.len() as int));
}

/// No text of the list takes more bytes, and a list of some of them needs no
/// more.
pub proof fn lemma_max_bytes(list: Seq<Seq<char>>, other: Seq<Seq<char>>)
    requires
        forall|i: int| 0 <= i < list.len() ==> other.contains(#[trigger] list[i]),
    ensures
        max_bytes(list) <= max_bytes(other),
    decreases list.len(),
{
    if list.len() > 0 {
        assert forall|i: int| 0 <= i < list.drop_last().len() implies other.contains(
            #[trigger] list.drop_last()[i],
        ) by {
            assert(list.drop_last()[i] == list[i]);
        }
        lemma_max_bytes(list.drop_last(), other);
        assert(other.contains(list[list.len() - 1]));
        let k = choose|k: int| 0 <= k < other.len() && other[k] == list.last();
        lemma_bytes_at(other, k);
    }
}

proof fn lemma_bytes_at(list: Seq<Seq<char>>, k: int)
    requires
        0 <= k < list.len(),
    ensures
        byte_len_spec(list[k]) <= max_bytes(list),
    decreases list.len(),
{
    if k < list.len() - 1 {
        lemma_bytes_at(list.drop_last(), k);
    }
}

/// Takes the white space away at both ends of `s`.
pub fn trim(s: &str) -> (r: String)
    ensures
        r@ == trim_spec(s@),
{
    let v = chars_of(s);
    let mut from: usize = 0;
    assert(v@.skip(0) =~= v@);
    while from < v.len() && is_whitespace(v[from])
        invariant
            from <= v@.len(),
            trim_start_spec(v@) == trim_start_spec(v@.skip(from as int)),
        decreases v@.len() - from,
    {
        assert(v@.skip(from as int).skip(1) =~= v@.skip(from + 1));
        from = from + 1;
    }
    assert(trim_start_spec(v@) == v@.skip(from as int));
    let mut to: usize = v.len();
    assert(v@.subrange(from as int, to as int) =~= v@.skip(from as int));
    while from < to && is_whitespace(v[to - 1])
        invariant
            from <= to <= v@.len(),
            trim_spec(v@) == trim_end_spec(v@.subrange(from as int, to as int)),
        decreases to,
    {
        assert(v@.subrange(from as int, to as int).drop_last() =~= v@.subrange(
            from as int,
            to - 1,
        ));
        to = to - 1;
    }
    substring_of(&v, from, to)
}

/// The lower-case form of an ASCII letter; any other character unchanged.
pub open spec fn ascii_lower_char(c: char) -> char {
    if 'A' <= c <= 'Z' {
        ((c as u8) + 32) as char
    } else {
        c
    }
}

/// The upper-case form of an ASCII letter; any other character unchanged.
pub open spec fn ascii_upper_char(c: char) -> char {
    if 'a' <= c <= 'z' {
        ((c as u8) - 32) as char
    } else {
        c
    }
}

/// `s` with its ASCII letters in lower case.
pub open spec fn ascii_lower_spec(s: Seq<char>) -> Seq<char> {
    Seq::new(s.len(), |i: int| ascii_lower_char(s[i]))
}

/// `s` with its ASCII letters in upper case.
pub open spec fn ascii_upper_spec(s: Seq<char>) -> Seq<char> {
    Seq::new(s.len(), |i: int| ascii_upper_char(s[i]))
}

/// Turns the ASCII letters of `s` to lower case.
pub fn to_ascii_lower(s: &str) -> (r: String)
    ensures
        r@ == ascii_lower_spec(s@),
{
    let v = chars_of(s);
    let mut r = String::new();
    let mut i: usize = 0;
    while i < v.len()
        invariant
            i <= v@.len(),
            r@ == ascii_lower_spec(v@.take(i as int)),
        decreases v@.len() - i,
    {
        let c = v[i];
        if 'A' <= c && c <= 'Z' {
            r.push(((c as u8) + 32) as char);
        } else {
            r.push(c);
        }
        i = i + 1;
        assert(ascii_lower_spec(v@.take(i as int)) =~= ascii_lower_spec(v@.take(i - 1)).push(
            ascii_lower_char(c),
        ));
    }
    assert(v@.take(v@.len() as int) =~= v@);
    r
}

/// Turns the ASCII letters of `s` to upper case.
pub fn to_ascii_upper(s: &str) -> (r: String)
    ensures
        r@ == ascii_upper_spec(s@),
{
    let v = chars_of(s);
    let mut r = String::new();
    let mut i: usize = 0;
    while i < v.len()
        invariant
            i <= v@.len(),
            r@ == ascii_upper_spec(v@.take(i as int)),
        decreases v@.len() - i,
    {
        let c = v[i];
        if 'a' <= c && c <= 'z' {
            r.push(((c as u8) - 32) as char);
        } else {
            r.push(c);
        }
        i = i + 1;
        assert(ascii_upper_spec(v@.take(i as int)) =~= ascii_upper_spec(v@.take(i - 1)).push(
            ascii_upper_char(c),
        ));
    }
    assert(v@.take(v@.len() as int) =~= v@);
    r
}

/// The decimal digit `d`.
pub open spec fn digit_char(d: nat) -> char {
    ('0' as int + d) as char
}

/// `n` in decimal notation.
pub open spec fn decimal_spec(n: nat) -> Seq<char>
    decreases n,
{
    if n < 10 {
        seq![digit_char(n)]
    } else {
        decimal_spec(n / 10).push(digit_char(n % 10))
    }
}

/// Writes `n` in decimal notation.
pub fn decimal(n: u128) -> (r: String)
    ensures
        r@ == decimal_spec(n as nat),
    decreases n,
{
    let mut r = if n < 10 {
        String::new()
    } else {
        decimal(n / 10)
    };
    let d: u8 = (n % 10) as u8;
    r.push((48 + d) as char);
    assert(r@ =~= decimal_spec(n as nat));
    r
}

/// `n` in decimal notation, with a minus sign where it is negative.
pub open spec fn signed_spec(n: int) -> Seq<char> {
    if n < 0 {
        seq!['-'] + decimal_spec((-n) as nat)
    } else {
        decimal_spec(n as nat)
    }
}

/// Writes `n` in decimal notation.
pub fn signed(n: i64) -> (r: String)
    ensures
        r@ == signed_spec(n as int),
{
    if n < 0 {
        let mut r = String::new();
        r.push('-');
        let m: i128 = 0 - (n as i128);
        r.append(decimal(m as u128).as_str());
        assert(r@ =~= signed_spec(n as int));
        r
    } else {
        decimal(n as u128)
    }
}

/// The character is a decimal digit.
pub open spec fn is_digit(c: char) -> bool {
    '0' <= c <= '9'
}

/// The text consists of decimal digits.
pub open spec fn all_digits(s: Seq<char>) -> bool {
    forall|i: int| 0 <= i < s.len() ==> is_digit(#[trigger] s[i])
}

/// The number that decimal digits stand for.
pub open spec fn digits_value(s: Seq<char>) -> nat
    decreases s.len(),
{
    if s.len() == 0 {
        0
    } else {
        digits_value(s.drop_last()) * 10 + (s.last() as int - '0' as int) as nat
    }
}

/// More digits make no smaller number.
proof fn lemma_digits_grow(s: Seq<char>, n: int)
    requires
        all_digits(s),
        0 <= n <= s.len(),
    ensures
        digits_value(s.take(n)) <= digits_value(s),
    decreases s.len(),
{
    if n < s.len() {
        assert(s.drop_last().take(n) =~= s.take(n));
        lemma_digits_grow(s.drop_last(), n);
    } else {
        assert(s.take(n) =~= s);
    }
}

/// The integer that a text stands for: an optional sign and decimal digits,
/// within the range of `i64`.
pub open spec fn parse_i64_spec(s: Seq<char>) -> Option<i64> {
    let signed = s.len() > 0 && (s[0] == '-' || s[0] == '+');
    let digits = if signed {
        s.skip(1)
    } else {
        s
    };
    let value = if signed && s[0] == '-' {
        -(digits_value(digits) as int)
    } else {
        digits_value(digits) as int
    };
    if digits.len() > 0 && all_digits(digits) && i64::MIN <= value <= i64::MAX {
        Some(value as i64)
    } else {
        None
    }
}

/// Reads an integer.
pub fn parse_i64(s: &str) -> (r: Option<i64>)
    ensures
        r == parse_i64_spec(s@),
{
    let v = chars_of(s);
    let negative = v.len() > 0 && v[0] == '-';
    let signed = negative || (v.len() > 0 && v[0] == '+');
    let from: usize = if signed {
        1
    } else {
        0
    };
    let ghost digits = if signed {
        s@.skip(1)
    } else {
        s@
    };
    if from == v.len() {
        return None;
    }
    let mut value: i128 = 0;
    let mut i: usize = from;
    assert(digits.take(0) =~= Seq::empty());
    while i < v.len()
        invariant
            v@ == s@,
            from <= i <= v@.len(),
            from == (if signed {
                1int
            } else {
                0int
            }),
            negative == (s@.len() > 0 && s@[0] == '-'),
            signed == (s@.len() > 0 && (s@[0] == '-' || s@[0] == '+')),
            digits == (if signed {
                s@.skip(1)
            } else {
                s@
            }),
            digits.len() == v@.len() - from,
            all_digits(digits.take(i - from)),
            value == digits_value(digits.take(i - from)),
            0 <= value <= 9223372036854775808,
        decreases v@.len() - i,
    {
        let c = v[i];
        let ghost n = i - from;
        assert(digits[n] == c);
        assert(digits.take(n + 1).drop_last() =~= digits.take(n));
        assert(digits.take(n + 1).last() == c);
        if c < '0' || c > '9' {
            assert(!is_digit(digits[n]));
            return None;
        }
        assert(all_digits(digits.take(n + 1))) by {
            assert forall|k: int| 0 <= k < n + 1 implies is_digit(
                #[trigger] digits.take(n + 1)[k],
            ) by {
                if k < n {
                    assert(digits.take(n + 1)[k] == digits.take(n)[k]);
                }
            }
        }
        let d: i128 = ((c as u32) - 48) as i128;
        value = value * 10 + d;
        if value > 9223372036854775808 {
            proof {
                if all_digits(digits) {
                    lemma_digits_grow(digits, n + 1);
                }
            }
            return None;
        }
        i = i + 1;
    }
    assert(digits.take(digits.len() as int) =~= digits);
    let value: i128 = if negative {
        0 - value
    } else {
        value
    };
    if value > 9223372036854775807 {
        None
    } else {
        Some(value as i64)
    }
}

/// `width - n` spaces, none where `n` is the larger.
pub open spec fn spaces(width: nat, n: nat) -> Seq<char> {
    Seq::new(
        if n < width {
            (width - n) as nat
        } else {
            0
        },
        |i: int| ' ',
    )
}

/// The number of bytes that a text takes in UTF-8.
pub open spec fn byte_len_spec(s: Seq<char>) -> nat {
    vstd::utf8::encode_utf8(s).len()
}

/// Counts the bytes of a text.
pub fn byte_len(s: &str) -> (n: usize)
    ensures
        n == byte_len_spec(s@),
{
    s.as_bytes().len()
}

/// The largest number of bytes that a text of the list takes.
pub open spec fn max_bytes(list: Seq<Seq<char>>) -> nat
    decreases list.len(),
{
    if list.len() == 0 {
        0
    } else {
        let before = max_bytes(list.drop_last());
        let last = byte_len_spec(list.last());
        if last > before {
            last
        } else {
            before
        }
    }
}

/// Finds the largest number of bytes that a text of the list takes.
pub fn widest(list: &Vec<String>) -> (n: usize)
    ensures
        n == max_bytes(texts(list@)),
{
    let ghost all = texts(list@);
    let mut n: usize = 0;
    let mut i: usize = 0;
    while i < list.len()
        invariant
            i <= list@.len(),
            all == texts(list@),
            n == max_bytes(all.take(i as int)),
        decreases list@.len() - i,
    {
        assert(all.take(i + 1).drop_last() =~= all.take(i as int));
        let len: usize = byte_len(list[i].as_str());
        if len > n {
            n = len;
        }
        i = i + 1;
    }
    assert(all.take(list@.len() as int) =~= all);
    n
}

/// `s` followed by spaces up to `width` characters; never cut.
pub open spec fn pad_spec(s: Seq<char>, width: nat) -> Seq<char> {
    s + spaces(width, s.len())
}

/// Puts spaces behind `s` until it has `width` characters.
pub fn pad(s: &str, width: usize) -> (r: String)
    ensures
        r@ == pad_spec(s@, width as nat),
{
    let mut r = s.to_owned();
    let mut n: usize = s.unicode_len();
    while n < width
        invariant
            s@.len() <= n,
            n <= width || n == s@.len(),
            r@ == s@ + Seq::new((n - s@.len()) as nat, |i: int| ' '),
        decreases width - n,
    {
        r.push(' ');
        n = n + 1;
        assert(r@ =~= s@ + Seq::new((n - s@.len()) as nat, |i: int| ' '));
    }
    assert(r@ =~= pad_spec(s@, width as nat));
    r
}

/// The character `c`, `n` times.
pub open spec fn repeated(c: char, n: nat) -> Seq<char> {
    Seq::new(n, |i: int| c)
}

/// Writes the character `c`, `n` times.
pub fn repeat(c: char, n: usize) -> (r: String)
    ensures
        r@ == repeated(c, n as nat),
{
    let mut r = String::new();
    let mut i: usize = 0;
    while i < n
        invariant
            i <= n,
            r@ =~= repeated(c, i as nat),
        decreases n - i,
    {
        r.push(c);
        i = i + 1;
    }
    r
}

/// `base` followed by those of `extra` that are not there yet.
pub open spec fn with_missing(base: Seq<Seq<char>>, extra: Seq<Seq<char>>) -> Seq<Seq<char>>
    decreases extra.len(),
{
    if extra.len() == 0 {
        base
    } else {
        let before = with_missing(base, extra.drop_last());
        if before.contains(extra.last()) {
            before
        } else {
            before.push(extra.last())
        }
    }
}

/// Adds those of `extra` that are not in the list yet.
pub fn add_missing(list: &mut Vec<String>, extra: &Vec<String>)
    ensures
        texts(final(list)@) == with_missing(texts(old(list)@), texts(extra@)),
{
    let ghost base = texts(list@);
    let ghost all = texts(extra@);
    let mut i: usize = 0;
    proof {
        assert(all.take(0) =~= Seq::empty());
    }
    while i < extra.len()
        invariant
            i <= extra@.len(),
            all == texts(extra@),
            base == texts(old(list)@),
            texts(list@) == with_missing(base, all.take(i as int)),
        decreases extra@.len() - i,
    {
        proof {
            assert(all.take(i + 1).drop_last() =~= all.take(i as int));
            assert(all.take(i + 1).last() == extra@[i as int]@);
        }
        if !list_contains(&*list, extra[i].as_str()) {
            let ghost before = list@;
            list.push(extra[i].clone());
            assert(texts(list@) =~= texts(before).push(extra@[i as int]@));
        }
        i = i + 1;
    }
    proof {
        assert(all.take(i as int) =~= all);
    }
}

/// Each of `wanted` is in `have`.
pub open spec fn covers(have: Seq<Seq<char>>, wanted: Seq<Seq<char>>) -> bool {
    forall|i: int| 0 <= i < wanted.len() ==> have.contains(#[trigger] wanted[i])
}

/// Tells whether each of `wanted` is in `have`.
pub fn list_covers(have: &Vec<String>, wanted: &Vec<String>) -> (r: bool)
    ensures
        r == covers(texts(have@), texts(wanted@)),
{
    let mut i: usize = 0;
    while i < wanted.len()
        invariant
            i <= wanted@.len(),
            forall|k: int| 0 <= k < i ==> texts(have@).contains(#[trigger] wanted@[k]@),
        decreases wanted@.len() - i,
    {
        if !list_contains(have, wanted[i].as_str()) {
            assert(!texts(have@).contains(texts(wanted@)[i as int]));
            return false;
        }
        i = i + 1;
    }
    true
}

/// The list with missing texts added covers what it was made from.
pub proof fn lemma_with_missing_covers(base: Seq<Seq<char>>, extra: Seq<Seq<char>>)
    ensures
        covers(with_missing(base, extra), base),
        covers(with_missing(base, extra), extra),
        forall|s: Seq<char>| #[trigger]
            with_missing(base, extra).contains(s) ==> base.contains(s) || extra.contains(s),
    decreases extra.len(),
{
    if extra.len() == 0 {
        assert forall|i: int| 0 <= i < base.len() implies base.contains(#[trigger] base[i]) by {
        }
    } else {
        let init = extra.drop_last();
        let before = with_missing(base, init);
        let r = with_missing(base, extra);
        lemma_with_missing_covers(base, init);
        assert forall|s: Seq<char>| before.contains(s) implies r.contains(s) by {
            let k = choose|k: int| 0 <= k < before.len() && before[k] == s;
            assert(r[k] == s);
        }
        assert forall|i: int| 0 <= i < base.len() implies r.contains(#[trigger] base[i]) by {
            assert(before.contains(base[i]));
        }
        assert forall|i: int| 0 <= i < extra.len() implies r.contains(#[trigger] extra[i]) by {
            if i < init.len() {
                assert(before.contains(init[i]));
            } else if !before.contains(extra.last()) {
                assert(r[before.len() as int] == extra.last());
            }
        }
        assert forall|s: Seq<char>| #[trigger] r.contains(s) implies base.contains(s)
            || extra.contains(s) by {
            let k = choose|k: int| 0 <= k < r.len() && r[k] == s;
            if k < before.len() {
                assert(before[k] == s);
                assert(before.contains(s));
                if init.contains(s) {
                    let j = choose|j: int| 0 <= j < init.len() && init[j] == s;
                    assert(extra[j] == s);
                }
            } else {
                assert(extra[extra.len() - 1] == s);
            }
        }
    }
}

/// The pieces of a text between its white space.
pub open spec fn words(s: Seq<char>) -> Seq<Seq<char>>
    decreases s.len(),
{
    if s.len() == 0 {
        Seq::empty()
    } else {
        let before = words(s.drop_last());
        if is_whitespace_spec(s.last()) {
            before
        } else if s.len() > 1 && !is_whitespace_spec(s[s.len() - 2]) {
            before.drop_last().push(before.last().push(s.last()))
        } else {
            before.push(seq![s.last()])
        }
    }
}

/// A text that ends inside a piece has a piece.
proof fn lemma_words_nonempty(s: Seq<char>)
    requires
        s.len() > 0,
        !is_whitespace_spec(s.last()),
    ensures
        words(s).len() > 0,
{
}

/// Splits a text at its white space.
pub fn split_whitespace(s: &str) -> (r: Vec<String>)
    ensures
        texts(r@) == words(s@),
{
    let chars = chars_of(s);
    let mut r: Vec<String> = Vec::new();
    let mut i: usize = 0;
    proof {
        assert(s@.take(0) =~= Seq::empty());
        assert(texts(r@) =~= Seq::empty());
    }
    while i < chars.len()
        invariant
            chars@ == s@,
            i <= chars@.len(),
            texts(r@) == words(s@.take(i as int)),
        decreases chars@.len() - i,
    {
        let c = chars[i];
        let ghost sofar = s@.take(i as int);
        let ghost next = s@.take(i + 1);
        let ghost before = r@;
        proof {
            assert(next.drop_last() =~= sofar);
        }
        if !is_whitespace(c) {
            if i > 0 && !is_whitespace(chars[i - 1]) {
                proof {
                    assert(sofar.last() == s@[i - 1]);
                    lemma_words_nonempty(sofar);
                    assert(texts(r@).len() == r@.len());
                }
                match r.pop() {
                    Some(w) => {
                        let mut w2 = w;
                        w2.push(c);
                        r.push(w2);
                        proof {
                            assert(texts(r@) =~= texts(before).drop_last().push(
                                texts(before).last().push(c),
                            ));
                        }
                    },
                    None => {},
                }
            } else {
                let mut w = String::new();
                w.push(c);
                r.push(w);
                proof {
                    assert(w@ =~= seq![c]);
                    assert(texts(r@) =~= texts(before).push(seq![c]));
                }
            }
        }
        i = i + 1;
    }
    proof {
        assert(s@.take(i as int) =~= s@);
    }
    r
}

/// The text is one piece without white space.
pub open spec fn is_word(w: Seq<char>) -> bool {
    w.len() > 0 && forall|i: int| 0 <= i < w.len() ==> !is_whitespace_spec(#[trigger] w[i])
}

/// A word behind white space is one more piece.
proof fn lemma_word_behind(a: Seq<char>, w: Seq<char>)
    requires
        is_word(w),
        a.len() == 0 || is_whitespace_spec(a.last()),
    ensures
        words(a + w) == words(a).push(w),
    decreases w.len(),
{
    let s = a + w;
    let init = w.drop_last();
    assert(s.drop_last() =~= a + init);
    assert(s.last() == w.last());
    assert(w.last() == w[w.len() - 1]);
    if w.len() == 1 {
        assert(a + init =~= a);
        assert(w =~= seq![w[0]]);
        if a.len() > 0 {
            assert(s[s.len() - 2] == a.last());
        }
    } else {
        assert(forall|i: int| 0 <= i < init.len() ==> init[i] == w[i]);
        lemma_word_behind(a, init);
        assert(s[s.len() - 2] == w[w.len() - 2]);
        assert(init.push(w.last()) =~= w);
        let before = words(a).push(init);
        assert(before.drop_last() =~= words(a));
    }
}

/// Words that are joined by spaces are the pieces of the text.
pub proof fn lemma_words_of_join(parts: Seq<Seq<char>>)
    requires
        forall|i: int| 0 <= i < parts.len() ==> is_word(#[trigger] parts[i]),
    ensures
        words(join_spec(parts, " "@)) == parts,
        parts.len() > 0 ==> join_spec(parts, " "@).len() > 0,
    decreases parts.len(),
{
    reveal_strlit(" ");
    if parts.len() == 1 {
        lemma_word_behind(Seq::empty(), parts[0]);
        assert(Seq::<char>::empty() + parts[0] =~= parts[0]);
        assert(parts =~= seq![parts[0]]);
        assert(words(Seq::<char>::empty()) =~= Seq::empty());
    } else if parts.len() > 1 {
        let init = parts.drop_last();
        assert(forall|i: int| 0 <= i < init.len() ==> init[i] == parts[i]);
        lemma_words_of_join(init);
        let a = join_spec(init, " "@);
        let spaced = a + " "@;
        assert(spaced.drop_last() =~= a);
        assert(spaced.last() == ' ');
        assert(is_word(parts[parts.len() - 1]));
        lemma_word_behind(spaced, parts.last());
        assert(init.push(parts.last()) =~= parts);
    } else {
        assert(parts =~= Seq::empty());
    }
}

/// A number in decimal notation has only digits, none of them a leading zero,
/// and is read back as the same number.
pub proof fn law_decimal_is_read_back(n: nat)
    ensures
        decimal_spec(n).len() > 0,
        all_digits(decimal_spec(n)),
        digits_value(decimal_spec(n)) == n,
        n > 0 ==> decimal_spec(n)[0] != '0',
        n <= i64::MAX ==> parse_i64_spec(decimal_spec(n)) == Some(n as i64),
    decreases n,
{
    let s = decimal_spec(n);
    if n < 10 {
        assert(s.drop_last() =~= Seq::empty());
        assert(s.last() == digit_char(n));
        reveal_with_fuel(digits_value, 2);
    } else {
        let before = decimal_spec(n / 10);
        law_decimal_is_read_back(n / 10);
        assert(s.drop_last() =~= before);
        assert(s.last() == digit_char(n % 10));
        assert(s[0] == before[0]);
        assert forall|i: int| 0 <= i < s.len() implies is_digit(#[trigger] s[i]) by {
            if i < before.len() {
                assert(s[i] == before[i]);
            }
        }
    }
    assert(is_digit(s[0]));
}

/// A signed number is read back as the same number.
pub proof fn law_signed_is_read_back(n: i64)
    ensures
        parse_i64_spec(signed_spec(n as int)) == Some(n),
{
    if n < 0 {
        law_decimal_is_read_back((-(n as int)) as nat);
        let digits = decimal_spec((-(n as int)) as nat);
        assert(signed_spec(n as int).skip(1) =~= digits);
    } else {
        law_decimal_is_read_back(n as nat);
    }
}

/// What is trimmed is what stands between white space: white space around a
/// text that has none at its ends is taken away, and nothing else.
pub proof fn law_trim_takes_only_white_space(before: Seq<char>, s: Seq<char>, behind: Seq<char>)
    requires
        forall|i: int| 0 <= i < before.len() ==> is_whitespace_spec(#[trigger] before[i]),
        forall|i: int| 0 <= i < behind.len() ==> is_whitespace_spec(#[trigger] behind[i]),
        s.len() > 0,
        !is_whitespace_spec(s[0]),
        !is_whitespace_spec(s.last()),
    ensures
        trim_spec(before + s + behind) == s,
{
    lemma_trim_front(before, s + behind);
    assert(before + s + behind =~= before + (s + behind));
    assert((s + behind)[0] == s[0]);
    lemma_trim_back(s, behind);
}

proof fn lemma_trim_front(before: Seq<char>, s: Seq<char>)
    requires
        forall|i: int| 0 <= i < before.len() ==> is_whitespace_spec(#[trigger] before[i]),
    ensures
        trim_start_spec(before + s) == trim_start_spec(s),
    decreases before.len(),
{
    if before.len() > 0 {
        let rest = before.skip(1);
        assert((before + s)[0] == before[0]);
        assert((before + s).skip(1) =~= rest + s);
        assert forall|i: int| 0 <= i < rest.len() implies is_whitespace_spec(#[trigger] rest[i]) by {
            assert(rest[i] == before[i + 1]);
        }
        lemma_trim_front(rest, s);
    } else {
        assert(before + s =~= s);
    }
}

proof fn lemma_trim_back(s: Seq<char>, behind: Seq<char>)
    requires
        forall|i: int| 0 <= i < behind.len() ==> is_whitespace_spec(#[trigger] behind[i]),
        s.len() > 0,
        !is_whitespace_spec(s.last()),
    ensures
        trim_end_spec(s + behind) == s,
    decreases behind.len(),
{
    if behind.len() > 0 {
        let init = behind.drop_last();
        assert((s + behind).last() == behind[behind.len() - 1]);
        assert((s + behind).drop_last() =~= s + init);
        assert forall|i: int| 0 <= i < init.len() implies is_whitespace_spec(#[trigger] init[i]) by {
            assert(init[i] == behind[i]);
        }
        lemma_trim_back(s, init);
    } else {
        assert(s + behind =~= s);
    }
}

/// Case of ASCII letters: the lower form has no capitals, the upper form no
/// small letters, both keep every other character, and each undoes the other.
pub proof fn law_ascii_case(s: Seq<char>, i: int)
    requires
        0 <= i < s.len(),
    ensures
        ascii_lower_spec(s).len() == s.len(),
        ascii_upper_spec(s).len() == s.len(),
        !('A' <= ascii_lower_spec(s)[i] <= 'Z'),
        !('a' <= ascii_upper_spec(s)[i] <= 'z'),
        !('A' <= s[i] <= 'Z') ==> ascii_lower_spec(s)[i] == s[i],
        !('a' <= s[i] <= 'z') ==> ascii_upper_spec(s)[i] == s[i],
        'A' <= s[i] <= 'Z' ==> ascii_upper_spec(ascii_lower_spec(s))[i] == s[i],
        'a' <= s[i] <= 'z' ==> ascii_lower_spec(ascii_upper_spec(s))[i] == s[i],
{
}

/// A padded text begins with the text, goes on in spaces, and has at least the
/// width, and no more than it needs.
pub proof fn law_padded_text(s: Seq<char>, width: nat, i: int)
    ensures
        pad_spec(s, width).take(s.len() as int) == s,
        s.len() <= width ==> pad_spec(s, width).len() == width,
        s.len() > width ==> pad_spec(s, width) == s,
        s.len() <= i < pad_spec(s, width).len() ==> pad_spec(s, width)[i] == ' ',
{
    assert(pad_spec(s, width).take(s.len() as int) =~= s);
    if s.len() > width {
        assert(pad_spec(s, width) =~= s);
    }
}

/// What is added to a list comes behind it, each item once and only where it is
/// not there yet.
pub proof fn law_missing_are_added(base: Seq<Seq<char>>, extra: Seq<Seq<char>>, item: Seq<char>)
    ensures
        with_missing(base, extra).take(base.len() as int) == base,
        with_missing(base, extra).len() >= base.len(),
        base.contains(item) ==> with_missing(base, extra.push(item)) == with_missing(base, extra),
        !with_missing(base, extra).contains(item) ==> with_missing(base, extra.push(item))
            == with_missing(base, extra).push(item),
        with_missing(base, extra.push(item)).contains(item),
    decreases extra.len(),
{
    assert(extra.push(item).drop_last() =~= extra);
    assert(extra.push(item).last() == item);
    let all = with_missing(base, extra);
    if extra.len() > 0 {
        law_missing_are_added(base, extra.drop_last(), extra.last());
        assert(extra.drop_last().push(extra.last()) =~= extra);
        let before = with_missing(base, extra.drop_last());
        assert(all.take(base.len() as int) =~= before.take(base.len() as int));
    } else {
        assert(all.take(base.len() as int) =~= base);
    }
    if base.contains(item) {
        let i = choose|i: int| 0 <= i < base.len() && base[i] == item;
        assert(all.take(base.len() as int)[i] == all[i]);
        assert(all.contains(item));
    }
    if !all.contains(item) {
        let more = with_missing(base, extra.push(item));
        assert(more[more.len() - 1] == item);
    }
}

/// The words of a text hold no white space and are not empty.
pub proof fn law_words_are_words(s: Seq<char>, i: int)
    requires
        0 <= i < words(s).len(),
    ensures
        is_word(words(s)[i]),
    decreases s.len(),
{
    let init = s.drop_last();
    let before = words(init);
    let all = words(s);
    if is_whitespace_spec(s.last()) {
        law_words_are_words(init, i);
    } else if s.len() > 1 && !is_whitespace_spec(s[s.len() - 2]) {
        assert(init.last() == s[s.len() - 2]);
        lemma_words_nonempty(init);
        if i < before.len() - 1 {
            law_words_are_words(init, i);
            assert(all[i] == before[i]);
        } else {
            law_words_are_words(init, before.len() - 1);
            let w = before.last();
            assert(all[i] == w.push(s.last()));
            assert forall|k: int| 0 <= k < all[i].len() implies !is_whitespace_spec(
                #[trigger] all[i][k],
            ) by {
                if k < w.len() {
                    assert(!is_whitespace_spec(w[k]));
                }
            }
        }
    } else {
        if i < before.len() {
            law_words_are_words(init, i);
            assert(all[i] == before[i]);
        } else {
            assert(all[i] == seq![s.last()]);
        }
    }
}

/// White space around and between words does not matter.
pub proof fn law_white_space_separates_words(s: Seq<char>, c: char, w: Seq<char>)
    requires
        is_whitespace_spec(c),
        is_word(w),
    ensures
        words(s.push(c)) == words(s),
        words(s.push(c) + w) == words(s).push(w),
        words(w) == seq![w],
{
    assert(s.push(c).drop_last() =~= s);
    lemma_word_behind(s.push(c), w);
    lemma_word_behind(Seq::empty(), w);
    assert(Seq::<char>::empty() + w =~= w);
    assert(Seq::<Seq<char>>::empty().push(w) =~= seq![w]);
}

/// The widest of several texts is at least as wide as each, and one of them is as
/// wide.
pub proof fn law_widest_text(list: Seq<Seq<char>>, k: int)
    requires
        0 <= k < list.len(),
    ensures
        byte_len_spec(list[k]) <= max_bytes(list),
        exists|i: int| 0 <= i < list.len() && byte_len_spec(#[trigger] list[i]) == max_bytes(list),
    decreases list.len(),
{
    let init = list.drop_last();
    assert(list[list.len() - 1] == list.last());
    if k < init.len() {
        law_widest_text(init, k);
    } else if init.len() > 0 {
        law_widest_text(init, 0);
    }
    if init.len() > 0 {
        let i = choose|i: int| 0 <= i < init.len() && byte_len_spec(#[trigger] init[i])
            == max_bytes(init);
        assert(list[i] == init[i]);
    }
}

} // verus!
