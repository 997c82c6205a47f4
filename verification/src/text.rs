//! Text as sequences of characters: the operations on strings that the rest of
//! the library is written with.
use vstd::prelude::*;
use vstd::utf8::{decode_utf8, is_ascii_chars, valid_utf8};

verus! {

/// `String::push` appends one character.
pub assume_specification[ String::push ](s: &mut String, c: char)
    ensures
        final(s)@ == old(s)@.push(c),
;

/// The characters of a string, in order.
pub fn to_chars(s: &str) -> (r: Vec<char>)
    ensures
        r@ == s@,
{
    let mut r: Vec<char> = Vec::new();
    for c in it: s.chars()
        invariant
            it.seq() == s@,
            r@ == s@.take(it.index()),
    {
        r.push(c);
    }
    r
}

/// The characters from `from` up to `to` as a string.
pub fn piece(v: &Vec<char>, from: usize, to: usize) -> (r: String)
    requires
        from <= to <= v.len(),
    ensures
        r@ == v@.subrange(from as int, to as int),
{
    let mut r = String::new();
    let mut i: usize = from;
    while i < to
        invariant
            from <= i <= to <= v.len(),
            r@ == v@.subrange(from as int, i as int),
        decreases to - i,
    {
        r.push(v[i]);
        i += 1;
    }
    r
}

/// Whether two strings hold the same characters.
pub fn same(a: &str, b: &str) -> (r: bool)
    ensures
        r == (a@ == b@),
{
    let x = to_chars(a);
    let y = to_chars(b);
    if x.len() != y.len() {
        return false;
    }
    let mut i: usize = 0;
    while i < x.len()
        invariant
            i <= x.len(),
            x.len() == y.len(),
            x@ == a@,
            y@ == b@,
            forall|j: int| 0 <= j < i ==> x@[j] == y@[j],
        decreases x.len() - i,
    {
        if x[i] != y[i] {
            return false;
        }
        i += 1;
    }
    assert(a@ =~= b@);
    true
}


/// The texts of a list of strings.
pub open spec fn texts(v: Seq<String>) -> Seq<Seq<char>> {
    v.map_values(|s: String| s@)
}

/// The texts of a list of pairs of strings.
pub open spec fn pairs(v: Seq<(String, String)>) -> Seq<(Seq<char>, Seq<char>)> {
    v.map_values(|p: (String, String)| (p.0@, p.1@))
}

/// Where `c` first stands in `s` at or after `i`, or the length of `s`.
pub open spec fn find_from(s: Seq<char>, c: char, i: int) -> int
    decreases s.len() - i,
{
    if i >= s.len() {
        s.len() as int
    } else if s[i] == c {
        i
    } else {
        find_from(s, c, i + 1)
    }
}

/// Where `c` first stands in `s`, or the length of `s`.
pub open spec fn find(s: Seq<char>, c: char) -> int {
    find_from(s, c, 0)
}

/// The position of the first `c`, or the length.
pub fn find_char(v: &Vec<char>, c: char) -> (r: usize)
    ensures
        r as int == find(v@, c),
        r <= v.len(),
        forall|j: int| 0 <= j < r ==> v@[j] != c,
        r < v.len() ==> v@[r as int] == c,
{
    let mut i: usize = 0;
    while i < v.len()
        invariant
            i <= v.len(),
            find_from(v@, c, i as int) == find(v@, c),
            forall|j: int| 0 <= j < i ==> v@[j] != c,
        decreases v.len() - i,
    {
        if v[i] == c {
            return i;
        }
        i += 1;
    }
    i
}

/// Whether the character stands anywhere in the string.
pub fn contains_char(s: &str, c: char) -> (r: bool)
    ensures
        r == s@.contains(c),
{
    let v = to_chars(s);
    let i: usize = find_char(&v, c);
    i < v.len()
}

/// Whether `p` stands in `s` at position `i`.
pub open spec fn at<T>(s: Seq<T>, p: Seq<T>, i: int) -> bool {
    &&& 0 <= i
    &&& i + p.len() <= s.len()
    &&& s.subrange(i, i + p.len()) == p
}

/// Whether `p` stands in `v` at position `i`.
pub fn stands_at(v: &Vec<char>, p: &Vec<char>, i: usize) -> (r: bool)
    ensures
        r == at(v@, p@, i as int),
{
    if p.len() > v.len() || i > v.len() - p.len() {
        return false;
    }
    let mut j: usize = 0;
    while j < p.len()
        invariant
            j <= p.len(),
            i + p.len() <= v.len(),
            forall|k: int| 0 <= k < j ==> v@[i + k] == p@[k],
        decreases p.len() - j,
    {
        if v[i + j] != p[j] {
            assert(v@.subrange(i as int, i + p.len())[j as int] != p@[j as int]);
            return false;
        }
        j += 1;
    }
    assert(v@.subrange(i as int, i + p.len()) =~= p@);
    true
}

/// Whether `s` begins with `p`.
pub fn starts_with(s: &str, p: &str) -> (r: bool)
    ensures
        r == p@.is_prefix_of(s@),
{
    let v = to_chars(s);
    let w = to_chars(p);
    let r = stands_at(&v, &w, 0);
    assert(at(s@, p@, 0) == p@.is_prefix_of(s@));
    r
}

/// Whether `s` ends with `p`.
pub fn ends_with(s: &str, p: &str) -> (r: bool)
    ensures
        r == p@.is_suffix_of(s@),
{
    let v = to_chars(s);
    let w = to_chars(p);
    if w.len() > v.len() {
        return false;
    }
    let r = stands_at(&v, &w, v.len() - w.len());
    assert(at(s@, p@, s@.len() - p@.len()) == p@.is_suffix_of(s@));
    r
}

/// What follows the prefix `p`, where `s` begins with it.
pub fn strip_prefix(s: &str, p: &str) -> (r: Option<String>)
    ensures
        r is Some == p@.is_prefix_of(s@),
        r matches Some(t) ==> t@ == s@.skip(p@.len() as int),
{
    let v = to_chars(s);
    let w = to_chars(p);
    assert(at(s@, p@, 0) == p@.is_prefix_of(s@));
    if stands_at(&v, &w, 0) {
        Some(piece(&v, w.len(), v.len()))
    } else {
        None
    }
}

/// What stands before the suffix `p`, where `s` ends with it.
pub fn strip_suffix(s: &str, p: &str) -> (r: Option<String>)
    ensures
        r is Some == p@.is_suffix_of(s@),
        r matches Some(t) ==> t@ == s@.take(s@.len() - p@.len()),
{
    let v = to_chars(s);
    let w = to_chars(p);
    if w.len() > v.len() {
        return None;
    }
    assert(at(s@, p@, s@.len() - p@.len()) == p@.is_suffix_of(s@));
    if stands_at(&v, &w, v.len() - w.len()) {
        Some(piece(&v, 0, v.len() - w.len()))
    } else {
        None
    }
}

/// Where `p` first stands in `s` at or after `i`, if anywhere.
pub open spec fn find_text<T>(s: Seq<T>, p: Seq<T>, i: int) -> Option<int>
    decreases s.len() + 1 - i,
{
    if i > s.len() {
        None
    } else if at(s, p, i) {
        Some(i)
    } else {
        find_text(s, p, i + 1)
    }
}

/// Whether `p` stands anywhere in `s`.
pub open spec fn holds(s: Seq<char>, p: Seq<char>) -> bool {
    exists|i: int| at(s, p, i)
}

/// Whether `p` stands anywhere in `s`.
pub fn contains_str(s: &str, p: &str) -> (r: bool)
    ensures
        r == holds(s@, p@),
{
    let v = to_chars(s);
    let w = to_chars(p);
    let mut i: usize = 0;
    while i < v.len()
        invariant
            i <= v.len(),
            v@ == s@,
            w@ == p@,
            forall|j: int| 0 <= j < i ==> !at(v@, w@, j),
        decreases v.len() - i,
    {
        if stands_at(&v, &w, i) {
            return true;
        }
        i += 1;
    }
    let r = stands_at(&v, &w, i);
    proof {
        if !r {
            assert forall|j: int| !at(s@, p@, j) by {
                if 0 <= j < i {
                    assert(!at(v@, w@, j));
                }
            }
        }
    }
    r
}

/// The pieces of `s` between the occurrences of `c`: one more than there are
/// occurrences.
pub open spec fn split(s: Seq<char>, c: char) -> Seq<Seq<char>>
    decreases s.len(),
{
    if s.len() == 0 {
        seq![Seq::<char>::empty()]
    } else {
        let before = split(s.drop_last(), c);
        if s.last() == c {
            before.push(Seq::empty())
        } else {
            before.drop_last().push(before.last().push(s.last()))
        }
    }
}

/// There is always a last piece.
pub proof fn lemma_split_len(s: Seq<char>, c: char)
    ensures
        split(s, c).len() >= 1,
    decreases s.len(),
{
    if s.len() > 0 {
        lemma_split_len(s.drop_last(), c);
    }
}

/// Every piece is free of the separator.
pub proof fn lemma_split_free(s: Seq<char>, c: char)
    ensures
        forall|i: int| 0 <= i < split(s, c).len() ==> !(#[trigger] split(s, c)[i]).contains(c),
    decreases s.len(),
{
    lemma_split_len(s, c);
    if s.len() > 0 {
        lemma_split_len(s.drop_last(), c);
        lemma_split_free(s.drop_last(), c);
        let before = split(s.drop_last(), c);
        assert forall|i: int| 0 <= i < split(s, c).len() implies !(#[trigger] split(
            s,
            c,
        )[i]).contains(c) by {
            if s.last() != c && i == before.len() - 1 {
                let piece = before.last().push(s.last());
                assert(!before[before.len() - 1].contains(c));
                if piece.contains(c) {
                    let k = piece.index_of(c);
                    assert(k < before.last().len());
                    assert(before.last()[k] == c);
                }
            } else if i < before.len() {
                assert(split(s, c)[i] == before[i]);
            }
        }
    }
}

/// A text without the separator is its own single piece.
pub proof fn lemma_split_whole(s: Seq<char>, c: char)
    requires
        !s.contains(c),
    ensures
        split(s, c) == seq![s],
    decreases s.len(),
{
    if s.len() > 0 {
        assert forall|i: int| 0 <= i < s.drop_last().len() implies s.drop_last()[i] != c by {
            assert(s[i] == s.drop_last()[i]);
        }
        assert(!s.drop_last().contains(c));
        lemma_split_whole(s.drop_last(), c);
        assert(s.contains(s.last()));
        assert(s.drop_last().push(s.last()) =~= s);
        assert(split(s, c) =~= seq![s]);
    } else {
        assert(s =~= Seq::empty());
    }
}

/// The pieces of a string between the occurrences of a character.
pub fn split_on(s: &str, c: char) -> (r: Vec<String>)
    ensures
        texts(r@) == split(s@, c),
        r.len() >= 1,
{
    let v = to_chars(s);
    let mut done: Vec<String> = Vec::new();
    let mut current = String::new();
    let mut i: usize = 0;
    while i < v.len()
        invariant
            i <= v.len(),
            v@ == s@,
            texts(done@).push(current@) == split(v@.take(i as int), c),
        decreases v.len() - i,
    {
        proof {
            assert(v@.take(i + 1).drop_last() =~= v@.take(i as int));
            assert(split(v@.take(i as int), c).drop_last() =~= texts(done@));
        }
        if v[i] == c {
            let ghost before = done@;
            let ghost cur = current@;
            done.push(current);
            current = String::new();
            proof {
                assert(texts(done@) =~= texts(before).push(cur));
            }
        } else {
            current.push(v[i]);
        }
        i += 1;
    }
    proof {
        assert(v@.take(v@.len() as int) =~= v@);
    }
    let ghost before = done@;
    let ghost cur = current@;
    done.push(current);
    proof {
        assert(texts(done@) =~= texts(before).push(cur));
    }
    done
}

/// The text before the first `c` and the text after it.
pub fn split_once(s: &str, c: char) -> (r: Option<(String, String)>)
    ensures
        r is Some == s@.contains(c),
        r matches Some((a, b)) ==> a@ == s@.take(find(s@, c)) && b@ == s@.skip(find(s@, c) + 1),
{
    let v = to_chars(s);
    let i: usize = find_char(&v, c);
    if i < v.len() {
        Some((piece(&v, 0, i), piece(&v, i + 1, v.len())))
    } else {
        None
    }
}

/// Whether a character is white space in Unicode's sense.
pub open spec fn is_space(c: char) -> bool {
    ||| 9 <= c as u32 <= 13
    ||| c as u32 == 32
    ||| c as u32 == 0x85
    ||| c as u32 == 0xA0
    ||| c as u32 == 0x1680
    ||| 0x2000 <= c as u32 <= 0x200A
    ||| c as u32 == 0x2028
    ||| c as u32 == 0x2029
    ||| c as u32 == 0x202F
    ||| c as u32 == 0x205F
    ||| c as u32 == 0x3000
}

/// Whether a character is white space in Unicode's sense.
pub fn space(c: char) -> (r: bool)
    ensures
        r == is_space(c),
{
    let n: u32 = c as u32;
    (9 <= n && n <= 13) || n == 32 || n == 0x85 || n == 0xA0 || n == 0x1680 || (0x2000 <= n && n
        <= 0x200A) || n == 0x2028 || n == 0x2029 || n == 0x202F || n == 0x205F || n == 0x3000
}

/// A text without the white space it begins with.
pub open spec fn trimmed_start(s: Seq<char>) -> Seq<char>
    decreases s.len(),
{
    if s.len() > 0 && is_space(s[0]) {
        trimmed_start(s.skip(1))
    } else {
        s
    }
}

/// A text without the white space it ends with.
pub open spec fn trimmed_end(s: Seq<char>) -> Seq<char>
    decreases s.len(),
{
    if s.len() > 0 && is_space(s.last()) {
        trimmed_end(s.drop_last())
    } else {
        s
    }
}

/// A text without the white space around it.
pub open spec fn trimmed(s: Seq<char>) -> Seq<char> {
    trimmed_end(trimmed_start(s))
}

/// A string without the white space it begins with.
pub fn trim_start(s: &str) -> (r: String)
    ensures
        r@ == trimmed_start(s@),
{
    let v = to_chars(s);
    let mut i: usize = 0;
    assert(v@.skip(0) =~= v@);
    while i < v.len() && space(v[i])
        invariant
            i <= v.len(),
            v@ == s@,
            trimmed_start(v@.skip(i as int)) == trimmed_start(s@),
        decreases v.len() - i,
    {
        assert(v@.skip(i as int).skip(1) =~= v@.skip(i + 1));
        i += 1;
    }
    piece(&v, i, v.len())
}

/// A string without the white space it ends with.
pub fn trim_end(s: &str) -> (r: String)
    ensures
        r@ == trimmed_end(s@),
{
    let v = to_chars(s);
    let mut i: usize = v.len();
    assert(v@.take(v@.len() as int) =~= v@);
    while i > 0 && space(v[i - 1])
        invariant
            i <= v.len(),
            v@ == s@,
            trimmed_end(v@.take(i as int)) == trimmed_end(s@),
        decreases i,
    {
        assert(v@.take(i as int).drop_last() =~= v@.take(i - 1));
        i -= 1;
    }
    piece(&v, 0, i)
}

/// A string without the white space around it.
pub fn trim(s: &str) -> (r: String)
    ensures
        r@ == trimmed(s@),
{
    trim_end(trim_start(s).as_str())
}

/// A text without the characters of `set` that it begins with.
pub open spec fn stripped_start(s: Seq<char>, set: Seq<char>) -> Seq<char>
    decreases s.len(),
{
    if s.len() > 0 && set.contains(s[0]) {
        stripped_start(s.skip(1), set)
    } else {
        s
    }
}

/// A text without the characters of `set` that it ends with.
pub open spec fn stripped_end(s: Seq<char>, set: Seq<char>) -> Seq<char>
    decreases s.len(),
{
    if s.len() > 0 && set.contains(s.last()) {
        stripped_end(s.drop_last(), set)
    } else {
        s
    }
}

/// A text without the characters of `set` around it.
pub open spec fn stripped(s: Seq<char>, set: Seq<char>) -> Seq<char> {
    stripped_end(stripped_start(s, set), set)
}

/// A string without the characters of `set` that it begins with.
pub fn strip_start(s: &str, set: &str) -> (r: String)
    ensures
        r@ == stripped_start(s@, set@),
{
    let v = to_chars(s);
    let mut i: usize = 0;
    assert(v@.skip(0) =~= v@);
    while i < v.len() && contains_char(set, v[i])
        invariant
            i <= v.len(),
            v@ == s@,
            stripped_start(v@.skip(i as int), set@) == stripped_start(s@, set@),
        decreases v.len() - i,
    {
        assert(v@.skip(i as int).skip(1) =~= v@.skip(i + 1));
        i += 1;
    }
    piece(&v, i, v.len())
}

/// A string without the characters of `set` that it ends with.
pub fn strip_end(s: &str, set: &str) -> (r: String)
    ensures
        r@ == stripped_end(s@, set@),
{
    let v = to_chars(s);
    let mut i: usize = v.len();
    assert(v@.take(v@.len() as int) =~= v@);
    while i > 0 && contains_char(set, v[i - 1])
        invariant
            i <= v.len(),
            v@ == s@,
            stripped_end(v@.take(i as int), set@) == stripped_end(s@, set@),
        decreases i,
    {
        assert(v@.take(i as int).drop_last() =~= v@.take(i - 1));
        i -= 1;
    }
    piece(&v, 0, i)
}

/// A string without the characters of `set` around it.
pub fn strip_both(s: &str, set: &str) -> (r: String)
    ensures
        r@ == stripped(s@, set@),
{
    strip_end(strip_start(s, set).as_str(), set)
}

/// A text without the copies of `p` that it begins with.
pub open spec fn without_prefixes(s: Seq<char>, p: Seq<char>) -> Seq<char>
    decreases s.len(),
{
    if p.len() > 0 && p.is_prefix_of(s) {
        without_prefixes(s.skip(p.len() as int), p)
    } else {
        s
    }
}

/// A text without the copies of `p` that it ends with.
pub open spec fn without_suffixes(s: Seq<char>, p: Seq<char>) -> Seq<char>
    decreases s.len(),
{
    if p.len() > 0 && p.is_suffix_of(s) {
        without_suffixes(s.take(s.len() - p.len()), p)
    } else {
        s
    }
}

/// A string without the copies of `p` that it begins with.
pub fn strip_prefixes(s: &str, p: &str) -> (r: String)
    ensures
        r@ == without_prefixes(s@, p@),
{
    let mut rest: String = s.to_owned();
    if p.is_empty() {
        return rest;
    }
    loop
        invariant
            p@.len() > 0,
            without_prefixes(rest@, p@) == without_prefixes(s@, p@),
        decreases rest@.len(),
    {
        match strip_prefix(rest.as_str(), p) {
            Some(t) => {
                rest = t;
            },
            None => {
                return rest;
            },
        }
    }
}

/// A string without the copies of `p` that it ends with.
pub fn strip_suffixes(s: &str, p: &str) -> (r: String)
    ensures
        r@ == without_suffixes(s@, p@),
{
    let mut rest: String = s.to_owned();
    if p.is_empty() {
        return rest;
    }
    loop
        invariant
            p@.len() > 0,
            without_suffixes(rest@, p@) == without_suffixes(s@, p@),
        decreases rest@.len(),
    {
        match strip_suffix(rest.as_str(), p) {
            Some(t) => {
                rest = t;
            },
            None => {
                return rest;
            },
        }
    }
}

/// A line without the carriage return it may end with.
pub open spec fn without_return(s: Seq<char>) -> Seq<char> {
    if s.len() > 0 && s.last() == '\r' {
        s.drop_last()
    } else {
        s
    }
}

/// The lines of a text: the pieces between line feeds, without a last empty
/// one, each without its carriage return. What follows the last line feed keeps
/// a carriage return at its end.
pub open spec fn lines_of(s: Seq<char>) -> Seq<Seq<char>> {
    let pieces = split(s, '\n');
    let ended = pieces.drop_last().map_values(|p: Seq<char>| without_return(p));
    if pieces.last().len() == 0 {
        ended
    } else {
        ended.push(pieces.last())
    }
}

/// The lines of a string.
pub fn lines(s: &str) -> (r: Vec<String>)
    ensures
        texts(r@) == lines_of(s@),
{
    let pieces = split_on(s, '\n');
    let ghost ps = split(s@, '\n');
    let mut r: Vec<String> = Vec::new();
    let n: usize = pieces.len() - 1;
    let mut i: usize = 0;
    while i < n
        invariant
            i <= n,
            n == pieces.len() - 1,
            texts(pieces@) == ps,
            texts(r@) == ps.take(i as int).map_values(|p: Seq<char>| without_return(p)),
        decreases n - i,
    {
        let v = to_chars(pieces[i].as_str());
        let ghost before = r@;
        let line: String = if v.len() > 0 && v[v.len() - 1] == '\r' {
            piece(&v, 0, v.len() - 1)
        } else {
            pieces[i].clone()
        };
        proof {
            assert(texts(pieces@)[i as int] == pieces@[i as int]@);
            assert(line@ =~= without_return(ps[i as int]));
        }
        let ghost l = line@;
        r.push(line);
        proof {
            assert(texts(r@) =~= texts(before).push(l));
            assert(ps.take(i + 1).map_values(|p: Seq<char>| without_return(p)) =~= ps.take(
                i as int,
            ).map_values(|p: Seq<char>| without_return(p)).push(l));
        }
        i += 1;
    }
    proof {
        assert(ps.take(n as int) =~= ps.drop_last());
        assert(texts(pieces@)[n as int] == pieces@[n as int]@);
    }
    if !pieces[n].as_str().is_empty() {
        let ghost before = r@;
        r.push(pieces[n].clone());
        proof {
            assert(texts(r@) =~= texts(before).push(ps.last()));
        }
    }
    r
}

/// The runs of characters between white space.
pub open spec fn words_of(s: Seq<char>) -> Seq<Seq<char>>
    decreases s.len(),
{
    if s.len() == 0 {
        Seq::empty()
    } else {
        let before = words_of(s.drop_last());
        if is_space(s.last()) {
            before
        } else if s.len() >= 2 && !is_space(s[s.len() - 2]) && before.len() > 0 {
            before.drop_last().push(before.last().push(s.last()))
        } else {
            before.push(seq![s.last()])
        }
    }
}

/// The words of a string: what stands between white space.
pub fn words(s: &str) -> (r: Vec<String>)
    ensures
        texts(r@) == words_of(s@),
{
    let v = to_chars(s);
    let mut done: Vec<String> = Vec::new();
    let mut current = String::new();
    let mut i: usize = 0;
    while i < v.len()
        invariant
            i <= v.len(),
            v@ == s@,
            (current@.len() > 0) == (i > 0 && !is_space(v@[i - 1])),
            words_of(v@.take(i as int)) == if current@.len() > 0 {
                texts(done@).push(current@)
            } else {
                texts(done@)
            },
        decreases v.len() - i,
    {
        proof {
            assert(v@.take(i + 1).drop_last() =~= v@.take(i as int));
            if current@.len() > 0 {
                assert(words_of(v@.take(i as int)).drop_last() =~= texts(done@));
            }
        }
        if space(v[i]) {
            if !current.as_str().is_empty() {
                let ghost before = done@;
                let ghost cur = current@;
                done.push(current);
                current = String::new();
                proof {
                    assert(texts(done@) =~= texts(before).push(cur));
                }
            }
        } else {
            let ghost cur = current@;
            current.push(v[i]);
            proof {
                if cur.len() == 0 {
                    assert(current@ =~= seq![v@[i as int]]);
                }
            }
        }
        i += 1;
    }
    proof {
        assert(v@.take(v@.len() as int) =~= v@);
    }
    if !current.as_str().is_empty() {
        let ghost before = done@;
        let ghost cur = current@;
        done.push(current);
        proof {
            assert(texts(done@) =~= texts(before).push(cur));
        }
    }
    done
}

/// Texts put one after another with `sep` between them.
pub open spec fn joined(parts: Seq<Seq<char>>, sep: Seq<char>) -> Seq<char>
    decreases parts.len(),
{
    if parts.len() == 0 {
        Seq::empty()
    } else if parts.len() == 1 {
        parts[0]
    } else {
        joined(parts.drop_last(), sep) + sep + parts.last()
    }
}

/// The strings put one after another with `sep` between them.
pub fn join(parts: &Vec<String>, sep: &str) -> (r: String)
    ensures
        r@ == joined(texts(parts@), sep@),
{
    let mut r = String::new();
    let mut i: usize = 0;
    while i < parts.len()
        invariant
            i <= parts.len(),
            r@ == joined(texts(parts@).take(i as int), sep@),
        decreases parts.len() - i,
    {
        let ghost all = texts(parts@);
        proof {
            assert(all.take(i + 1).drop_last() =~= all.take(i as int));
            assert(all.take(i + 1).last() == parts@[i as int]@);
        }
        if i > 0 {
            r.append(sep);
        }
        r.append(parts[i].as_str());
        proof {
            if i == 0 {
                assert(r@ =~= parts@[0]@);
            }
        }
        i += 1;
    }
    proof {
        assert(texts(parts@).take(parts@.len() as int) =~= texts(parts@));
    }
    r
}

/// A text with each `c` replaced by `by`.
pub open spec fn replaced(s: Seq<char>, c: char, by: Seq<char>) -> Seq<char>
    decreases s.len(),
{
    if s.len() == 0 {
        s
    } else if s.last() == c {
        replaced(s.drop_last(), c, by) + by
    } else {
        replaced(s.drop_last(), c, by).push(s.last())
    }
}

/// A string with each `c` replaced by `by`.
pub fn replace_char(s: &str, c: char, by: &str) -> (r: String)
    ensures
        r@ == replaced(s@, c, by@),
{
    let v = to_chars(s);
    let mut r = String::new();
    let mut i: usize = 0;
    while i < v.len()
        invariant
            i <= v.len(),
            v@ == s@,
            r@ == replaced(v@.take(i as int), c, by@),
        decreases v.len() - i,
    {
        proof {
            assert(v@.take(i + 1).drop_last() =~= v@.take(i as int));
        }
        if v[i] == c {
            r.append(by);
        } else {
            r.push(v[i]);
        }
        i += 1;
    }
    proof {
        assert(v@.take(v@.len() as int) =~= v@);
    }
    r
}

/// A text with each `p`, found from the left, replaced by `by`.
pub open spec fn substituted(s: Seq<char>, p: Seq<char>, by: Seq<char>) -> Seq<char>
    decreases s.len(),
{
    if s.len() == 0 || p.len() == 0 {
        s
    } else if p.is_prefix_of(s) {
        by + substituted(s.skip(p.len() as int), p, by)
    } else {
        seq![s[0]] + substituted(s.skip(1), p, by)
    }
}

/// A string with each `p`, found from the left, replaced by `by`.
pub fn replace_text(s: &str, p: &str, by: &str) -> (r: String)
    requires
        p@.len() > 0,
    ensures
        r@ == substituted(s@, p@, by@),
{
    let v = to_chars(s);
    let w = to_chars(p);
    let mut r = String::new();
    let mut i: usize = 0;
    proof {
        assert(v@.skip(0) =~= v@);
        assert(r@ + substituted(s@, p@, by@) =~= substituted(s@, p@, by@));
    }
    while i < v.len()
        invariant
            i <= v.len(),
            v@ == s@,
            w@ == p@,
            p@.len() > 0,
            r@ + substituted(v@.skip(i as int), p@, by@) == substituted(s@, p@, by@),
        decreases v.len() - i,
    {
        let ghost rest = v@.skip(i as int);
        let ghost done = r@;
        if stands_at(&v, &w, i) {
            proof {
                assert(p@.is_prefix_of(rest)) by {
                    assert(rest.subrange(0, p@.len() as int) =~= v@.subrange(
                        i as int,
                        i + p@.len(),
                    ));
                }
                assert(rest.skip(p@.len() as int) =~= v@.skip(i + p@.len()));
            }
            r.append(by);
            i += w.len();
            proof {
                let tail = substituted(v@.skip(i as int), p@, by@);
                assert(done + (by@ + tail) =~= (done + by@) + tail);
            }
        } else {
            proof {
                assert(!p@.is_prefix_of(rest)) by {
                    if p@.is_prefix_of(rest) {
                        assert(rest.subrange(0, p@.len() as int) =~= v@.subrange(
                            i as int,
                            i + p@.len(),
                        ));
                    }
                }
                assert(rest.skip(1) =~= v@.skip(i + 1));
            }
            r.push(v[i]);
            i += 1;
            proof {
                let tail = substituted(v@.skip(i as int), p@, by@);
                assert(done + (seq![rest[0]] + tail) =~= done.push(rest[0]) + tail);
            }
        }
    }
    proof {
        assert(v@.skip(v@.len() as int) =~= Seq::empty());
        assert(r@ + Seq::<char>::empty() =~= r@);
    }
    r
}

/// A letter of ASCII in lower case; any other character as it is.
pub open spec fn lower_char(c: char) -> char {
    if 'A' <= c && c <= 'Z' {
        (c as u8 + 32) as char
    } else {
        c
    }
}

/// A text with ASCII's letters in lower case.
pub open spec fn lowered(s: Seq<char>) -> Seq<char> {
    s.map_values(|c: char| lower_char(c))
}

/// A letter of ASCII in lower case; any other character as it is.
pub fn to_lower(c: char) -> (r: char)
    ensures
        r == lower_char(c),
{
    if 'A' <= c && c <= 'Z' {
        (c as u8 + 32) as char
    } else {
        c
    }
}

/// A string with ASCII's letters in lower case.
pub fn lower(s: &str) -> (r: String)
    ensures
        r@ == lowered(s@),
{
    let v = to_chars(s);
    let mut r = String::new();
    let mut i: usize = 0;
    while i < v.len()
        invariant
            i <= v.len(),
            v@ == s@,
            r@ == lowered(v@.take(i as int)),
        decreases v.len() - i,
    {
        r.push(to_lower(v[i]));
        proof {
            assert(lowered(v@.take(i + 1)) =~= lowered(v@.take(i as int)).push(
                lower_char(v@[i as int]),
            ));
        }
        i += 1;
    }
    proof {
        assert(v@.take(v@.len() as int) =~= v@);
    }
    r
}

/// Whether two strings are the same but for the case of ASCII's letters.
pub fn same_ignoring_case(a: &str, b: &str) -> (r: bool)
    ensures
        r == (lowered(a@) == lowered(b@)),
{
    lower(a) == lower(b)
}

/// A number in decimal digits.
pub open spec fn digits(n: nat) -> Seq<char>
    decreases n,
{
    if n < 10 {
        seq![('0' as u8 + n) as char]
    } else {
        digits(n / 10).push(('0' as u8 + n % 10) as char)
    }
}

/// A number in decimal digits.
pub fn decimal(n: u64) -> (r: String)
    ensures
        r@ == digits(n as nat),
    decreases n,
{
    let digit: u8 = (n % 10) as u8;
    let c: char = (48u8 + digit) as char;
    if n < 10 {
        let mut r = String::new();
        r.push(c);
        proof {
            assert(r@ =~= digits(n as nat));
        }
        r
    } else {
        let mut r = decimal(n / 10);
        r.push(c);
        r
    }
}

/// Whether `a` comes before `b`, or is `b`, in the order of their characters.
pub open spec fn le(a: Seq<char>, b: Seq<char>) -> bool
    decreases a.len(),
{
    if a.len() == 0 {
        true
    } else if b.len() == 0 {
        false
    } else if a[0] != b[0] {
        a[0] < b[0]
    } else {
        le(a.skip(1), b.skip(1))
    }
}

/// The order has no two texts in the same place.
pub proof fn lemma_le_antisymmetric(a: Seq<char>, b: Seq<char>)
    requires
        le(a, b),
        le(b, a),
    ensures
        a == b,
    decreases a.len(),
{
    if a.len() > 0 && b.len() > 0 {
        lemma_le_antisymmetric(a.skip(1), b.skip(1));
        assert(a =~= seq![a[0]] + a.skip(1));
        assert(b =~= seq![b[0]] + b.skip(1));
    } else {
        assert(a =~= b);
    }
}

/// The order places any two texts.
pub proof fn lemma_le_total(a: Seq<char>, b: Seq<char>)
    ensures
        le(a, b) || le(b, a),
    decreases a.len(),
{
    if a.len() > 0 && b.len() > 0 {
        lemma_le_total(a.skip(1), b.skip(1));
    }
}

/// The order is transitive.
pub proof fn lemma_le_transitive(a: Seq<char>, b: Seq<char>, c: Seq<char>)
    requires
        le(a, b),
        le(b, c),
    ensures
        le(a, c),
    decreases a.len(),
{
    if a.len() > 0 && b.len() > 0 && c.len() > 0 && a[0] == b[0] && b[0] == c[0] {
        lemma_le_transitive(a.skip(1), b.skip(1), c.skip(1));
    }
}

/// Whether `a` comes before `b`, or is `b`, in the order of their characters.
pub fn not_after(a: &str, b: &str) -> (r: bool)
    ensures
        r == le(a@, b@),
{
    let x = to_chars(a);
    let y = to_chars(b);
    let mut i: usize = 0;
    proof {
        assert(x@.skip(0) =~= x@);
        assert(y@.skip(0) =~= y@);
    }
    while i < x.len()
        invariant
            i <= x.len(),
            i <= y.len(),
            x@ == a@,
            y@ == b@,
            le(x@.skip(i as int), y@.skip(i as int)) == le(a@, b@),
        decreases x.len() - i,
    {
        if i >= y.len() {
            return false;
        }
        if x[i] != y[i] {
            return x[i] < y[i];
        }
        proof {
            assert(x@.skip(i as int).skip(1) =~= x@.skip(i + 1));
            assert(y@.skip(i as int).skip(1) =~= y@.skip(i + 1));
        }
        i += 1;
    }
    true
}

/// Whether a list of texts is in order.
pub open spec fn in_order(v: Seq<Seq<char>>) -> bool {
    forall|i: int, j: int| 0 <= i < j < v.len() ==> le(#[trigger] v[i], #[trigger] v[j])
}

/// Two lists in order that hold the same texts as often are the same list.
pub proof fn order_is_settled(a: Seq<Seq<char>>, b: Seq<Seq<char>>)
    requires
        in_order(a),
        in_order(b),
        a.to_multiset() == b.to_multiset(),
    ensures
        a == b,
    decreases a.len(),
{
    broadcast use vstd::seq_lib::group_to_multiset_ensures;

    a.to_multiset_ensures();
    b.to_multiset_ensures();
    assert(a.len() == b.len());
    if a.len() > 0 {
        let x = a.last();
        let y = b.last();
        assert(a.contains(x) && b.contains(y));
        assert(a.to_multiset().count(x) > 0 && b.to_multiset().count(y) > 0);
        assert(b.contains(x) && a.contains(y));
        let i = b.index_of(x);
        let j = a.index_of(y);
        if i < b.len() - 1 {
            assert(le(b[i], b[b.len() - 1]));
        } else {
            lemma_le_total(x, y);
        }
        if j < a.len() - 1 {
            assert(le(a[j], a[a.len() - 1]));
        } else {
            lemma_le_total(x, y);
        }
        assert(le(x, y) && le(y, x));
        lemma_le_antisymmetric(x, y);
        assert(a.drop_last() =~= a.remove(a.len() - 1));
        assert(b.drop_last() =~= b.remove(b.len() - 1));
        order_is_settled(a.drop_last(), b.drop_last());
        assert(a =~= a.drop_last().push(x));
        assert(b =~= b.drop_last().push(y));
    } else {
        assert(a =~= b);
    }
}

/// Puts a list of strings in order.
pub fn sort(v: Vec<String>) -> (r: Vec<String>)
    ensures
        in_order(texts(r@)),
        texts(r@).to_multiset() == texts(v@).to_multiset(),
        r.len() == v.len(),
{
    let mut r: Vec<String> = Vec::new();
    let mut i: usize = 0;
    proof {
        assert(texts(r@) =~= texts(v@).take(0));
    }
    while i < v.len()
        invariant
            i <= v.len(),
            r.len() == i,
            in_order(texts(r@)),
            texts(r@).to_multiset() == texts(v@).take(i as int).to_multiset(),
        decreases v.len() - i,
    {
        let mut k: usize = 0;
        while k < r.len() && not_after(r[k].as_str(), v[i].as_str())
            invariant
                k <= r.len(),
                i < v.len(),
                forall|j: int| 0 <= j < k ==> le(#[trigger] texts(r@)[j], v@[i as int]@),
            decreases r.len() - k,
        {
            k += 1;
        }
        let ghost before = texts(r@);
        let ghost x = v@[i as int]@;
        r.insert(k, v[i].clone());
        proof {
            let after = texts(r@);
            assert(after =~= before.insert(k as int, x));
            vstd::seq_lib::to_multiset_insert(before, k as int, x);
            assert(texts(v@).take(i + 1) =~= texts(v@).take(i as int).push(x));
            vstd::seq_lib::to_multiset_build(texts(v@).take(i as int), x);
            if k < before.len() {
                lemma_le_total(before[k as int], x);
            }
            assert forall|p: int, q: int| 0 <= p < q < after.len() implies le(
                #[trigger] after[p],
                #[trigger] after[q],
            ) by {
                let po = if p < k {
                    p
                } else {
                    p - 1
                };
                let qo = if q < k {
                    q
                } else {
                    q - 1
                };
                if p != k && q != k {
                    assert(after[p] == before[po] && after[q] == before[qo]);
                } else if q == k {
                    assert(le(before[p], x));
                } else {
                    assert(after[q] == before[qo]);
                    if qo > k {
                        assert(le(before[k as int], before[qo]));
                        lemma_le_transitive(x, before[k as int], before[qo]);
                    }
                }
            }
        }
        i += 1;
    }
    proof {
        assert(texts(v@).take(v@.len() as int) =~= texts(v@));
    }
    r
}

/// The pieces of a text that begins with a piece and the separator: that
/// piece, then the pieces of what follows.
pub proof fn lemma_split_head(a: Seq<char>, c: char, b: Seq<char>)
    requires
        !a.contains(c),
    ensures
        split(a + seq![c] + b, c) == seq![a] + split(b, c),
    decreases b.len(),
{
    let s = a + seq![c] + b;
    if b.len() == 0 {
        assert(s.drop_last() =~= a);
        lemma_split_whole(a, c);
        assert(b =~= Seq::empty());
        assert(split(s, c) =~= seq![a] + split(b, c));
    } else {
        assert(s.drop_last() =~= a + seq![c] + b.drop_last());
        lemma_split_head(a, c, b.drop_last());
        lemma_split_len(b.drop_last(), c);
        let before = split(b.drop_last(), c);
        assert((seq![a] + before).drop_last() =~= seq![a] + before.drop_last());
        assert((seq![a] + before).last() == before.last());
        assert(split(s, c) =~= seq![a] + split(b, c));
    }
}

/// The pieces of two texts with the separator between them: those of the one,
/// then those of the other.
pub proof fn lemma_split_both(a: Seq<char>, c: char, b: Seq<char>)
    ensures
        split(a + seq![c] + b, c) == split(a, c) + split(b, c),
    decreases b.len(),
{
    let s = a + seq![c] + b;
    if b.len() == 0 {
        assert(s.drop_last() =~= a);
        assert(b =~= Seq::empty());
        assert(split(s, c) =~= split(a, c) + split(b, c));
    } else {
        assert(s.drop_last() =~= a + seq![c] + b.drop_last());
        lemma_split_both(a, c, b.drop_last());
        lemma_split_len(b.drop_last(), c);
        let front = split(a, c);
        let before = split(b.drop_last(), c);
        assert((front + before).drop_last() =~= front + before.drop_last());
        assert((front + before).last() == before.last());
        assert(split(s, c) =~= front + split(b, c));
    }
}

/// The pieces of a text, put together again, are the text.
pub proof fn lemma_joined_split(s: Seq<char>, c: char)
    ensures
        joined(split(s, c), seq![c]) == s,
    decreases s.len(),
{
    if s.len() == 0 {
        assert(split(s, c)[0] =~= s);
    } else {
        let front = s.drop_last();
        lemma_joined_split(front, c);
        lemma_split_len(front, c);
        let before = split(front, c);
        if s.last() == c {
            assert(split(s, c).drop_last() =~= before);
            assert(joined(split(s, c), seq![c]) =~= front + seq![c]);
        } else if before.len() == 1 {
            assert(joined(before, seq![c]) == before[0]);
            assert(split(s, c)[0] == front.push(s.last()));
        } else {
            assert(split(s, c).drop_last() =~= before.drop_last());
            assert(joined(split(s, c), seq![c]) =~= front.push(s.last()));
        }
        assert(s =~= front.push(s.last()));
    }
}

/// What stands before the first occurrence of a character is free of it.
pub proof fn lemma_find(s: Seq<char>, c: char)
    requires
        s.contains(c),
    ensures
        0 <= find(s, c) < s.len(),
        s[find(s, c)] == c,
        !s.take(find(s, c)).contains(c),
{
    lemma_find_from(s, c, 0);
}

/// The first occurrence of a character from a position on.
proof fn lemma_find_from(s: Seq<char>, c: char, i: int)
    requires
        0 <= i <= s.len(),
        s.contains(c),
        forall|j: int| 0 <= j < i ==> s[j] != c,
    ensures
        i <= find_from(s, c, i) < s.len(),
        s[find_from(s, c, i)] == c,
        forall|j: int| 0 <= j < find_from(s, c, i) ==> s[j] != c,
    decreases s.len() - i,
{
    if i < s.len() && s[i] != c {
        lemma_find_from(s, c, i + 1);
    }
}

/// Whether the bytes `p` stand in `v` at position `i`.
pub fn bytes_at(v: &[u8], p: &[u8], i: usize) -> (r: bool)
    ensures
        r == at(v@, p@, i as int),
{
    if p.len() > v.len() || i > v.len() - p.len() {
        return false;
    }
    let mut j: usize = 0;
    while j < p.len()
        invariant
            j <= p.len(),
            i + p.len() <= v.len(),
            forall|k: int| 0 <= k < j ==> v@[i + k] == p@[k],
        decreases p.len() - j,
    {
        if v[i + j] != p[j] {
            assert(v@.subrange(i as int, i + p.len())[j as int] != p@[j as int]);
            return false;
        }
        j += 1;
    }
    assert(v@.subrange(i as int, i + p.len()) =~= p@);
    true
}

/// The position of the first `p` at or after `from`, if any.
pub fn find_chars(v: &Vec<char>, p: &Vec<char>, from: usize) -> (r: Option<usize>)
    requires
        from <= v.len(),
    ensures
        match r {
            Some(k) => find_text(v@, p@, from as int) == Some(k as int),
            None => find_text(v@, p@, from as int) is None,
        },
        r matches Some(k) ==> from <= k && k + p.len() <= v.len(),
{
    let mut i: usize = from;
    while i < v.len()
        invariant
            from <= i <= v.len(),
            find_text(v@, p@, i as int) == find_text(v@, p@, from as int),
        decreases v.len() - i,
    {
        if stands_at(v, p, i) {
            return Some(i);
        }
        i += 1;
    }
    if stands_at(v, p, i) {
        return Some(i);
    }
    assert(find_text(v@, p@, i + 1) is None);
    None
}

/// Where a text was found it stands, at or after the place that the search
/// began at.
pub proof fn lemma_find_text<T>(s: Seq<T>, p: Seq<T>, i: int)
    requires
        find_text(s, p, i) is Some,
    ensures
        find_text(s, p, i)->0 >= i,
        at(s, p, find_text(s, p, i)->0),
    decreases s.len() + 1 - i,
{
    if i <= s.len() && !at(s, p, i) {
        lemma_find_text(s, p, i + 1);
    }
}

/// `std::str::from_utf8`: the text that the bytes encode, where they are valid
/// UTF-8.
#[verifier::external_body]
pub(crate) fn utf8_text(bytes: &[u8]) -> (r: Option<String>)
    ensures
        r is Some == valid_utf8(bytes@),
        r matches Some(s) ==> s@ == decode_utf8(bytes@),
{
    std::str::from_utf8(bytes).ok().map(|s| s.to_owned())
}

/// The text that bytes stand for where what is not UTF-8 is replaced.
pub uninterp spec fn lossy(bytes: Seq<u8>) -> Seq<char>;

/// `String::from_utf8_lossy`: the text that the bytes stand for, what is not
/// UTF-8 being replaced; bytes that are UTF-8 give the text they encode.
#[verifier::external_body]
pub(crate) fn lossy_text(bytes: &[u8]) -> (r: String)
    ensures
        r@ == lossy(bytes@),
        valid_utf8(bytes@) ==> r@ == decode_utf8(bytes@),
{
    String::from_utf8_lossy(bytes).into_owned()
}

/// A text in lower case by Unicode's rules.
pub uninterp spec fn lowercase(s: Seq<char>) -> Seq<char>;

/// `str::to_lowercase`: the text in lower case by Unicode's rules, which for
/// ASCII are those of its letters.
#[verifier::external_body]
pub(crate) fn to_lowercase(s: &str) -> (r: String)
    ensures
        r@ == lowercase(s@),
        is_ascii_chars(s@) ==> r@ == lowered(s@),
{
    s.to_lowercase()
}

} // verus!
