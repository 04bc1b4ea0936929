//! Text as sequences of characters: the models that the contracts of the other
//! modules speak of, and the string operations proved against them.
use vstd::prelude::*;
use vstd::utf8::*;

verus! {

/// `String::push` appends one character to the end of the string.
pub assume_specification[ String::push ](s: &mut String, c: char)
    ensures
        final(s)@ == old(s)@.push(c),
;

// ---------------------------------------------------------------------------
// Characters
// ---------------------------------------------------------------------------

/// The characters with Unicode's `White_Space` property.
pub open spec fn is_white(c: char) -> bool {
    let u = c as u32;
    ||| 0x9 <= u <= 0xD
    ||| u == 0x20
    ||| u == 0x85
    ||| u == 0xA0
    ||| u == 0x1680
    ||| 0x2000 <= u <= 0x200A
    ||| u == 0x2028
    ||| u == 0x2029
    ||| u == 0x202F
    ||| u == 0x205F
    ||| u == 0x3000
}

/// Whether `c` has Unicode's `White_Space` property.
pub fn char_is_white(c: char) -> (r: bool)
    ensures
        r == is_white(c),
{
    let u: u32 = c as u32;
    (0x9 <= u && u <= 0xD) || u == 0x20 || u == 0x85 || u == 0xA0 || u == 0x1680 || (0x2000 <= u
        && u <= 0x200A) || u == 0x2028 || u == 0x2029 || u == 0x202F || u == 0x205F || u == 0x3000
}

/// `c` with the letters `A` to `Z` brought to lower case.
pub open spec fn lower_char(c: char) -> char {
    if 0x41 <= c as u32 <= 0x5A {
        ((c as u32 + 32) as u32) as char
    } else {
        c
    }
}

/// `c` with the letters `a` to `z` brought to upper case.
pub open spec fn upper_char(c: char) -> char {
    if 0x61 <= c as u32 <= 0x7A {
        ((c as u32 - 32) as u32) as char
    } else {
        c
    }
}

fn char_to_lower(c: char) -> (r: char)
    ensures
        r == lower_char(c),
{
    let u: u32 = c as u32;
    if 0x41 <= u && u <= 0x5A {
        ((u + 32) as u8) as char
    } else {
        c
    }
}

/// `c` with the letters `a` to `z` brought to upper case.
pub fn char_to_upper(c: char) -> (r: char)
    ensures
        r == upper_char(c),
{
    let u: u32 = c as u32;
    if 0x61 <= u && u <= 0x7A {
        ((u - 32) as u8) as char
    } else {
        c
    }
}

// ---------------------------------------------------------------------------
// Between strings and vectors of characters
// ---------------------------------------------------------------------------

/// The characters of `s`, in order.
pub fn chars_of(s: &str) -> (r: Vec<char>)
    ensures
        r@ == s@,
{
    let mut out: Vec<char> = Vec::new();
    for c in it: s.chars()
        invariant
            out@ == it.seq().take(it.index() as int),
    {
        out.push(c);
    }
    out
}

/// The string made of the characters `v[from..to]`.
pub fn string_of_range(v: &Vec<char>, from: usize, to: usize) -> (r: String)
    requires
        from <= to <= v@.len(),
    ensures
        r@ == v@.subrange(from as int, to as int),
{
    let mut out = String::new();
    let mut i: usize = from;
    while i < to
        invariant
            from <= i <= to <= v@.len(),
            out@ == v@.subrange(from as int, i as int),
        decreases to - i,
    {
        out.push(v[i]);
        i = i + 1;
        assert(v@.subrange(from as int, i as int) =~= v@.subrange(from as int, i - 1).push(
            v@[i - 1],
        ));
    }
    out
}

/// The string made of the characters of `v`.
pub fn string_of(v: &Vec<char>) -> (r: String)
    ensures
        r@ == v@,
{
    assert(v@.subrange(0, v@.len() as int) =~= v@);
    string_of_range(v, 0, v.len())
}

/// Whether two strings hold the same characters.
pub fn str_eq(a: &str, b: &str) -> (r: bool)
    ensures
        r == (a@ == b@),
{
    let x = a.as_bytes();
    let y = b.as_bytes();
    proof {
        encode_utf8_decode_utf8(a@);
        encode_utf8_decode_utf8(b@);
    }
    if x.len() != y.len() {
        return false;
    }
    for i in 0..x.len()
        invariant
            x@ == encode_utf8(a@),
            y@ == encode_utf8(b@),
            x@.len() == y@.len(),
            forall|j: int| 0 <= j < i ==> x@[j] == y@[j],
    {
        if x[i] != y[i] {
            return false;
        }
    }
    assert(x@ =~= y@);
    true
}

/// The number of bytes that `s` takes in UTF-8.
pub open spec fn byte_len(s: Seq<char>) -> nat {
    encode_utf8(s).len()
}

/// The number of bytes that `s` takes in UTF-8.
pub fn str_byte_len(s: &str) -> (r: usize)
    ensures
        r == byte_len(s@),
{
    s.as_bytes().len()
}

/// The views of a sequence of strings.
pub open spec fn views(v: Seq<String>) -> Seq<Seq<char>> {
    Seq::new(v.len(), |i: int| v[i]@)
}

/// The views of a sequence of pairs of strings.
pub open spec fn pairs(v: Seq<(String, String)>) -> Seq<(Seq<char>, Seq<char>)> {
    Seq::new(v.len(), |i: int| (v[i].0@, v[i].1@))
}

// ---------------------------------------------------------------------------
// Prefixes, substrings, case
// ---------------------------------------------------------------------------

/// Whether `s` begins with `p`.
pub open spec fn starts_with(s: Seq<char>, p: Seq<char>) -> bool {
    p.len() <= s.len() && s.take(p.len() as int) == p
}

/// Whether `p` stands in `s` at position `i`.
pub open spec fn occurs_at(s: Seq<char>, p: Seq<char>, i: int) -> bool {
    0 <= i && i + p.len() <= s.len() && s.subrange(i, i + p.len()) == p
}

/// Whether `p` stands anywhere in `s`.
pub open spec fn contains(s: Seq<char>, p: Seq<char>) -> bool {
    exists|i: int| occurs_at(s, p, i)
}

/// `s` with the letters `A` to `Z` brought to lower case.
pub open spec fn lower(s: Seq<char>) -> Seq<char> {
    Seq::new(s.len(), |i: int| lower_char(s[i]))
}

/// `s` with the letters `a` to `z` brought to upper case.
pub open spec fn upper(s: Seq<char>) -> Seq<char> {
    Seq::new(s.len(), |i: int| upper_char(s[i]))
}

/// Whether `p` stands in `s` at position `i`.
pub fn occurs_at_index(s: &Vec<char>, p: &Vec<char>, i: usize) -> (r: bool)
    requires
        i <= s@.len(),
    ensures
        r == occurs_at(s@, p@, i as int),
{
    let n: usize = s.len();
    if p.len() > n - i {
        return false;
    }
    for j in 0..p.len()
        invariant
            i + p@.len() <= n == s@.len(),
            forall|k: int| 0 <= k < j ==> s@[i + k] == p@[k],
    {
        if s[i + j] != p[j] {
            assert(s@.subrange(i as int, i + p@.len())[j as int] != p@[j as int]);
            return false;
        }
    }
    assert(s@.subrange(i as int, i + p@.len()) =~= p@);
    true
}

/// Whether `p` stands anywhere in `s`.
pub fn chars_contain(s: &Vec<char>, p: &Vec<char>) -> (r: bool)
    ensures
        r == contains(s@, p@),
{
    if p.len() > s.len() {
        return false;
    }
    let last: usize = s.len() - p.len();
    let mut i: usize = 0;
    while i <= last
        invariant
            last == s@.len() - p@.len(),
            i <= last + 1,
            forall|k: int| 0 <= k < i ==> !occurs_at(s@, p@, k),
        decreases last + 1 - i,
    {
        if occurs_at_index(s, p, i) {
            return true;
        }
        if i == last {
            return false;
        }
        i = i + 1;
    }
    false
}

/// Whether `p` stands anywhere in `s`.
pub fn str_contains(s: &str, p: &str) -> (r: bool)
    ensures
        r == contains(s@, p@),
{
    chars_contain(&chars_of(s), &chars_of(p))
}

/// Whether `s` begins with `p`.
pub fn str_starts_with(s: &str, p: &str) -> (r: bool)
    ensures
        r == starts_with(s@, p@),
{
    assert(p@.len() <= s@.len() ==> s@.take(p@.len() as int) =~= s@.subrange(
        0,
        0int + p@.len(),
    ));
    occurs_at_index(&chars_of(s), &chars_of(p), 0)
}

/// Where `c` stands in `s` for the last time.
pub open spec fn last_index(s: Seq<char>, c: char) -> Option<int>
    decreases s.len(),
{
    if s.len() == 0 {
        None
    } else if s.last() == c {
        Some(s.len() - 1)
    } else {
        last_index(s.drop_last(), c)
    }
}

/// Where `c` stands in `v` for the last time.
pub fn find_last(v: &Vec<char>, c: char) -> (r: Option<usize>)
    ensures
        match r {
            Some(i) => i < v@.len() && v@[i as int] == c && last_index(v@, c) == Some(i as int),
            None => last_index(v@, c) is None,
        },
{
    let mut i: usize = v.len();
    assert(v@.take(i as int) =~= v@);
    while i > 0
        invariant
            i <= v@.len(),
            last_index(v@, c) == last_index(v@.take(i as int), c),
        decreases i,
    {
        assert(v@.take(i as int).drop_last() =~= v@.take(i - 1));
        i = i - 1;
        if v[i] == c {
            return Some(i);
        }
    }
    None
}

/// `s` with the letters `A` to `Z` brought to lower case.
pub fn str_lower(s: &str) -> (r: String)
    ensures
        r@ == lower(s@),
{
    let mut out = String::new();
    for c in it: s.chars()
        invariant
            out@ == lower(it.seq().take(it.index() as int)),
    {
        out.push(char_to_lower(c));
        assert(lower(it.seq().take(it.index() + 1)) =~= lower(
            it.seq().take(it.index() as int),
        ).push(lower_char(c)));
    }
    assert(s@.take(s@.len() as int) =~= s@);
    out
}

/// `s` with the letters `a` to `z` brought to upper case.
pub fn str_upper(s: &str) -> (r: String)
    ensures
        r@ == upper(s@),
{
    let mut out = String::new();
    for c in it: s.chars()
        invariant
            out@ == upper(it.seq().take(it.index() as int)),
    {
        out.push(char_to_upper(c));
        assert(upper(it.seq().take(it.index() + 1)) =~= upper(
            it.seq().take(it.index() as int),
        ).push(upper_char(c)));
    }
    assert(s@.take(s@.len() as int) =~= s@);
    out
}

/// Whether two strings are the same but for the case of ASCII letters.
pub fn str_eq_ignore_case(a: &str, b: &str) -> (r: bool)
    ensures
        r == (lower(a@) == lower(b@)),
{
    str_eq(str_lower(a).as_str(), str_lower(b).as_str())
}

// ---------------------------------------------------------------------------
// White space
// ---------------------------------------------------------------------------

/// `s` without the white space it begins with.
pub open spec fn trim_start(s: Seq<char>) -> Seq<char>
    decreases s.len(),
{
    if s.len() > 0 && is_white(s[0]) {
        trim_start(s.drop_first())
    } else {
        s
    }
}

/// `s` without the white space it ends with.
pub open spec fn trim_end(s: Seq<char>) -> Seq<char>
    decreases s.len(),
{
    if s.len() > 0 && is_white(s.last()) {
        trim_end(s.drop_last())
    } else {
        s
    }
}

/// `s` without the white space at either end.
pub open spec fn trim(s: Seq<char>) -> Seq<char> {
    trim_end(trim_start(s))
}

/// Whether `s` holds any white space.
pub open spec fn has_white(s: Seq<char>) -> bool {
    exists|i: int| 0 <= i < s.len() && is_white(#[trigger] s[i])
}

/// The length of the run of characters other than white space that `s` begins with.
pub open spec fn word_len(s: Seq<char>) -> nat
    decreases s.len(),
{
    if s.len() == 0 || is_white(s[0]) {
        0
    } else {
        1 + word_len(s.drop_first())
    }
}

pub proof fn lemma_word_len(s: Seq<char>)
    ensures
        word_len(s) <= s.len(),
        s.len() > 0 && !is_white(s[0]) ==> word_len(s) > 0,
        forall|i: int| 0 <= i < word_len(s) ==> !is_white(#[trigger] s[i]),
        word_len(s) < s.len() ==> is_white(s[word_len(s) as int]),
    decreases s.len(),
{
    if s.len() > 0 && !is_white(s[0]) {
        lemma_word_len(s.drop_first());
        assert forall|i: int| 0 <= i < word_len(s) implies !is_white(#[trigger] s[i]) by {
            if i > 0 {
                assert(s[i] == s.drop_first()[i - 1]);
            }
        }
    }
}

pub proof fn lemma_trim_start(s: Seq<char>)
    ensures
        trim_start(s).len() <= s.len(),
        trim_start(s) == s.skip(s.len() - trim_start(s).len()),
        trim_start(s).len() > 0 ==> !is_white(trim_start(s)[0]),
        forall|i: int|
            0 <= i < s.len() - trim_start(s).len() ==> is_white(#[trigger] s[i]),
    decreases s.len(),
{
    if s.len() > 0 && is_white(s[0]) {
        lemma_trim_start(s.drop_first());
        let t = trim_start(s);
        assert(t =~= s.skip(s.len() - t.len()));
        assert forall|i: int| 0 <= i < s.len() - t.len() implies is_white(#[trigger] s[i]) by {
            if i > 0 {
                assert(s[i] == s.drop_first()[i - 1]);
            }
        }
    } else {
        assert(s =~= s.skip(0));
    }
}

pub proof fn lemma_trim_end(s: Seq<char>)
    ensures
        trim_end(s).len() <= s.len(),
        trim_end(s) == s.take(trim_end(s).len() as int),
        trim_end(s).len() > 0 ==> !is_white(trim_end(s).last()),
    decreases s.len(),
{
    if s.len() > 0 && is_white(s.last()) {
        lemma_trim_end(s.drop_last());
        let t = trim_end(s);
        assert(t =~= s.take(t.len() as int));
    } else {
        assert(s =~= s.take(s.len() as int));
    }
}

/// The words of `s`: the longest runs of characters other than white space, in order.
pub open spec fn words(s: Seq<char>) -> Seq<Seq<char>>
    decreases s.len(),
    via words_decreases
{
    let t = trim_start(s);
    if t.len() == 0 {
        Seq::empty()
    } else {
        seq![t.take(word_len(t) as int)] + words(t.skip(word_len(t) as int))
    }
}

#[via_fn]
proof fn words_decreases(s: Seq<char>) {
    lemma_trim_start(s);
    lemma_word_len(trim_start(s));
}

/// Where `v[from..]` begins once its leading white space is taken off.
pub fn skip_white(v: &Vec<char>, from: usize) -> (r: usize)
    requires
        from <= v@.len(),
    ensures
        from <= r <= v@.len(),
        v@.skip(r as int) == trim_start(v@.skip(from as int)),
{
    let mut i: usize = from;
    while i < v.len() && char_is_white(v[i])
        invariant
            from <= i <= v@.len(),
            trim_start(v@.skip(from as int)) == trim_start(v@.skip(i as int)),
        decreases v@.len() - i,
    {
        assert(v@.skip(i as int).drop_first() =~= v@.skip(i + 1));
        i = i + 1;
    }
    i
}

/// Where the word that begins at `from` ends.
pub fn end_of_word(v: &Vec<char>, from: usize) -> (r: usize)
    requires
        from <= v@.len(),
    ensures
        from <= r <= v@.len(),
        r == from + word_len(v@.skip(from as int)),
{
    let mut i: usize = from;
    while i < v.len() && !char_is_white(v[i])
        invariant
            from <= i <= v@.len(),
            word_len(v@.skip(from as int)) == i - from + word_len(v@.skip(i as int)),
        decreases v@.len() - i,
    {
        assert(v@.skip(i as int).drop_first() =~= v@.skip(i + 1));
        i = i + 1;
    }
    i
}

/// The words of `s`, in order.
pub fn str_words(s: &str) -> (r: Vec<String>)
    ensures
        views(r@) == words(s@),
{
    let v = chars_of(s);
    let mut out: Vec<String> = Vec::new();
    let mut i: usize = skip_white(&v, 0);
    proof {
        assert(v@.skip(0) =~= v@);
        lemma_trim_start(v@);
        lemma_words_trim(v@);
    }
    while i < v.len()
        invariant
            i <= v@.len(),
            i < v@.len() ==> !is_white(v@[i as int]),
            words(v@) == views(out@) + words(v@.skip(i as int)),
        decreases v@.len() - i,
    {
        let ghost rest = v@.skip(i as int);
        proof {
            lemma_word_len(rest);
            assert(trim_start(rest) == rest);
        }
        let j: usize = end_of_word(&v, i);
        let w = string_of_range(&v, i, j);
        let ghost before = views(out@);
        out.push(w);
        let k: usize = skip_white(&v, j);
        proof {
            assert(w@ =~= rest.take(word_len(rest) as int));
            assert(v@.skip(j as int) =~= rest.skip(word_len(rest) as int));
            lemma_trim_start(v@.skip(j as int));
            lemma_words_trim(v@.skip(j as int));
            assert(views(out@) =~= before.push(w@));
            assert(words(rest) == seq![w@] + words(v@.skip(k as int)));
            assert(before + (seq![w@] + words(v@.skip(k as int))) =~= before.push(w@) + words(
                v@.skip(k as int),
            ));
            if k < v@.len() {
                assert(trim_start(v@.skip(j as int))[0] == v@[k as int]);
            }
        }
        i = k;
    }
    assert(words(v@.skip(i as int)) =~= Seq::empty()) by {
        lemma_trim_start(v@.skip(i as int));
    }
    assert(views(out@) + Seq::empty() =~= views(out@));
    out
}

/// Leading white space does not change what the words are.
pub proof fn lemma_words_trim(s: Seq<char>)
    ensures
        words(trim_start(s)) == words(s),
{
    lemma_trim_start(s);
    let t = trim_start(s);
    assert(trim_start(t) == t);
}

/// `s` without the white space at either end.
pub fn str_trim(s: &str) -> (r: String)
    ensures
        r@ == trim(s@),
{
    let v = chars_of(s);
    let i: usize = skip_white(&v, 0);
    assert(v@.skip(0) =~= v@);
    let j: usize = last_non_white(&v, i);
    assert(v@.skip(i as int).take(j - i) =~= v@.subrange(i as int, j as int));
    string_of_range(&v, i, j)
}

/// Where `v[from..]` ends once its trailing white space is taken off.
fn last_non_white(v: &Vec<char>, from: usize) -> (r: usize)
    requires
        from <= v@.len(),
    ensures
        from <= r <= v@.len(),
        v@.skip(from as int).take(r - from) == trim_end(v@.skip(from as int)),
{
    let mut j: usize = v.len();
    assert(v@.skip(from as int).take(v@.len() - from) =~= v@.skip(from as int));
    while j > from && char_is_white(v[j - 1])
        invariant
            from <= j <= v@.len(),
            trim_end(v@.skip(from as int)) == trim_end(v@.skip(from as int).take(j - from)),
        decreases j,
    {
        assert(v@.skip(from as int).take(j - from).drop_last() =~= v@.skip(from as int).take(
            j - 1 - from,
        ));
        j = j - 1;
    }
    j
}

/// `s` without the white space it ends with.
pub fn str_trim_end(s: &str) -> (r: String)
    ensures
        r@ == trim_end(s@),
{
    let v = chars_of(s);
    let j: usize = last_non_white(&v, 0);
    assert(v@.skip(0) =~= v@);
    assert(v@.take(j as int) =~= v@.subrange(0, j as int));
    string_of_range(&v, 0, j)
}

/// Whether `s` holds any white space.
pub fn str_has_white(s: &str) -> (r: bool)
    ensures
        r == has_white(s@),
{
    let v = chars_of(s);
    for i in 0..v.len()
        invariant
            forall|j: int| 0 <= j < i ==> !is_white(#[trigger] v@[j]),
            v@ == s@,
    {
        if char_is_white(v[i]) {
            return true;
        }
    }
    false
}

/// Lower-case text without white space around it is left as it is by trimming and by
/// lowering.
pub proof fn lemma_plain(s: Seq<char>)
    requires
        s.len() > 0,
        !is_white(s[0]),
        !is_white(s.last()),
        forall|i: int| 0 <= i < s.len() ==> lower_char(#[trigger] s[i]) == s[i],
    ensures
        trim(s) == s,
        lower(s) == s,
{
    assert(trim_start(s) == s);
    assert(lower(s) =~= s);
}

// ---------------------------------------------------------------------------
// Splitting and joining
// ---------------------------------------------------------------------------

/// The parts of `s` between the separators: one more than there are separators in it.
pub open spec fn split_on<T>(s: Seq<T>, sep: T) -> Seq<Seq<T>>
    decreases s.len(),
{
    if s.len() == 0 {
        seq![Seq::empty()]
    } else {
        let parts = split_on(s.drop_last(), sep);
        if s.last() == sep {
            parts.push(Seq::empty())
        } else {
            parts.drop_last().push(parts.last().push(s.last()))
        }
    }
}

/// The views of a sequence of character vectors.
pub open spec fn char_views(v: Seq<Vec<char>>) -> Seq<Seq<char>> {
    Seq::new(v.len(), |i: int| v[i]@)
}

/// Splitting gives at least one part.
pub proof fn lemma_split_on_nonempty<T>(s: Seq<T>, sep: T)
    ensures
        split_on(s, sep).len() > 0,
    decreases s.len(),
{
    if s.len() > 0 {
        lemma_split_on_nonempty(s.drop_last(), sep);
    }
}

/// The parts of `v` between the separators.
pub fn split_chars(v: &Vec<char>, sep: char) -> (r: Vec<Vec<char>>)
    ensures
        char_views(r@) == split_on(v@, sep),
{
    let mut out: Vec<Vec<char>> = Vec::new();
    let mut part: Vec<char> = Vec::new();
    assert(v@.take(0) =~= Seq::empty());
    assert(split_on(v@.take(0), sep) =~= char_views(out@).push(part@));
    for i in 0..v.len()
        invariant
            split_on(v@.take(i as int), sep) == char_views(out@).push(part@),
    {
        let c = v[i];
        let ghost before = char_views(out@).push(part@);
        assert(v@.take(i + 1).drop_last() =~= v@.take(i as int));
        if c == sep {
            let ghost done = char_views(out@);
            out.push(part);
            assert(char_views(out@) =~= done.push(part@));
            part = Vec::new();
            assert(split_on(v@.take(i + 1), sep) =~= char_views(out@).push(part@));
        } else {
            part.push(c);
            assert(before.drop_last() =~= char_views(out@));
        }
    }
    assert(v@.take(v@.len() as int) =~= v@);
    let ghost done = char_views(out@);
    out.push(part);
    assert(char_views(out@) =~= done.push(part@));
    out
}

/// The parts one after the other, with `sep` between each two.
pub open spec fn join(parts: Seq<Seq<char>>, sep: Seq<char>) -> Seq<char>
    decreases parts.len(),
{
    if parts.len() == 0 {
        Seq::empty()
    } else if parts.len() == 1 {
        parts[0]
    } else {
        join(parts.drop_last(), sep) + sep + parts.last()
    }
}

/// The strings one after the other, with `sep` between each two.
pub fn join_strings(parts: &Vec<String>, sep: &str) -> (r: String)
    ensures
        r@ == join(views(parts@), sep@),
{
    let mut out = String::new();
    for i in 0..parts.len()
        invariant
            out@ == join(views(parts@).take(i as int), sep@),
    {
        if i > 0 {
            out.append(sep);
        }
        out.append(parts[i].as_str());
        proof {
            let next = views(parts@).take(i + 1);
            assert(next.drop_last() =~= views(parts@).take(i as int));
            if i == 0 {
                assert(out@ =~= next[0]);
            } else {
                assert(out@ =~= join(next, sep@));
            }
        }
    }
    assert(views(parts@).take(parts@.len() as int) =~= views(parts@));
    out
}

/// `a`, then `b`.
pub fn cat(a: &str, b: &str) -> (r: String)
    ensures
        r@ == a@ + b@,
{
    let mut out = a.to_string();
    out.append(b);
    out
}

/// `a`, then `b`, then `c`.
pub fn cat3(a: &str, b: &str, c: &str) -> (r: String)
    ensures
        r@ == a@ + b@ + c@,
{
    let mut out = cat(a, b);
    out.append(c);
    out
}

/// `n` blanks.
pub open spec fn blanks(n: nat) -> Seq<char> {
    Seq::new(n, |i: int| ' ')
}

/// `s` with blanks after it, up to `width` characters.
pub open spec fn padded(s: Seq<char>, width: nat) -> Seq<char> {
    if s.len() < width {
        s + blanks((width - s.len()) as nat)
    } else {
        s
    }
}

/// `s` with blanks after it, up to `width` characters.
pub fn pad_right(s: &str, width: u128) -> (r: String)
    ensures
        r@ == padded(s@, width as nat),
{
    let mut out = s.to_string();
    let mut n: u128 = chars_of(s).len() as u128;
    let ghost start = n;
    assert(s@ + blanks(0) =~= s@);
    while n < width
        invariant
            start == s@.len(),
            start <= n,
            n <= width || n == start,
            out@ == s@ + blanks((n - start) as nat),
        decreases width - n,
    {
        out.push(' ');
        n = n + 1;
        assert(out@ =~= s@ + blanks((n - start) as nat));
    }
    out
}

/// `line` without the carriage return that it ends with, if it ends with one.
pub open spec fn strip_cr(line: Seq<char>) -> Seq<char> {
    if line.len() > 0 && line.last() == '\r' {
        line.drop_last()
    } else {
        line
    }
}

/// The lines of `s`: each ends with a line feed, or with a carriage return and a line
/// feed, neither of which is part of it; only the last may end without.
pub open spec fn lines(s: Seq<char>) -> Seq<Seq<char>> {
    let parts = split_on(s, '\n');
    let ended = Seq::new((parts.len() - 1) as nat, |i: int| strip_cr(parts[i]));
    if parts.last().len() == 0 {
        ended
    } else {
        ended.push(parts.last())
    }
}

/// The lines of `s`.
pub fn str_lines(s: &str) -> (r: Vec<String>)
    ensures
        views(r@) == lines(s@),
{
    let parts = split_chars(&chars_of(s), '\n');
    let ghost all = split_on(s@, '\n');
    proof {
        lemma_split_on_nonempty(s@, '\n');
        assert(char_views(parts@) == all);
    }
    let last: usize = parts.len() - 1;
    let mut out: Vec<String> = Vec::new();
    for i in 0..last
        invariant
            last == parts@.len() - 1,
            all == char_views(parts@),
            views(out@) == Seq::new(i as nat, |j: int| strip_cr(all[j])),
    {
        let part = &parts[i];
        let n: usize = part.len();
        let line = if n > 0 && part[n - 1] == '\r' {
            assert(part@.drop_last() =~= part@.subrange(0, n - 1));
            string_of_range(part, 0, n - 1)
        } else {
            string_of(part)
        };
        let ghost before = views(out@);
        out.push(line);
        assert(all[i as int] == part@);
        assert(views(out@) =~= before.push(line@));
        assert(views(out@) =~= Seq::new((i + 1) as nat, |j: int| strip_cr(all[j])));
    }
    assert(all.last() == parts@[last as int]@);
    if parts[last].len() > 0 {
        let line = string_of(&parts[last]);
        let ghost before = views(out@);
        out.push(line);
        assert(views(out@) =~= before.push(line@));
    }
    out
}

/// Whether `c` stands in `s`.
pub fn str_has_char(s: &str, c: char) -> (r: bool)
    ensures
        r == s@.contains(c),
{
    let v = chars_of(s);
    for i in 0..v.len()
        invariant
            v@ == s@,
            forall|j: int| 0 <= j < i ==> v@[j] != c,
    {
        if v[i] == c {
            assert(s@[i as int] == c);
            return true;
        }
    }
    false
}

/// Whether a list holds a string.
pub fn has_string(list: &Vec<String>, s: &str) -> (r: bool)
    ensures
        r == views(list@).contains(s@),
{
    let ghost all = views(list@);
    for i in 0..list.len()
        invariant
            all == views(list@),
            forall|j: int| 0 <= j < i ==> #[trigger] all[j] != s@,
    {
        assert(all[i as int] == list@[i as int]@);
        if str_eq(list[i].as_str(), s) {
            return true;
        }
    }
    false
}

/// What a sequence holds once something was added to it.
pub proof fn lemma_contains_push<T>(s: Seq<T>, x: T, y: T)
    ensures
        s.push(x).contains(y) == (s.contains(y) || x == y),
{
    let t = s.push(x);
    if s.contains(y) {
        let k = choose|k: int| 0 <= k < s.len() && s[k] == y;
        assert(t[k] == y);
    }
    if t.contains(y) {
        let k = choose|k: int| 0 <= k < t.len() && t[k] == y;
        if k < s.len() {
            assert(s[k] == y);
        }
    }
    assert(t[s.len() as int] == x);
}

/// Text without a separator is one part.
pub proof fn lemma_split_one<T>(s: Seq<T>, sep: T)
    requires
        !s.contains(sep),
    ensures
        split_on(s, sep) == seq![s],
    decreases s.len(),
{
    if s.len() > 0 {
        let front = s.drop_last();
        assert(!front.contains(sep)) by {
            assert forall|i: int| 0 <= i < front.len() implies front[i] != sep by {
                assert(s[i] == front[i]);
            }
        }
        lemma_split_one(front, sep);
        assert(s.last() != sep) by {
            assert(s[s.len() - 1] == s.last());
        }
        assert(front.push(s.last()) =~= s);
        assert(split_on(s, sep) =~= seq![s]);
    } else {
        assert(s =~= Seq::empty());
    }
}

/// Splitting text after a separator: the parts before it, and those after it.
pub proof fn lemma_split_at<T>(a: Seq<T>, b: Seq<T>, sep: T)
    ensures
        split_on(a.push(sep) + b, sep) == split_on(a, sep) + split_on(b, sep),
    decreases b.len(),
{
    let whole = a.push(sep) + b;
    lemma_split_on_nonempty(a, sep);
    lemma_split_on_nonempty(b, sep);
    if b.len() == 0 {
        assert(whole =~= a.push(sep));
        assert(whole.drop_last() =~= a);
        assert(split_on(whole, sep) =~= split_on(a, sep) + split_on(b, sep));
    } else {
        assert(whole.drop_last() =~= a.push(sep) + b.drop_last());
        assert(whole.last() == b.last());
        lemma_split_at(a, b.drop_last(), sep);
        lemma_split_on_nonempty(b.drop_last(), sep);
        let rest = split_on(b.drop_last(), sep);
        assert((split_on(a, sep) + rest).last() == rest.last());
        assert(split_on(whole, sep) =~= split_on(a, sep) + split_on(b, sep));
    }
}

/// Splitting at the separator takes apart what joining with it put together, where no
/// part holds it.
pub proof fn lemma_split_join(parts: Seq<Seq<char>>, sep: char)
    requires
        parts.len() > 0,
        forall|i: int| 0 <= i < parts.len() ==> !(#[trigger] parts[i]).contains(sep),
    ensures
        split_on(join(parts, seq![sep]), sep) == parts,
    decreases parts.len(),
{
    if parts.len() == 1 {
        lemma_split_one(parts[0], sep);
        assert(parts =~= seq![parts[0]]);
    } else {
        let front = parts.drop_last();
        assert forall|i: int| 0 <= i < front.len() implies !(#[trigger] front[i]).contains(
            sep,
        ) by {
            assert(parts[i] == front[i]);
        }
        lemma_split_join(front, sep);
        let a = join(front, seq![sep]);
        assert(join(parts, seq![sep]) =~= a.push(sep) + parts.last());
        lemma_split_at(a, parts.last(), sep);
        assert(!parts[parts.len() - 1].contains(sep));
        lemma_split_one(parts.last(), sep);
        assert(split_on(a, sep) + seq![parts.last()] =~= parts);
    }
}

// ---------------------------------------------------------------------------
// Numbers
// ---------------------------------------------------------------------------

/// The character of the decimal digit `d`.
pub open spec fn digit(d: nat) -> char {
    ((48 + d) as u32) as char
}

/// `n` in decimal.
pub open spec fn decimal(n: nat) -> Seq<char>
    decreases n,
{
    if n < 10 {
        seq![digit(n)]
    } else {
        decimal(n / 10).push(digit(n % 10))
    }
}

/// `n` in decimal.
pub fn decimal_string(n: u64) -> (r: String)
    ensures
        r@ == decimal(n as nat),
    decreases n,
{
    let mut out = if n < 10 {
        String::new()
    } else {
        decimal_string(n / 10)
    };
    let d: u8 = (n % 10) as u8;
    out.push((48 + d) as char);
    assert(n < 10 ==> out@ =~= seq![digit(n as nat)]);
    out
}

/// Whether `c` is a decimal digit.
pub open spec fn is_digit(c: char) -> bool {
    48 <= c as u32 <= 57
}

/// The number that a run of decimal digits stands for.
pub open spec fn digits_value(s: Seq<char>) -> nat
    decreases s.len(),
{
    if s.len() == 0 {
        0
    } else {
        digits_value(s.drop_last()) * 10 + (s.last() as u32 - 48) as nat
    }
}

/// The digits that `s` spells a number with: what follows one leading `+`, if it has one.
pub open spec fn unsigned_digits(s: Seq<char>) -> Seq<char> {
    if s.len() > 0 && s[0] == '+' {
        s.skip(1)
    } else {
        s
    }
}

/// The unsigned number that `s` spells, if it spells one that is at most `max`.
pub open spec fn parse_unsigned(s: Seq<char>, max: nat) -> Option<nat> {
    let d = unsigned_digits(s);
    if d.len() > 0 && (forall|i: int| 0 <= i < d.len() ==> is_digit(#[trigger] d[i]))
        && digits_value(d) <= max {
        Some(digits_value(d))
    } else {
        None
    }
}

proof fn lemma_digits_value_monotone(s: Seq<char>, i: int)
    requires
        0 <= i <= s.len(),
        forall|j: int| 0 <= j < s.len() ==> is_digit(#[trigger] s[j]),
    ensures
        digits_value(s.take(i)) <= digits_value(s),
    decreases s.len() - i,
{
    if i < s.len() {
        lemma_digits_value_monotone(s, i + 1);
        assert(s.take(i + 1).drop_last() =~= s.take(i));
    } else {
        assert(s.take(i) =~= s);
    }
}

/// The unsigned number that `s` spells, if it spells one that is at most `max`.
pub fn parse_up_to(s: &str, max: u64) -> (r: Option<u64>)
    ensures
        match r {
            Some(n) => parse_unsigned(s@, max as nat) == Some(n as nat),
            None => parse_unsigned(s@, max as nat) is None,
        },
{
    let v = chars_of(s);
    let start: usize = if v.len() > 0 && v[0] == '+' {
        1
    } else {
        0
    };
    let ghost d = unsigned_digits(s@);
    assert(d =~= v@.skip(start as int));
    if start == v.len() {
        return None;
    }
    let mut value: u64 = 0;
    let mut too_big: bool = false;
    let mut i: usize = start;
    while i < v.len()
        invariant
            start <= i <= v@.len(),
            d == v@.skip(start as int),
            v@ == s@,
            d == unsigned_digits(s@),
            forall|j: int| 0 <= j < i - start ==> is_digit(#[trigger] d[j]),
            !too_big ==> value == digits_value(d.take(i - start)) && value <= max,
            too_big ==> digits_value(d.take(i - start)) > max,
        decreases v@.len() - i,
    {
        let u: u32 = v[i] as u32;
        assert(d[i - start] == v@[i as int]);
        if u < 48 || u > 57 {
            assert(!is_digit(d[i - start]));
            return None;
        }
        let x: u64 = (u - 48) as u64;
        proof {
            assert(d.take(i + 1 - start).drop_last() =~= d.take(i - start));
        }
        if !too_big {
            let wide: u128 = value as u128 * 10 + x as u128;
            if wide > max as u128 {
                too_big = true;
            } else {
                value = wide as u64;
            }
        }
        i = i + 1;
    }
    assert(d.take(v@.len() - start) =~= d);
    if too_big {
        None
    } else {
        Some(value)
    }
}

/// `decimal` writes digits only, and at least one.
pub proof fn lemma_decimal_digits(n: nat)
    ensures
        decimal(n).len() > 0,
        forall|i: int| 0 <= i < decimal(n).len() ==> is_digit(#[trigger] decimal(n)[i]),
        digits_value(decimal(n)) == n,
    decreases n,
{
    if n >= 10 {
        lemma_decimal_digits(n / 10);
        assert(decimal(n).drop_last() =~= decimal(n / 10));
    } else {
        assert(decimal(n).drop_last() =~= Seq::empty());
        assert(digits_value(decimal(n).drop_last()) == 0);
    }
}

/// A number and what follows it can be told apart in `decimal(a) + x`, where `x` does not
/// begin with a digit.
pub proof fn lemma_decimal_prefix(a: nat, x: Seq<char>, b: nat, y: Seq<char>)
    requires
        decimal(a) + x == decimal(b) + y,
        x.len() > 0,
        y.len() > 0,
        !is_digit(x[0]),
        !is_digit(y[0]),
    ensures
        a == b,
        x == y,
{
    lemma_decimal_digits(a);
    lemma_decimal_digits(b);
    let s = decimal(a) + x;
    let i = decimal(a).len() as int;
    let j = decimal(b).len() as int;
    assert(s[i] == x[0]);
    assert(s[j] == y[0]);
    if i < j {
        assert(s[i] == decimal(b)[i]);
    } else if j < i {
        assert(s[j] == decimal(a)[j]);
    }
    assert(decimal(a) =~= s.take(i));
    assert(decimal(b) =~= s.take(j));
    assert(x =~= s.skip(i));
    assert(y =~= s.skip(j));
}

/// A number that is written in decimal is read as the same number.
pub proof fn law_decimal_reads_back(n: nat, max: nat)
    requires
        n <= max,
    ensures
        parse_unsigned(decimal(n), max) == Some(n),
{
    lemma_decimal_digits(n);
}

/// What stands in a part of a text stands in the text.
pub proof fn lemma_part_holds(before: Seq<char>, part: Seq<char>, after: Seq<char>, p: Seq<char>)
    requires
        contains(part, p),
    ensures
        contains(before + part + after, p),
{
    let i = choose|i: int| occurs_at(part, p, i);
    let s = before + part + after;
    assert(s.subrange(before.len() + i, before.len() + i + p.len()) =~= part.subrange(
        i,
        i + p.len(),
    ));
    assert(occurs_at(s, p, before.len() + i));
}

/// A text holds itself.
pub proof fn lemma_holds_itself(s: Seq<char>)
    ensures
        contains(s, s),
{
    assert(s.subrange(0, s.len() as int) =~= s);
    assert(occurs_at(s, s, 0));
}

/// Texts that are joined all stand in what they are joined to.
pub proof fn law_join_holds_every_part(parts: Seq<Seq<char>>, sep: Seq<char>, i: int)
    requires
        0 <= i < parts.len(),
    ensures
        contains(join(parts, sep), parts[i]),
    decreases parts.len(),
{
    let e = Seq::<char>::empty();
    if parts.len() == 1 {
        lemma_holds_itself(parts[0]);
    } else if i == parts.len() - 1 {
        lemma_holds_itself(parts[i]);
        lemma_part_holds(join(parts.drop_last(), sep) + sep, parts[i], e, parts[i]);
        assert(join(parts.drop_last(), sep) + sep + parts[i] + e =~= join(parts, sep));
    } else {
        law_join_holds_every_part(parts.drop_last(), sep, i);
        lemma_part_holds(e, join(parts.drop_last(), sep), sep + parts.last(), parts[i]);
        assert(e + join(parts.drop_last(), sep) + (sep + parts.last()) =~= join(parts, sep));
    }
}

/// Bringing a text to lower case changes the letters from `A` to `Z`, each to the small
/// letter, and nothing else; bringing it to upper case is the other way round.
pub proof fn law_case_is_that_of_letters(s: Seq<char>, i: int)
    requires
        0 <= i < s.len(),
    ensures
        lower(s).len() == s.len(),
        upper(s).len() == s.len(),
        0x41 <= s[i] as int <= 0x5A ==> lower(s)[i] as int == s[i] as int + 32,
        !(0x41 <= s[i] as int <= 0x5A) ==> lower(s)[i] == s[i],
        0x61 <= s[i] as int <= 0x7A ==> upper(s)[i] as int == s[i] as int - 32,
        !(0x61 <= s[i] as int <= 0x7A) ==> upper(s)[i] == s[i],
{
    lemma_letter_case(s[i]);
}

proof fn lemma_letter_case(c: char)
    ensures
        0x41 <= c as int <= 0x5A ==> lower_char(c) as int == c as int + 32,
        !(0x41 <= c as int <= 0x5A) ==> lower_char(c) == c,
        0x61 <= c as int <= 0x7A ==> upper_char(c) as int == c as int - 32,
        !(0x61 <= c as int <= 0x7A) ==> upper_char(c) == c,
{
}

/// Trimming takes off white space at the ends, all of it and nothing else.
pub proof fn law_trimming_takes_white_space_off(s: Seq<char>)
    ensures
        exists|a: int, b: int|
            #![trigger s.subrange(a, b)]
            0 <= a <= b <= s.len() && trim(s) == s.subrange(a, b) && (forall|i: int|
                0 <= i < a ==> is_white(#[trigger] s[i])) && (forall|i: int|
                b <= i < s.len() ==> is_white(#[trigger] s[i])),
        trim(s).len() > 0 ==> !is_white(trim(s)[0]) && !is_white(trim(s).last()),
{
    lemma_start_trimmed(s);
    let a = choose|a: int|
        #![trigger s.skip(a)]
        0 <= a <= s.len() && trim_start(s) == s.skip(a) && forall|i: int|
            0 <= i < a ==> is_white(#[trigger] s[i]);
    let t = trim_start(s);
    lemma_end_trimmed(t);
    let n = choose|n: int|
        #![trigger t.take(n)]
        0 <= n <= t.len() && trim_end(t) == t.take(n) && forall|i: int|
            n <= i < t.len() ==> is_white(#[trigger] t[i]);
    assert(t.take(n) =~= s.subrange(a, a + n));
    assert forall|i: int| a + n <= i < s.len() implies is_white(#[trigger] s[i]) by {
        assert(is_white(t[i - a]));
    }
}

proof fn lemma_start_trimmed(s: Seq<char>)
    ensures
        exists|a: int|
            #![trigger s.skip(a)]
            0 <= a <= s.len() && trim_start(s) == s.skip(a) && forall|i: int|
                0 <= i < a ==> is_white(#[trigger] s[i]),
        trim_start(s).len() > 0 ==> !is_white(trim_start(s)[0]),
    decreases s.len(),
{
    if s.len() > 0 && is_white(s[0]) {
        let r = s.drop_first();
        lemma_start_trimmed(r);
        let a = choose|a: int|
            #![trigger r.skip(a)]
            0 <= a <= r.len() && trim_start(r) == r.skip(a) && forall|i: int|
                0 <= i < a ==> is_white(#[trigger] r[i]);
        assert(s.skip(a + 1) =~= r.skip(a));
        assert forall|i: int| 0 <= i < a + 1 implies is_white(#[trigger] s[i]) by {
            if i > 0 {
                assert(is_white(r[i - 1]));
            }
        }
    } else {
        assert(s.skip(0) =~= s);
    }
}

proof fn lemma_end_trimmed(s: Seq<char>)
    ensures
        exists|n: int|
            #![trigger s.take(n)]
            0 <= n <= s.len() && trim_end(s) == s.take(n) && forall|i: int|
                n <= i < s.len() ==> is_white(#[trigger] s[i]),
        trim_end(s).len() > 0 ==> !is_white(trim_end(s).last()) && trim_end(s)[0] == s[0],
    decreases s.len(),
{
    if s.len() > 0 && is_white(s.last()) {
        let r = s.drop_last();
        lemma_end_trimmed(r);
        let n = choose|n: int|
            #![trigger r.take(n)]
            0 <= n <= r.len() && trim_end(r) == r.take(n) && forall|i: int|
                n <= i < r.len() ==> is_white(#[trigger] r[i]);
        assert(s.take(n) =~= r.take(n));
        assert forall|i: int| n <= i < s.len() implies is_white(#[trigger] s[i]) by {
            if i < s.len() - 1 {
                assert(is_white(r[i]));
            }
        }
    } else {
        assert(s.take(s.len() as int) =~= s);
    }
}

/// The words of a text hold no white space and are not empty, and no letter of the text
/// is lost: without its white space the text is its words one after the other.
pub proof fn law_words_are_the_text_without_white_space(s: Seq<char>)
    ensures
        forall|i: int| 0 <= i < words(s).len() ==> (#[trigger] words(s)[i]).len() > 0 && !has_white(
            words(s)[i],
        ),
        join(words(s), Seq::empty()) == s.filter(|c: char| !is_white(c)),
    decreases s.len(),
{
    let keep = |c: char| !is_white(c);
    let t = trim_start(s);
    lemma_trim_start(s);
    lemma_start_filtered(s);
    reveal(Seq::filter);
    if t.len() == 0 {
        assert(words(s) =~= Seq::empty());
    } else {
        lemma_word_len(t);
        let n = word_len(t) as int;
        let first = t.take(n);
        let rest = t.skip(n);
        law_words_are_the_text_without_white_space(rest);
        assert(words(s) == seq![first] + words(rest));
        assert(!has_white(first)) by {
            if has_white(first) {
                let i = choose|i: int| 0 <= i < first.len() && is_white(#[trigger] first[i]);
                assert(is_white(t[i]));
            }
        }
        assert forall|i: int| 0 <= i < words(s).len() implies (#[trigger] words(s)[i]).len() > 0
            && !has_white(words(s)[i]) by {
            if i > 0 {
                assert(words(s)[i] == words(rest)[i - 1]);
            }
        }
        lemma_join_first(first, words(rest));
        assert(t =~= first + rest);
        lemma_filter_joined(first, rest, keep);
        assert(first.filter(keep) == first) by {
            lemma_filter_keeps(first, keep);
        }
    }
}

proof fn lemma_filter_keeps(s: Seq<char>, p: spec_fn(char) -> bool)
    requires
        forall|i: int| 0 <= i < s.len() ==> p(#[trigger] s[i]),
    ensures
        s.filter(p) == s,
    decreases s.len(),
{
    reveal(Seq::filter);
    if s.len() > 0 {
        assert forall|i: int| 0 <= i < s.drop_last().len() implies p(#[trigger] s.drop_last()[i]) by {
            assert(p(s[i]));
        }
        lemma_filter_keeps(s.drop_last(), p);
        assert(p(s[s.len() - 1]));
        assert(s.drop_last().push(s.last()) =~= s);
    } else {
        assert(s.filter(p) =~= s);
    }
}

proof fn lemma_filter_joined(a: Seq<char>, b: Seq<char>, p: spec_fn(char) -> bool)
    ensures
        (a + b).filter(p) == a.filter(p) + b.filter(p),
    decreases b.len(),
{
    reveal(Seq::filter);
    if b.len() == 0 {
        assert(a + b =~= a);
        assert(a.filter(p) + b.filter(p) =~= a.filter(p));
    } else {
        assert((a + b).drop_last() =~= a + b.drop_last());
        lemma_filter_joined(a, b.drop_last(), p);
        assert((a + b).filter(p) =~= a.filter(p) + b.filter(p));
    }
}

proof fn lemma_start_filtered(s: Seq<char>)
    ensures
        trim_start(s).filter(|c: char| !is_white(c)) == s.filter(|c: char| !is_white(c)),
    decreases s.len(),
{
    let keep = |c: char| !is_white(c);
    reveal(Seq::filter);
    if s.len() > 0 && is_white(s[0]) {
        lemma_start_filtered(s.drop_first());
        assert(s =~= seq![s[0]] + s.drop_first());
        lemma_filter_joined(seq![s[0]], s.drop_first(), keep);
        assert(seq![s[0]].drop_last() =~= Seq::<char>::empty());
        assert(Seq::<char>::empty().filter(keep) =~= Seq::<char>::empty());
        assert(!keep(seq![s[0]].last()));
        assert(seq![s[0]].filter(keep) == seq![s[0]].drop_last().filter(keep));
        assert(Seq::<char>::empty() + s.drop_first().filter(keep) =~= s.drop_first().filter(keep));
    }
}

proof fn lemma_join_first(first: Seq<char>, rest: Seq<Seq<char>>)
    ensures
        join(seq![first] + rest, Seq::empty()) == first + join(rest, Seq::empty()),
    decreases rest.len(),
{
    let e = Seq::<char>::empty();
    let all = seq![first] + rest;
    if rest.len() == 0 {
        assert(all =~= seq![first]);
        assert(first + join(rest, e) =~= first);
    } else {
        assert(all.drop_last() =~= seq![first] + rest.drop_last());
        lemma_join_first(first, rest.drop_last());
        if rest.len() == 1 {
            assert(rest.drop_last() =~= Seq::<Seq<char>>::empty());
            assert(join(rest.drop_last(), e) =~= e);
        }
        assert(join(all, e) =~= first + join(rest, e));
    }
}

/// What is in either of two texts is in the two of them put together.
pub broadcast proof fn lemma_sum_holds(a: Seq<char>, b: Seq<char>, p: Seq<char>)
    requires
        contains(a, p) || contains(b, p),
    ensures
        #[trigger] contains(a + b, p),
{
    let e = Seq::<char>::empty();
    if contains(a, p) {
        lemma_part_holds(e, a, b, p);
        assert(e + a + b =~= a + b);
    } else {
        lemma_part_holds(a, b, e, p);
        assert(a + b + e =~= a + b);
    }
}

proof fn lemma_row(before: Seq<char>, a: Seq<char>, b: Seq<char>, c: Seq<char>)
    ensures
        before + (a + b + c) == before + a + b + c,
{
    assert(before + (a + b + c) =~= before + a + b + c);
}

/// Three texts in a row, behind another, are in it as they stand.
#[verifier::rlimit(40)]
pub proof fn lemma_row_of_three(before: Seq<char>, a: Seq<char>, b: Seq<char>, c: Seq<char>)
    ensures
        contains(before + a + b + c, a + b + c),
{
    lemma_row(before, a, b, c);
    lemma_holds_itself(a + b + c);
    lemma_sum_holds(before, a + b + c, a + b + c);
}

/// A number is read where there are digits and nothing else, but for a plus before them,
/// and it is not above the greatest that is wanted.
pub proof fn law_what_reads_as_a_number(s: Seq<char>, n: nat, max: nat, i: int)
    ensures
        n <= max ==> parse_unsigned(seq!['+'] + decimal(n), max) == Some(n),
        n > max ==> parse_unsigned(decimal(n), max) is None,
        s.len() == 0 ==> parse_unsigned(s, max) is None,
        s == seq!['+'] ==> parse_unsigned(s, max) is None,
        0 < i < s.len() && !is_digit(s[i]) ==> parse_unsigned(s, max) is None,
        s.len() > 0 && !is_digit(s[0]) && s[0] != '+' ==> parse_unsigned(s, max) is None,
        parse_unsigned(s, max) matches Some(v) ==> v <= max,
{
    law_decimal_reads_back(n, n);
    lemma_decimal_digits(n);
    let plus = seq!['+'] + decimal(n);
    assert(plus.skip(1) =~= decimal(n));
    assert(plus[0] == '+');
    let d = unsigned_digits(s);
    if 0 < i < s.len() && !is_digit(s[i]) {
        if s[0] == '+' {
            assert(d[i - 1] == s[i]);
        } else {
            assert(d[i] == s[i]);
        }
    }
    if s.len() > 0 && !is_digit(s[0]) && s[0] != '+' {
        assert(d[0] == s[0]);
    }
}

/// A text is made as wide as it is to be by blanks behind it, and is never cut.
pub proof fn law_padding_only_adds_blanks(s: Seq<char>, width: nat, i: int)
    ensures
        starts_with(padded(s, width), s),
        padded(s, width).len() == (if s.len() < width {
            width
        } else {
            s.len()
        }),
        s.len() <= i < padded(s, width).len() ==> padded(s, width)[i] == ' ',
{
    assert(padded(s, width).take(s.len() as int) =~= s);
}

/// Lines that are written one below the other are read as they were written.
pub proof fn law_lines_read_back(parts: Seq<Seq<char>>)
    requires
        parts.len() > 0,
        forall|i: int| 0 <= i < parts.len() ==> !(#[trigger] parts[i]).contains('\n'),
        forall|i: int|
            0 <= i < parts.len() && (#[trigger] parts[i]).len() > 0 ==> parts[i].last() != '\r',
        parts.last().len() > 0,
    ensures
        lines(join(parts, seq!['\n'])) == parts,
{
    lemma_split_join(parts, '\n');
    assert(lines(join(parts, seq!['\n'])) =~= parts);
}

} // verus!
