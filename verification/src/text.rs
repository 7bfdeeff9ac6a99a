//! Character-sequence primitives shared by every parser in the crate.
//!
//! Text is modelled as `Seq<char>` (Unicode scalar values). Executable code
//! works on `Vec<char>` so that positions are character positions rather than
//! byte positions.

use vstd::prelude::*;

verus! {

/// View of an optional string.
pub open spec fn opt_view(o: Option<String>) -> Option<Seq<char>> {
    match o {
        Some(s) => Some(s@),
        None => None,
    }
}

/// Element-wise views of a list.
pub open spec fn views<T: View>(s: Seq<T>) -> Seq<T::V> {
    Seq::new(s.len(), |i: int| s[i]@)
}

/// The views of a list with one more item are the views of the list with the view of the item.
pub proof fn lemma_views_push<T: View>(s: Seq<T>, x: T)
    ensures
        views(s.push(x)) == views(s).push(x@),
{
    assert(views(s.push(x)) =~= views(s).push(x@));
}

/// The empty list has no views.
pub proof fn lemma_views_empty<T: View>()
    ensures
        views(Seq::<T>::empty()) == Seq::<T::V>::empty(),
{
    assert(views(Seq::<T>::empty()) =~= Seq::<T::V>::empty());
}

/// `pat` occurs in `s` at position `i`.
pub open spec fn matches_at(s: Seq<char>, pat: Seq<char>, i: int) -> bool {
    &&& 0 <= i
    &&& i + pat.len() <= s.len()
    &&& s.subrange(i, i + pat.len()) == pat
}

/// `pat` is a prefix of `s`.
pub open spec fn has_prefix(s: Seq<char>, pat: Seq<char>) -> bool {
    matches_at(s, pat, 0)
}

/// `pat` is a suffix of `s`.
pub open spec fn has_suffix(s: Seq<char>, pat: Seq<char>) -> bool {
    matches_at(s, pat, s.len() - pat.len())
}

/// Position of the first occurrence of `pat` in `s` at or after `from`, or
/// `-1` when there is none.
pub open spec fn find_from(s: Seq<char>, pat: Seq<char>, from: int) -> int
    decreases s.len() - from,
{
    if from < 0 || from + pat.len() > s.len() {
        -1
    } else if matches_at(s, pat, from) {
        from
    } else if from >= s.len() {
        -1
    } else {
        find_from(s, pat, from + 1)
    }
}

/// `pat` occurs somewhere in `s`.
pub open spec fn contains_seq(s: Seq<char>, pat: Seq<char>) -> bool {
    find_from(s, pat, 0) >= 0
}

/// Position of the first `c` in `s` at or after `from`, or `s.len()` when
/// there is none.
pub open spec fn next_char(s: Seq<char>, c: char, from: int) -> int
    decreases s.len() - from,
{
    if from < 0 || from >= s.len() {
        s.len() as int
    } else if s[from] == c {
        from
    } else {
        next_char(s, c, from + 1)
    }
}

/// Position of the last `c` in the first `n` characters of `s`, or `-1`.
pub open spec fn last_char(s: Seq<char>, c: char, n: int) -> int
    decreases n,
{
    if n <= 0 || n > s.len() {
        -1
    } else if s[n - 1] == c {
        n - 1
    } else {
        last_char(s, c, n - 1)
    }
}

/// The pieces of `s[from..]` between occurrences of `sep`. There is always at
/// least one piece; a trailing separator yields a final empty piece.
pub open spec fn split_from(s: Seq<char>, sep: char, from: int) -> Seq<Seq<char>>
    decreases s.len() - from,
{
    let j = next_char(s, sep, from);
    if from < 0 || from > s.len() {
        Seq::empty()
    } else if j < from || j >= s.len() {
        seq![s.subrange(from, s.len() as int)]
    } else {
        seq![s.subrange(from, j)] + split_from(s, sep, j + 1)
    }
}

/// The pieces of `s` between occurrences of `sep`.
pub open spec fn split_char(s: Seq<char>, sep: char) -> Seq<Seq<char>> {
    split_from(s, sep, 0)
}

/// `s` with every non-overlapping occurrence of `pat`, found left to right
/// from position `from`, replaced by `rep`. An empty pattern replaces nothing.
pub open spec fn replace_from(s: Seq<char>, pat: Seq<char>, rep: Seq<char>, from: int) -> Seq<char>
    decreases s.len() - from,
{
    if from < 0 || from >= s.len() {
        Seq::empty()
    } else if pat.len() > 0 && matches_at(s, pat, from) {
        rep + replace_from(s, pat, rep, from + pat.len())
    } else {
        seq![s[from]] + replace_from(s, pat, rep, from + 1)
    }
}

/// `s` with every occurrence of `pat` replaced by `rep`.
pub open spec fn replace_all(s: Seq<char>, pat: Seq<char>, rep: Seq<char>) -> Seq<char> {
    replace_from(s, pat, rep, 0)
}

/// Unicode `White_Space`.
pub open spec fn is_space(c: char) -> bool {
    let n = c as u32;
    ||| 0x09 <= n <= 0x0D
    ||| n == 0x20
    ||| n == 0x85
    ||| n == 0xA0
    ||| n == 0x1680
    ||| 0x2000 <= n <= 0x200A
    ||| n == 0x2028
    ||| n == 0x2029
    ||| n == 0x202F
    ||| n == 0x205F
    ||| n == 0x3000
}

/// Index of the first non-space character at or after `from`, or `s.len()`.
pub open spec fn skip_spaces(s: Seq<char>, from: int) -> int
    decreases s.len() - from,
{
    if from < 0 || from >= s.len() {
        s.len() as int
    } else if !is_space(s[from]) {
        from
    } else {
        skip_spaces(s, from + 1)
    }
}

/// One past the index of the last non-space character among the first `n`,
/// or `0`.
pub open spec fn trim_end_len(s: Seq<char>, n: int) -> int
    decreases n,
{
    if n <= 0 || n > s.len() {
        0
    } else if !is_space(s[n - 1]) {
        n
    } else {
        trim_end_len(s, n - 1)
    }
}

/// `s` without leading and trailing white space.
pub open spec fn trimmed(s: Seq<char>) -> Seq<char> {
    let a = skip_spaces(s, 0);
    let b = trim_end_len(s, s.len() as int);
    if a < b {
        s.subrange(a, b)
    } else {
        Seq::empty()
    }
}

/// ASCII lower-casing of one character.
pub open spec fn ascii_lower(c: char) -> char {
    if 'A' <= c <= 'Z' {
        ((c as u8) + 32) as char
    } else {
        c
    }
}

/// ASCII lower-casing of a sequence.
pub open spec fn ascii_lowered(s: Seq<char>) -> Seq<char> {
    Seq::new(s.len(), |i: int| ascii_lower(s[i]))
}

/// Equality up to ASCII case.
pub open spec fn eq_ignore_case(a: Seq<char>, b: Seq<char>) -> bool {
    ascii_lowered(a) == ascii_lowered(b)
}

/// ASCII white space: space, tab, line feed, form feed, carriage return.
pub open spec fn is_ascii_space(c: char) -> bool {
    c == ' ' || c == '\t' || c == '\n' || c == '\x0C' || c == '\r'
}

/// Whether `c` separates words: ASCII white space when `ascii` is set,
/// Unicode white space otherwise.
pub open spec fn is_gap(c: char, ascii: bool) -> bool {
    if ascii {
        is_ascii_space(c)
    } else {
        is_space(c)
    }
}

/// Index of the first non-gap character at or after `from`, or `s.len()`.
pub open spec fn word_start(s: Seq<char>, ascii: bool, from: int) -> int
    decreases s.len() - from,
{
    if from < 0 || from >= s.len() {
        s.len() as int
    } else if !is_gap(s[from], ascii) {
        from
    } else {
        word_start(s, ascii, from + 1)
    }
}

/// Index of the first gap character at or after `from`, or `s.len()`.
pub open spec fn word_end(s: Seq<char>, ascii: bool, from: int) -> int
    decreases s.len() - from,
{
    if from < 0 || from >= s.len() {
        s.len() as int
    } else if is_gap(s[from], ascii) {
        from
    } else {
        word_end(s, ascii, from + 1)
    }
}

/// The maximal gap-free runs of `s[from..]`, in order.
pub open spec fn words_from(s: Seq<char>, ascii: bool, from: int) -> Seq<Seq<char>>
    decreases s.len() - from,
{
    let a = word_start(s, ascii, from);
    let b = word_end(s, ascii, a);
    if from < 0 || a < from || a >= s.len() || b <= a || b > s.len() {
        Seq::empty()
    } else {
        seq![s.subrange(a, b)] + words_from(s, ascii, b)
    }
}

/// The words of `s`.
pub open spec fn words(s: Seq<char>, ascii: bool) -> Seq<Seq<char>> {
    words_from(s, ascii, 0)
}

/// Whether one of the first `n` items equals `w`.
pub open spec fn has_item(items: Seq<Seq<char>>, w: Seq<char>, n: int) -> bool
    decreases n,
{
    if n <= 0 || n > items.len() {
        false
    } else {
        items[n - 1] == w || has_item(items, w, n - 1)
    }
}

/// Whether one of the first `n` items equals `w` up to ASCII case.
pub open spec fn has_item_ignore_case(items: Seq<Seq<char>>, w: Seq<char>, n: int) -> bool
    decreases n,
{
    if n <= 0 || n > items.len() {
        false
    } else {
        eq_ignore_case(items[n - 1], w) || has_item_ignore_case(items, w, n - 1)
    }
}

/// Whether `w` is one of the ASCII-space separated words of `s`.
pub open spec fn has_word(s: Seq<char>, w: Seq<char>) -> bool {
    has_item(words(s, true), w, words(s, true).len() as int)
}

/// Whether `w` is, up to ASCII case, one of the white-space separated words
/// of `s`.
pub open spec fn has_word_ignore_case(s: Seq<char>, w: Seq<char>) -> bool {
    has_item_ignore_case(words(s, false), w, words(s, false).len() as int)
}

/// Words start and end within the text, and a word is not empty.
pub proof fn lemma_word_bounds(s: Seq<char>, ascii: bool, from: int)
    requires
        0 <= from <= s.len(),
    ensures
        from <= word_start(s, ascii, from) <= s.len(),
        from <= word_end(s, ascii, from) <= s.len(),
        word_start(s, ascii, from) < s.len() ==> !is_gap(s[word_start(s, ascii, from)], ascii),
        (from < s.len() && !is_gap(s[from], ascii)) ==> word_end(s, ascii, from) > from,
    decreases s.len() - from,
{
    if from < s.len() {
        lemma_word_bounds(s, ascii, from + 1);
    }
}

/// Whether position `n` of `s` lies inside a tag: the last angle bracket
/// before it, if any, is an opening one.
pub open spec fn in_tag(s: Seq<char>, n: int) -> bool
    decreases n,
{
    if n <= 0 || n > s.len() {
        false
    } else if s[n - 1] == '<' {
        true
    } else if s[n - 1] == '>' {
        false
    } else {
        in_tag(s, n - 1)
    }
}

/// The first `n` characters of `s` without tags: every character that is no
/// angle bracket and lies outside `<...>`.
pub open spec fn stripped_upto(s: Seq<char>, n: int) -> Seq<char>
    decreases n,
{
    if n <= 0 || n > s.len() {
        Seq::empty()
    } else if s[n - 1] != '<' && s[n - 1] != '>' && !in_tag(s, n - 1) {
        stripped_upto(s, n - 1).push(s[n - 1])
    } else {
        stripped_upto(s, n - 1)
    }
}

/// `s` without tags.
pub open spec fn stripped(s: Seq<char>) -> Seq<char> {
    stripped_upto(s, s.len() as int)
}

/// The position found is that of the first occurrence at or after the start.
pub proof fn lemma_find_from_bounds(s: Seq<char>, pat: Seq<char>, from: int)
    requires
        0 <= from,
    ensures
        find_from(s, pat, from) == -1 || (from <= find_from(s, pat, from) && matches_at(
            s,
            pat,
            find_from(s, pat, from),
        )),
        find_from(s, pat, from) == -1 ==> forall|k: int| from <= k ==> !matches_at(s, pat, k),
        find_from(s, pat, from) >= 0 ==> forall|k: int|
            from <= k < find_from(s, pat, from) ==> !matches_at(s, pat, k),
    decreases s.len() - from,
{
    if from + pat.len() > s.len() {
    } else if matches_at(s, pat, from) {
    } else if from >= s.len() {
        assert(pat.len() == 0);
        assert(s.subrange(from, from + pat.len()) =~= pat);
    } else {
        lemma_find_from_bounds(s, pat, from + 1);
    }
}

/// The Unicode lower-casing of a text.
pub uninterp spec fn lowercase_of(s: Seq<char>) -> Seq<char>;

/// `str::to_lowercase`: the lowercase equivalent of the text, by the
/// Unicode rules.
#[verifier::external_body]
pub(crate) fn lowercase(s: &str) -> (r: String)
    ensures
        r@ == lowercase_of(s@),
{
    s.to_lowercase()
}

/// `String::push` appends one character.
#[verifier::external_body]
fn string_push(s: &mut String, c: char)
    ensures
        final(s)@ == old(s)@.push(c),
{
    s.push(c)
}

/// The characters of a string slice.
pub fn chars_of(s: &str) -> (v: Vec<char>)
    ensures
        v@ == s@,
{
    let mut v: Vec<char> = Vec::new();
    for c in it: s.chars()
        invariant
            v@ == it.seq().take(it.index() as int),
            it.seq() == s@,
    {
        v.push(c);
    }
    v
}

/// The string made of the given characters.
pub fn string_of(v: &Vec<char>) -> (s: String)
    ensures
        s@ == v@,
{
    let mut s = String::new();
    let mut i: usize = 0;
    while i < v.len()
        invariant
            i <= v.len(),
            s@ == v@.take(i as int),
        decreases v.len() - i,
    {
        string_push(&mut s, v[i]);
        i += 1;
    }
    assert(v@.take(v.len() as int) == v@);
    s
}

/// A copy of `v[a..b]`.
pub fn slice_of(v: &Vec<char>, a: usize, b: usize) -> (r: Vec<char>)
    requires
        a <= b <= v.len(),
    ensures
        r@ == v@.subrange(a as int, b as int),
{
    let mut r: Vec<char> = Vec::new();
    let mut i: usize = a;
    while i < b
        invariant
            a <= i <= b <= v.len(),
            r@ == v@.subrange(a as int, i as int),
        decreases b - i,
    {
        r.push(v[i]);
        assert(v@.subrange(a as int, i as int).push(v@[i as int]) == v@.subrange(
            a as int,
            i + 1,
        ));
        i += 1;
    }
    r
}

/// Appends `src` to `dst`.
pub fn extend_chars(dst: &mut Vec<char>, src: &Vec<char>)
    ensures
        final(dst)@ == old(dst)@ + src@,
{
    let mut i: usize = 0;
    while i < src.len()
        invariant
            i <= src.len(),
            dst@ == old(dst)@ + src@.take(i as int),
        decreases src.len() - i,
    {
        dst.push(src[i]);
        assert(src@.take(i as int).push(src@[i as int]) == src@.take(i + 1));
        i += 1;
    }
    assert(src@.take(src.len() as int) == src@);
}

/// Element-wise equality of two character vectors.
pub fn chars_eq(a: &Vec<char>, b: &Vec<char>) -> (r: bool)
    ensures
        r == (a@ == b@),
{
    if a.len() != b.len() {
        return false;
    }
    let mut i: usize = 0;
    while i < a.len()
        invariant
            i <= a.len(),
            a.len() == b.len(),
            a@.take(i as int) == b@.take(i as int),
        decreases a.len() - i,
    {
        if a[i] != b[i] {
            return false;
        }
        assert(a@.take(i + 1) == a@.take(i as int).push(a@[i as int]));
        assert(b@.take(i + 1) == b@.take(i as int).push(b@[i as int]));
        i += 1;
    }
    assert(a@.take(a.len() as int) == a@);
    assert(b@.take(b.len() as int) == b@);
    true
}

/// Equality of two string slices, character by character.
pub fn str_eq(a: &str, b: &str) -> (r: bool)
    ensures
        r == (a@ == b@),
{
    let x = chars_of(a);
    let y = chars_of(b);
    chars_eq(&x, &y)
}

/// Whether `pat` occurs in `s` at position `i`.
pub fn is_match_at(s: &Vec<char>, pat: &Vec<char>, i: usize) -> (r: bool)
    ensures
        r == matches_at(s@, pat@, i as int),
{
    if pat.len() > s.len() || i > s.len() - pat.len() {
        return false;
    }
    let mut k: usize = 0;
    while k < pat.len()
        invariant
            k <= pat.len(),
            i + pat.len() <= s.len(),
            s@.subrange(i as int, i + k) == pat@.take(k as int),
        decreases pat.len() - k,
    {
        if s[i + k] != pat[k] {
            assert(s@.subrange(i as int, i + pat.len())[k as int] != pat@[k as int]);
            return false;
        }
        assert(s@.subrange(i as int, i + k + 1) == s@.subrange(i as int, i + k).push(
            s@[i + k],
        ));
        assert(pat@.take(k + 1) == pat@.take(k as int).push(pat@[k as int]));
        k += 1;
    }
    assert(pat@.take(pat.len() as int) == pat@);
    true
}

/// First position at or after `from` where `pat` occurs in `s`.
pub fn find_in(s: &Vec<char>, pat: &Vec<char>, from: usize) -> (r: Option<usize>)
    ensures
        match r {
            Some(i) => i as int == find_from(s@, pat@, from as int),
            None => find_from(s@, pat@, from as int) == -1,
        },
{
    if pat.len() > s.len() || from > s.len() - pat.len() {
        return None;
    }
    let last: usize = s.len() - pat.len();
    let mut i: usize = from;
    loop
        invariant
            from <= i <= last,
            last == s.len() - pat.len(),
            find_from(s@, pat@, from as int) == find_from(s@, pat@, i as int),
        decreases last - i,
    {
        if is_match_at(s, pat, i) {
            return Some(i);
        }
        if i == last {
            assert(find_from(s@, pat@, i + 1) == -1);
            return None;
        }
        i += 1;
    }
}

/// Whether `pat` occurs in `s`.
pub fn contains_chars(s: &Vec<char>, pat: &Vec<char>) -> (r: bool)
    ensures
        r == contains_seq(s@, pat@),
{
    find_in(s, pat, 0).is_some()
}

/// Whether `s` starts with `pat`.
pub fn starts_with(s: &Vec<char>, pat: &Vec<char>) -> (r: bool)
    ensures
        r == has_prefix(s@, pat@),
{
    is_match_at(s, pat, 0)
}

/// Whether `s` ends with `pat`.
pub fn ends_with(s: &Vec<char>, pat: &Vec<char>) -> (r: bool)
    ensures
        r == has_suffix(s@, pat@),
{
    if pat.len() > s.len() {
        return false;
    }
    is_match_at(s, pat, s.len() - pat.len())
}

/// Position of the first `c` at or after `from`, or `s.len()`.
pub fn index_of_char(s: &Vec<char>, c: char, from: usize) -> (r: usize)
    requires
        from <= s.len(),
    ensures
        r as int == next_char(s@, c, from as int),
        from <= r <= s.len(),
{
    let mut i: usize = from;
    while i < s.len()
        invariant
            from <= i <= s.len(),
            next_char(s@, c, from as int) == next_char(s@, c, i as int),
        decreases s.len() - i,
    {
        if s[i] == c {
            return i;
        }
        i += 1;
    }
    i
}

/// Position of the last `c` in `s`, if any.
pub fn last_index_of_char(s: &Vec<char>, c: char) -> (r: Option<usize>)
    ensures
        match r {
            Some(i) => i as int == last_char(s@, c, s@.len() as int) && i < s.len(),
            None => last_char(s@, c, s@.len() as int) == -1,
        },
{
    let mut n: usize = s.len();
    while n > 0
        invariant
            n <= s.len(),
            last_char(s@, c, s@.len() as int) == last_char(s@, c, n as int),
        decreases n,
    {
        if s[n - 1] == c {
            return Some(n - 1);
        }
        n -= 1;
    }
    None
}

/// The pieces of `s` between occurrences of `sep`.
pub fn split_on(s: &Vec<char>, sep: char) -> (r: Vec<Vec<char>>)
    ensures
        views(r@) == split_char(s@, sep),
        r.len() >= 1,
{
    let mut out: Vec<Vec<char>> = Vec::new();
    let mut from: usize = 0;
    loop
        invariant
            from <= s.len(),
            views(out@) + split_from(s@, sep, from as int) == split_char(s@, sep),
        decreases s.len() - from,
    {
        let j = index_of_char(s, sep, from);
        let piece = slice_of(s, from, j);
        let ghost before = views(out@);
        out.push(piece);
        assert(views(out@) =~= before.push(piece@));
        if j >= s.len() {
            assert(before.push(piece@) == before + seq![piece@]);
            return out;
        }
        assert(before.push(piece@) + split_from(s@, sep, j + 1) == before + (seq![piece@]
            + split_from(s@, sep, j + 1)));
        from = j + 1;
    }
}

/// `s` with every occurrence of `pat` replaced by `rep`.
pub fn replace_chars(s: &Vec<char>, pat: &Vec<char>, rep: &Vec<char>) -> (r: Vec<char>)
    ensures
        r@ == replace_all(s@, pat@, rep@),
{
    let mut out: Vec<char> = Vec::new();
    let mut i: usize = 0;
    while i < s.len()
        invariant
            i <= s.len(),
            out@ + replace_from(s@, pat@, rep@, i as int) == replace_all(s@, pat@, rep@),
        decreases s.len() - i,
    {
        let ghost before = out@;
        if pat.len() > 0 && is_match_at(s, pat, i) {
            extend_chars(&mut out, rep);
            assert((before + rep@) + replace_from(s@, pat@, rep@, i + pat.len()) == before + (
            rep@ + replace_from(s@, pat@, rep@, i + pat.len())));
            i += pat.len();
        } else {
            out.push(s[i]);
            assert(before.push(s@[i as int]) + replace_from(s@, pat@, rep@, i + 1) == before + (
            seq![s@[i as int]] + replace_from(s@, pat@, rep@, i + 1)));
            i += 1;
        }
    }
    assert(out@ + Seq::<char>::empty() == out@);
    out
}

/// Whether `c` is Unicode white space.
pub fn is_space_char(c: char) -> (r: bool)
    ensures
        r == is_space(c),
{
    let n: u32 = c as u32;
    (0x09 <= n && n <= 0x0D) || n == 0x20 || n == 0x85 || n == 0xA0 || n == 0x1680 || (0x2000 <= n
        && n <= 0x200A) || n == 0x2028 || n == 0x2029 || n == 0x202F || n == 0x205F || n == 0x3000
}

/// `s` without leading and trailing white space.
pub fn trim_chars(s: &Vec<char>) -> (r: Vec<char>)
    ensures
        r@ == trimmed(s@),
{
    let mut a: usize = 0;
    while a < s.len() && is_space_char(s[a])
        invariant
            a <= s.len(),
            skip_spaces(s@, 0) == skip_spaces(s@, a as int),
        decreases s.len() - a,
    {
        a += 1;
    }
    let mut b: usize = s.len();
    while b > 0 && is_space_char(s[b - 1])
        invariant
            b <= s.len(),
            trim_end_len(s@, s@.len() as int) == trim_end_len(s@, b as int),
        decreases b,
    {
        b -= 1;
    }
    if a < b {
        slice_of(s, a, b)
    } else {
        Vec::new()
    }
}

/// ASCII lower-casing of one character.
pub fn lower_ascii_char(c: char) -> (r: char)
    ensures
        r == ascii_lower(c),
{
    if 'A' <= c && c <= 'Z' {
        ((c as u8) + 32) as char
    } else {
        c
    }
}

/// Equality up to ASCII case.
pub fn chars_eq_ignore_case(a: &Vec<char>, b: &Vec<char>) -> (r: bool)
    ensures
        r == eq_ignore_case(a@, b@),
{
    if a.len() != b.len() {
        assert(ascii_lowered(a@).len() != ascii_lowered(b@).len());
        return false;
    }
    let mut i: usize = 0;
    while i < a.len()
        invariant
            i <= a.len(),
            a.len() == b.len(),
            forall|k: int| 0 <= k < i ==> ascii_lower(a@[k]) == ascii_lower(b@[k]),
        decreases a.len() - i,
    {
        if lower_ascii_char(a[i]) != lower_ascii_char(b[i]) {
            assert(ascii_lowered(a@)[i as int] != ascii_lowered(b@)[i as int]);
            return false;
        }
        i += 1;
    }
    assert(ascii_lowered(a@) =~= ascii_lowered(b@));
    true
}

/// Whether `c` is ASCII white space.
pub fn is_ascii_space_char(c: char) -> (r: bool)
    ensures
        r == is_ascii_space(c),
{
    c == ' ' || c == '\t' || c == '\n' || c == '\x0C' || c == '\r'
}

/// Whether `c` separates words.
pub fn is_gap_char(c: char, ascii: bool) -> (r: bool)
    ensures
        r == is_gap(c, ascii),
{
    if ascii {
        is_ascii_space_char(c)
    } else {
        is_space_char(c)
    }
}

/// The words of `s`: its maximal runs free of white space.
pub fn split_words(s: &Vec<char>, ascii: bool) -> (r: Vec<Vec<char>>)
    ensures
        views(r@) == words(s@, ascii),
{
    let mut out: Vec<Vec<char>> = Vec::new();
    let mut from: usize = 0;
    assert(views(out@) =~= Seq::<Seq<char>>::empty());
    assert(Seq::<Seq<char>>::empty() + words(s@, ascii) =~= words(s@, ascii));
    loop
        invariant
            from <= s.len(),
            views(out@) + words_from(s@, ascii, from as int) == words(s@, ascii),
        decreases s.len() - from,
    {
        let mut a: usize = from;
        while a < s.len() && is_gap_char(s[a], ascii)
            invariant
                from <= a <= s.len(),
                word_start(s@, ascii, from as int) == word_start(s@, ascii, a as int),
            decreases s.len() - a,
        {
            a += 1;
        }
        if a >= s.len() {
            assert(views(out@) + Seq::<Seq<char>>::empty() =~= views(out@));
            return out;
        }
        let mut b: usize = a;
        while b < s.len() && !is_gap_char(s[b], ascii)
            invariant
                a <= b <= s.len(),
                word_end(s@, ascii, a as int) == word_end(s@, ascii, b as int),
            decreases s.len() - b,
        {
            b += 1;
        }
        proof {
            lemma_word_bounds(s@, ascii, a as int);
        }
        let piece = slice_of(s, a, b);
        let ghost before = views(out@);
        out.push(piece);
        assert(views(out@) =~= before.push(piece@));
        assert(before.push(piece@) + words_from(s@, ascii, b as int) =~= before + (seq![piece@]
            + words_from(s@, ascii, b as int)));
        from = b;
    }
}

/// Whether `w` is one of the ASCII-space separated words of `s`.
pub fn contains_word(s: &Vec<char>, w: &Vec<char>) -> (r: bool)
    ensures
        r == has_word(s@, w@),
{
    let ws = split_words(s, true);
    let mut i: usize = 0;
    while i < ws.len()
        invariant
            i <= ws.len(),
            views(ws@) == words(s@, true),
            !has_item(words(s@, true), w@, i as int),
        decreases ws.len() - i,
    {
        assert(views(ws@)[i as int] == ws@[i as int]@);
        if chars_eq(&ws[i], w) {
            proof {
                lemma_has_item(words(s@, true), w@, i as int, ws.len() as int);
            }
            return true;
        }
        i += 1;
    }
    false
}

/// Whether `w` is, up to ASCII case, one of the white-space separated words
/// of `s`.
pub fn contains_word_ignore_case(s: &Vec<char>, w: &Vec<char>) -> (r: bool)
    ensures
        r == has_word_ignore_case(s@, w@),
{
    let ws = split_words(s, false);
    let mut i: usize = 0;
    while i < ws.len()
        invariant
            i <= ws.len(),
            views(ws@) == words(s@, false),
            !has_item_ignore_case(words(s@, false), w@, i as int),
        decreases ws.len() - i,
    {
        assert(views(ws@)[i as int] == ws@[i as int]@);
        if chars_eq_ignore_case(&ws[i], w) {
            proof {
                lemma_has_item_ignore_case(words(s@, false), w@, i as int, ws.len() as int);
            }
            return true;
        }
        i += 1;
    }
    false
}

/// A list has the items that it holds.
pub proof fn lemma_has_item(items: Seq<Seq<char>>, w: Seq<char>, i: int, n: int)
    requires
        0 <= i < n <= items.len(),
        items[i] == w,
    ensures
        has_item(items, w, n),
    decreases n,
{
    if n - 1 > i {
        lemma_has_item(items, w, i, n - 1);
    }
}

/// A list has, up to case, the items that it holds.
pub proof fn lemma_has_item_ignore_case(items: Seq<Seq<char>>, w: Seq<char>, i: int, n: int)
    requires
        0 <= i < n <= items.len(),
        eq_ignore_case(items[i], w),
    ensures
        has_item_ignore_case(items, w, n),
    decreases n,
{
    if n - 1 > i {
        lemma_has_item_ignore_case(items, w, i, n - 1);
    }
}

/// Removes tags from character data: drops every angle bracket and all that
/// stands between `<` and the next `>`.
pub fn strip_tag_chars(s: &Vec<char>) -> (r: Vec<char>)
    ensures
        r@ == stripped(s@),
{
    let mut out: Vec<char> = Vec::new();
    let mut inside = false;
    let mut i: usize = 0;
    while i < s.len()
        invariant
            i <= s.len(),
            inside == in_tag(s@, i as int),
            out@ == stripped_upto(s@, i as int),
        decreases s.len() - i,
    {
        let ch = s[i];
        if ch == '<' {
            inside = true;
        } else if ch == '>' {
            inside = false;
        } else if !inside {
            out.push(ch);
        }
        i += 1;
    }
    out
}

/// Removes tags from a text. The character count of the result is the
/// basis of every character offset in the crate.
pub fn strip_tags(s: String) -> (r: String)
    ensures
        r@ == stripped(s@),
{
    let v = chars_of(s.as_str());
    let out = strip_tag_chars(&v);
    string_of(&out)
}

} // verus!
