//! Laws of the location grammar: the canonical text of an offset location
//! reads back as that location.

use crate::cfi::{
    before_char, body_of, body_text, cfi_of, cfi_text, component_of, endpoint_of, in_assertion,
    is_range_call, is_wrapped, offset_of, plain_upto, range_from, range_of, range_text, step_of,
    steps_upto, terminal_of, without_assertions, CFIComponentView, CFIRangeView, CFIStepView,
    CFIView,
};
use crate::mapping::{offset_cfi, wrapped};
use crate::numbers::{
    all_digits, digit_char, i32_value, int_text, is_digit, lemma_int_text_round_trip,
    lemma_nat_digits, nat_digits, signed_value,
};
use crate::player::{lemma_offset_body, range_text_of};
use crate::text::{
    has_prefix, has_suffix, is_space, last_char, matches_at, next_char, skip_spaces, split_char,
    split_from, trim_end_len, trimmed,
};
use vstd::prelude::*;

verus! {

/// A character of a decimal number: a digit or the minus sign.
pub open spec fn is_number_char(c: char) -> bool {
    is_digit(c) || c == '-'
}

/// Every character of a text is a character of a decimal number.
pub open spec fn is_number_text(s: Seq<char>) -> bool {
    forall|i: int| 0 <= i < s.len() ==> is_number_char(#[trigger] s[i])
}

/// The decimal text of an integer is made of digits and at most a leading
/// minus sign, and ends in a digit.
pub proof fn lemma_int_text_chars(n: int)
    ensures
        is_number_text(int_text(n)),
        int_text(n).len() >= 1,
        is_digit(int_text(n).last()),
{
    if n < 0 {
        lemma_nat_digits(-n);
        let d = nat_digits(-n);
        let s = int_text(n);
        assert forall|i: int| 0 <= i < s.len() implies is_number_char(#[trigger] s[i]) by {
            if i > 0 {
                assert(s[i] == d[i - 1]);
            }
        }
        assert(s.last() == d.last());
    } else {
        lemma_nat_digits(n);
    }
}

/// Where `c` does not occur from `from` on, the next `c` is at the end.
pub proof fn lemma_next_char_absent(s: Seq<char>, c: char, from: int)
    requires
        0 <= from <= s.len(),
        forall|k: int| from <= k < s.len() ==> s[k] != c,
    ensures
        next_char(s, c, from) == s.len(),
    decreases s.len() - from,
{
    if from < s.len() {
        lemma_next_char_absent(s, c, from + 1);
    }
}

/// The last `c` among the first `n` characters is at `p` where `c` stands
/// at `p` and nowhere between `p` and `n`.
pub proof fn lemma_last_char_at(s: Seq<char>, c: char, n: int, p: int)
    requires
        0 <= p < n <= s.len(),
        s[p] == c,
        forall|k: int| p < k < n ==> s[k] != c,
    ensures
        last_char(s, c, n) == p,
    decreases n,
{
    if n - 1 > p {
        lemma_last_char_at(s, c, n - 1, p);
    }
}

/// A text that neither starts nor ends with white space is its own
/// trimming.
pub proof fn lemma_trimmed_same(s: Seq<char>)
    requires
        s.len() > 0,
        !is_space(s[0]),
        !is_space(s.last()),
    ensures
        trimmed(s) == s,
{
    assert(skip_spaces(s, 0) == 0);
    assert(trim_end_len(s, s.len() as int) == s.len());
    assert(s.subrange(0, s.len() as int) =~= s);
}

/// A text without `c` is its only piece.
pub proof fn lemma_split_absent(s: Seq<char>, c: char)
    requires
        forall|k: int| 0 <= k < s.len() ==> s[k] != c,
    ensures
        split_char(s, c) == seq![s],
{
    lemma_next_char_absent(s, c, 0);
    assert(s.subrange(0, s.len() as int) =~= s);
}

/// The decimal text of a 32-bit number reads back as that number.
pub proof fn lemma_i32_text(v: i32)
    ensures
        i32_value(int_text(v as int)) == Some(v as int),
{
    lemma_int_text_round_trip(v as int);
}

/// The decimal text of a number, read as a path segment, is the step with
/// that index and no id.
pub proof fn lemma_number_step(v: i32)
    ensures
        step_of(int_text(v as int)) == Some(CFIStepView { index: v, id: None }),
        int_text(v as int).len() > 0,
{
    let a = int_text(v as int);
    lemma_int_text_chars(v as int);
    assert forall|k: int| 0 <= k < a.len() implies a[k] != '[' by {
        assert(is_number_char(a[k]));
    }
    lemma_next_char_absent(a, '[', 0);
    assert(a.subrange(0, a.len() as int) =~= a);
    assert(before_char(a, '[') == a);
    lemma_i32_text(v);
}

/// The text `/<index>:<offset>`.
pub open spec fn offset_body(s: i32, o: i32) -> Seq<char> {
    seq!['/'] + int_text(s as int) + seq![':'] + int_text(o as int)
}

/// Where the colon of `/<index>:<offset>` stands.
pub open spec fn colon_at(s: i32) -> int {
    1 + int_text(s as int).len() as int
}

/// The text `/<index>:<offset>` has a slash first and nowhere else, a colon
/// after the index and nowhere else, and digits and minus signs otherwise;
/// it ends in a digit.
pub proof fn lemma_body_shape(s: i32, o: i32)
    ensures
        offset_body(s, o).len() == int_text(s as int).len() + int_text(o as int).len() + 2,
        int_text(s as int).len() >= 1,
        int_text(o as int).len() >= 1,
        offset_body(s, o)[0] == '/',
        offset_body(s, o)[colon_at(s)] == ':',
        is_digit(offset_body(s, o).last()),
        forall|k: int|
            1 <= k < colon_at(s) ==> is_number_char(#[trigger] offset_body(s, o)[k]),
        forall|k: int|
            colon_at(s) < k < offset_body(s, o).len() ==> is_number_char(
                #[trigger] offset_body(s, o)[k],
            ),
        offset_body(s, o).subrange(0, colon_at(s)) == seq!['/'] + int_text(s as int),
        offset_body(s, o).subrange(colon_at(s) + 1, offset_body(s, o).len() as int) == int_text(
            o as int,
        ),
{
    let a = int_text(s as int);
    let b = int_text(o as int);
    let body = offset_body(s, o);
    let colon = colon_at(s);
    lemma_int_text_chars(s as int);
    lemma_int_text_chars(o as int);
    assert(body.last() == b.last());
    assert forall|k: int| 1 <= k < colon implies is_number_char(#[trigger] body[k]) by {
        assert(body[k] == a[k - 1]);
        assert(is_number_char(a[k - 1]));
    }
    assert forall|k: int| colon < k < body.len() implies is_number_char(#[trigger] body[k]) by {
        assert(body[k] == b[k - colon - 1]);
        assert(is_number_char(b[k - colon - 1]));
    }
    assert(body.subrange(0, colon) =~= seq!['/'] + a);
    assert(body.subrange(colon + 1, body.len() as int) =~= b);
}

/// A text without parentheses has no assertions to lose.
pub proof fn lemma_plain_same(t: Seq<char>, n: int)
    requires
        0 <= n <= t.len(),
        forall|k: int| 0 <= k < t.len() ==> t[k] != '(' && t[k] != ')',
    ensures
        !in_assertion(t, n),
        plain_upto(t, n) == t.take(n),
    decreases n,
{
    if n > 0 {
        lemma_plain_same(t, n - 1);
        assert(t.take(n - 1).push(t[n - 1]) =~= t.take(n));
    } else {
        assert(t.take(0) =~= Seq::<char>::empty());
    }
}

/// The text `/<index>:<offset>` is what is left of it when assertions and
/// white space around it are removed.
pub proof fn lemma_body_cleaned(s: i32, o: i32)
    ensures
        trimmed(without_assertions(offset_body(s, o))) == offset_body(s, o),
{
    let body = offset_body(s, o);
    lemma_body_shape(s, o);
    assert forall|k: int| 0 <= k < body.len() implies body[k] != '(' && body[k] != ')' by {
        if 1 <= k < colon_at(s) {
            assert(is_number_char(body[k]));
        } else if k > colon_at(s) {
            assert(is_number_char(body[k]));
        }
    }
    lemma_plain_same(body, body.len() as int);
    assert(body.take(body.len() as int) =~= body);
    assert(!is_space(body[0]));
    assert(!is_space(body.last()));
    lemma_trimmed_same(body);
}

/// The last colon of `/<index>:<offset>` is the one after the index.
pub proof fn lemma_body_colon(s: i32, o: i32)
    ensures
        last_char(offset_body(s, o), ':', offset_body(s, o).len() as int) == colon_at(s),
        0 <= colon_at(s) < offset_body(s, o).len(),
{
    let body = offset_body(s, o);
    lemma_body_shape(s, o);
    assert forall|k: int| colon_at(s) < k < body.len() implies body[k] != ':' by {
        assert(is_number_char(body[k]));
    }
    lemma_last_char_at(body, ':', body.len() as int, colon_at(s));
}

/// The decimal text of a number, read as what follows the last colon, is
/// the terminal offset with that number.
pub proof fn lemma_number_terminal(o: i32)
    ensures
        terminal_of(int_text(o as int)) == Some(o),
{
    let b = int_text(o as int);
    lemma_int_text_chars(o as int);
    assert forall|k: int| 0 <= k < b.len() implies b[k] != ';' by {
        assert(is_number_char(b[k]));
    }
    lemma_next_char_absent(b, ';', 0);
    assert(b.subrange(0, b.len() as int) =~= b);
    assert(before_char(b, ';') == b);
    lemma_i32_text(o);
}

/// The pieces of `/<index>` are an empty one and the index.
pub proof fn lemma_path_pieces(s: i32)
    ensures
        split_char(seq!['/'] + int_text(s as int), '/') == seq![
            Seq::<char>::empty(),
            int_text(s as int),
        ],
{
    let a = int_text(s as int);
    let path = seq!['/'] + a;
    lemma_int_text_chars(s as int);
    assert(path[0] == '/');
    assert(next_char(path, '/', 0) == 0);
    assert forall|k: int| 1 <= k < path.len() implies path[k] != '/' by {
        assert(path[k] == a[k - 1]);
        assert(is_number_char(a[k - 1]));
    }
    lemma_next_char_absent(path, '/', 1);
    assert(path.subrange(1, path.len() as int) =~= a);
    assert(path.subrange(0, 0) =~= Seq::<char>::empty());
    assert(split_from(path, '/', 1) == seq![a]);
    assert(split_char(path, '/') =~= seq![Seq::<char>::empty(), a]);
}

/// The path `/<index>` denotes the one step with the index and no id.
pub proof fn lemma_path_steps(s: i32)
    ensures
        steps_upto(
            split_char(seq!['/'] + int_text(s as int), '/'),
            split_char(seq!['/'] + int_text(s as int), '/').len() as int,
        ) == Some(seq![CFIStepView { index: s, id: None }]),
{
    let segs = split_char(seq!['/'] + int_text(s as int), '/');
    lemma_path_pieces(s);
    lemma_number_step(s);
    assert(segs.len() == 2);
    assert(segs[0].len() == 0);
    assert(segs[1] == int_text(s as int));
    assert(steps_upto(segs, 0) == Some(Seq::<CFIStepView>::empty()));
    assert(steps_upto(segs, 1) == Some(Seq::<CFIStepView>::empty()));
    assert(Seq::<CFIStepView>::empty().push(CFIStepView { index: s, id: None }) =~= seq![
        CFIStepView { index: s, id: None },
    ]);
}

/// The component text `/<index>:<offset>` denotes one step with the index
/// and the offset as terminal offset.
pub proof fn lemma_offset_component(s: i32, o: i32)
    ensures
        component_of(seq!['/'] + int_text(s as int) + seq![':'] + int_text(o as int)) == Some(
            CFIComponentView {
                steps: seq![CFIStepView { index: s, id: None }],
                terminal_offset: Some(o),
            },
        ),
{
    let body = offset_body(s, o);
    lemma_body_cleaned(s, o);
    lemma_body_colon(s, o);
    lemma_body_shape(s, o);
    lemma_number_terminal(o);
    lemma_path_steps(s);
}

/// A character of the body of an offset location: a digit, a minus sign,
/// a slash or a colon.
pub open spec fn is_body_char(c: char) -> bool {
    is_number_char(c) || c == '/' || c == ':'
}

/// The body of an offset location starts with a slash, ends in a digit and
/// is made of digits, minus signs, one slash and one colon.
pub proof fn lemma_offset_body_chars(spine_index: int, char_offset: int)
    ensures
        body_text(offset_cfi(spine_index, char_offset)).len() >= 4,
        body_text(offset_cfi(spine_index, char_offset))[0] == '/',
        is_digit(body_text(offset_cfi(spine_index, char_offset)).last()),
        forall|k: int|
            0 <= k < body_text(offset_cfi(spine_index, char_offset)).len() ==> is_body_char(
                #[trigger] body_text(offset_cfi(spine_index, char_offset))[k],
            ),
{
    let s = wrapped(spine_index);
    let o = wrapped(char_offset);
    let body = body_text(offset_cfi(spine_index, char_offset));
    lemma_offset_body(spine_index, char_offset);
    lemma_int_text_chars(s as int);
    lemma_int_text_chars(o as int);
    let a = int_text(s as int);
    let b = int_text(o as int);
    let colon = 1 + a.len() as int;
    assert(body == seq!['/'] + a + seq![':'] + b);
    assert(body.last() == b.last());
    assert forall|k: int| 0 <= k < body.len() implies is_body_char(#[trigger] body[k]) by {
        if 1 <= k < colon {
            assert(body[k] == a[k - 1]);
            assert(is_number_char(a[k - 1]));
        } else if k > colon {
            assert(body[k] == b[k - colon - 1]);
            assert(is_number_char(b[k - colon - 1]));
        }
    }
}

/// The body of an offset location reads back as that location.
pub proof fn lemma_offset_body_round_trip(spine_index: int, char_offset: int)
    ensures
        body_of(body_text(offset_cfi(spine_index, char_offset))) == Some(
            offset_cfi(spine_index, char_offset),
        ),
{
    let c = offset_cfi(spine_index, char_offset);
    let s = wrapped(spine_index);
    let o = wrapped(char_offset);
    let body = body_text(c);
    lemma_offset_body(spine_index, char_offset);
    lemma_offset_component(s, o);
    lemma_offset_body_chars(spine_index, char_offset);
    assert forall|k: int| 0 <= k < body.len() implies body[k] != '!' by {
        assert(is_body_char(body[k]));
    }
    lemma_split_absent(body, '!');
}

/// Reading the canonical text of the location of an offset gives back the
/// location.
pub proof fn lemma_offset_cfi_round_trip(spine_index: int, char_offset: int)
    ensures
        cfi_of(cfi_text(offset_cfi(spine_index, char_offset))) == Some(
            offset_cfi(spine_index, char_offset),
        ),
{
    let c = offset_cfi(spine_index, char_offset);
    let body = body_text(c);
    lemma_offset_body_round_trip(spine_index, char_offset);
    lemma_offset_body_chars(spine_index, char_offset);
    let text = cfi_text(c);
    reveal_strlit("epubcfi(");
    let pre = "epubcfi("@;
    assert(pre.len() == 8);
    assert(text.len() == body.len() + 9);
    assert(text[0] == 'e');
    assert(text.last() == ')');
    lemma_trimmed_same(text);
    assert(text.subrange(0, 8) =~= pre);
    assert(text.subrange(text.len() - 1, text.len() as int) =~= seq![')']);
    assert(is_wrapped(text));
    let inner = text.subrange(8, text.len() - 1);
    assert(inner =~= body);
}

/// A body of an offset location, taken as an endpoint of a range, denotes
/// the location.
pub proof fn lemma_offset_endpoint(spine_index: int, char_offset: int)
    ensures
        endpoint_of(body_text(offset_cfi(spine_index, char_offset))) == Some(
            offset_cfi(spine_index, char_offset),
        ),
{
    let body = body_text(offset_cfi(spine_index, char_offset));
    lemma_offset_body_round_trip(spine_index, char_offset);
    lemma_offset_body_chars(spine_index, char_offset);
    assert(is_body_char(body[0]));
    assert(!is_space(body[0]));
    assert(!is_space(body.last()));
    lemma_trimmed_same(body);
    reveal_strlit("epubcfi(");
    assert(!has_prefix(body, "epubcfi("@)) by {
        if has_prefix(body, "epubcfi("@) {
            assert(body.subrange(0, 8)[0] == "epubcfi("@[0]);
        }
    }
}

/// Two bodies of offset locations joined by a comma split at the comma.
pub proof fn lemma_split_bodies(spine_index: int, from: int, to: int)
    ensures
        split_char(
            body_text(offset_cfi(spine_index, from)) + seq![','] + body_text(
                offset_cfi(spine_index, to),
            ),
            ',',
        ) == seq![
            body_text(offset_cfi(spine_index, from)),
            body_text(offset_cfi(spine_index, to)),
        ],
        next_char(
            body_text(offset_cfi(spine_index, from)) + seq![','] + body_text(
                offset_cfi(spine_index, to),
            ),
            ',',
            0,
        ) == body_text(offset_cfi(spine_index, from)).len(),
{
    let a = body_text(offset_cfi(spine_index, from));
    let b = body_text(offset_cfi(spine_index, to));
    let joined = a + seq![','] + b;
    lemma_offset_body_chars(spine_index, from);
    lemma_offset_body_chars(spine_index, to);
    let n = a.len() as int;
    assert(joined[n] == ',');
    assert forall|k: int| 0 <= k < n implies joined[k] != ',' by {
        assert(joined[k] == a[k]);
        assert(is_body_char(a[k]));
    }
    assert forall|k: int| n < k < joined.len() implies joined[k] != ',' by {
        assert(joined[k] == b[k - n - 1]);
        assert(is_body_char(b[k - n - 1]));
    }
    lemma_next_char_at(joined, ',', 0, n);
    lemma_next_char_absent(joined, ',', n + 1);
    assert(joined.subrange(0, n) =~= a);
    assert(joined.subrange(n + 1, joined.len() as int) =~= b);
    assert(split_from(joined, ',', n + 1) == seq![b]);
    assert(split_char(joined, ',') =~= seq![a, b]);
}

/// The next `c` at or after `from` is at `p` where `c` stands at `p` and
/// nowhere between `from` and `p`.
pub proof fn lemma_next_char_at(s: Seq<char>, c: char, from: int, p: int)
    requires
        0 <= from <= p < s.len(),
        s[p] == c,
        forall|k: int| from <= k < p ==> s[k] != c,
    ensures
        next_char(s, c, from) == p,
    decreases p - from,
{
    if from < p {
        lemma_next_char_at(s, c, from + 1, p);
    }
}

/// The text that the player gives a range of offsets of a spine item reads
/// back as the range between the locations of the offsets.
pub proof fn lemma_range_call_round_trip(spine_index: int, from: int, to: int)
    ensures
        range_of(range_text_of(spine_index, from, to)) == Some(
            CFIRangeView {
                start: offset_cfi(spine_index, from),
                end: offset_cfi(spine_index, to),
            },
        ),
{
    let a = body_text(offset_cfi(spine_index, from));
    let b = body_text(offset_cfi(spine_index, to));
    lemma_split_bodies(spine_index, from, to);
    lemma_range_call_shape(a, b);
    lemma_offset_endpoint(spine_index, from);
    lemma_offset_endpoint(spine_index, to);
}

/// A text of the form `epubcfi(range(<a>,<b>))`, where the comma is the
/// only one, denotes the range between what `a` and `b` denote.
pub proof fn lemma_range_call_shape(a: Seq<char>, b: Seq<char>)
    requires
        split_char(a + seq![','] + b, ',') == seq![a, b],
    ensures
        range_of("epubcfi(range("@ + a + seq![','] + b + "))"@) == range_from(a, b),
{
    let pre = "epubcfi(range("@;
    let post = "))"@;
    let mid = a + seq![','] + b;
    let text = pre + a + seq![','] + b + post;
    assert(pre.len() == 14 && post.len() == 2) by {
        reveal_strlit("epubcfi(range(");
        reveal_strlit("))");
    }
    assert(text =~= pre + mid + post);
    lemma_wrapped_middle(pre, mid, post);
    assert(is_range_call(text));
    assert(text.subrange(14, text.len() - 2) == mid);
    assert(split_char(mid, ',')[0] == a);
    assert(split_char(mid, ',')[1] == b);
}

/// A text between a prefix and a suffix has them as prefix and suffix, and
/// is what stands between them.
pub proof fn lemma_wrapped_middle(pre: Seq<char>, mid: Seq<char>, post: Seq<char>)
    ensures
        has_prefix(pre + mid + post, pre),
        has_suffix(pre + mid + post, post),
        (pre + mid + post).subrange(pre.len() as int, (pre + mid + post).len() - post.len())
            == mid,
        (pre + mid + post).len() == pre.len() + mid.len() + post.len(),
{
    let t = pre + mid + post;
    assert(t.subrange(0, pre.len() as int) =~= pre);
    assert(t.subrange(t.len() - post.len(), t.len() as int) =~= post);
    assert(t.subrange(pre.len() as int, t.len() - post.len()) =~= mid);
}

/// The canonical text of a range between the locations of two offsets
/// reads back as that range.
pub proof fn lemma_range_text_round_trip(spine_index: int, from: int, to: int)
    ensures
        range_of(
            range_text(
                CFIRangeView {
                    start: offset_cfi(spine_index, from),
                    end: offset_cfi(spine_index, to),
                },
            ),
        ) == Some(
            CFIRangeView {
                start: offset_cfi(spine_index, from),
                end: offset_cfi(spine_index, to),
            },
        ),
{
    let a = body_text(offset_cfi(spine_index, from));
    let b = body_text(offset_cfi(spine_index, to));
    let text = range_text(
        CFIRangeView { start: offset_cfi(spine_index, from), end: offset_cfi(spine_index, to) },
    );
    reveal_strlit("epubcfi(range(");
    reveal_strlit("epubcfi(");
    let pre = "epubcfi("@;
    assert(text == pre + a + seq![','] + b + seq![')']);
    assert(text.len() == a.len() + b.len() + 10);
    lemma_offset_body_chars(spine_index, from);
    lemma_offset_body_chars(spine_index, to);
    assert(text[8] == a[0]);
    assert(!is_range_call(text)) by {
        if has_prefix(text, "epubcfi(range("@) {
            assert(text.subrange(0, 14)[8] == "epubcfi(range("@[8]);
        }
    }
    assert(text.subrange(0, 8) =~= pre);
    assert(text.subrange(text.len() - 1, text.len() as int) =~= seq![')']);
    assert(is_wrapped(text));
    let inner = text.subrange(8, text.len() - 1);
    assert(inner =~= a + seq![','] + b);
    lemma_split_bodies(spine_index, from, to);
    let comma = a.len() as int;
    assert(inner.subrange(0, comma) =~= a);
    assert(inner.subrange(comma + 1, inner.len() as int) =~= b);
    lemma_offset_endpoint(spine_index, from);
    lemma_offset_endpoint(spine_index, to);
}

/// The location of an offset stands for that offset, where the spine index
/// and the offset are below 2^31.
pub proof fn lemma_offset_cfi_offset(spine_index: int, char_offset: int)
    requires
        0 <= spine_index <= i32::MAX,
        0 <= char_offset <= i32::MAX,
    ensures
        offset_of(offset_cfi(spine_index, char_offset)) == Some((spine_index, char_offset)),
{
}

} // verus!
