//! Line and token structure of captured program output.
//!
//! Everything here is stated over `Seq<char>`, the view of a string: where a
//! line ends, which lines a text has, where the first token of a line ends.

use vstd::prelude::*;
use vstd::string::StringSliceAdditionalSpecFns;
use vstd::utf8::{
    decode_utf8_split, encode_scalar, encode_utf8, encode_utf8_decode_utf8,
    encode_utf8_valid_utf8, is_char_boundary, is_char_boundary_iff_not_is_continuation_byte,
    valid_utf8_split,
};

verus! {

/// The characters with the Unicode property `White_Space`.
pub open spec fn is_blank(c: char) -> bool {
    let u = c as u32;
    ||| 0x09 <= u <= 0x0d
    ||| u == 0x20
    ||| u == 0x85
    ||| u == 0xa0
    ||| u == 0x1680
    ||| 0x2000 <= u <= 0x200a
    ||| u == 0x2028
    ||| u == 0x2029
    ||| u == 0x202f
    ||| u == 0x205f
    ||| u == 0x3000
}

/// The characters that mark a line as a continuation of the record above it.
pub open spec fn is_indent(c: char) -> bool {
    c == ' ' || c == '\t'
}

/// The character that ends a line.
pub open spec fn is_newline(c: char) -> bool {
    c == '\n'
}

/// Length of the longest prefix of `s` in which no character satisfies `stop`.
pub open spec fn prefix_len(s: Seq<char>, stop: spec_fn(char) -> bool) -> nat
    decreases s.len(),
{
    if s.len() == 0 || stop(s[0]) {
        0
    } else {
        1 + prefix_len(s.drop_first(), stop)
    }
}

/// `prefix_len` stays inside `s`, passes over no stopping character, and rests on one
/// unless it reaches the end.
pub proof fn lemma_prefix_len(s: Seq<char>, stop: spec_fn(char) -> bool)
    ensures
        prefix_len(s, stop) <= s.len(),
        forall|j: int| 0 <= j < prefix_len(s, stop) ==> !stop(#[trigger] s[j]),
        prefix_len(s, stop) < s.len() ==> stop(s[prefix_len(s, stop) as int]),
    decreases s.len(),
{
    if s.len() == 0 || stop(s[0]) {
    } else {
        let rest = s.drop_first();
        lemma_prefix_len(rest, stop);
        assert forall|j: int| 0 <= j < prefix_len(s, stop) implies !stop(#[trigger] s[j]) by {
            if j > 0 {
                assert(s[j] == rest[j - 1]);
            }
        }
    }
}

/// The first position `k` that is the end of `s` or holds a stopping character is
/// `prefix_len`.
pub proof fn lemma_prefix_len_is(s: Seq<char>, stop: spec_fn(char) -> bool, k: int)
    requires
        0 <= k <= s.len(),
        forall|j: int| 0 <= j < k ==> !stop(#[trigger] s[j]),
        k < s.len() ==> stop(s[k]),
    ensures
        prefix_len(s, stop) == k,
    decreases s.len(),
{
    if s.len() == 0 || k == 0 {
    } else {
        let rest = s.drop_first();
        assert(!stop(s[0]));
        assert forall|j: int| 0 <= j < k - 1 implies !stop(#[trigger] rest[j]) by {
            assert(rest[j] == s[j + 1]);
        }
        lemma_prefix_len_is(rest, stop, k - 1);
    }
}

/// Length of the first line of `s`: the characters before its first line feed.
pub open spec fn line_len(s: Seq<char>) -> nat {
    prefix_len(s, |c: char| is_newline(c))
}

/// The lines of `s`: the pieces between its line feeds, in order. A text with `n` line
/// feeds has `n + 1` lines; a text that ends in a line feed has an empty last line.
pub open spec fn lines_of(s: Seq<char>) -> Seq<Seq<char>>
    decreases s.len(),
{
    let n = line_len(s) as int;
    if n >= s.len() {
        seq![s]
    } else {
        seq![s.take(n)] + lines_of(s.skip(n + 1))
    }
}

/// The members of `lines` that hold at least one character, in order.
pub open spec fn nonempty(lines: Seq<Seq<char>>) -> Seq<Seq<char>> {
    lines.filter(|line: Seq<char>| line.len() > 0)
}

/// The lines of `s` that hold at least one character.
pub open spec fn nonempty_lines_of(s: Seq<char>) -> Seq<Seq<char>> {
    nonempty(lines_of(s))
}

/// The first token of a line: its characters before the first blank.
pub open spec fn first_token_of(line: Seq<char>) -> Seq<char> {
    line.take(prefix_len(line, |c: char| is_blank(c)) as int)
}

/// A line is indented when it begins with a space or a tab.
pub open spec fn is_indented(line: Seq<char>) -> bool {
    line.len() > 0 && is_indent(line[0])
}

/// `lines` with a line feed between each two neighbours.
pub open spec fn joined_lines(lines: Seq<Seq<char>>) -> Seq<char>
    decreases lines.len(),
{
    if lines.len() == 0 {
        Seq::empty()
    } else if lines.len() == 1 {
        lines[0]
    } else {
        lines[0] + seq!['\n'] + joined_lines(lines.drop_first())
    }
}

/// The lines of a text are pieces without line feed, there is at least one, and with
/// the line feeds put back between them they are the text again.
pub proof fn lemma_lines(s: Seq<char>)
    ensures
        lines_of(s).len() >= 1,
        forall|i: int, j: int|
            0 <= i < lines_of(s).len() && 0 <= j < lines_of(s)[i].len() ==> #[trigger] lines_of(
                s,
            )[i][j] != '\n',
        joined_lines(lines_of(s)) == s,
    decreases s.len(),
{
    let stop = |c: char| is_newline(c);
    let n = line_len(s) as int;
    lemma_prefix_len(s, stop);
    if n < s.len() {
        let first = s.take(n);
        let rest = lines_of(s.skip(n + 1));
        lemma_lines(s.skip(n + 1));
        let all = seq![first] + rest;
        assert(all.drop_first() =~= rest);
        assert(first + seq!['\n'] + s.skip(n + 1) =~= s);
        assert forall|i: int, j: int|
            0 <= i < all.len() && 0 <= j < all[i].len() implies #[trigger] all[i][j] != '\n' by {
            if i == 0 {
                assert(!stop(s[j]));
            } else {
                assert(all[i] == rest[i - 1]);
                assert(rest[i - 1][j] != '\n');
            }
        }
    } else {
        assert forall|j: int| 0 <= j < s.len() implies s[j] != '\n' by {
            assert(!stop(s[j]));
        }
    }
}

/// A line feed among the characters is a byte 10 among the bytes that encode them.
proof fn lemma_feed_is_a_byte(chars: Seq<char>, i: int)
    requires
        0 <= i < chars.len(),
        chars[i] == '\n',
    ensures
        encode_utf8(chars).contains(10u8),
    decreases chars.len(),
{
    let head = encode_scalar(chars[0] as u32);
    let tail = encode_utf8(chars.drop_first());
    assert(encode_utf8(chars) == head + tail);
    if i == 0 {
        assert('\n' as u32 == 10u32);
        assert((10u32 & 0x7F) as u8 == 10u8) by (bit_vector);
        assert((head + tail)[0] == 10u8);
    } else {
        lemma_feed_is_a_byte(chars.drop_first(), i - 1);
        let j = choose|j: int| 0 <= j < tail.len() && tail[j] == 10u8;
        assert((head + tail)[head.len() + j] == 10u8);
    }
}

/// The text that a single byte 10 encodes is a single line feed.
proof fn lemma_feed_alone(chars: Seq<char>)
    requires
        encode_utf8(chars) == seq![10u8],
    ensures
        chars == seq!['\n'],
{
    encode_utf8_decode_utf8(chars);
    encode_utf8_decode_utf8(seq!['\n']);
    assert('\n' as u32 == 10u32);
    assert((10u32 & 0x7F) as u8 == 10u8) by (bit_vector);
    reveal_with_fuel(encode_utf8, 2);
    assert(seq!['\n'].drop_first() =~= Seq::<char>::empty());
    assert(encode_utf8(seq!['\n']) =~= seq![10u8]);
}

/// Where the bytes of a text are cut at a character boundary, the text is cut with them.
proof fn lemma_cut(whole: Seq<char>, left: Seq<char>, right: Seq<char>, at: int)
    requires
        is_char_boundary(encode_utf8(whole), at),
        0 <= at <= encode_utf8(whole).len(),
        encode_utf8(left) == encode_utf8(whole).subrange(0, at),
        encode_utf8(right) == encode_utf8(whole).subrange(at, encode_utf8(whole).len() as int),
    ensures
        whole == left + right,
{
    let bytes = encode_utf8(whole);
    encode_utf8_valid_utf8(whole);
    decode_utf8_split(bytes, at);
    encode_utf8_decode_utf8(whole);
    encode_utf8_decode_utf8(left);
    encode_utf8_decode_utf8(right);
}

/// Splits `text` at its line feeds.
///
/// The line feeds are looked for among the bytes of the text, where each is a byte of
/// its own, so that every line is cut out in one step.
pub fn split_lines(text: &str) -> (out: Vec<String>)
    ensures
        out.deep_view() == lines_of(text@),
{
    let mut out: Vec<String> = Vec::new();
    let mut rest: &str = text;
    assert(out.deep_view() =~= Seq::<Seq<char>>::empty());
    loop
        invariant
            lines_of(text@) == out.deep_view() + lines_of(rest@),
        decreases rest@.len(),
    {
        let raw = rest.as_bytes();
        let mut at: usize = 0;
        while at < raw.len() && raw[at] != 10u8
            invariant
                at <= raw.len(),
                forall|j: int| 0 <= j < at ==> raw@[j] != 10u8,
            decreases raw.len() - at,
        {
            at = at + 1;
        }
        let ghost before = out.deep_view();
        proof {
            encode_utf8_valid_utf8(rest@);
        }
        if at == raw.len() {
            proof {
                assert forall|j: int| 0 <= j < rest@.len() implies rest@[j] != '\n' by {
                    if rest@[j] == '\n' {
                        lemma_feed_is_a_byte(rest@, j);
                    }
                }
                lemma_prefix_len_is(rest@, |c: char| is_newline(c), rest@.len() as int);
            }
            out.push(rest.to_owned());
            assert(out.deep_view() =~= before + seq![rest@]);
            return out;
        }
        proof {
            is_char_boundary_iff_not_is_continuation_byte(raw@, at as int);
        }
        let (line, tail) = rest.split_at(at);
        proof {
            valid_utf8_split(raw@, at as int);
            lemma_cut(rest@, line@, tail@, at as int);
            reveal_with_fuel(is_char_boundary, 2);
            assert(tail.spec_bytes()[0] == 10u8);
            assert(is_char_boundary(tail.spec_bytes(), 1));
        }
        let (feed, next) = tail.split_at(1);
        proof {
            lemma_cut(tail@, feed@, next@, 1);
            assert(feed.spec_bytes() =~= seq![10u8]);
            lemma_feed_alone(feed@);
            assert forall|j: int| 0 <= j < line@.len() implies line@[j] != '\n' by {
                if line@[j] == '\n' {
                    lemma_feed_is_a_byte(line@, j);
                    let k = choose|k: int|
                        0 <= k < line.spec_bytes().len() && line.spec_bytes()[k] == 10u8;
                    assert(raw@[k] == 10u8);
                }
            }
            assert(rest@ =~= line@ + seq!['\n'] + next@);
            lemma_prefix_len_is(rest@, |c: char| is_newline(c), line@.len() as int);
            assert(rest@.take(line@.len() as int) =~= line@);
            assert(rest@.skip(line@.len() as int + 1) =~= next@);
        }
        out.push(line.to_owned());
        proof {
            assert(out.deep_view() =~= before.push(line@));
            assert(before.push(line@) + lines_of(next@) =~= before + (seq![line@] + lines_of(
                next@,
            )));
        }
        rest = next;
    }
}

/// No nonempty line is empty, and each is a line.
pub proof fn lemma_nonempty(lines: Seq<Seq<char>>)
    ensures
        forall|i: int| 0 <= i < nonempty(lines).len() ==> (#[trigger] nonempty(lines)[i]).len() > 0,
        forall|i: int|
            0 <= i < nonempty(lines).len() ==> lines.contains(#[trigger] nonempty(lines)[i]),
        forall|i: int|
            0 <= i < lines.len() && lines[i].len() > 0 ==> nonempty(lines).contains(
                #[trigger] lines[i],
            ),
{
    let keep = |line: Seq<char>| line.len() > 0;
    assert forall|i: int| 0 <= i < nonempty(lines).len() implies (#[trigger] nonempty(
        lines,
    )[i]).len() > 0 && lines.contains(nonempty(lines)[i]) by {
        lines.lemma_filter_pred(keep, i);
        lines.lemma_filter_contains_rev(keep, nonempty(lines)[i]);
    }
    assert forall|i: int| 0 <= i < lines.len() && lines[i].len() > 0 implies nonempty(
        lines,
    ).contains(#[trigger] lines[i]) by {
        lines.lemma_filter_contains(keep, i);
    }
}

/// The nonempty lines of two runs of lines, one after the other, are those of the first
/// run followed by those of the second: the order is kept.
pub proof fn lemma_nonempty_in_order(first: Seq<Seq<char>>, second: Seq<Seq<char>>)
    ensures
        nonempty(first + second) == nonempty(first) + nonempty(second),
{
    Seq::filter_distributes_over_add(first, second, |line: Seq<char>| line.len() > 0);
}

/// What one more line adds to the nonempty lines before it.
proof fn lemma_nonempty_step(lines: Seq<Seq<char>>, i: int)
    requires
        0 <= i < lines.len(),
    ensures
        nonempty(lines.take(i + 1)) == if lines[i].len() > 0 {
            nonempty(lines.take(i)).push(lines[i])
        } else {
            nonempty(lines.take(i))
        },
{
    reveal(Seq::filter);
    assert(lines.take(i + 1).drop_last() =~= lines.take(i));
}

/// Splits `text` at its line feeds and drops the empty lines.
pub fn nonempty_lines(text: &str) -> (out: Vec<String>)
    ensures
        out.deep_view() == nonempty_lines_of(text@),
{
    let lines = split_lines(text);
    let mut out: Vec<String> = Vec::new();
    let ghost all = lines.deep_view();
    proof {
        reveal(Seq::filter);
        assert(all.take(0) =~= Seq::<Seq<char>>::empty());
        assert(out.deep_view() =~= Seq::<Seq<char>>::empty());
    }
    for i in 0..lines.len()
        invariant
            all == lines.deep_view(),
            out.deep_view() == nonempty(all.take(i as int)),
    {
        proof {
            lemma_nonempty_step(all, i as int);
        }
        if !lines[i].as_str().is_empty() {
            let ghost before = out.deep_view();
            out.push(lines[i].clone());
            proof {
                assert(out.deep_view() =~= before.push(all[i as int]));
            }
        }
    }
    proof {
        assert(all.take(lines.len() as int) =~= all);
    }
    out
}

/// Whether `c` is a blank.
pub fn blank(c: char) -> (b: bool)
    ensures
        b == is_blank(c),
{
    let u: u32 = c as u32;
    (0x09 <= u && u <= 0x0d) || u == 0x20 || u == 0x85 || u == 0xa0 || u == 0x1680 || (0x2000 <= u
        && u <= 0x200a) || u == 0x2028 || u == 0x2029 || u == 0x202f || u == 0x205f || u == 0x3000
}

/// The characters of `line` before its first blank.
pub fn first_token(line: &str) -> (token: String)
    ensures
        token@ == first_token_of(line@),
{
    let total = line.unicode_len();
    let mut pos: usize = 0;
    for c in it: line.chars()
        invariant
            it.seq() == line@,
            pos == it.index(),
            total == line@.len(),
            pos <= total,
            forall|j: int| 0 <= j < pos ==> !is_blank(line@[j]),
    {
        if blank(c) {
            proof {
                lemma_prefix_len_is(line@, |c: char| is_blank(c), pos as int);
            }
            return line.substring_char(0, pos).to_owned();
        }
        pos = pos + 1;
    }
    proof {
        lemma_prefix_len_is(line@, |c: char| is_blank(c), pos as int);
        assert(line@.take(pos as int) =~= line@);
    }
    line.to_owned()
}

/// Whether `a` and `b` are the same text.
pub fn same_text(a: &str, b: &str) -> (same: bool)
    ensures
        same == (a@ == b@),
{
    let left = a.to_owned();
    let right = b.to_owned();
    left == right
}

/// Whether `line` begins with a space or a tab.
pub fn indented(line: &str) -> (b: bool)
    ensures
        b == is_indented(line@),
{
    if line.is_empty() {
        false
    } else {
        let c = line.get_char(0);
        c == ' ' || c == '\t'
    }
}

} // verus!
