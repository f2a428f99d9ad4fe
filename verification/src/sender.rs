//! The outbound message protocol: splitting an arbitrarily long transcript
//! into delivery-safe chunks, the part markers appended to multi-chunk
//! sends, and the MarkdownV2 escaping applied to transcripts.

use vstd::prelude::*;

use crate::textfmt::{decimal_digits, is_space, is_space_char, push_char, u64_to_string};

verus! {

/// The non-whitespace characters of a text, in order. Chunking may move or
/// drop whitespace at chunk boundaries, but must never lose or reorder the
/// visible characters.
pub open spec fn visible(s: Seq<char>) -> Seq<char>
    decreases s.len(),
{
    if s.len() == 0 {
        Seq::empty()
    } else if is_space_char(s[0]) {
        visible(s.drop_first())
    } else {
        seq![s[0]] + visible(s.drop_first())
    }
}

/// The concatenation of a sequence of texts.
pub open spec fn seq_concat(ss: Seq<Seq<char>>) -> Seq<char>
    decreases ss.len(),
{
    if ss.len() == 0 {
        Seq::empty()
    } else {
        ss[0] + seq_concat(ss.drop_first())
    }
}

/// The visible characters of a sequence of texts, concatenated in order.
pub open spec fn visible_concat(ss: Seq<Seq<char>>) -> Seq<char>
    decreases ss.len(),
{
    if ss.len() == 0 {
        Seq::empty()
    } else {
        visible(ss[0]) + visible_concat(ss.drop_first())
    }
}

/// The texts joined with a newline between neighbours.
pub open spec fn join_lines(ss: Seq<Seq<char>>) -> Seq<char>
    decreases ss.len(),
{
    if ss.len() == 0 {
        Seq::empty()
    } else if ss.len() == 1 {
        ss[0]
    } else {
        ss[0] + seq!['\n'] + join_lines(ss.drop_first())
    }
}

/// The views of a vector of strings.
pub open spec fn views(ss: Seq<String>) -> Seq<Seq<char>> {
    ss.map_values(|s: String| s@)
}

proof fn lemma_visible_push(s: Seq<char>, c: char)
    ensures
        visible(s.push(c)) == if is_space_char(c) {
            visible(s)
        } else {
            visible(s).push(c)
        },
    decreases s.len(),
{
    if s.len() == 0 {
        assert(s.push(c)[0] == c);
        assert(s.push(c).drop_first() =~= Seq::<char>::empty());
        assert(visible(Seq::<char>::empty()) == Seq::<char>::empty());
        if is_space_char(c) {
            assert(visible(s.push(c)) == Seq::<char>::empty());
        } else {
            assert(visible(s.push(c)) == seq![c] + Seq::<char>::empty());
            assert(seq![c] + Seq::<char>::empty() =~= visible(s).push(c));
        }
    } else {
        assert(s.push(c)[0] == s[0]);
        assert(s.push(c).drop_first() =~= s.drop_first().push(c));
        lemma_visible_push(s.drop_first(), c);
        if !is_space_char(s[0]) {
            if is_space_char(c) {
                assert(visible(s.push(c)) == seq![s[0]] + visible(s.drop_first()));
            } else {
                assert(visible(s.push(c)) == seq![s[0]] + visible(s.drop_first()).push(c));
                assert(seq![s[0]] + visible(s.drop_first()).push(c) =~= (seq![s[0]] + visible(
                    s.drop_first(),
                )).push(c));
            }
        }
    }
}

proof fn lemma_visible_add(a: Seq<char>, b: Seq<char>)
    ensures
        visible(a + b) == visible(a) + visible(b),
    decreases a.len(),
{
    if a.len() == 0 {
        assert(a + b =~= b);
        assert(visible(a) + visible(b) =~= visible(b));
    } else {
        assert((a + b).drop_first() =~= a.drop_first() + b);
        lemma_visible_add(a.drop_first(), b);
        if !is_space_char(a[0]) {
            assert(seq![a[0]] + (visible(a.drop_first()) + visible(b)) =~= (seq![a[0]] + visible(
                a.drop_first(),
            )) + visible(b));
        }
    }
}

proof fn lemma_visible_all(s: Seq<char>)
    requires
        forall|i: int| 0 <= i < s.len() ==> !is_space_char(s[i]),
    ensures
        visible(s) == s,
    decreases s.len(),
{
    if s.len() > 0 {
        lemma_visible_all(s.drop_first());
        assert(seq![s[0]] + s.drop_first() =~= s);
    }
}

proof fn lemma_seq_concat_push(ss: Seq<Seq<char>>, x: Seq<char>)
    ensures
        seq_concat(ss.push(x)) == seq_concat(ss) + x,
    decreases ss.len(),
{
    if ss.len() == 0 {
        assert(ss.push(x)[0] == x);
        assert(ss.push(x).drop_first() =~= Seq::<Seq<char>>::empty());
        assert(seq_concat(Seq::<Seq<char>>::empty()) == Seq::<char>::empty());
        assert(seq_concat(ss.push(x)) == x + Seq::<char>::empty());
        assert(x + Seq::<char>::empty() =~= seq_concat(ss) + x);
    } else {
        assert(ss.push(x)[0] == ss[0]);
        assert(ss.push(x).drop_first() =~= ss.drop_first().push(x));
        lemma_seq_concat_push(ss.drop_first(), x);
        assert(seq_concat(ss.push(x)) == ss[0] + (seq_concat(ss.drop_first()) + x));
        assert(ss[0] + (seq_concat(ss.drop_first()) + x) =~= (ss[0] + seq_concat(ss.drop_first()))
            + x);
    }
}

proof fn lemma_visible_concat_push(ss: Seq<Seq<char>>, x: Seq<char>)
    ensures
        visible_concat(ss.push(x)) == visible_concat(ss) + visible(x),
    decreases ss.len(),
{
    if ss.len() == 0 {
        assert(ss.push(x)[0] == x);
        assert(ss.push(x).drop_first() =~= Seq::<Seq<char>>::empty());
        assert(visible_concat(Seq::<Seq<char>>::empty()) == Seq::<char>::empty());
        assert(visible_concat(ss.push(x)) == visible(x) + Seq::<char>::empty());
        assert(visible(x) + Seq::<char>::empty() =~= visible_concat(ss) + visible(x));
    } else {
        assert(ss.push(x)[0] == ss[0]);
        assert(ss.push(x).drop_first() =~= ss.drop_first().push(x));
        lemma_visible_concat_push(ss.drop_first(), x);
        assert(visible_concat(ss.push(x)) == visible(ss[0]) + (visible_concat(ss.drop_first())
            + visible(x)));
        assert(visible(ss[0]) + (visible_concat(ss.drop_first()) + visible(x)) =~= (visible(ss[0])
            + visible_concat(ss.drop_first())) + visible(x));
    }
}

proof fn lemma_join_lines_push(ss: Seq<Seq<char>>, x: Seq<char>)
    ensures
        join_lines(ss.push(x)) == if ss.len() == 0 {
            x
        } else {
            join_lines(ss) + seq!['\n'] + x
        },
    decreases ss.len(),
{
    if ss.len() == 0 {
        assert(ss.push(x)[0] =~= x);
    } else if ss.len() == 1 {
        assert(ss.push(x).drop_first() =~= seq![x]);
        assert(join_lines(seq![x]) == x);
    } else {
        assert(ss.push(x).drop_first() =~= ss.drop_first().push(x));
        lemma_join_lines_push(ss.drop_first(), x);
        assert(ss[0] + seq!['\n'] + (join_lines(ss.drop_first()) + seq!['\n'] + x) =~= (ss[0]
            + seq!['\n'] + join_lines(ss.drop_first())) + seq!['\n'] + x);
    }
}

/// The visible characters of newline-joined lines are those of the lines
/// themselves: the separators vanish.
proof fn lemma_visible_join_lines(ss: Seq<Seq<char>>)
    ensures
        visible(join_lines(ss)) == visible_concat(ss),
    decreases ss.len(),
{
    if ss.len() == 0 {
    } else if ss.len() == 1 {
        assert(visible_concat(ss.drop_first()) =~= Seq::<char>::empty());
        assert(visible(ss[0]) + Seq::<char>::empty() =~= visible(ss[0]));
    } else {
        lemma_visible_join_lines(ss.drop_first());
        lemma_visible_add(ss[0] + seq!['\n'], join_lines(ss.drop_first()));
        lemma_visible_add(ss[0], seq!['\n']);
        assert(seq!['\n'][0] == '\n');
        assert(seq!['\n'].drop_first() =~= Seq::<char>::empty());
        assert(visible(Seq::<char>::empty()) == Seq::<char>::empty());
        assert(visible(seq!['\n']) == Seq::<char>::empty());
        assert(visible(ss[0]) + Seq::<char>::empty() =~= visible(ss[0]));
    }
}

/// The distance to the first newline, or the whole length when there is
/// none.
pub open spec fn line_break(s: Seq<char>) -> nat
    decreases s.len(),
{
    if s.len() == 0 {
        0
    } else if s[0] == '\n' {
        0
    } else {
        1 + line_break(s.drop_first())
    }
}

/// The distance to the first whitespace character, or the whole length
/// when there is none.
pub open spec fn word_break(s: Seq<char>) -> nat
    decreases s.len(),
{
    if s.len() == 0 {
        0
    } else if is_space_char(s[0]) {
        0
    } else {
        1 + word_break(s.drop_first())
    }
}

/// The lines of a text: the maximal newline-free pieces, in order. A text
/// without newlines is one line; every newline separates two lines.
pub open spec fn lines_of(s: Seq<char>) -> Seq<Seq<char>>
    decreases s.len(),
{
    let b = line_break(s);
    if b >= s.len() {
        seq![s]
    } else {
        seq![s.take(b as int)] + lines_of(s.skip(b + 1 as int))
    }
}

/// The words of a line: the maximal whitespace-free runs, in order.
pub open spec fn words_of(s: Seq<char>) -> Seq<Seq<char>>
    decreases s.len(),
    via words_of_decreases
{
    if s.len() == 0 {
        Seq::empty()
    } else if is_space_char(s[0]) {
        words_of(s.drop_first())
    } else {
        seq![s.take(word_break(s) as int)] + words_of(s.skip(word_break(s) as int))
    }
}

#[via_fn]
proof fn words_of_decreases(s: Seq<char>) {
    if s.len() > 0 && !is_space_char(s[0]) {
        assert(word_break(s) == 1 + word_break(s.drop_first()));
        lemma_word_break_chars(s);
    }
}

/// The texts joined with a single space between neighbours.
pub open spec fn join_words(ss: Seq<Seq<char>>) -> Seq<char>
    decreases ss.len(),
{
    if ss.len() == 0 {
        Seq::empty()
    } else if ss.len() == 1 {
        ss[0]
    } else {
        ss[0] + seq![' '] + join_words(ss.drop_first())
    }
}

proof fn lemma_join_words_push(ss: Seq<Seq<char>>, x: Seq<char>)
    ensures
        join_words(ss.push(x)) == if ss.len() == 0 {
            x
        } else {
            join_words(ss) + seq![' '] + x
        },
    decreases ss.len(),
{
    if ss.len() == 0 {
        assert(ss.push(x)[0] =~= x);
    } else if ss.len() == 1 {
        assert(ss.push(x).drop_first() =~= seq![x]);
        assert(join_words(seq![x]) == x);
    } else {
        assert(ss.push(x).drop_first() =~= ss.drop_first().push(x));
        lemma_join_words_push(ss.drop_first(), x);
        assert(ss[0] + seq![' '] + (join_words(ss.drop_first()) + seq![' '] + x) =~= (ss[0]
            + seq![' '] + join_words(ss.drop_first())) + seq![' '] + x);
    }
}

proof fn lemma_line_break_value(s: Seq<char>, i: int)
    requires
        0 <= i <= s.len(),
        forall|k: int| 0 <= k < i ==> s[k] != '\n',
        i < s.len() ==> s[i] == '\n',
    ensures
        line_break(s) == i,
    decreases i,
{
    if i > 0 {
        lemma_line_break_value(s.drop_first(), i - 1);
    }
}

proof fn lemma_line_break_chars(s: Seq<char>)
    ensures
        line_break(s) <= s.len(),
        forall|k: int| 0 <= k < line_break(s) ==> s[k] != '\n',
        line_break(s) < s.len() ==> s[line_break(s) as int] == '\n',
    decreases s.len(),
{
    if s.len() > 0 && s[0] != '\n' {
        let t = s.drop_first();
        lemma_line_break_chars(t);
        assert(line_break(s) == 1 + line_break(t));
        assert forall|k: int| 0 <= k < line_break(s) implies s[k] != '\n' by {
            if k > 0 {
                assert(s[k] == t[k - 1]);
            }
        }
        if line_break(s) < s.len() {
            assert(s[line_break(s) as int] == t[line_break(t) as int]);
        }
    }
}

proof fn lemma_word_break_value(s: Seq<char>, i: int)
    requires
        0 <= i <= s.len(),
        forall|k: int| 0 <= k < i ==> !is_space_char(s[k]),
        i < s.len() ==> is_space_char(s[i]),
    ensures
        word_break(s) == i,
    decreases i,
{
    if i > 0 {
        lemma_word_break_value(s.drop_first(), i - 1);
    }
}

proof fn lemma_word_break_chars(s: Seq<char>)
    ensures
        word_break(s) <= s.len(),
        forall|k: int| 0 <= k < word_break(s) ==> !is_space_char(s[k]),
        word_break(s) < s.len() ==> is_space_char(s[word_break(s) as int]),
    decreases s.len(),
{
    if s.len() > 0 && !is_space_char(s[0]) {
        let t = s.drop_first();
        lemma_word_break_chars(t);
        assert(word_break(s) == 1 + word_break(t));
        assert forall|k: int| 0 <= k < word_break(s) implies !is_space_char(s[k]) by {
            if k > 0 {
                assert(s[k] == t[k - 1]);
            }
        }
        if word_break(s) < s.len() {
            assert(s[word_break(s) as int] == t[word_break(t) as int]);
        }
    }
}

/// The lines reconstruct the text: there is at least one, none holds a
/// newline, and joining them with newlines gives the text back exactly.
proof fn lemma_lines_of_props(s: Seq<char>)
    ensures
        lines_of(s).len() >= 1,
        join_lines(lines_of(s)) == s,
        forall|i: int, k: int|
            0 <= i < lines_of(s).len() && 0 <= k < lines_of(s)[i].len() ==> lines_of(s)[i][k]
                != '\n',
    decreases s.len(),
{
    lemma_line_break_chars(s);
    let b = line_break(s);
    if b >= s.len() {
        assert(lines_of(s) =~= seq![s]);
        assert(join_lines(seq![s]) == s);
    } else {
        let rest = s.skip(b + 1 as int);
        lemma_lines_of_props(rest);
        assert(lines_of(s) =~= seq![s.take(b as int)] + lines_of(rest));
        let ls = lines_of(s);
        assert(ls[0] == s.take(b as int));
        assert(ls.drop_first() =~= lines_of(rest));
        if lines_of(rest).len() == 0 {
        } else {
            assert(ls.len() >= 2);
            assert(join_lines(ls) == ls[0] + seq!['\n'] + join_lines(ls.drop_first()));
            assert(s.take(b as int) + seq!['\n'] + rest =~= s);
        }
    }
}

/// The words carry the visible characters: each is nonempty and
/// whitespace-free, and their concatenation is exactly the visible part
/// of the line.
proof fn lemma_words_of_props(s: Seq<char>)
    ensures
        seq_concat(words_of(s)) == visible(s),
        forall|i: int| 0 <= i < words_of(s).len() ==> words_of(s)[i].len() >= 1,
        forall|i: int, k: int|
            0 <= i < words_of(s).len() && 0 <= k < words_of(s)[i].len() ==> !is_space_char(
                words_of(s)[i][k],
            ),
    decreases s.len(),
{
    if s.len() == 0 {
    } else if is_space_char(s[0]) {
        lemma_words_of_props(s.drop_first());
    } else {
        lemma_word_break_chars(s);
        let b = word_break(s);
        let head = s.take(b as int);
        let rest = s.skip(b as int);
        lemma_words_of_props(rest);
        assert(words_of(s) =~= seq![head] + words_of(rest));
        let ws = words_of(s);
        assert(ws[0] == head);
        assert(ws.drop_first() =~= words_of(rest));
        assert(seq_concat(ws) == head + seq_concat(words_of(rest)));
        assert(head + rest =~= s);
        lemma_visible_add(head, rest);
        lemma_visible_all(head);
    }
}

fn find_line_break(text: &str) -> (b: usize)
    ensures
        b == line_break(text@),
        b <= text@.len(),
{
    let len = text.unicode_len();
    let mut i: usize = 0;
    while i < len
        invariant
            0 <= i <= len,
            len == text@.len(),
            forall|k: int| 0 <= k < i ==> text@[k] != '\n',
        decreases len - i,
    {
        if text.get_char(i) == '\n' {
            proof {
                lemma_line_break_value(text@, i as int);
            }
            return i;
        }
        i = i + 1;
    }
    proof {
        lemma_line_break_value(text@, len as int);
    }
    len
}

fn find_word_break(line: &str) -> (b: usize)
    ensures
        b == word_break(line@),
        b <= line@.len(),
{
    let len = line.unicode_len();
    let mut i: usize = 0;
    while i < len
        invariant
            0 <= i <= len,
            len == line@.len(),
            forall|k: int| 0 <= k < i ==> !is_space_char(line@[k]),
        decreases len - i,
    {
        if is_space(line.get_char(i)) {
            proof {
                lemma_word_break_value(line@, i as int);
            }
            return i;
        }
        i = i + 1;
    }
    proof {
        lemma_word_break_value(line@, len as int);
    }
    len
}

/// Splits a text at newlines, yielding exactly its lines as `lines_of`
/// describes them.
fn split_lines(text: &str) -> (lines: Vec<String>)
    ensures
        views(lines@) == lines_of(text@),
    decreases text@.len(),
{
    let len = text.unicode_len();
    let b = find_line_break(text);
    if b >= len {
        let mut v: Vec<String> = Vec::new();
        v.push(text.to_owned());
        proof {
            assert(views(v@) =~= seq![text@]);
        }
        v
    } else {
        let head = text.substring_char(0, b);
        let rest = text.substring_char(b + 1, len);
        let mut v = split_lines(rest);
        v.insert(0, head.to_owned());
        proof {
            assert(head@ =~= text@.take(b as int));
            assert(rest@ =~= text@.skip(b + 1));
            assert(views(v@) =~= seq![text@.take(b as int)] + lines_of(text@.skip(b + 1)));
        }
        v
    }
}

/// Splits a line at whitespace, yielding exactly its words as `words_of`
/// describes them.
fn split_words(line: &str) -> (words: Vec<String>)
    ensures
        views(words@) == words_of(line@),
    decreases line@.len(),
{
    let len = line.unicode_len();
    if len == 0 {
        let v: Vec<String> = Vec::new();
        proof {
            assert(views(v@) =~= words_of(line@));
        }
        return v;
    }
    if is_space(line.get_char(0)) {
        let rest = line.substring_char(1, len);
        let v = split_words(rest);
        proof {
            assert(rest@ =~= line@.drop_first());
        }
        v
    } else {
        let b = find_word_break(line);
        proof {
            assert(word_break(line@) >= 1);
        }
        let head = line.substring_char(0, b);
        let rest = line.substring_char(b, len);
        let mut v = split_words(rest);
        v.insert(0, head.to_owned());
        proof {
            assert(head@ =~= line@.take(b as int));
            assert(rest@ =~= line@.skip(b as int));
            assert(views(v@) =~= seq![line@.take(b as int)] + words_of(line@.skip(b as int)));
        }
        v
    }
}


/// One chunk shape: a join of consecutive lines of the text, the newline
/// separators kept.
pub open spec fn lines_run_chunk(chunk: Seq<char>, text: Seq<char>) -> bool {
    exists|a: int, b: int|
        0 <= a < b <= lines_of(text).len() && chunk == join_lines(
            #[trigger] lines_of(text).subrange(a, b),
        )
}

/// One chunk shape: a join of consecutive words of one line of the text,
/// a single space between neighbours.
pub open spec fn words_run_chunk(chunk: Seq<char>, text: Seq<char>) -> bool {
    exists|li: int, a: int, b: int|
        0 <= li < lines_of(text).len() && 0 <= a < b <= words_of(lines_of(text)[li]).len()
            && chunk == join_words(#[trigger] words_of(lines_of(text)[li]).subrange(a, b))
}

/// One chunk shape: a contiguous piece of a single word of one line, cut
/// only because the word alone exceeds the budget.
pub open spec fn word_slice_chunk(chunk: Seq<char>, text: Seq<char>) -> bool {
    exists|li: int, wi: int, p: int, q: int|
        0 <= li < lines_of(text).len() && 0 <= wi < words_of(lines_of(text)[li]).len() && 0 <= p
            < q <= words_of(lines_of(text)[li])[wi].len() && chunk == #[trigger] words_of(
            lines_of(text)[li],
        )[wi].subrange(p, q)
}

/// One chunk shape: the trailing words of one line followed, after a
/// newline, by the consecutive whole lines that come after it.
pub open spec fn word_tail_lines_chunk(chunk: Seq<char>, text: Seq<char>) -> bool {
    exists|k: int, a: int, b: int|
        #![trigger words_of(lines_of(text)[k]).subrange(a, words_of(lines_of(text)[k]).len() as int), lines_of(text).subrange(k + 1, b)]
        0 <= k < lines_of(text).len() && 0 <= a < words_of(lines_of(text)[k]).len() && k + 1 < b
            <= lines_of(text).len() && chunk == join_words(
            words_of(lines_of(text)[k]).subrange(a, words_of(lines_of(text)[k]).len() as int),
        ) + seq!['\n'] + join_lines(lines_of(text).subrange(k + 1, b))
}

/// Where every chunk comes from: a run of whole lines joined with their
/// newlines, a run of one line's words joined with single spaces, a piece
/// of one overlong word, or a line's trailing words followed by whole
/// lines. Whitespace is altered only at the separators of these shapes.
pub open spec fn chunk_of_text(chunk: Seq<char>, text: Seq<char>) -> bool {
    ||| lines_run_chunk(chunk, text)
    ||| words_run_chunk(chunk, text)
    ||| word_slice_chunk(chunk, text)
    ||| word_tail_lines_chunk(chunk, text)
}

/// A join of consecutive words of the line, a single space between
/// neighbours.
pub open spec fn words_run_of_line(chunk: Seq<char>, line: Seq<char>) -> bool {
    exists|a: int, b: int|
        0 <= a < b <= words_of(line).len() && chunk == join_words(
            #[trigger] words_of(line).subrange(a, b),
        )
}

/// A contiguous piece of a single word of the line.
pub open spec fn word_slice_of_line(chunk: Seq<char>, line: Seq<char>) -> bool {
    exists|wi: int, p: int, q: int|
        0 <= wi < words_of(line).len() && 0 <= p < q <= words_of(line)[wi].len() && chunk
            == #[trigger] words_of(line)[wi].subrange(p, q)
}

/// What packing one line may emit as a finished chunk.
pub open spec fn line_piece_chunk(chunk: Seq<char>, line: Seq<char>) -> bool {
    words_run_of_line(chunk, line) || word_slice_of_line(chunk, line)
}

/// The trailing words of the line, joined with single spaces.
pub open spec fn word_tail_of_line(cur: Seq<char>, line: Seq<char>) -> bool {
    exists|a: int|
        0 <= a < words_of(line).len() && cur == join_words(
            #[trigger] words_of(line).subrange(a, words_of(line).len() as int),
        )
}

/// Packs the words of one overlong line greedily into chunks, a single
/// space between neighbouring words. A word longer than the whole budget
/// is cut into budget-sized pieces so that no chunk ever exceeds the
/// budget. The visible characters of the line are appended, in order, to
/// what the chunks and the running chunk already carry; every chunk this
/// adds is a word run or a word piece of the line, and what is left in
/// the running chunk is the line's word tail.
fn pack_words(chunks: &mut Vec<String>, cur: &mut String, line: &str, budget: usize)
    requires
        old(cur)@.len() == 0,
        1 <= budget,
        budget < usize::MAX / 2,
        forall|i: int| 0 <= i < old(chunks)@.len() ==> #[trigger] old(chunks)@[i]@.len() <= budget,
    ensures
        forall|i: int|
            0 <= i < final(chunks)@.len() ==> #[trigger] final(chunks)@[i]@.len() <= budget,
        final(cur)@.len() <= budget,
        visible_concat(views(final(chunks)@)) + visible(final(cur)@) == visible_concat(
            views(old(chunks)@),
        ) + visible(line@),
        final(chunks)@.len() >= old(chunks)@.len(),
        forall|i: int| 0 <= i < old(chunks)@.len() ==> final(chunks)@[i] == old(chunks)@[i],
        forall|i: int|
            old(chunks)@.len() <= i < final(chunks)@.len() ==> line_piece_chunk(
                #[trigger] final(chunks)@[i]@,
                line@,
            ),
        final(cur)@.len() == 0 || word_tail_of_line(final(cur)@, line@),
{
    let words = split_words(line);
    proof {
        lemma_words_of_props(line@);
        assert forall|i: int| 0 <= i < words@.len() implies #[trigger] words@[i]@.len() >= 1 by {
            assert(words@[i]@ == views(words@)[i]);
        }
        assert forall|i: int, k: int|
            0 <= i < words@.len() && 0 <= k < words@[i]@.len() implies !is_space_char(
            words@[i]@[k],
        ) by {
            assert(words@[i]@ == views(words@)[i]);
        }
    }
    let ghost chunks0 = chunks@;
    let ghost base = visible_concat(views(old(chunks)@));
    let ghost base_len = old(chunks)@.len() as int;
    proof {
        assert(visible(Seq::<char>::empty()) == Seq::<char>::empty());
        assert(base + Seq::<char>::empty() =~= base);
        assert(seq_concat(views(words@).take(0)) == Seq::<char>::empty());
        assert(base + seq_concat(views(words@).take(0)) =~= base);
    }
    let mut wi: usize = 0;
    let ghost mut run_start: int = 0;
    while wi < words.len()
        invariant
            0 <= wi <= words@.len(),
            1 <= budget,
            budget < usize::MAX / 2,
            views(words@) == words_of(line@),
            forall|i: int| 0 <= i < chunks@.len() ==> #[trigger] chunks@[i]@.len() <= budget,
            cur@.len() <= budget,
            visible_concat(views(chunks@)) + visible(cur@) == base + seq_concat(
                views(words@).take(wi as int),
            ),
            seq_concat(views(words@)) == visible(line@),
            forall|i: int| 0 <= i < words@.len() ==> #[trigger] words@[i]@.len() >= 1,
            forall|i: int, k: int|
                0 <= i < words@.len() && 0 <= k < words@[i]@.len() ==> !is_space_char(
                    words@[i]@[k],
                ),
            chunks@.len() >= base_len,
            forall|i: int| 0 <= i < base_len ==> #[trigger] chunks@[i] == chunks0[i],
            base_len == chunks0.len(),
            forall|i: int|
                base_len <= i < chunks@.len() ==> line_piece_chunk(
                    #[trigger] chunks@[i]@,
                    line@,
                ),
            cur@.len() == 0 || (0 <= run_start < wi && cur@ == join_words(
                words_of(line@).subrange(run_start, wi as int),
            )),
        decreases words@.len() - wi,
    {
        let w = &words[wi];
        let wlen = w.as_str().unicode_len();
        proof {
            assert(views(words@).take(wi + 1) =~= views(words@).take(wi as int).push(w@));
            lemma_seq_concat_push(views(words@).take(wi as int), w@);
            assert(w@ == words_of(line@)[wi as int]);
        }
        if wlen > budget {
            if cur.unicode_len() > 0 {
                let ghost old_chunks = chunks@;
                let ghost old_cur = cur@;
                chunks.push(cur.clone());
                *cur = String::new();
                proof {
                    assert(views(chunks@) =~= views(old_chunks).push(old_cur));
                    lemma_visible_concat_push(views(old_chunks), old_cur);
                    assert(visible(Seq::<char>::empty()) == Seq::<char>::empty());
                    assert((visible_concat(views(old_chunks)) + visible(old_cur))
                        + Seq::<char>::empty() =~= visible_concat(views(old_chunks)) + visible(
                        old_cur,
                    ));
                    assert(chunks@[chunks@.len() - 1]@ == join_words(
                        words_of(line@).subrange(run_start, wi as int),
                    ));
                    assert(words_run_of_line(chunks@[chunks@.len() - 1]@, line@));
                }
            }
            let ghost word_base = visible_concat(views(chunks@));
            proof {
                assert(w@.take(0) == Seq::<char>::empty());
                assert(word_base + w@.take(0) =~= word_base);
            }
            let mut pos: usize = 0;
            while pos < wlen
                invariant
                    0 <= pos <= wlen,
                    wlen == w@.len(),
                    1 <= budget,
                    budget < usize::MAX / 2,
                    views(words@) == words_of(line@),
                    0 <= wi < words@.len(),
                    w@ == words_of(line@)[wi as int],
                    forall|k: int| 0 <= k < w@.len() ==> !is_space_char(w@[k]),
                    cur@.len() == 0,
                    forall|i: int|
                        0 <= i < chunks@.len() ==> #[trigger] chunks@[i]@.len() <= budget,
                    visible_concat(views(chunks@)) == word_base + w@.take(pos as int),
                    chunks@.len() >= base_len,
                    forall|i: int| 0 <= i < base_len ==> #[trigger] chunks@[i] == chunks0[i],
                    base_len == chunks0.len(),
                    forall|i: int|
                        base_len <= i < chunks@.len() ==> line_piece_chunk(
                            #[trigger] chunks@[i]@,
                            line@,
                        ),
                decreases wlen - pos,
            {
                let end = if wlen - pos > budget {
                    pos + budget
                } else {
                    wlen
                };
                let piece = w.as_str().substring_char(pos, end);
                let ghost old_chunks = chunks@;
                chunks.push(piece.to_owned());
                proof {
                    assert(views(chunks@) =~= views(old_chunks).push(piece@));
                    lemma_visible_concat_push(views(old_chunks), piece@);
                    lemma_visible_all(piece@);
                    assert((word_base + w@.take(pos as int)) + w@.subrange(pos as int, end as int)
                        =~= word_base + w@.take(end as int));
                    assert(chunks@[chunks@.len() - 1]@ == words_of(line@)[wi as int].subrange(
                        pos as int,
                        end as int,
                    ));
                    assert(word_slice_of_line(chunks@[chunks@.len() - 1]@, line@));
                }
                pos = end;
            }
            proof {
                assert(w@.take(wlen as int) =~= w@);
                assert(visible(Seq::<char>::empty()) == Seq::<char>::empty());
                assert((word_base + w@) + Seq::<char>::empty() =~= word_base + w@);
                lemma_visible_all(w@);
            }
        } else {
            let clen = cur.unicode_len();
            if clen + wlen + 1 > budget {
                if clen > 0 {
                    let ghost old_chunks = chunks@;
                    let ghost old_cur = cur@;
                    chunks.push(cur.clone());
                    *cur = String::new();
                    proof {
                        assert(views(chunks@) =~= views(old_chunks).push(old_cur));
                        lemma_visible_concat_push(views(old_chunks), old_cur);
                        assert(visible(Seq::<char>::empty()) == Seq::<char>::empty());
                        assert((visible_concat(views(old_chunks)) + visible(old_cur))
                            + Seq::<char>::empty() =~= visible_concat(views(old_chunks)) + visible(
                            old_cur,
                        ));
                        assert(chunks@[chunks@.len() - 1]@ == join_words(
                            words_of(line@).subrange(run_start, wi as int),
                        ));
                        assert(words_run_of_line(chunks@[chunks@.len() - 1]@, line@));
                    }
                }
            }
            let ghost cur_before = cur@;
            if cur.unicode_len() > 0 {
                push_char(cur, ' ');
                proof {
                    lemma_visible_push(cur_before, ' ');
                }
            } else {
                proof {
                    run_start = wi as int;
                }
            }
            let ghost cur_mid = cur@;
            cur.append(w.as_str());
            proof {
                lemma_visible_add(cur_mid, w@);
                lemma_visible_all(w@);
                assert(visible(cur_mid) == visible(cur_before));
                assert((visible_concat(views(chunks@)) + visible(cur_before)) + w@
                    =~= visible_concat(views(chunks@)) + (visible(cur_before) + w@));
                if cur_before.len() == 0 {
                    assert(words_of(line@).subrange(wi as int, wi + 1) =~= seq![w@]);
                    assert(join_words(seq![w@]) == w@);
                    assert(cur@ =~= w@);
                } else {
                    lemma_join_words_push(
                        words_of(line@).subrange(run_start, wi as int),
                        w@,
                    );
                    assert(words_of(line@).subrange(run_start, wi + 1) =~= words_of(
                        line@,
                    ).subrange(run_start, wi as int).push(w@));
                    assert(cur@ =~= (cur_before + seq![' ']) + w@);
                    assert((cur_before + seq![' ']) + w@ =~= cur_before + seq![' '] + w@);
                }
            }
        }
        wi = wi + 1;
    }
    proof {
        assert(views(words@).take(words@.len() as int) =~= views(words@));
        if cur@.len() > 0 {
            assert(cur@ == join_words(
                words_of(line@).subrange(run_start, words_of(line@).len() as int),
            ));
            assert(word_tail_of_line(cur@, line@));
        }
    }
}

/// Splits a transcript into delivery-safe chunks. Text that fits the
/// budget is returned as the single chunk, identical to the input. Longer
/// text is split deterministically at line boundaries first, overlong
/// lines at word boundaries, and a word longer than the whole budget into
/// budget-sized pieces. Every chunk stays within the budget, the visible
/// (non-whitespace) characters of the input are kept in order, and every
/// chunk has one of the shapes `chunk_of_text` names, so whitespace is
/// altered only at the separators the splitter itself placed or dropped.
pub fn split_message(text: &str, budget: usize) -> (chunks: Vec<String>)
    requires
        1 <= budget,
        budget < usize::MAX / 2,
    ensures
        text@.len() <= budget ==> chunks@.len() == 1 && chunks@[0]@ == text@,
        forall|i: int| 0 <= i < chunks@.len() ==> #[trigger] chunks@[i]@.len() <= budget,
        visible_concat(views(chunks@)) == visible(text@),
        forall|i: int| 0 <= i < chunks@.len() ==> chunk_of_text(#[trigger] chunks@[i]@, text@),
{
    let tlen = text.unicode_len();
    if tlen <= budget {
        let mut v: Vec<String> = Vec::new();
        v.push(text.to_owned());
        proof {
            assert(views(v@) =~= seq![text@]);
            assert(seq![text@].drop_first() =~= Seq::<Seq<char>>::empty());
            assert(visible_concat(Seq::<Seq<char>>::empty()) == Seq::<char>::empty());
            assert(visible_concat(seq![text@]) == visible(text@) + Seq::<char>::empty());
            assert(visible(text@) + Seq::<char>::empty() =~= visible(text@));
            lemma_lines_of_props(text@);
            assert(lines_of(text@).subrange(0, lines_of(text@).len() as int) =~= lines_of(text@));
            assert(text@ == join_lines(
                lines_of(text@).subrange(0, lines_of(text@).len() as int),
            ));
            assert(lines_run_chunk(text@, text@));
        }
        return v;
    }
    let lines = split_lines(text);
    proof {
        lemma_lines_of_props(text@);
        lemma_visible_join_lines(views(lines@));
    }
    let ghost lv = lines_of(text@);
    let mut chunks: Vec<String> = Vec::new();
    let mut cur = String::new();
    proof {
        assert(visible(Seq::<char>::empty()) == Seq::<char>::empty());
        assert(visible_concat(views(lines@).take(0)) == Seq::<char>::empty());
        assert(Seq::<char>::empty() + Seq::<char>::empty() =~= Seq::<char>::empty());
    }
    let mut li: usize = 0;
    let ghost mut mode: int = 0;
    let ghost mut cur_start: int = 0;
    let ghost mut tail_line: int = 0;
    let ghost mut tail: Seq<char> = Seq::empty();
    while li < lines.len()
        invariant
            0 <= li <= lines@.len(),
            1 <= budget,
            budget < usize::MAX / 2,
            views(lines@) == lv,
            lv == lines_of(text@),
            forall|i: int| 0 <= i < chunks@.len() ==> #[trigger] chunks@[i]@.len() <= budget,
            cur@.len() <= budget,
            visible_concat(views(chunks@)) + visible(cur@) == visible_concat(
                views(lines@).take(li as int),
            ),
            forall|i: int|
                0 <= i < chunks@.len() ==> chunk_of_text(#[trigger] chunks@[i]@, text@),
            mode == 0 || mode == 1 || mode == 2,
            mode == 0 ==> cur@.len() == 0,
            mode == 1 ==> cur@.len() > 0 && 0 <= cur_start < li && cur@ == join_lines(
                lv.subrange(cur_start, li as int),
            ),
            mode == 2 ==> cur@.len() > 0 && 0 <= tail_line < li && word_tail_of_line(
                tail,
                lv[tail_line],
            ) && cur@ == tail + if li > tail_line + 1 {
                seq!['\n'] + join_lines(lv.subrange(tail_line + 1, li as int))
            } else {
                Seq::<char>::empty()
            },
        decreases lines@.len() - li,
    {
        let line = &lines[li];
        let llen = line.as_str().unicode_len();
        let clen = cur.unicode_len();
        proof {
            assert(views(lines@).take(li + 1) =~= views(lines@).take(li as int).push(line@));
            lemma_visible_concat_push(views(lines@).take(li as int), line@);
            assert(line@ == views(lines@)[li as int]);
            assert(line@ == lv[li as int]);
        }
        let needs_flush = if llen >= budget {
            true
        } else {
            clen + llen + 1 > budget
        };
        if needs_flush {
            if clen > 0 {
                let ghost old_chunks = chunks@;
                let ghost old_cur = cur@;
                chunks.push(cur);
                cur = String::new();
                proof {
                    assert(views(chunks@) =~= views(old_chunks).push(old_cur));
                    lemma_visible_concat_push(views(old_chunks), old_cur);
                    assert(visible(Seq::<char>::empty()) == Seq::<char>::empty());
                    assert((visible_concat(views(old_chunks)) + visible(old_cur))
                        + Seq::<char>::empty() =~= visible_concat(views(old_chunks)) + visible(
                        old_cur,
                    ));
                    if mode == 1 {
                        assert(old_cur == join_lines(
                            lines_of(text@).subrange(cur_start, li as int),
                        ));
                        assert(lines_run_chunk(old_cur, text@));
                    } else {
                        let a = choose|a: int|
                            0 <= a < words_of(lv[tail_line]).len() && tail == join_words(
                                #[trigger] words_of(lv[tail_line]).subrange(
                                    a,
                                    words_of(lv[tail_line]).len() as int,
                                ),
                            );
                        if li > tail_line + 1 {
                            assert(old_cur == join_words(
                                words_of(lines_of(text@)[tail_line]).subrange(
                                    a,
                                    words_of(lines_of(text@)[tail_line]).len() as int,
                                ),
                            ) + seq!['\n'] + join_lines(
                                lines_of(text@).subrange(tail_line + 1, li as int),
                            ));
                            assert(word_tail_lines_chunk(old_cur, text@));
                        } else {
                            assert(tail + Seq::<char>::empty() =~= tail);
                            assert(old_cur == join_words(
                                words_of(lines_of(text@)[tail_line]).subrange(
                                    a,
                                    words_of(lines_of(text@)[tail_line]).len() as int,
                                ),
                            ));
                            assert(words_run_chunk(old_cur, text@));
                        }
                    }
                    mode = 0;
                }
            }
            if llen > budget {
                let ghost pre_chunks = chunks@;
                pack_words(&mut chunks, &mut cur, line.as_str(), budget);
                proof {
                    assert forall|i: int|
                        0 <= i < chunks@.len() implies chunk_of_text(
                        #[trigger] chunks@[i]@,
                        text@,
                    ) by {
                        if i < pre_chunks.len() {
                            assert(chunks@[i] == pre_chunks[i]);
                            assert(chunk_of_text(pre_chunks[i]@, text@));
                        } else {
                            assert(line_piece_chunk(chunks@[i]@, line@));
                            if words_run_of_line(chunks@[i]@, line@) {
                                let (a, b) = choose|a: int, b: int|
                                    0 <= a < b <= words_of(line@).len() && chunks@[i]@
                                        == join_words(
                                        #[trigger] words_of(line@).subrange(a, b),
                                    );
                                assert(chunks@[i]@ == join_words(
                                    words_of(lines_of(text@)[li as int]).subrange(a, b),
                                ));
                                assert(words_run_chunk(chunks@[i]@, text@));
                            } else {
                                let (wi, p, q) = choose|wi: int, p: int, q: int|
                                    0 <= wi < words_of(line@).len() && 0 <= p < q <= words_of(
                                        line@,
                                    )[wi].len() && chunks@[i]@ == #[trigger] words_of(
                                        line@,
                                    )[wi].subrange(p, q);
                                assert(chunks@[i]@ == words_of(
                                    lines_of(text@)[li as int],
                                )[wi].subrange(p, q));
                                assert(word_slice_chunk(chunks@[i]@, text@));
                            }
                        }
                    }
                    if cur@.len() > 0 {
                        mode = 2;
                        tail_line = li as int;
                        tail = cur@;
                        assert(cur@ == tail + Seq::<char>::empty());
                    } else {
                        mode = 0;
                    }
                }
            } else {
                let ghost before = visible_concat(views(chunks@));
                cur = line.clone();
                proof {
                    assert(before + Seq::<char>::empty() =~= before);
                    if cur@.len() > 0 {
                        mode = 1;
                        cur_start = li as int;
                        assert(lv.subrange(li as int, li + 1) =~= seq![line@]);
                        assert(join_lines(seq![line@]) == line@);
                    } else {
                        mode = 0;
                    }
                }
            }
        } else {
            let ghost cur_before = cur@;
            if clen > 0 {
                push_char(&mut cur, '\n');
                proof {
                    lemma_visible_push(cur_before, '\n');
                }
            }
            let ghost cur_mid = cur@;
            cur.append(line.as_str());
            proof {
                lemma_visible_add(cur_mid, line@);
                assert(visible(cur_mid) == visible(cur_before));
                assert((visible_concat(views(chunks@)) + visible(cur_before)) + visible(line@)
                    =~= visible_concat(views(chunks@)) + (visible(cur_before) + visible(line@)));
                if clen == 0 {
                    assert(cur@ =~= line@);
                    if cur@.len() > 0 {
                        mode = 1;
                        cur_start = li as int;
                        assert(lv.subrange(li as int, li + 1) =~= seq![line@]);
                        assert(join_lines(seq![line@]) == line@);
                    } else {
                        mode = 0;
                    }
                } else if mode == 1 {
                    lemma_join_lines_push(lv.subrange(cur_start, li as int), line@);
                    assert(lv.subrange(cur_start, li + 1) =~= lv.subrange(
                        cur_start,
                        li as int,
                    ).push(line@));
                    assert(cur@ =~= (cur_before + seq!['\n']) + line@);
                    assert((cur_before + seq!['\n']) + line@ =~= cur_before + seq!['\n']
                        + line@);
                } else {
                    if li > tail_line + 1 {
                        lemma_join_lines_push(lv.subrange(tail_line + 1, li as int), line@);
                        assert(lv.subrange(tail_line + 1, li + 1) =~= lv.subrange(
                            tail_line + 1,
                            li as int,
                        ).push(line@));
                        assert(cur@ =~= (cur_before + seq!['\n']) + line@);
                        assert(cur@ =~= tail + seq!['\n'] + (join_lines(
                            lv.subrange(tail_line + 1, li as int),
                        ) + seq!['\n'] + line@));
                    } else {
                        assert(cur_before =~= tail + Seq::<char>::empty());
                        assert(cur_before =~= tail);
                        assert(lv.subrange(tail_line + 1, li + 1) =~= seq![line@]);
                        assert(join_lines(seq![line@]) == line@);
                        assert(cur@ =~= (tail + seq!['\n']) + line@);
                        assert(cur@ =~= tail + (seq!['\n'] + line@));
                    }
                }
            }
        }
        li = li + 1;
    }
    proof {
        assert(views(lines@).take(lines@.len() as int) =~= views(lines@));
    }
    if cur.unicode_len() > 0 {
        let ghost old_chunks = chunks@;
        let ghost old_cur = cur@;
        chunks.push(cur);
        proof {
            assert(views(chunks@) =~= views(old_chunks).push(old_cur));
            lemma_visible_concat_push(views(old_chunks), old_cur);
            let ghost nl = lines@.len() as int;
            if mode == 1 {
                assert(old_cur == join_lines(lines_of(text@).subrange(cur_start, nl)));
                assert(lines_run_chunk(old_cur, text@));
            } else {
                assert(mode == 2);
                let a = choose|a: int|
                    0 <= a < words_of(lv[tail_line]).len() && tail == join_words(
                        #[trigger] words_of(lv[tail_line]).subrange(
                            a,
                            words_of(lv[tail_line]).len() as int,
                        ),
                    );
                if nl > tail_line + 1 {
                    assert(old_cur == join_words(
                        words_of(lines_of(text@)[tail_line]).subrange(
                            a,
                            words_of(lines_of(text@)[tail_line]).len() as int,
                        ),
                    ) + seq!['\n'] + join_lines(lines_of(text@).subrange(tail_line + 1, nl)));
                    assert(word_tail_lines_chunk(old_cur, text@));
                } else {
                    assert(tail + Seq::<char>::empty() =~= tail);
                    assert(old_cur == join_words(
                        words_of(lines_of(text@)[tail_line]).subrange(
                            a,
                            words_of(lines_of(text@)[tail_line]).len() as int,
                        ),
                    ));
                    assert(words_run_chunk(old_cur, text@));
                }
            }
        }
    } else {
        proof {
            assert(visible(cur@) == Seq::<char>::empty());
            assert(visible_concat(views(chunks@)) + Seq::<char>::empty() =~= visible_concat(
                views(chunks@),
            ));
        }
    }
    chunks
}

/// The marker appended to each chunk of a multi-chunk delivery, already
/// escaped for MarkdownV2.
pub open spec fn part_marker(index: nat, total: nat) -> Seq<char> {
    "\n\n*\\(Part "@ + decimal_digits(index) + " of "@ + decimal_digits(total) + "\\)*"@
}

/// Appends the "(Part i of N)" marker to one chunk.
pub fn chunk_with_marker(chunk: &str, index: u64, total: u64) -> (r: String)
    ensures
        r@ == chunk@ + part_marker(index as nat, total as nat),
{
    let mut r = String::from_str(chunk);
    r.append("\n\n*\\(Part ");
    let ix = u64_to_string(index);
    r.append(ix.as_str());
    r.append(" of ");
    let tot = u64_to_string(total);
    r.append(tot.as_str());
    r.append("\\)*");
    r
}

/// The delivery texts for a list of chunks: a lone chunk is sent as it is,
/// while each chunk of a longer list carries its one-based part marker.
pub fn render_chunks(chunks: &Vec<String>) -> (msgs: Vec<String>)
    ensures
        msgs@.len() == chunks@.len(),
        chunks@.len() <= 1 ==> forall|i: int|
            0 <= i < msgs@.len() ==> #[trigger] msgs@[i]@ == chunks@[i]@,
        chunks@.len() > 1 ==> forall|i: int|
            0 <= i < msgs@.len() ==> #[trigger] msgs@[i]@ == chunks@[i]@ + part_marker(
                (i + 1) as nat,
                chunks@.len() as nat,
            ),
{
    let total = chunks.len();
    let mut msgs: Vec<String> = Vec::new();
    let mut i: usize = 0;
    while i < total
        invariant
            0 <= i <= total,
            total == chunks@.len(),
            msgs@.len() == i,
            total <= 1 ==> forall|k: int|
                0 <= k < i ==> #[trigger] msgs@[k]@ == chunks@[k]@,
            total > 1 ==> forall|k: int|
                0 <= k < i ==> #[trigger] msgs@[k]@ == chunks@[k]@ + part_marker(
                    (k + 1) as nat,
                    total as nat,
                ),
        decreases total - i,
    {
        if total > 1 {
            let msg = chunk_with_marker(chunks[i].as_str(), (i as u64) + 1, total as u64);
            msgs.push(msg);
        } else {
            msgs.push(chunks[i].clone());
        }
        i = i + 1;
    }
    msgs
}

/// Whether a character must be escaped for MarkdownV2 delivery.
pub open spec fn is_markdown_special(c: char) -> bool {
    c == '_' || c == '*' || c == '[' || c == ']' || c == '(' || c == ')' || c == '~' || c == '`'
        || c == '>' || c == '#' || c == '+' || c == '-' || c == '=' || c == '|' || c == '{' || c
        == '}' || c == '.' || c == '!'
}

fn markdown_special(c: char) -> (r: bool)
    ensures
        r == is_markdown_special(c),
{
    c == '_' || c == '*' || c == '[' || c == ']' || c == '(' || c == ')' || c == '~' || c == '`'
        || c == '>' || c == '#' || c == '+' || c == '-' || c == '=' || c == '|' || c == '{' || c
        == '}' || c == '.' || c == '!'
}

/// The text with every MarkdownV2 special character preceded by a
/// backslash, all other characters unchanged.
pub open spec fn escape_md(s: Seq<char>) -> Seq<char>
    decreases s.len(),
{
    if s.len() == 0 {
        Seq::empty()
    } else {
        escape_md(s.drop_last()) + if is_markdown_special(s.last()) {
            seq!['\\', s.last()]
        } else {
            seq![s.last()]
        }
    }
}

/// Escapes a transcript for MarkdownV2 delivery, exactly as `escape_md`
/// describes.
pub fn escape_markdown_v2(text: &str) -> (r: String)
    ensures
        r@ == escape_md(text@),
{
    let len = text.unicode_len();
    let mut r = String::new();
    let mut i: usize = 0;
    while i < len
        invariant
            0 <= i <= len,
            len == text@.len(),
            r@ == escape_md(text@.take(i as int)),
        decreases len - i,
    {
        let c = text.get_char(i);
        let ghost r_before = r@;
        if markdown_special(c) {
            push_char(&mut r, '\\');
            push_char(&mut r, c);
        } else {
            push_char(&mut r, c);
        }
        proof {
            assert(text@.take(i + 1).drop_last() =~= text@.take(i as int));
            assert(text@.take(i + 1).last() == text@[i as int]);
            if is_markdown_special(c) {
                assert(r@ =~= r_before + seq!['\\', c]);
            } else {
                assert(r@ =~= r_before + seq![c]);
            }
        }
        i = i + 1;
    }
    proof {
        assert(text@.take(len as int) =~= text@);
    }
    r
}

} // verus!
