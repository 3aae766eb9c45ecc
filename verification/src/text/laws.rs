//! What holds of the text primitives.

use super::{
    is_white, join, lines, replace_first, split, starts_with, strip_cr, trim_end, trim_start,
    trimmed, words,
};
use crate::text;
use vstd::prelude::*;

verus! {

/// Whether a text is whitespace alone.
pub open spec fn is_blank(s: Seq<char>) -> bool {
    forall|i: int| 0 <= i < s.len() ==> is_white(#[trigger] s[i])
}

proof fn lemma_trim_start(s: Seq<char>, n: int)
    requires
        0 <= n <= s.len(),
        is_blank(s.take(n)),
        n < s.len() ==> !is_white(s[n]),
    ensures
        trim_start(s) == s.skip(n),
    decreases s.len(),
{
    if n > 0 {
        assert(s.take(n)[0] == s[0]);
        let rest = s.skip(1);
        assert forall|i: int| 0 <= i < rest.take(n - 1).len() implies is_white(
            #[trigger] rest.take(n - 1)[i],
        ) by {
            assert(rest.take(n - 1)[i] == s.take(n)[i + 1]);
        }
        lemma_trim_start(rest, n - 1);
        assert(rest.skip(n - 1) =~= s.skip(n));
    } else {
        assert(s.skip(0) =~= s);
    }
}

proof fn lemma_trim_end(s: Seq<char>, n: int)
    requires
        0 <= n <= s.len(),
        is_blank(s.skip(n)),
        n > 0 ==> !is_white(s[n - 1]),
    ensures
        trim_end(s) == s.take(n),
    decreases s.len(),
{
    if n < s.len() {
        assert(s.skip(n)[s.len() - n - 1] == s.last());
        let rest = s.drop_last();
        assert forall|i: int| 0 <= i < rest.skip(n).len() implies is_white(
            #[trigger] rest.skip(n)[i],
        ) by {
            assert(rest.skip(n)[i] == s.skip(n)[i]);
        }
        lemma_trim_end(rest, n);
        assert(rest.take(n) =~= s.take(n));
    } else {
        assert(s.take(n) =~= s);
    }
}

/// Trimming takes the whitespace away at the two ends, all of it and nothing
/// else.
pub proof fn law_trimming_takes_the_whitespace_around(
    before: Seq<char>,
    s: Seq<char>,
    after: Seq<char>,
)
    requires
        is_blank(before),
        is_blank(after),
        s.len() > 0 ==> !is_white(s[0]) && !is_white(s.last()),
        s.len() == 0 ==> after.len() == 0,
    ensures
        trimmed(before + s + after) == s,
{
    let all = before + s + after;
    assert(all.take(before.len() as int) =~= before);
    lemma_trim_start(all, before.len() as int);
    let rest = all.skip(before.len() as int);
    assert(rest =~= s + after);
    assert(rest.skip(s.len() as int) =~= after);
    lemma_trim_end(rest, s.len() as int);
    assert(rest.take(s.len() as int) =~= s);
}

/// A text without a line feed is one line; a line feed, or a carriage return
/// and a line feed, ends a line, and the lines of what follows come next.
pub proof fn law_lines_end_at_line_feeds(line: Seq<char>, rest: Seq<char>)
    requires
        !line.contains('\n'),
    ensures
        line.len() > 0 ==> lines(line) == seq![line],
        lines(Seq::empty()).len() == 0,
        lines(line + seq!['\n'] + rest) == seq![strip_cr(line)] + lines(rest),
        line.len() > 0 && line.last() != '\r' ==> strip_cr(line) == line,
        strip_cr(line + seq!['\r']) == line,
{
    let s = line + seq!['\n'] + rest;
    assert(s[line.len() as int] == '\n');
    assert forall|i: int| 0 <= i < line.len() implies s[i] != '\n' by {
        assert(line.contains(line[i]));
    }
    text::lemma_find_char(s, '\n', line.len() as int);
    assert(s.take(line.len() as int) =~= line);
    assert(s.skip((line.len() + 1) as int) =~= rest);
    text::lemma_found_char(line, '\n');
    if let Some(k) = text::find(line, seq!['\n']) {
        assert(line.contains(line[k as int]));
    }
    assert((line + seq!['\r']).drop_last() =~= line);
}

/// What is split at a character is parts without it, which make up the text
/// again when they are joined with it.
pub proof fn law_split_parts_make_up_the_text(s: Seq<char>, c: char)
    ensures
        join(split(s, c), seq![c]) == s,
        split(s, c).len() > 0,
        forall|i: int| 0 <= i < split(s, c).len() ==> !(#[trigger] split(s, c)[i]).contains(c),
    decreases s.len(),
{
    let parts = split(s, c);
    text::lemma_found_char(s, c);
    match text::find(s, seq![c]) {
        Some(k) => {
            let first = s.take(k as int);
            let rest = s.skip((k + 1) as int);
            law_split_parts_make_up_the_text(rest, c);
            lemma_join_first(first, split(rest, c), seq![c]);
            assert(first + seq![c] + rest =~= s);
            assert forall|i: int| 0 <= i < parts.len() implies !(#[trigger] parts[i]).contains(
                c,
            ) by {
                if i > 0 {
                    assert(parts[i] == split(rest, c)[i - 1]);
                } else if parts[0].contains(c) {
                    let j = choose|j: int| 0 <= j < first.len() && first[j] == c;
                    assert(s[j] == c);
                }
            }
        },
        None => {},
    }
}

proof fn lemma_join_first(first: Seq<char>, rest: Seq<Seq<char>>, sep: Seq<char>)
    requires
        rest.len() > 0,
    ensures
        join(seq![first] + rest, sep) == first + sep + join(rest, sep),
    decreases rest.len(),
{
    let all = seq![first] + rest;
    if rest.len() == 1 {
        assert(all.drop_last() =~= seq![first]);
        assert(join(all.drop_last(), sep) == first);
        assert(all.last() == rest[0]);
    } else {
        assert(all.drop_last() =~= seq![first] + rest.drop_last());
        assert(all.last() == rest.last());
        lemma_join_first(first, rest.drop_last(), sep);
        assert(first + sep + join(rest.drop_last(), sep) + sep + rest.last() =~= first + sep + (
        join(rest.drop_last(), sep) + sep + rest.last()));
    }
}

/// Parts are joined in order, with the separator between each two and nowhere
/// else.
pub proof fn law_parts_are_joined_in_order(
    first: Seq<char>,
    rest: Seq<Seq<char>>,
    sep: Seq<char>,
)
    ensures
        join(seq![first], sep) == first,
        join(Seq::empty(), sep).len() == 0,
        rest.len() > 0 ==> join(seq![first] + rest, sep) == first + sep + join(rest, sep),
{
    if rest.len() > 0 {
        lemma_join_first(first, rest, sep);
    }
}

/// Whether a text is not empty and holds no whitespace.
pub open spec fn is_word(s: Seq<char>) -> bool {
    s.len() > 0 && forall|i: int| 0 <= i < s.len() ==> !is_white(#[trigger] s[i])
}

proof fn lemma_blank_end(s: Seq<char>, gap: Seq<char>)
    requires
        is_blank(gap),
    ensures
        words(s + gap) == words(s),
    decreases gap.len(),
{
    if gap.len() == 0 {
        assert(s + gap =~= s);
    } else {
        let all = s + gap;
        assert(all.last() == gap[gap.len() - 1]);
        assert(all.drop_last() =~= s + gap.drop_last());
        assert forall|i: int| 0 <= i < gap.drop_last().len() implies is_white(
            #[trigger] gap.drop_last()[i],
        ) by {
            assert(gap.drop_last()[i] == gap[i]);
        }
        lemma_blank_end(s, gap.drop_last());
    }
}

/// The words of a text are the runs of it without whitespace, in order: a word
/// behind some whitespace is one word more, and whitespace at the end adds none.
pub proof fn law_words_are_told_apart_by_whitespace(
    s: Seq<char>,
    gap: Seq<char>,
    word: Seq<char>,
    end: Seq<char>,
)
    requires
        is_blank(gap),
        s.len() > 0 ==> gap.len() > 0 || is_white(s.last()),
        is_word(word),
        is_blank(end),
    ensures
        words(s + gap + word + end) == words(s).push(word),
    decreases word.len(),
{
    let before = s + gap;
    lemma_blank_end(s, gap);
    lemma_blank_end(before + word, end);
    let all = before + word;
    assert(s + gap + word + end =~= all + end);
    assert(all.last() == word[word.len() - 1]);
    if word.len() == 1 {
        assert(all.drop_last() =~= before);
        assert(word =~= seq![all.last()]);
        if before.len() > 0 {
            assert(all[all.len() - 2] == before.last());
            if gap.len() > 0 {
                assert(before.last() == gap[gap.len() - 1]);
            }
        }
    } else {
        let shorter = word.drop_last();
        assert forall|i: int| 0 <= i < shorter.len() implies !is_white(#[trigger] shorter[i]) by {
            assert(shorter[i] == word[i]);
        }
        let none = Seq::<char>::empty();
        law_words_are_told_apart_by_whitespace(s, gap, shorter, none);
        assert(all.drop_last() =~= before + shorter);
        assert(s + gap + shorter + none =~= before + shorter);
        assert(all[all.len() - 2] == word[word.len() - 2]);
        let found = words(s).push(shorter);
        assert(found.drop_last() =~= words(s));
        assert(shorter.push(word.last()) =~= word);
    }
}

/// A text is replaced where it occurs first, and all else stays.
pub proof fn law_the_first_occurrence_is_replaced(
    before: Seq<char>,
    p: Seq<char>,
    after: Seq<char>,
    r: Seq<char>,
)
    requires
        forall|j: int|
            0 <= j < before.len() ==> !starts_with(
                #[trigger] (before + p + after).skip(j),
                p,
            ),
    ensures
        replace_first(before + p + after, p, r) == before + r + after,
{
    let s = before + p + after;
    let k = before.len() as int;
    assert(s.skip(k).take(p.len() as int) =~= p);
    text::lemma_find_not_behind(s, p, k);
    lemma_found_there(s, p);
    let found = text::find(s, p)->0 as int;
    assert(starts_with(s.skip(found), p));
    assert(s.take(k) =~= before);
    assert(s.skip(k + p.len()) =~= after);
}

/// What is found stands there.
pub proof fn lemma_found_there(s: Seq<char>, p: Seq<char>)
    ensures
        text::find(s, p) matches Some(k) ==> k <= s.len() && starts_with(s.skip(k as int), p),
    decreases s.len(),
{
    assert(s.skip(0) =~= s);
    if !starts_with(s, p) && s.len() > 0 {
        lemma_found_there(s.skip(1), p);
        if let Some(k) = text::find(s.skip(1), p) {
            assert(s.skip(1).skip(k as int) =~= s.skip((k + 1) as int));
        }
    }
}

} // verus!
