//! What holds of the operations on text, whatever the text.

use vstd::prelude::*;

verus! {

/// Whether `pat` stands in `s` at the position `i`.
pub open spec fn occurs_at(s: Seq<char>, pat: Seq<char>, i: int) -> bool {
    0 <= i && i + pat.len() <= s.len() && s.subrange(i, i + pat.len()) == pat
}

/// The parts one after the other, with `glue` between every two of them.
pub open spec fn glued(parts: Seq<Seq<char>>, glue: Seq<char>) -> Seq<char>
    decreases parts.len(),
{
    if parts.len() == 0 {
        seq![]
    } else if parts.len() == 1 {
        parts[0]
    } else {
        parts[0] + glue + glued(parts.skip(1), glue)
    }
}

/// The number that a row of digits writes.
pub open spec fn value(text: Seq<char>) -> int
    decreases text.len(),
{
    if text.len() == 0 {
        0
    } else {
        value(text.drop_last()) * 10 + (text.last() as int - '0' as int)
    }
}

/// The position that `find` gives is the first one where the pattern stands.
pub proof fn the_first_occurrence_is_found(s: Seq<char>, pat: Seq<char>, i: int)
    ensures
        crate::text::find(s, pat) == Some(i) <==> occurs_at(s, pat, i) && forall|j: int|
            0 <= j < i ==> !#[trigger] occurs_at(s, pat, j),
        crate::text::find(s, pat) is None <==> forall|j: int| !#[trigger] occurs_at(s, pat, j),
{
    crate::text::lemma_find(s, pat);
    if let Some(k) = crate::text::find(s, pat) {
        assert(occurs_at(s, pat, k));
        assert forall|j: int| 0 <= j < k implies !#[trigger] occurs_at(s, pat, j) by {
            assert(s.subrange(j, j + pat.len()) != pat);
        }
        if occurs_at(s, pat, i) && forall|j: int| 0 <= j < i ==> !#[trigger] occurs_at(s, pat, j) {
            assert(i == k);
        }
    } else {
        assert forall|j: int| !#[trigger] occurs_at(s, pat, j) by {
            if 0 <= j && j + pat.len() <= s.len() {
                assert(s.subrange(j, j + pat.len()) != pat);
            }
        }
    }
}

/// Splitting a text and gluing the parts together with the separator gives the text back, and the
/// parts are those between the separators as they are met from the left: behind a part the
/// separator stands for the first time, and in the last part it does not stand at all.
pub proof fn splitting_cuts_at_every_separator(s: Seq<char>, pat: Seq<char>)
    requires
        pat.len() > 0,
    ensures
        ({
            let parts = crate::text::split(s, pat);
            &&& parts.len() > 0
            &&& glued(parts, pat) == s
            &&& forall|i: int, j: int|
                0 <= i < parts.len() - 1 && 0 <= j < parts[i].len() ==> !#[trigger] occurs_at(
                    parts[i] + pat,
                    pat,
                    j,
                )
            &&& forall|j: int| !#[trigger] occurs_at(parts.last(), pat, j)
        }),
    decreases s.len(),
{
    let parts = crate::text::split(s, pat);
    crate::text::lemma_find(s, pat);
    if let Some(k) = crate::text::find(s, pat) {
        let head = s.take(k);
        let rest = s.skip(k + pat.len());
        let tail = crate::text::split(rest, pat);
        splitting_cuts_at_every_separator(rest, pat);
        assert(parts == seq![head] + tail);
        assert(parts.skip(1) =~= tail);
        assert(parts.last() == tail.last());
        assert(s =~= head + pat + rest);
        assert forall|i: int, j: int|
            0 <= i < parts.len() - 1 && 0 <= j < parts[i].len() implies !#[trigger] occurs_at(
            parts[i] + pat,
            pat,
            j,
        ) by {
            if i == 0 {
                assert((head + pat).subrange(j, j + pat.len()) =~= s.subrange(j, j + pat.len()));
            } else {
                assert(parts[i] == tail[i - 1]);
                assert(!occurs_at(tail[i - 1] + pat, pat, j));
            }
        }
    } else {
        the_first_occurrence_is_found(s, pat, 0);
    }
}

/// Replacing is splitting at the pattern and gluing the parts together with what takes its place.
pub proof fn replacing_glues_the_parts(s: Seq<char>, pat: Seq<char>, to: Seq<char>)
    requires
        pat.len() > 0,
    ensures
        crate::text::replace(s, pat, to) == glued(crate::text::split(s, pat), to),
    decreases s.len(),
{
    crate::text::lemma_find(s, pat);
    if let Some(k) = crate::text::find(s, pat) {
        let rest = s.skip(k + pat.len());
        replacing_glues_the_parts(rest, pat, to);
        splitting_cuts_at_every_separator(rest, pat);
        assert(crate::text::split(s, pat).skip(1) =~= crate::text::split(rest, pat));
    }
}

/// White space are the characters that Unicode calls so, and no others.
pub proof fn white_space_is_unicodes(c: char)
    ensures
        crate::text::is_white(c) <==> {
            ||| c == '\t'
            ||| c == '\n'
            ||| c == '\u{b}'
            ||| c == '\u{c}'
            ||| c == '\r'
            ||| c == ' '
            ||| c == '\u{85}'
            ||| c == '\u{a0}'
            ||| c == '\u{1680}'
            ||| '\u{2000}' <= c <= '\u{200a}'
            ||| c == '\u{2028}'
            ||| c == '\u{2029}'
            ||| c == '\u{202f}'
            ||| c == '\u{205f}'
            ||| c == '\u{3000}'
        },
{
}

proof fn lemma_trim_start(s: Seq<char>) -> (start: int)
    ensures
        0 <= start <= s.len(),
        crate::text::trim_start(s) == s.skip(start),
        forall|i: int| 0 <= i < start ==> crate::text::is_white(#[trigger] s[i]),
        start < s.len() ==> !crate::text::is_white(s[start]),
    decreases s.len(),
{
    if s.len() > 0 && crate::text::is_white(s[0]) {
        let rest = s.skip(1);
        let later = lemma_trim_start(rest);
        assert(rest.skip(later) =~= s.skip(later + 1));
        assert forall|i: int| 0 <= i < later + 1 implies crate::text::is_white(#[trigger] s[i]) by {
            if i > 0 {
                assert(rest[i - 1] == s[i]);
            }
        }
        later + 1
    } else {
        assert(s.skip(0) =~= s);
        0
    }
}

proof fn lemma_trim_end(s: Seq<char>) -> (end: int)
    ensures
        0 <= end <= s.len(),
        crate::text::trim_end(s) == s.take(end),
        forall|i: int| end <= i < s.len() ==> crate::text::is_white(#[trigger] s[i]),
        end > 0 ==> !crate::text::is_white(s[end - 1]),
    decreases s.len(),
{
    if s.len() > 0 && crate::text::is_white(s.last()) {
        let init = s.drop_last();
        let end = lemma_trim_end(init);
        assert(init.take(end) =~= s.take(end));
        assert forall|i: int| end <= i < s.len() implies crate::text::is_white(#[trigger] s[i]) by {
            if i < init.len() {
                assert(init[i] == s[i]);
            }
        }
        end
    } else {
        assert(s.take(s.len() as int) =~= s);
        s.len() as int
    }
}

/// Trimming takes white space away at both ends of a text, all of it, and nothing else.
pub proof fn trimming_takes_white_space_away(s: Seq<char>) -> (range: (int, int))
    ensures
        0 <= range.0 <= range.1 <= s.len(),
        crate::text::trim(s) == s.subrange(range.0, range.1),
        forall|i: int|
            0 <= i < range.0 || range.1 <= i < s.len() ==> crate::text::is_white(#[trigger] s[i]),
        range.0 < range.1 ==> !crate::text::is_white(s[range.0]) && !crate::text::is_white(
            s[range.1 - 1],
        ),
{
    let start = lemma_trim_start(s);
    let rest = s.skip(start);
    let end = lemma_trim_end(rest);
    assert(rest.take(end) =~= s.subrange(start, start + end));
    assert forall|i: int| start + end <= i < s.len() implies crate::text::is_white(
        #[trigger] s[i],
    ) by {
        assert(rest[i - start] == s[i]);
    }
    if end > 0 {
        assert(rest[end - 1] == s[start + end - 1]);
    }
    (start, start + end)
}

/// A prefix is stripped exactly where it stands, and what is left is what was behind it.
pub proof fn stripping_undoes_prefixing(s: Seq<char>, prefix: Seq<char>, rest: Seq<char>)
    ensures
        crate::text::strip_prefix(s, prefix) == Some(rest) <==> s == prefix + rest,
        crate::text::strip_prefix(s, prefix) is None <==> !(prefix.len() <= s.len() && s.take(
            prefix.len() as int,
        ) == prefix),
{
    let n = prefix.len() as int;
    if crate::text::strip_prefix(s, prefix) is Some {
        assert(s =~= prefix + s.skip(n));
        assert(s.take(n) =~= prefix);
    }
    if s == prefix + rest {
        assert(s.take(n) =~= prefix);
        assert(s.skip(n) =~= rest);
    }
    if prefix.len() <= s.len() && s.take(n) == prefix {
        assert(prefix.is_prefix_of(s));
    }
}

/// The decimal text of a number that is not negative is a row of digits that writes the number,
/// without a leading zero; that of a negative number is a minus sign and the text of its
/// counterpart.
pub proof fn decimal_texts_write_their_numbers(n: int)
    ensures
        n >= 0 ==> {
            let text = crate::text::decimal(n);
            &&& text.len() > 0
            &&& forall|i: int| 0 <= i < text.len() ==> '0' <= #[trigger] text[i] <= '9'
            &&& text.len() > 1 ==> text[0] != '0'
            &&& value(text) == n
        },
        n < 0 ==> crate::text::decimal(n) == seq!['-'] + crate::text::decimal(-n),
    decreases n,
{
    if n >= 10 {
        let shorter = crate::text::decimal(n / 10);
        let text = crate::text::decimal(n);
        decimal_texts_write_their_numbers(n / 10);
        assert(text.drop_last() =~= shorter);
        assert(text[0] == shorter[0]);
        if shorter.len() == 1 && shorter[0] == '0' {
            assert(shorter.drop_last().len() == 0);
            assert(value(shorter.drop_last()) == 0);
            assert(value(shorter) == 0);
        }
    } else if n >= 0 {
        let text = crate::text::decimal(n);
        assert(value(text.drop_last()) == 0);
    }
}

/// The texts of a row of strings, and of a string that may be missing, are those of the strings.
pub proof fn texts_are_those_of_the_strings(strings: Seq<String>, string: String)
    ensures
        crate::text::texts(strings).len() == strings.len(),
        forall|i: int|
            0 <= i < strings.len() ==> #[trigger] crate::text::texts(strings)[i] == strings[i]@,
        crate::text::opt_text(Some(string)) == Some(string@),
        crate::text::opt_text(None) is None,
{
}

} // verus!
