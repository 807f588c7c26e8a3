//! Text operations on `str`, stated over sequences of characters.

use vstd::prelude::*;
use vstd::string::*;

verus! {

/// The views of a sequence of strings.
pub open spec fn texts(strings: Seq<String>) -> Seq<Seq<char>> {
    strings.map_values(|s: String| s@)
}

/// The view of an optional string.
pub open spec fn opt_text(s: Option<String>) -> Option<Seq<char>> {
    match s {
        Some(s) => Some(s@),
        None => None,
    }
}

/// The position of the first occurrence of `pat` in `s`.
pub open spec fn find(s: Seq<char>, pat: Seq<char>) -> Option<int>
    decreases s.len(),
{
    if s.len() < pat.len() {
        None
    } else if s.take(pat.len() as int) == pat {
        Some(0)
    } else if s.len() == 0 {
        None
    } else {
        match find(s.skip(1), pat) {
            Some(i) => Some(i + 1),
            None => None,
        }
    }
}

/// `find` gives an occurrence, no earlier position holds one, and it gives nothing only
/// where no position holds one.
pub proof fn lemma_find(s: Seq<char>, pat: Seq<char>)
    ensures
        find(s, pat) matches Some(i) ==> {
            &&& 0 <= i
            &&& i + pat.len() <= s.len()
            &&& s.subrange(i, i + pat.len()) == pat
            &&& forall|j: int| 0 <= j < i ==> #[trigger] s.subrange(j, j + pat.len()) != pat
        },
        find(s, pat) is None ==> forall|j: int|
            0 <= j && j + pat.len() <= s.len() ==> #[trigger] s.subrange(j, j + pat.len()) != pat,
    decreases s.len(),
{
    let n = pat.len() as int;
    if s.len() < n {
    } else if s.take(n) == pat {
        assert(s.subrange(0, n) =~= s.take(n));
    } else if s.len() == 0 {
        assert(s.take(n) =~= pat);
    } else {
        let rest = s.skip(1);
        lemma_find(rest, pat);
        assert(s.subrange(0, n) =~= s.take(n));
        assert forall|j: int| 1 <= j && j + n <= s.len() implies #[trigger] s.subrange(j, j + n)
            == rest.subrange(j - 1, j - 1 + n) by {
            assert(s.subrange(j, j + n) =~= rest.subrange(j - 1, j - 1 + n));
        }
        if let Some(i) = find(rest, pat) {
            assert(s.subrange(i + 1, i + 1 + n) == rest.subrange(i, i + n));
        }
    }
}

/// The parts of `s` between the occurrences of `pat`, read from the left.
pub open spec fn split(s: Seq<char>, pat: Seq<char>) -> Seq<Seq<char>>
    decreases s.len(),
{
    match find(s, pat) {
        Some(i) => if 0 <= i && 0 < pat.len() && i + pat.len() <= s.len() {
            seq![s.take(i)] + split(s.skip(i + pat.len()), pat)
        } else {
            seq![s]
        },
        None => seq![s],
    }
}

/// `s` with every occurrence of `pat`, read from the left, replaced by `to`.
pub open spec fn replace(s: Seq<char>, pat: Seq<char>, to: Seq<char>) -> Seq<char>
    decreases s.len(),
{
    match find(s, pat) {
        Some(i) => if 0 <= i && 0 < pat.len() && i + pat.len() <= s.len() {
            s.take(i) + to + replace(s.skip(i + pat.len()), pat, to)
        } else {
            s
        },
        None => s,
    }
}

/// The characters with Unicode's `White_Space` property.
pub open spec fn is_white(c: char) -> bool {
    let n = c as u32;
    ||| 0x9 <= n <= 0xd
    ||| n == 0x20
    ||| n == 0x85
    ||| n == 0xa0
    ||| n == 0x1680
    ||| 0x2000 <= n <= 0x200a
    ||| n == 0x2028
    ||| n == 0x2029
    ||| n == 0x202f
    ||| n == 0x205f
    ||| n == 0x3000
}

/// `s` without its leading white space.
pub open spec fn trim_start(s: Seq<char>) -> Seq<char>
    decreases s.len(),
{
    if s.len() > 0 && is_white(s[0]) {
        trim_start(s.skip(1))
    } else {
        s
    }
}

/// `s` without its trailing white space.
pub open spec fn trim_end(s: Seq<char>) -> Seq<char>
    decreases s.len(),
{
    if s.len() > 0 && is_white(s.last()) {
        trim_end(s.drop_last())
    } else {
        s
    }
}

/// `s` without its leading and trailing white space.
pub open spec fn trim(s: Seq<char>) -> Seq<char> {
    trim_end(trim_start(s))
}

/// What follows `prefix` in `s`, if `s` starts with it.
pub open spec fn strip_prefix(s: Seq<char>, prefix: Seq<char>) -> Option<Seq<char>> {
    if prefix.is_prefix_of(s) {
        Some(s.skip(prefix.len() as int))
    } else {
        None
    }
}

/// The decimal digits of `n`, without leading zeros.
pub open spec fn digits(n: nat) -> Seq<char>
    decreases n,
{
    if n < 10 {
        seq![(48 + n) as char]
    } else {
        digits(n / 10).push((48 + n % 10) as char)
    }
}

/// `n` in decimal, with a minus sign where it is negative.
pub open spec fn decimal(n: int) -> Seq<char> {
    if n < 0 {
        seq!['-'] + digits((-n) as nat)
    } else {
        digits(n as nat)
    }
}

proof fn lemma_digits(n: nat)
    ensures
        digits(n).len() > 0,
        forall|i: int| 0 <= i < digits(n).len() ==> '0' <= #[trigger] digits(n)[i] <= '9',
    decreases n,
{
    if n >= 10 {
        lemma_digits(n / 10);
    }
}

proof fn lemma_digits_injective(a: nat, b: nat)
    requires
        digits(a) == digits(b),
    ensures
        a == b,
    decreases a,
{
    lemma_digits(a / 10);
    lemma_digits(b / 10);
    assert(digits(a).last() == (48 + a % 10) as char);
    assert(digits(b).last() == (48 + b % 10) as char);
    assert(digits(a).last() as int == 48 + a % 10);
    assert(digits(b).last() as int == 48 + b % 10);
    if a >= 10 && b >= 10 {
        assert(digits(a).drop_last() =~= digits(a / 10));
        assert(digits(b).drop_last() =~= digits(b / 10));
        lemma_digits_injective(a / 10, b / 10);
    } else if a >= 10 {
        assert(digits(a).len() > 1);
        assert(digits(b).len() == 1);
    } else if b >= 10 {
        assert(digits(b).len() > 1);
        assert(digits(a).len() == 1);
    }
}

/// Different numbers have different decimal texts.
pub proof fn decimal_is_injective(a: int, b: int)
    requires
        decimal(a) == decimal(b),
    ensures
        a == b,
{
    lemma_digits(if a < 0 { (-a) as nat } else { a as nat });
    lemma_digits(if b < 0 { (-b) as nat } else { b as nat });
    assert(a < 0 ==> decimal(a)[0] == '-');
    assert(b < 0 ==> decimal(b)[0] == '-');
    assert(a >= 0 ==> '0' <= digits(a as nat)[0]);
    assert(b >= 0 ==> '0' <= digits(b as nat)[0]);
    if a < 0 {
        assert(decimal(a).skip(1) =~= digits((-a) as nat));
        assert(decimal(b).skip(1) =~= digits((-b) as nat));
        lemma_digits_injective((-a) as nat, (-b) as nat);
    } else {
        lemma_digits_injective(a as nat, b as nat);
    }
}

fn chars_of(s: &str) -> (chars: Vec<char>)
    ensures
        chars@ == s@,
{
    let mut chars: Vec<char> = Vec::new();
    for c in it: s.chars()
        invariant
            chars@.len() == it.index(),
            it.seq() == s@,
            forall|j: int| 0 <= j < chars@.len() ==> chars@[j] == it.seq()[j],
    {
        chars.push(c);
    }
    assert(chars@ =~= s@);
    chars
}

/// The position of the first occurrence of `pat` in `chars` from `start` on.
fn find_from(chars: &Vec<char>, start: usize, pat: &Vec<char>) -> (found: Option<usize>)
    requires
        start <= chars.len(),
    ensures
        match found {
            Some(i) => {
                &&& start <= i
                &&& i + pat.len() <= chars.len()
                &&& find(chars@.skip(start as int), pat@) == Some(i - start)
            },
            None => find(chars@.skip(start as int), pat@) is None,
        },
{
    let ghost rest = chars@.skip(start as int);
    let mut i: usize = start;
    while pat.len() <= chars.len() - i
        invariant
            start <= i <= chars.len(),
            rest == chars@.skip(start as int),
            match find(chars@.skip(i as int), pat@) {
                Some(k) => find(rest, pat@) == Some(k + (i - start)),
                None => find(rest, pat@) is None,
            },
        decreases chars.len() - i,
    {
        let ghost here = chars@.skip(i as int);
        let mut k: usize = 0;
        while k < pat.len() && chars[i + k] == pat[k]
            invariant
                k <= pat.len(),
                i + pat.len() <= chars.len(),
                forall|j: int| 0 <= j < k ==> chars@[i + j] == pat@[j],
            decreases pat.len() - k,
        {
            k = k + 1;
        }
        if k == pat.len() {
            proof {
                assert(here.take(pat@.len() as int) =~= pat@);
            }
            return Some(i);
        }
        proof {
            assert(here.take(pat@.len() as int)[k as int] != pat@[k as int]);
            assert(here.skip(1) =~= chars@.skip(i + 1));
        }
        i = i + 1;
    }
    None
}

/// Splits `s` at the occurrences of `pat`.
pub fn split_str(s: &str, pat: &str) -> (parts: Vec<String>)
    requires
        pat@.len() > 0,
    ensures
        texts(parts@) == split(s@, pat@),
{
    let chars = chars_of(s);
    let pat_chars = chars_of(pat);
    let mut parts: Vec<String> = Vec::new();
    let mut start: usize = 0;
    proof {
        assert(s@.skip(0) =~= s@);
        assert(texts(parts@) + split(s@.skip(0), pat@) =~= split(s@, pat@));
    }
    loop
        invariant
            chars@ == s@,
            pat_chars@ == pat@,
            pat@.len() > 0,
            start <= chars.len(),
            texts(parts@) + split(s@.skip(start as int), pat@) == split(s@, pat@),
        decreases chars.len() - start,
    {
        let ghost rest = s@.skip(start as int);
        let ghost before = parts@;
        match find_from(&chars, start, &pat_chars) {
            Some(i) => {
                let part = s.substring_char(start, i).to_owned();
                parts.push(part);
                start = i + pat_chars.len();
                proof {
                    let k = i - (s@.len() - rest.len());
                    assert(part@ =~= rest.take(k));
                    assert(rest.skip(k + pat@.len()) =~= s@.skip(start as int));
                    assert(texts(parts@) =~= texts(before).push(part@));
                    assert(texts(parts@) + split(s@.skip(start as int), pat@) =~= texts(before)
                        + split(rest, pat@));
                }
            },
            None => {
                let part = s.substring_char(start, chars.len()).to_owned();
                parts.push(part);
                proof {
                    assert(part@ =~= rest);
                    assert(texts(parts@) =~= texts(before) + split(rest, pat@));
                }
                return parts;
            },
        }
    }
}

/// Replaces the occurrences of `pat` in `s` by `to`.
pub fn replace_str(s: &str, pat: &str, to: &str) -> (res: String)
    requires
        pat@.len() > 0,
    ensures
        res@ == replace(s@, pat@, to@),
{
    let chars = chars_of(s);
    let pat_chars = chars_of(pat);
    let mut res = String::new();
    let mut start: usize = 0;
    proof {
        assert(s@.skip(0) =~= s@);
        assert(res@ + replace(s@.skip(0), pat@, to@) =~= replace(s@, pat@, to@));
    }
    loop
        invariant
            chars@ == s@,
            pat_chars@ == pat@,
            pat@.len() > 0,
            start <= chars.len(),
            res@ + replace(s@.skip(start as int), pat@, to@) == replace(s@, pat@, to@),
        decreases chars.len() - start,
    {
        let ghost rest = s@.skip(start as int);
        let ghost before = res@;
        match find_from(&chars, start, &pat_chars) {
            Some(i) => {
                let part = s.substring_char(start, i);
                res.append(part);
                res.append(to);
                start = i + pat_chars.len();
                proof {
                    let k = i - (s@.len() - rest.len());
                    assert(part@ =~= rest.take(k));
                    assert(rest.skip(k + pat@.len()) =~= s@.skip(start as int));
                    assert(res@ + replace(s@.skip(start as int), pat@, to@) =~= before + replace(
                        rest,
                        pat@,
                        to@,
                    ));
                }
            },
            None => {
                let part = s.substring_char(start, chars.len());
                res.append(part);
                proof {
                    assert(part@ =~= rest);
                }
                return res;
            },
        }
    }
}

fn is_white_char(c: char) -> (white: bool)
    ensures
        white == is_white(c),
{
    let n: u32 = c as u32;
    (0x9 <= n && n <= 0xd) || n == 0x20 || n == 0x85 || n == 0xa0 || n == 0x1680 || (0x2000 <= n
        && n <= 0x200a) || n == 0x2028 || n == 0x2029 || n == 0x202f || n == 0x205f || n == 0x3000
}

/// Removes the white space around `s`.
pub fn trim_str(s: &str) -> (res: String)
    ensures
        res@ == trim(s@),
{
    let chars = chars_of(s);
    let mut start: usize = 0;
    proof {
        assert(s@.skip(0) =~= s@);
    }
    while start < chars.len() && is_white_char(chars[start])
        invariant
            chars@ == s@,
            start <= chars.len(),
            trim_start(s@.skip(start as int)) == trim_start(s@),
        decreases chars.len() - start,
    {
        proof {
            assert(s@.skip(start as int).skip(1) =~= s@.skip(start + 1));
        }
        start = start + 1;
    }
    let ghost rest = s@.skip(start as int);
    assert(trim_start(s@) == rest);
    let mut end: usize = chars.len();
    proof {
        assert(s@.subrange(start as int, end as int) =~= rest);
    }
    while start < end && is_white_char(chars[end - 1])
        invariant
            chars@ == s@,
            start <= end <= chars.len(),
            trim_end(s@.subrange(start as int, end as int)) == trim_end(rest),
        decreases end,
    {
        proof {
            assert(s@.subrange(start as int, end as int).drop_last() =~= s@.subrange(
                start as int,
                end - 1,
            ));
        }
        end = end - 1;
    }
    s.substring_char(start, end).to_owned()
}

/// Gives what follows `prefix` in `s`, if `s` starts with it.
pub fn strip_prefix_str(s: &str, prefix: &str) -> (rest: Option<String>)
    ensures
        opt_text(rest) == strip_prefix(s@, prefix@),
{
    let chars = chars_of(s);
    let prefix_chars = chars_of(prefix);
    if prefix_chars.len() > chars.len() {
        return None;
    }
    let mut i: usize = 0;
    while i < prefix_chars.len()
        invariant
            chars@ == s@,
            prefix_chars@ == prefix@,
            i <= prefix_chars.len() <= chars.len(),
            forall|j: int| 0 <= j < i ==> s@[j] == prefix@[j],
        decreases prefix_chars.len() - i,
    {
        if chars[i] != prefix_chars[i] {
            return None;
        }
        i = i + 1;
    }
    assert(prefix@ =~= s@.take(prefix@.len() as int));
    let rest = s.substring_char(prefix_chars.len(), chars.len()).to_owned();
    assert(rest@ =~= s@.skip(prefix@.len() as int));
    Some(rest)
}

fn digit_str(d: u64) -> (text: &'static str)
    requires
        d < 10,
    ensures
        text@ == seq![(48 + d) as char],
{
    proof {
        reveal_strlit("0");
        reveal_strlit("1");
        reveal_strlit("2");
        reveal_strlit("3");
        reveal_strlit("4");
        reveal_strlit("5");
        reveal_strlit("6");
        reveal_strlit("7");
        reveal_strlit("8");
        reveal_strlit("9");
    }
    match d {
        0 => "0",
        1 => "1",
        2 => "2",
        3 => "3",
        4 => "4",
        5 => "5",
        6 => "6",
        7 => "7",
        8 => "8",
        _ => "9",
    }
}

fn digits_string(n: u64) -> (text: String)
    ensures
        text@ == digits(n as nat),
    decreases n,
{
    if n < 10 {
        digit_str(n).to_owned()
    } else {
        let mut text = digits_string(n / 10);
        text.append(digit_str(n % 10));
        text
    }
}

/// Writes `n` in decimal.
pub fn decimal_string(n: i64) -> (text: String)
    ensures
        text@ == decimal(n as int),
{
    if n < 0 {
        proof {
            reveal_strlit("-");
        }
        let magnitude: u64 = (-(n + 1)) as u64 + 1;
        let mut text = "-".to_owned();
        text.append(digits_string(magnitude).as_str());
        assert("-"@ =~= seq!['-']);
        text
    } else {
        digits_string(n as u64)
    }
}

} // verus!
