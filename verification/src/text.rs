//! Character-level text operations with exact contracts.
//!
//! Every function here states its result over the `Seq<char>` view of its
//! arguments, so that callers can reason about prefixes, occurrences and
//! rendered numbers without looking at a byte.

use vstd::prelude::*;
use vstd::string::StringExecFns;

verus! {

/// `pat` occurs somewhere in `text` as a contiguous run of characters.
pub open spec fn occurs_in(pat: Seq<char>, text: Seq<char>) -> bool {
    exists|i: int| 0 <= i <= text.len() && pat.is_prefix_of(#[trigger] text.skip(i))
}

/// `text` with every leading repetition of `pat` removed.
pub open spec fn without_leading(text: Seq<char>, pat: Seq<char>) -> Seq<char>
    decreases text.len(),
{
    if pat.len() > 0 && pat.is_prefix_of(text) {
        without_leading(text.skip(pat.len() as int), pat)
    } else {
        text
    }
}

/// The part of `text` in front of the first `stop`, or all of it where `stop`
/// does not occur.
pub open spec fn before_first(text: Seq<char>, stop: char) -> Seq<char>
    decreases text.len(),
{
    if text.len() == 0 || text[0] == stop {
        Seq::empty()
    } else {
        seq![text[0]] + before_first(text.skip(1), stop)
    }
}

/// The character that stands for one decimal digit.
pub open spec fn digit_char(d: nat) -> char {
    if d == 0 {
        '0'
    } else if d == 1 {
        '1'
    } else if d == 2 {
        '2'
    } else if d == 3 {
        '3'
    } else if d == 4 {
        '4'
    } else if d == 5 {
        '5'
    } else if d == 6 {
        '6'
    } else if d == 7 {
        '7'
    } else if d == 8 {
        '8'
    } else {
        '9'
    }
}

/// The decimal numeral of `n`, without sign or leading zeros.
pub open spec fn decimal(n: nat) -> Seq<char>
    decreases n,
{
    if n < 10 {
        seq![digit_char(n)]
    } else {
        decimal(n / 10).push(digit_char(n % 10))
    }
}

/// `lines` written one after the other with a line feed between neighbours
/// and none at the end.
pub open spec fn joined(lines: Seq<Seq<char>>) -> Seq<char>
    decreases lines.len(),
{
    if lines.len() == 0 {
        Seq::empty()
    } else if lines.len() == 1 {
        lines[0]
    } else {
        joined(lines.drop_last()) + seq!['\n'] + lines.last()
    }
}

/// The view of an optional string slice.
pub open spec fn opt_view(s: Option<&str>) -> Option<Seq<char>> {
    match s {
        Some(t) => Some(t@),
        None => None,
    }
}

/// The view of an optional string.
pub open spec fn opt_string_view(s: Option<String>) -> Option<Seq<char>> {
    match s {
        Some(t) => Some(t@),
        None => None,
    }
}

/// The views of a sequence of strings.
pub open spec fn views(lines: Seq<String>) -> Seq<Seq<char>> {
    lines.map_values(|s: String| s@)
}

/// The characters of `s`, in order.
pub fn chars_of(s: &str) -> (v: Vec<char>)
    ensures
        v@ == s@,
{
    let mut v: Vec<char> = Vec::new();
    for c in it: s.chars()
        invariant
            v@ == it.seq().take(it.index() as int),
    {
        v.push(c);
    }
    v
}

/// Whether `pat` stands in `text` at offset `at`.
pub fn matches_at(text: &Vec<char>, pat: &Vec<char>, at: usize) -> (r: bool)
    ensures
        r == (at <= text.len() && pat@.is_prefix_of(text@.skip(at as int))),
{
    if at > text.len() || pat.len() > text.len() - at {
        return false;
    }
    let mut k: usize = 0;
    while k < pat.len()
        invariant
            at <= text.len(),
            pat.len() <= text.len() - at,
            k <= pat.len(),
            forall|j: int| 0 <= j < k ==> pat@[j] == text@[at + j],
        decreases pat.len() - k,
    {
        if pat[k] != text[at + k] {
            proof {
                let rest = text@.skip(at as int);
                assert(rest.subrange(0, pat@.len() as int)[k as int] == text@[at + k]);
            }
            return false;
        }
        k += 1;
    }
    proof {
        let rest = text@.skip(at as int);
        assert(pat@ =~= rest.subrange(0, pat@.len() as int));
    }
    true
}

/// Whether `text` begins with `pat`.
pub fn has_prefix(text: &Vec<char>, pat: &Vec<char>) -> (r: bool)
    ensures
        r == pat@.is_prefix_of(text@),
{
    proof {
        assert(text@.skip(0) =~= text@);
    }
    matches_at(text, pat, 0)
}

/// Whether `pat` occurs anywhere in `text`.
pub fn has_infix(text: &Vec<char>, pat: &Vec<char>) -> (r: bool)
    ensures
        r == occurs_in(pat@, text@),
{
    let mut i: usize = 0;
    while i <= text.len()
        invariant
            i <= text.len() + 1,
            forall|j: int| 0 <= j < i ==> !pat@.is_prefix_of(#[trigger] text@.skip(j)),
        decreases text.len() + 1 - i,
    {
        if matches_at(text, pat, i) {
            return true;
        }
        if i == text.len() {
            return false;
        }
        i += 1;
    }
    false
}

/// Whether the string `text` begins with the string `pat`.
pub fn starts_with(text: &str, pat: &str) -> (r: bool)
    ensures
        r == pat@.is_prefix_of(text@),
{
    let t = chars_of(text);
    let p = chars_of(pat);
    has_prefix(&t, &p)
}

/// Whether the string `pat` occurs in the string `text`.
pub fn contains(text: &str, pat: &str) -> (r: bool)
    ensures
        r == occurs_in(pat@, text@),
{
    let t = chars_of(text);
    let p = chars_of(pat);
    has_infix(&t, &p)
}

/// Whether two strings hold the same characters.
pub fn same_text(a: &str, b: &str) -> (r: bool)
    ensures
        r == (a@ == b@),
{
    let x = chars_of(a);
    let y = chars_of(b);
    if x.len() != y.len() {
        return false;
    }
    let r = has_prefix(&x, &y);
    proof {
        if r {
            assert(x@.subrange(0, y@.len() as int) =~= x@);
        } else {
            if a@ == b@ {
                assert(x@.subrange(0, y@.len() as int) =~= x@);
            }
        }
    }
    r
}

/// One decimal digit as a string.
fn digit_str(d: u8) -> (s: &'static str)
    requires
        d < 10,
    ensures
        s@ == seq![digit_char(d as nat)],
{
    proof {
        reveal_strlit("0");
        reveal_strlit("1");
        reveal_strlit("2");
        reveal_strlit("3");
        reveal_strlit("4");
        reveal_strlit("5");
        reveal_strlit("6");
        reveal_strlit("7");
        reveal_strlit("8");
        reveal_strlit("9");
    }
    let s = if d == 0 {
        "0"
    } else if d == 1 {
        "1"
    } else if d == 2 {
        "2"
    } else if d == 3 {
        "3"
    } else if d == 4 {
        "4"
    } else if d == 5 {
        "5"
    } else if d == 6 {
        "6"
    } else if d == 7 {
        "7"
    } else if d == 8 {
        "8"
    } else {
        "9"
    };
    assert(s@ =~= seq![digit_char(d as nat)]);
    s
}

/// The decimal numeral of `n`.
pub fn decimal_of(n: u32) -> (s: String)
    ensures
        s@ == decimal(n as nat),
    decreases n,
{
    if n < 10 {
        String::from_str(digit_str(n as u8))
    } else {
        let mut s = decimal_of(n / 10);
        s.append(digit_str((n % 10) as u8));
        proof {
            assert(s@ =~= decimal((n / 10) as nat).push(digit_char((n % 10) as nat)));
        }
        s
    }
}

/// Joins `lines` with line feeds.
pub fn join_lines(lines: &Vec<String>) -> (out: String)
    ensures
        out@ == joined(views(lines@)),
{
    let mut out = String::new();
    let mut i: usize = 0;
    proof {
        reveal_strlit("\n");
        assert(views(lines@).take(0) =~= Seq::<Seq<char>>::empty());
    }
    while i < lines.len()
        invariant
            i <= lines.len(),
            "\n"@ == seq!['\n'],
            out@ == joined(views(lines@).take(i as int)),
        decreases lines.len() - i,
    {
        if i > 0 {
            out.append("\n");
        }
        out.append(lines[i].as_str());
        proof {
            let all = views(lines@);
            let upto = all.take(i + 1);
            assert(upto.drop_last() =~= all.take(i as int));
            assert(upto.last() == lines@[i as int]@);
            if i == 0 {
                assert(out@ =~= upto[0]);
            }
        }
        i += 1;
    }
    proof {
        assert(views(lines@).take(lines.len() as int) =~= views(lines@));
    }
    out
}


/// Steps over every leading repetition of `pat` in `text`, starting at
/// `from`, and returns the offset behind the last one.
pub(crate) fn skip_leading(text: &Vec<char>, from: usize, pat: &Vec<char>) -> (to: usize)
    requires
        from <= text.len(),
    ensures
        from <= to <= text.len(),
        text@.skip(to as int) == without_leading(text@.skip(from as int), pat@),
{
    let mut i: usize = from;
    if pat.len() == 0 {
        return i;
    }
    while matches_at(text, pat, i)
        invariant
            from <= i <= text.len(),
            pat.len() > 0,
            without_leading(text@.skip(i as int), pat@) == without_leading(
                text@.skip(from as int),
                pat@,
            ),
        decreases text.len() - i,
    {
        proof {
            assert(text@.skip(i as int).skip(pat@.len() as int) =~= text@.skip(i + pat@.len()));
        }
        i += pat.len();
    }
    i
}

/// Finds the first `stop` in `text` at or behind `from`, and returns its
/// offset, or the length of `text` where there is none.
pub(crate) fn find_first(text: &Vec<char>, from: usize, stop: char) -> (to: usize)
    requires
        from <= text.len(),
    ensures
        from <= to <= text.len(),
        text@.subrange(from as int, to as int) == before_first(text@.skip(from as int), stop),
{
    let mut i: usize = from;
    proof {
        assert(text@.subrange(from as int, from as int) =~= Seq::<char>::empty());
    }
    while i < text.len() && text[i] != stop
        invariant
            from <= i <= text.len(),
            before_first(text@.skip(from as int), stop) == text@.subrange(from as int, i as int)
                + before_first(text@.skip(i as int), stop),
        decreases text.len() - i,
    {
        proof {
            let rest = text@.skip(i as int);
            assert(rest.skip(1) =~= text@.skip(i + 1));
            assert(text@.subrange(from as int, i as int) + seq![rest[0]] =~= text@.subrange(
                from as int,
                i + 1,
            ));
        }
        i += 1;
    }
    proof {
        assert(before_first(text@.skip(i as int), stop) =~= Seq::<char>::empty());
    }
    i
}

/// `views` of a sequence with one more string is `views` of the sequence
/// with one more view.
pub proof fn lemma_views_push(lines: Seq<String>, line: String)
    ensures
        views(lines.push(line)) == views(lines).push(line@),
{
    assert(views(lines.push(line)) =~= views(lines).push(line@));
}

} // verus!
