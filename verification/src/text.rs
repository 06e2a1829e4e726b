//! Character-level text operations with exact specifications.
//!
//! Every text is viewed as a sequence of characters. Searching, splitting and
//! replacing are specified over those sequences, so that the callers can say
//! exactly which text they produce.

use vstd::prelude::*;
use vstd::string::*;

verus! {

/// `pat` stands in `hay` at position `i`.
pub open spec fn occurs_at(hay: Seq<char>, pat: Seq<char>, i: int) -> bool {
    &&& 0 <= i
    &&& i + pat.len() <= hay.len()
    &&& hay.subrange(i, i + pat.len()) == pat
}

/// `i` is the first position at or after `from` where `pat` stands in `hay`.
pub open spec fn first_from(hay: Seq<char>, pat: Seq<char>, from: int, i: int) -> bool {
    &&& from <= i
    &&& occurs_at(hay, pat, i)
    &&& forall|j: int| from <= j < i ==> !occurs_at(hay, pat, j)
}

/// `pat` stands somewhere in `hay` at or after `from`.
pub open spec fn found_from(hay: Seq<char>, pat: Seq<char>, from: int) -> bool {
    exists|i: int| first_from(hay, pat, from, i)
}

/// The first position at or after `from` where `pat` stands in `hay`.
/// Meaningful only when `found_from` holds.
pub open spec fn position_from(hay: Seq<char>, pat: Seq<char>, from: int) -> int {
    choose|i: int| first_from(hay, pat, from, i)
}

/// `pat` stands somewhere in `hay`.
pub open spec fn contains_seq(hay: Seq<char>, pat: Seq<char>) -> bool {
    found_from(hay, pat, 0)
}

/// `hay` begins with `pat`.
pub open spec fn starts_with_seq(hay: Seq<char>, pat: Seq<char>) -> bool {
    occurs_at(hay, pat, 0)
}

/// The pieces of `hay[from..]` between the occurrences of `pat`, read from
/// the left without overlap. There is always at least one piece.
pub open spec fn split_from(hay: Seq<char>, pat: Seq<char>, from: int) -> Seq<Seq<char>>
    decreases hay.len() - from,
    when pat.len() > 0 && 0 <= from <= hay.len()
{
    if found_from(hay, pat, from) {
        let i = position_from(hay, pat, from);
        seq![hay.subrange(from, i)] + split_from(hay, pat, i + pat.len())
    } else {
        seq![hay.subrange(from, hay.len() as int)]
    }
}

/// The pieces of `hay` between the occurrences of `pat`. With an empty
/// `pat` the whole of `hay` is the one piece.
pub open spec fn split_seq(hay: Seq<char>, pat: Seq<char>) -> Seq<Seq<char>> {
    if pat.len() == 0 {
        seq![hay]
    } else {
        split_from(hay, pat, 0)
    }
}

/// The pieces joined again, with `sep` between neighbours.
pub open spec fn join_seq(parts: Seq<Seq<char>>, sep: Seq<char>) -> Seq<char>
    decreases parts.len(),
{
    if parts.len() == 0 {
        Seq::empty()
    } else if parts.len() == 1 {
        parts[0]
    } else {
        join_seq(parts.drop_last(), sep) + sep + parts.last()
    }
}

/// `hay` with every occurrence of `pat` replaced by `with`; with an empty
/// `pat`, `hay` itself.
pub open spec fn replace_seq(hay: Seq<char>, pat: Seq<char>, with: Seq<char>) -> Seq<char> {
    join_seq(split_seq(hay, pat), with)
}

/// The views of a sequence of strings.
pub open spec fn views(v: Seq<String>) -> Seq<Seq<char>> {
    Seq::new(v.len(), |i: int| v[i]@)
}

/// Two first positions from the same start are the same position.
pub proof fn lemma_first_from_unique(hay: Seq<char>, pat: Seq<char>, from: int, i: int, k: int)
    requires
        first_from(hay, pat, from, i),
        first_from(hay, pat, from, k),
    ensures
        i == k,
{
}

/// A first position is the one that `position_from` names.
pub proof fn lemma_position_from(hay: Seq<char>, pat: Seq<char>, from: int, i: int)
    requires
        first_from(hay, pat, from, i),
    ensures
        found_from(hay, pat, from),
        position_from(hay, pat, from) == i,
{
    lemma_first_from_unique(hay, pat, from, i, position_from(hay, pat, from));
}

/// The characters of `s`, in order.
pub fn chars_of(s: &str) -> (v: Vec<char>)
    ensures
        v@ == s@,
{
    let mut v: Vec<char> = Vec::new();
    for c in it: s.chars()
        invariant
            v@ == s@.take(it.index() as int),
            it.seq() == s@,
    {
        v.push(c);
        assert(s@.take(it.index() + 1) =~= s@.take(it.index() as int).push(c));
    }
    assert(s@.take(s@.len() as int) =~= s@);
    v
}

/// The characters `s[from..to]` as a string of their own.
pub(crate) fn slice_of(s: &str, from: usize, to: usize) -> (piece: String)
    requires
        from <= to <= s@.len(),
    ensures
        piece@ == s@.subrange(from as int, to as int),
{
    s.substring_char(from, to).to_owned()
}

/// Tells whether `pat` stands in `hay` at position `at`.
pub fn matches_at(hay: &Vec<char>, pat: &Vec<char>, at: usize) -> (b: bool)
    ensures
        b == occurs_at(hay@, pat@, at as int),
{
    if pat.len() > hay.len() || at > hay.len() - pat.len() {
        return false;
    }
    let mut k: usize = 0;
    while k < pat.len()
        invariant
            k <= pat.len(),
            at + pat.len() <= hay.len(),
            forall|j: int| 0 <= j < k ==> hay@[at + j] == pat@[j],
        decreases pat.len() - k,
    {
        if hay[at + k] != pat[k] {
            assert(hay@.subrange(at as int, at + pat.len())[k as int] != pat@[k as int]);
            return false;
        }
        k = k + 1;
    }
    assert(hay@.subrange(at as int, at + pat.len()) =~= pat@);
    true
}

/// The first position at or after `from` where `pat` stands in `hay`.
pub fn find_from(hay: &Vec<char>, pat: &Vec<char>, from: usize) -> (res: Option<usize>)
    ensures
        res is Some <==> found_from(hay@, pat@, from as int),
        res matches Some(i) ==> first_from(hay@, pat@, from as int, i as int) && i
            == position_from(hay@, pat@, from as int),
{
    if pat.len() > hay.len() || from > hay.len() - pat.len() {
        return None;
    }
    let last: usize = hay.len() - pat.len();
    let mut i: usize = from;
    loop
        invariant
            from <= i <= last,
            last == hay.len() - pat.len(),
            forall|j: int| from <= j < i ==> !occurs_at(hay@, pat@, j),
        decreases last - i,
    {
        if matches_at(hay, pat, i) {
            proof {
                lemma_position_from(hay@, pat@, from as int, i as int);
            }
            return Some(i);
        }
        if i == last {
            return None;
        }
        i = i + 1;
    }
}

/// The pieces of `hay` between the occurrences of `pat`, as `str::split`
/// gives them for a non-empty pattern. With an empty pattern the whole of
/// `hay` is the one piece.
pub fn split(hay: &str, pat: &str) -> (parts: Vec<String>)
    ensures
        views(parts@) == split_seq(hay@, pat@),
        parts.len() >= 1,
{
    let h = chars_of(hay);
    let p = chars_of(pat);
    let mut parts: Vec<String> = Vec::new();
    if p.len() == 0 {
        parts.push(hay.to_owned());
        assert(views(parts@) =~= seq![hay@]);
        return parts;
    }
    let mut pos: usize = 0;
    let mut done = false;
    while !done
        invariant
            h@ == hay@,
            p@ == pat@,
            p@.len() > 0,
            pos <= h.len(),
            !done ==> split_seq(hay@, pat@) == views(parts@) + split_from(h@, p@, pos as int),
            done ==> split_seq(hay@, pat@) == views(parts@) && parts.len() >= 1,
        decreases h.len() - pos + (if done { 0int } else { 1int }),
    {
        let ghost before = views(parts@);
        match find_from(&h, &p, pos) {
            Some(i) => {
                let piece = slice_of(hay, pos, i);
                parts.push(piece);
                assert(views(parts@) =~= before + seq![h@.subrange(pos as int, i as int)]);
                pos = i + p.len();
            },
            None => {
                let piece = slice_of(hay, pos, h.len());
                parts.push(piece);
                assert(views(parts@) =~= before + seq![h@.subrange(pos as int, h@.len() as int)]);
                done = true;
            },
        }
    }
    parts
}

/// The strings of `parts`, with `sep` between neighbours.
pub fn join(parts: &Vec<String>, sep: &str) -> (s: String)
    ensures
        s@ == join_seq(views(parts@), sep@),
{
    let mut s = String::new();
    let mut i: usize = 0;
    while i < parts.len()
        invariant
            i <= parts.len(),
            s@ == join_seq(views(parts@).take(i as int), sep@),
        decreases parts.len() - i,
    {
        let ghost prefix = views(parts@).take(i + 1);
        assert(prefix.drop_last() =~= views(parts@).take(i as int));
        assert(prefix.last() == parts@[i as int]@);
        if i > 0 {
            s.append(sep);
        }
        s.append(parts[i].as_str());
        assert(s@ =~= join_seq(prefix, sep@));
        i = i + 1;
    }
    assert(views(parts@).take(parts.len() as int) =~= views(parts@));
    s
}

/// `hay` with every occurrence of `pat` replaced by `with`, as `str::replace`
/// gives it for a non-empty pattern. With an empty pattern nothing is
/// replaced.
pub fn replace(hay: &str, pat: &str, with: &str) -> (s: String)
    ensures
        s@ == replace_seq(hay@, pat@, with@),
{
    let parts = split(hay, pat);
    join(&parts, with)
}

/// Tells whether `pat` stands somewhere in `hay`.
pub fn contains(hay: &str, pat: &str) -> (b: bool)
    ensures
        b == contains_seq(hay@, pat@),
{
    let h = chars_of(hay);
    let p = chars_of(pat);
    find_from(&h, &p, 0).is_some()
}

/// Tells whether `hay` begins with `pat`.
pub fn starts_with(hay: &str, pat: &str) -> (b: bool)
    ensures
        b == starts_with_seq(hay@, pat@),
{
    let h = chars_of(hay);
    let p = chars_of(pat);
    matches_at(&h, &p, 0)
}

/// The text `a` followed by the text `b`.
pub fn glue(a: &str, b: &str) -> (s: String)
    ensures
        s@ == a@ + b@,
{
    let mut s = String::new();
    s.append(a);
    s.append(b);
    assert(s@ =~= a@ + b@);
    s
}

/// The views of a list of pairs of texts.
pub open spec fn pair_views(pairs: Seq<(String, String)>) -> Seq<(Seq<char>, Seq<char>)> {
    Seq::new(pairs.len(), |i: int| (pairs[i].0@, pairs[i].1@))
}

/// A name with its value.
pub fn pair(name: &str, value: String) -> (both: (String, String))
    ensures
        both.0@ == name@,
        both.1@ == value@,
{
    (name.to_owned(), value)
}

/// The digit `d` as a character.
pub open spec fn digit_char(d: int) -> char {
    if d == 0 {
        '0'
    } else if d == 1 {
        '1'
    } else if d == 2 {
        '2'
    } else if d == 3 {
        '3'
    } else if d == 4 {
        '4'
    } else if d == 5 {
        '5'
    } else if d == 6 {
        '6'
    } else if d == 7 {
        '7'
    } else if d == 8 {
        '8'
    } else {
        '9'
    }
}

/// A natural number in decimal digits, without leading zeros.
pub open spec fn natural_text(n: nat) -> Seq<char>
    decreases n,
{
    if n < 10 {
        seq![digit_char(n as int)]
    } else {
        natural_text(n / 10).push(digit_char((n % 10) as int))
    }
}

/// An integer in decimal digits, with a minus sign in front of a negative
/// one.
pub open spec fn decimal_text(n: int) -> Seq<char> {
    if n < 0 {
        seq!['-'] + natural_text((-n) as nat)
    } else {
        natural_text(n as nat)
    }
}

/// The digit `d` as a text.
fn digit_str(d: u64) -> (s: &'static str)
    requires
        d < 10,
    ensures
        s@ == seq![digit_char(d as int)],
{
    proof {
        reveal_strlit("0");
        reveal_strlit("1");
        reveal_strlit("2");
        reveal_strlit("3");
        reveal_strlit("4");
        reveal_strlit("5");
        reveal_strlit("6");
        reveal_strlit("7");
        reveal_strlit("8");
        reveal_strlit("9");
    }
    let s = if d == 0 {
        "0"
    } else if d == 1 {
        "1"
    } else if d == 2 {
        "2"
    } else if d == 3 {
        "3"
    } else if d == 4 {
        "4"
    } else if d == 5 {
        "5"
    } else if d == 6 {
        "6"
    } else if d == 7 {
        "7"
    } else if d == 8 {
        "8"
    } else {
        "9"
    };
    assert(s@ =~= seq![digit_char(d as int)]);
    s
}

/// A natural number written in decimal digits.
pub fn natural(n: u64) -> (s: String)
    ensures
        s@ == natural_text(n as nat),
    decreases n,
{
    if n < 10 {
        digit_str(n).to_owned()
    } else {
        let mut s = natural(n / 10);
        s.append(digit_str(n % 10));
        assert(s@ =~= natural_text(n as nat));
        s
    }
}

/// An integer written in decimal digits, as its `to_string` gives it.
pub fn decimal(n: i64) -> (s: String)
    ensures
        s@ == decimal_text(n as int),
{
    if n < 0 {
        proof {
            reveal_strlit("-");
        }
        let magnitude: u64 = (-(n + 1)) as u64 + 1;
        let digits = natural(magnitude);
        let s = glue("-", digits.as_str());
        assert(s@ =~= decimal_text(n as int));
        s
    } else {
        natural(n as u64)
    }
}

} // verus!
