//! What a request asks for, read from its method, its path and its query.

use crate::text::{
    chars_of, matches_at, slice_of, split, split_seq, starts_with, starts_with_seq, views,
};
use vstd::prelude::*;

verus! {

/// What a request asks for.
#[derive(Debug, Clone, PartialEq, Eq)]
pub enum Route {
    /// The names of the groups of the default key.
    Listing,
    /// The calendar of the default key for these groups.
    Groups { names: Vec<String> },
    /// The calendar of a teacher over all keys.
    Teacher { name: String },
    /// The calendar of a key.
    Key { key: i64 },
    /// A session token for the credentials in the body.
    SessionToken,
    /// Nothing that the service knows: the answer is empty.
    Nothing,
}

/// What a `Route` holds, as mathematical values.
pub enum RouteView {
    Listing,
    Groups { names: Seq<Seq<char>> },
    Teacher { name: Seq<char> },
    Key { key: int },
    SessionToken,
    Nothing,
}

impl View for Route {
    type V = RouteView;

    open spec fn view(&self) -> RouteView {
        match self {
            Route::Listing => RouteView::Listing,
            Route::Groups { names } => RouteView::Groups { names: views(names@) },
            Route::Teacher { name } => RouteView::Teacher { name: name@ },
            Route::Key { key } => RouteView::Key { key: *key as int },
            Route::SessionToken => RouteView::SessionToken,
            Route::Nothing => RouteView::Nothing,
        }
    }
}

/// The value of a decimal digit, `None` for any other character.
pub open spec fn digit_of(c: char) -> Option<int> {
    if c == '0' {
        Some(0)
    } else if c == '1' {
        Some(1)
    } else if c == '2' {
        Some(2)
    } else if c == '3' {
        Some(3)
    } else if c == '4' {
        Some(4)
    } else if c == '5' {
        Some(5)
    } else if c == '6' {
        Some(6)
    } else if c == '7' {
        Some(7)
    } else if c == '8' {
        Some(8)
    } else if c == '9' {
        Some(9)
    } else {
        None
    }
}

/// The text is made of decimal digits, at least one.
pub open spec fn all_digits(s: Seq<char>) -> bool {
    s.len() > 0 && forall|i: int| 0 <= i < s.len() ==> digit_of(#[trigger] s[i]) is Some
}

/// The number that a text of decimal digits stands for.
pub open spec fn digits_value(s: Seq<char>) -> int
    decreases s.len(),
{
    if s.len() == 0 {
        0
    } else {
        digits_value(s.drop_last()) * 10 + digit_of(s.last())->0
    }
}

/// The integer that a text stands for: decimal digits, with a sign in
/// front of them or without. `None` for any other text, and for a number
/// that 64 bits cannot hold.
pub open spec fn integer_of(s: Seq<char>) -> Option<int> {
    let signed = s.len() > 0 && (s[0] == '-' || s[0] == '+');
    let digits = if signed {
        s.skip(1)
    } else {
        s
    };
    let value = if s.len() > 0 && s[0] == '-' {
        -digits_value(digits)
    } else {
        digits_value(digits)
    };
    if all_digits(digits) && i64::MIN <= value <= i64::MAX {
        Some(value)
    } else {
        None
    }
}

/// `hay` without the copies of `pat` that it begins with.
pub open spec fn without_leading(hay: Seq<char>, pat: Seq<char>) -> Seq<char>
    decreases hay.len(),
{
    if pat.len() > 0 && starts_with_seq(hay, pat) {
        without_leading(hay.skip(pat.len() as int), pat)
    } else {
        hay
    }
}

/// The key that the path of a calendar request names: the integer after
/// the leading `/ics/`, and 0 where no integer stands there.
pub open spec fn key_of(path: Seq<char>) -> int {
    match integer_of(without_leading(path, "/ics/"@)) {
        Some(key) => key,
        None => 0,
    }
}

/// What a request with this method, path and query asks for.
pub open spec fn route_of(method: Seq<char>, path: Seq<char>, query: Seq<char>) -> RouteView {
    if method == "GET"@ {
        if path == "/"@ {
            RouteView::Listing
        } else if path == "/ics"@ {
            RouteView::Groups { names: split_seq(query, ","@) }
        } else if path == "/t"@ {
            RouteView::Teacher { name: query }
        } else if starts_with_seq(path, "/ics/"@) {
            RouteView::Key { key: key_of(path) }
        } else {
            RouteView::Nothing
        }
    } else if method == "POST"@ && path == "/id"@ {
        RouteView::SessionToken
    } else {
        RouteView::Nothing
    }
}

/// A text of digits stands for at least as much as any of its beginnings.
proof fn lemma_digits_grow(s: Seq<char>, k: int)
    requires
        0 <= k <= s.len(),
        forall|i: int| 0 <= i < s.len() ==> digit_of(#[trigger] s[i]) is Some,
    ensures
        0 <= digits_value(s.take(k)) <= digits_value(s),
    decreases s.len() - k,
{
    if k == s.len() {
        assert(s.take(k) =~= s);
        lemma_digits_nonnegative(s);
    } else {
        lemma_digits_grow(s, k + 1);
        assert(s.take(k + 1).drop_last() =~= s.take(k));
        assert(s.take(k + 1).last() == s[k]);
        lemma_digits_nonnegative(s.take(k));
    }
}

proof fn lemma_digits_nonnegative(s: Seq<char>)
    requires
        forall|i: int| 0 <= i < s.len() ==> digit_of(#[trigger] s[i]) is Some,
    ensures
        0 <= digits_value(s),
    decreases s.len(),
{
    if s.len() > 0 {
        assert forall|i: int| 0 <= i < s.drop_last().len() implies digit_of(
            #[trigger] s.drop_last()[i],
        ) is Some by {
            assert(s.drop_last()[i] == s[i]);
        }
        lemma_digits_nonnegative(s.drop_last());
        assert(digit_of(s.last()) is Some);
    }
}

/// The value of a decimal digit.
fn digit(c: char) -> (res: Option<u64>)
    ensures
        res is Some <==> digit_of(c) is Some,
        res matches Some(d) ==> digit_of(c) == Some(d as int) && d < 10,
{
    if c == '0' {
        Some(0)
    } else if c == '1' {
        Some(1)
    } else if c == '2' {
        Some(2)
    } else if c == '3' {
        Some(3)
    } else if c == '4' {
        Some(4)
    } else if c == '5' {
        Some(5)
    } else if c == '6' {
        Some(6)
    } else if c == '7' {
        Some(7)
    } else if c == '8' {
        Some(8)
    } else if c == '9' {
        Some(9)
    } else {
        None
    }
}

/// The integer that a text stands for, as `str::parse` reads a signed
/// 64-bit integer.
pub fn parse_integer(text: &str) -> (res: Option<i64>)
    ensures
        res is Some <==> integer_of(text@) is Some,
        res matches Some(n) ==> integer_of(text@) == Some(n as int),
{
    let cs = chars_of(text);
    let negative = cs.len() > 0 && cs[0] == '-';
    let signed = cs.len() > 0 && (cs[0] == '-' || cs[0] == '+');
    let first: usize = if signed {
        1
    } else {
        0
    };
    let ghost digits = if signed {
        text@.skip(1)
    } else {
        text@
    };
    if first == cs.len() {
        return None;
    }
    let limit: u64 = 0x8000_0000_0000_0000;
    let mut total: u64 = 0;
    let mut i: usize = first;
    assert(digits.take(0).len() == 0);
    while i < cs.len()
        invariant
            first <= i <= cs.len(),
            cs@ == text@,
            digits == text@.skip(first as int),
            digits == (if text@.len() > 0 && (text@[0] == '-' || text@[0] == '+') {
                text@.skip(1)
            } else {
                text@
            }),
            limit == 0x8000_0000_0000_0000,
            total <= limit,
            total == digits_value(digits.take(i - first)),
            forall|k: int| 0 <= k < i - first ==> digit_of(#[trigger] digits[k]) is Some,
        decreases cs.len() - i,
    {
        let ghost seen = digits.take(i - first);
        proof {
            assert(digits.take(i - first + 1).drop_last() =~= seen);
            assert(digits.take(i - first + 1).last() == cs@[i as int]);
            assert(digits[i - first] == cs@[i as int]);
        }
        match digit(cs[i]) {
            Some(d) => {
                if total > (limit - d) / 10 {
                    proof {
                        if all_digits(digits) {
                            lemma_digits_grow(digits, i - first + 1);
                            assert(digits_value(digits.take(i - first + 1)) == total * 10 + d);
                            assert(total * 10 + d > limit);
                        }
                    }
                    return None;
                }
                total = total * 10 + d;
            },
            None => {
                assert(digit_of(digits[i - first]) is None);
                return None;
            },
        }
        i = i + 1;
    }
    proof {
        assert(digits.take(digits.len() as int) =~= digits);
    }
    if negative {
        if total == limit {
            Some(i64::MIN)
        } else {
            Some(-(total as i64))
        }
    } else if total == limit {
        None
    } else {
        Some(total as i64)
    }
}

/// `hay` without the copies of `pat` that it begins with, as
/// `str::trim_start_matches` gives it. With an empty pattern nothing is
/// taken off.
pub fn trim_leading(hay: &str, pat: &str) -> (rest: String)
    ensures
        rest@ == without_leading(hay@, pat@),
{
    let h = chars_of(hay);
    let p = chars_of(pat);
    if p.len() == 0 {
        return hay.to_owned();
    }
    let mut pos: usize = 0;
    assert(hay@.skip(0) =~= hay@);
    while matches_at(&h, &p, pos)
        invariant
            h@ == hay@,
            p@ == pat@,
            p@.len() > 0,
            pos <= h.len(),
            without_leading(hay@, pat@) == without_leading(hay@.skip(pos as int), pat@),
        decreases h.len() - pos,
    {
        proof {
            let rest = hay@.skip(pos as int);
            assert(rest.subrange(0, pat@.len() as int) =~= hay@.subrange(
                pos as int,
                pos + pat@.len(),
            ));
            assert(rest.skip(pat@.len() as int) =~= hay@.skip(pos + pat@.len()));
        }
        pos = pos + p.len();
    }
    proof {
        let rest = hay@.skip(pos as int);
        if pos + pat@.len() <= hay@.len() {
            assert(rest.subrange(0, pat@.len() as int) =~= hay@.subrange(
                pos as int,
                pos + pat@.len(),
            ));
        }
        assert(!starts_with_seq(rest, pat@));
        assert(rest =~= hay@.subrange(pos as int, hay@.len() as int));
    }
    slice_of(hay, pos, h.len())
}

/// What a request asks for.
pub fn route(method: &str, path: &str, query: &str) -> (res: Route)
    ensures
        res@ == route_of(method@, path@, query@),
{
    let method = method.to_owned();
    let path_text = path.to_owned();
    if method == "GET".to_owned() {
        if path_text == "/".to_owned() {
            Route::Listing
        } else if path_text == "/ics".to_owned() {
            Route::Groups { names: split(query, ",") }
        } else if path_text == "/t".to_owned() {
            Route::Teacher { name: query.to_owned() }
        } else if starts_with(path, "/ics/") {
            let rest = trim_leading(path, "/ics/");
            let key = match parse_integer(rest.as_str()) {
                Some(key) => key,
                None => 0,
            };
            Route::Key { key }
        } else {
            Route::Nothing
        }
    } else if method == "POST".to_owned() && path_text == "/id".to_owned() {
        Route::SessionToken
    } else {
        Route::Nothing
    }
}

} // verus!
