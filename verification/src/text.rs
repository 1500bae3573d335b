use vstd::prelude::*;
use vstd::string::StrSliceExecFns;

verus! {

/// ASCII whitespace: the characters on which a status line splits into tokens.
pub open spec fn is_ws(c: char) -> bool {
    c == ' ' || c == '\t' || c == '\n' || c == '\r' || c == '\u{b}' || c == '\u{c}'
}

/// Decimal digit.
pub open spec fn is_digit(c: char) -> bool {
    ('0' as u32) <= (c as u32) && (c as u32) <= ('9' as u32)
}

/// The first position at or after `i` holding a non-whitespace character
/// (or the end of the sequence).
pub open spec fn ws_end(s: Seq<char>, i: int) -> int
    decreases s.len() - i,
{
    if i >= s.len() {
        i
    } else if is_ws(s[i]) {
        ws_end(s, i + 1)
    } else {
        i
    }
}

/// The first position at or after `i` holding a whitespace character
/// (or the end of the sequence).
pub open spec fn token_end(s: Seq<char>, i: int) -> int
    decreases s.len() - i,
{
    if i >= s.len() {
        i
    } else if !is_ws(s[i]) {
        token_end(s, i + 1)
    } else {
        i
    }
}

/// The second whitespace-separated token of `s`, if `s` has two tokens.
pub open spec fn second_token(s: Seq<char>) -> Option<Seq<char>> {
    let a = ws_end(s, 0);
    let b = token_end(s, a);
    let c = ws_end(s, b);
    if c < s.len() {
        Some(s.subrange(c, token_end(s, c)))
    } else {
        None
    }
}

/// Skipping over a stretch of known whitespace does not move the result
/// of `ws_end`.
pub proof fn lemma_ws_end_skip(s: Seq<char>, i: int, j: int)
    requires
        0 <= i <= j <= s.len(),
        forall|k: int| i <= k < j ==> is_ws(s[k]),
    ensures
        ws_end(s, i) == ws_end(s, j),
    decreases j - i,
{
    if i < j {
        lemma_ws_end_skip(s, i + 1, j);
    }
}

/// Skipping over a stretch of known non-whitespace does not move the result
/// of `token_end`.
pub proof fn lemma_token_end_skip(s: Seq<char>, i: int, j: int)
    requires
        0 <= i <= j <= s.len(),
        forall|k: int| i <= k < j ==> !is_ws(s[k]),
    ensures
        token_end(s, i) == token_end(s, j),
    decreases j - i,
{
    if i < j {
        lemma_token_end_skip(s, i + 1, j);
    }
}

fn is_ws_exec(c: char) -> (r: bool)
    ensures
        r == is_ws(c),
{
    c == ' ' || c == '\t' || c == '\n' || c == '\r' || c == '\u{b}' || c == '\u{c}'
}

fn is_digit_exec(c: char) -> (r: bool)
    ensures
        r == is_digit(c),
{
    let x = c as u32;
    48 <= x && x <= 57
}

/// The second whitespace-separated token of `s`, or `None` if `s` holds
/// fewer than two tokens.
pub fn second_token_str<'a>(s: &'a str) -> (r: Option<&'a str>)
    ensures
        match r {
            Some(t) => second_token(s@) == Some(t@),
            None => second_token(s@) is None,
        },
{
    let n = s.unicode_len();
    let mut i: usize = 0;
    while i < n && is_ws_exec(s.get_char(i))
        invariant
            n == s@.len(),
            0 <= i <= n,
            ws_end(s@, 0) == ws_end(s@, i as int),
        decreases n - i,
    {
        assert(ws_end(s@, i as int) == ws_end(s@, i + 1));
        i = i + 1;
    }
    assert(i == ws_end(s@, 0));
    let mut j: usize = i;
    while j < n && !is_ws_exec(s.get_char(j))
        invariant
            n == s@.len(),
            i <= j <= n,
            token_end(s@, i as int) == token_end(s@, j as int),
        decreases n - j,
    {
        assert(token_end(s@, j as int) == token_end(s@, j + 1));
        j = j + 1;
    }
    assert(j == token_end(s@, ws_end(s@, 0)));
    let mut c: usize = j;
    while c < n && is_ws_exec(s.get_char(c))
        invariant
            n == s@.len(),
            j <= c <= n,
            ws_end(s@, j as int) == ws_end(s@, c as int),
        decreases n - c,
    {
        assert(ws_end(s@, c as int) == ws_end(s@, c + 1));
        c = c + 1;
    }
    assert(c == ws_end(s@, token_end(s@, ws_end(s@, 0))));
    if c >= n {
        return None;
    }
    let mut d: usize = c;
    while d < n && !is_ws_exec(s.get_char(d))
        invariant
            n == s@.len(),
            c <= d <= n,
            token_end(s@, c as int) == token_end(s@, d as int),
        decreases n - d,
    {
        assert(token_end(s@, d as int) == token_end(s@, d + 1));
        d = d + 1;
    }
    assert(d == token_end(s@, c as int));
    Some(s.substring_char(c, d))
}

/// The numeric value of a sequence of decimal digits, most significant first.
pub open spec fn digits_val(t: Seq<char>) -> int
    decreases t.len(),
{
    if t.len() == 0 {
        0
    } else {
        10 * digits_val(t.drop_last()) + ((t.last() as u32) - ('0' as u32))
    }
}

pub open spec fn all_digits(t: Seq<char>) -> bool {
    forall|k: int| 0 <= k < t.len() ==> is_digit(t[k])
}

/// The digits of a numeral once an optional leading `+` is removed.
pub open spec fn u16_body(t: Seq<char>) -> Seq<char> {
    if t.len() > 0 && t[0] == '+' {
        t.drop_first()
    } else {
        t
    }
}

/// What `u16::from_str` accepts: an optional leading `+`, then one or more
/// decimal digits whose value fits in sixteen bits.
pub open spec fn u16_of(t: Seq<char>) -> Option<u16> {
    let body = u16_body(t);
    if body.len() > 0 && all_digits(body) && digits_val(body) <= 65535 {
        Some(digits_val(body) as u16)
    } else {
        None
    }
}

proof fn lemma_digits_val_nonneg(t: Seq<char>)
    requires
        all_digits(t),
    ensures
        digits_val(t) >= 0,
    decreases t.len(),
{
    if t.len() > 0 {
        assert forall|k: int| 0 <= k < t.drop_last().len() implies is_digit(t.drop_last()[k]) by {
            assert(t.drop_last()[k] == t[k]);
        }
        lemma_digits_val_nonneg(t.drop_last());
    }
}

/// Appending further digits can only grow the value.
proof fn lemma_digits_val_mono(t: Seq<char>, m: int)
    requires
        all_digits(t),
        0 <= m <= t.len(),
    ensures
        digits_val(t) >= digits_val(t.take(m)),
    decreases t.len() - m,
{
    if m == t.len() {
        assert(t.take(m) =~= t);
    } else {
        lemma_digits_val_mono(t, m + 1);
        assert(t.take(m + 1).drop_last() =~= t.take(m));
        assert forall|k: int| 0 <= k < t.take(m).len() implies is_digit(t.take(m)[k]) by {
            assert(t.take(m)[k] == t[k]);
        }
        lemma_digits_val_nonneg(t.take(m));
        assert(t.take(m + 1).last() == t[m]);
        assert(digits_val(t.take(m + 1)) == 10 * digits_val(t.take(m)) + ((t[m] as u32) - ('0'
            as u32)));
    }
}

/// Parses a decimal `u16` the way `u16::from_str` does: optional `+`, then
/// digits, rejecting empty input, other characters, and overflow.
pub fn parse_u16(t: &str) -> (r: Option<u16>)
    ensures
        r == u16_of(t@),
{
    let n = t.unicode_len();
    let mut i: usize = 0;
    if n > 0 && t.get_char(0) == '+' {
        i = 1;
    }
    let ghost body: Seq<char> = t@.subrange(i as int, n as int);
    proof {
        if t@.len() > 0 && t@[0] == '+' {
            assert(body =~= t@.drop_first());
        } else {
            assert(body =~= t@);
        }
        assert(body == u16_body(t@));
    }
    if i >= n {
        return None;
    }
    let mut acc: u32 = 0;
    let mut j: usize = i;
    while j < n
        invariant
            n == t@.len(),
            i <= j <= n,
            i <= 1,
            body == t@.subrange(i as int, n as int),
            body == u16_body(t@),
            all_digits(body.take(j - i)),
            acc == digits_val(body.take(j - i)),
            acc <= 65535,
        decreases n - j,
    {
        let c = t.get_char(j);
        proof {
            assert(body[j - i] == t@[j as int]);
        }
        if !is_digit_exec(c) {
            proof {
                assert(!is_digit(body[j - i]));
                assert(!all_digits(body));
            }
            return None;
        }
        let d: u32 = (c as u32) - 48;
        let wide: u32 = acc * 10 + d;
        proof {
            assert(body.take(j - i + 1).drop_last() =~= body.take(j - i));
            assert(body.take(j - i + 1).last() == body[j - i]);
            assert(digits_val(body.take(j - i + 1)) == wide);
            assert forall|k: int| 0 <= k < body.take(j - i + 1).len() implies is_digit(
                #[trigger] body.take(j - i + 1)[k],
            ) by {
                assert(body.take(j - i + 1)[k] == body[k]);
                if k < j - i {
                    assert(body.take(j - i)[k] == body[k]);
                }
            }
        }
        if wide > 65535 {
            proof {
                if all_digits(body) {
                    lemma_digits_val_mono(body, j - i + 1);
                }
            }
            return None;
        }
        acc = wide;
        j = j + 1;
    }
    proof {
        assert(body.take(n - i) =~= body);
    }
    Some(acc as u16)
}

/// The position of the first line feed at or after `i` (or the end).
pub open spec fn line_end(s: Seq<char>, i: int) -> int
    decreases s.len() - i,
{
    if i >= s.len() {
        i
    } else if s[i] == '\n' {
        i
    } else {
        line_end(s, i + 1)
    }
}

/// The first line of `s`, the way `str::lines` yields it: everything before
/// the first line feed, with one trailing carriage return removed.
pub open spec fn first_line(s: Seq<char>) -> Seq<char> {
    let line = s.subrange(0, line_end(s, 0));
    if line.len() > 0 && line.last() == '\r' {
        line.drop_last()
    } else {
        line
    }
}

/// Skipping over a stretch known to hold no line feed does not move the
/// result of `line_end`.
pub proof fn lemma_line_end_skip(s: Seq<char>, i: int, j: int)
    requires
        0 <= i <= j <= s.len(),
        forall|k: int| i <= k < j ==> s[k] != '\n',
    ensures
        line_end(s, i) == line_end(s, j),
    decreases j - i,
{
    if i < j {
        lemma_line_end_skip(s, i + 1, j);
    }
}

/// The first line of `s`, as `str::lines` would yield it.
pub fn first_line_str<'a>(s: &'a str) -> (r: &'a str)
    ensures
        r@ == first_line(s@),
{
    let n = s.unicode_len();
    let mut e: usize = 0;
    while e < n && s.get_char(e) != '\n'
        invariant
            n == s@.len(),
            0 <= e <= n,
            line_end(s@, 0) == line_end(s@, e as int),
        decreases n - e,
    {
        assert(line_end(s@, e as int) == line_end(s@, e + 1));
        e = e + 1;
    }
    assert(e == line_end(s@, 0));
    if e > 0 && s.get_char(e - 1) == '\r' {
        let r = s.substring_char(0, e - 1);
        proof {
            let line = s@.subrange(0, e as int);
            assert(line.last() == s@[e - 1]);
            assert(line.drop_last() =~= s@.subrange(0, e - 1));
        }
        r
    } else {
        let r = s.substring_char(0, e);
        proof {
            let line = s@.subrange(0, e as int);
            if line.len() > 0 {
                assert(line.last() == s@[e - 1]);
            }
        }
        r
    }
}

/// Whether the four-character header/body separator stands at position `i`.
pub open spec fn sep_at(s: Seq<char>, i: int) -> bool {
    &&& 0 <= i
    &&& i + 4 <= s.len()
    &&& s[i] == '\r'
    &&& s[i + 1] == '\n'
    &&& s[i + 2] == '\r'
    &&& s[i + 3] == '\n'
}

/// The position of the first header/body separator at or after `i`, if any.
pub open spec fn first_sep(s: Seq<char>, i: int) -> Option<int>
    decreases s.len() - i,
{
    if i + 4 > s.len() {
        None
    } else if sep_at(s, i) {
        Some(i)
    } else {
        first_sep(s, i + 1)
    }
}

/// Everything after the first header/body separator, if the text has one.
pub open spec fn body_of(s: Seq<char>) -> Option<Seq<char>> {
    match first_sep(s, 0) {
        Some(j) => Some(s.subrange(j + 4, s.len() as int)),
        None => None,
    }
}

/// The text after the first blank-line separator, or `None` when the text
/// has no such separator.
pub fn split_at_sep<'a>(s: &'a str) -> (r: Option<&'a str>)
    ensures
        match r {
            Some(b) => body_of(s@) == Some(b@),
            None => body_of(s@) is None,
        },
{
    let n = s.unicode_len();
    if n < 4 {
        assert(first_sep(s@, 0) is None);
        return None;
    }
    let mut i: usize = 0;
    while i <= n - 4
        invariant
            4 <= n == s@.len(),
            0 <= i <= n - 3,
            first_sep(s@, 0) == first_sep(s@, i as int),
        decreases n - i,
    {
        if s.get_char(i) == '\r' && s.get_char(i + 1) == '\n' && s.get_char(i + 2) == '\r'
            && s.get_char(i + 3) == '\n' {
            assert(sep_at(s@, i as int));
            assert(first_sep(s@, i as int) == Some(i as int));
            return Some(s.substring_char(i + 4, n));
        }
        assert(!sep_at(s@, i as int));
        assert(first_sep(s@, i as int) == first_sep(s@, i + 1));
        i = i + 1;
    }
    assert(first_sep(s@, i as int) is None);
    None
}

/// Law: every status line of the shape `HTTP/1.1 <code> <reason>` — with a
/// nonempty, whitespace-free code token and any reason text — has `<code>`
/// as its second token, so such a line round-trips through the status
/// parser: the parser recovers the code exactly.
pub proof fn lemma_status_line_token(code: Seq<char>, reason: Seq<char>)
    requires
        code.len() > 0,
        forall|k: int| 0 <= k < code.len() ==> !is_ws(code[k]),
    ensures
        second_token("HTTP/1.1 "@ + code + " "@ + reason) == Some(code),
{
    reveal_strlit("HTTP/1.1 ");
    reveal_strlit(" ");
    let s = "HTTP/1.1 "@ + code + " "@ + reason;
    let c = code.len() as int;
    assert forall|k: int| 0 <= k < 8 implies !is_ws(#[trigger] s[k]) by {
        assert(s[k] == "HTTP/1.1 "@[k]);
        if k == 0 {
        } else if k == 1 {
        } else if k == 2 {
        } else if k == 3 {
        } else if k == 4 {
        } else if k == 5 {
        } else if k == 6 {
        } else {
            assert(k == 7);
        }
    }
    assert(s[8] == ' ');
    assert(is_ws(s[8]));
    assert(ws_end(s, 0) == 0);
    lemma_token_end_skip(s, 0, 8);
    assert(token_end(s, 8) == 8);
    assert(token_end(s, 0) == 8);
    assert(ws_end(s, 8) == ws_end(s, 9));
    assert forall|k: int| 9 <= k < 9 + c implies !is_ws(#[trigger] s[k]) by {
        assert(s[k] == code[k - 9]);
    }
    assert(!is_ws(s[9]));
    assert(ws_end(s, 9) == 9);
    lemma_token_end_skip(s, 9, 9 + c);
    assert(s[9 + c] == ' ');
    assert(token_end(s, 9 + c) == 9 + c);
    assert(token_end(s, 9) == 9 + c);
    assert(9 < s.len());
    assert(s.subrange(9, 9 + c) =~= code);
}

/// Character-by-character equality of two text slices.
pub fn str_eq(a: &str, b: &str) -> (r: bool)
    ensures
        r == (a@ == b@),
{
    let na = a.unicode_len();
    let nb = b.unicode_len();
    if na != nb {
        return false;
    }
    let mut i: usize = 0;
    while i < na
        invariant
            na == a@.len(),
            nb == b@.len(),
            na == nb,
            0 <= i <= na,
            forall|k: int| 0 <= k < i ==> a@[k] == b@[k],
        decreases na - i,
    {
        if a.get_char(i) != b.get_char(i) {
            return false;
        }
        i = i + 1;
    }
    proof {
        assert(a@ =~= b@);
    }
    true
}

} // verus!
