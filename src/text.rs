use vstd::prelude::*;
use vstd::string::*;

verus! {

/// `s` without one trailing line feed, then without one trailing carriage return.
pub open spec fn cleaned(s: Seq<char>) -> Seq<char> {
    let a = if s.len() > 0 && s.last() == '\n' { s.drop_last() } else { s };
    if a.len() > 0 && a.last() == '\r' { a.drop_last() } else { a }
}

/// Whether `c` is white space, as `char::is_whitespace` decides: the characters with the
/// Unicode `White_Space` property.
pub open spec fn is_space(c: char) -> bool {
    ('\u{9}' <= c <= '\u{d}') || c == ' ' || c == '\u{85}' || c == '\u{a0}' || c == '\u{1680}'
        || ('\u{2000}' <= c <= '\u{200a}') || c == '\u{2028}' || c == '\u{2029}' || c
        == '\u{202f}' || c == '\u{205f}' || c == '\u{3000}'
}

/// Index of the first white space of `s` at or after `i`, or the length of `s`.
pub open spec fn token_end(s: Seq<char>, i: int) -> int
    decreases s.len() - i,
{
    if i >= s.len() {
        s.len() as int
    } else if is_space(s[i]) {
        i
    } else {
        token_end(s, i + 1)
    }
}

/// Index of the first character of `s` at or after `i` that is not white space, or the
/// length of `s`.
pub open spec fn skip_spaces(s: Seq<char>, i: int) -> int
    decreases s.len() - i,
{
    if i >= s.len() {
        s.len() as int
    } else if !is_space(s[i]) {
        i
    } else {
        skip_spaces(s, i + 1)
    }
}

/// The first whitespace-delimited token of `s` (empty when `s` is only white space).
pub open spec fn first_token(s: Seq<char>) -> Seq<char> {
    let a = skip_spaces(s, 0);
    s.subrange(a, token_end(s, a))
}

/// The second whitespace-delimited token of `s`, if it has one.
pub open spec fn second_token(s: Seq<char>) -> Option<Seq<char>> {
    let a = skip_spaces(s, 0);
    let b = skip_spaces(s, token_end(s, a));
    if b >= s.len() {
        None
    } else {
        Some(s.subrange(b, token_end(s, b)))
    }
}

pub open spec fn register_word() -> Seq<char> {
    "/register"@
}

pub open spec fn unregister_word() -> Seq<char> {
    "/unregister"@
}

/// A body is a command when its first whitespace-delimited token is one of the allowed
/// command words.
pub open spec fn is_command(s: Seq<char>) -> bool {
    let t = first_token(s);
    t == "/register"@ || t == "/unregister"@ || t == "/add_device"@ || t == "/rm_device"@ || t
        == "/link"@
}

pub proof fn lemma_token_end_bounds(s: Seq<char>, i: int)
    requires
        0 <= i <= s.len(),
    ensures
        i <= token_end(s, i) <= s.len(),
    decreases s.len() - i,
{
    if i < s.len() && !is_space(s[i]) {
        lemma_token_end_bounds(s, i + 1);
    }
}

pub proof fn lemma_skip_spaces_bounds(s: Seq<char>, i: int)
    requires
        0 <= i <= s.len(),
    ensures
        i <= skip_spaces(s, i) <= s.len(),
    decreases s.len() - i,
{
    if i < s.len() && is_space(s[i]) {
        lemma_skip_spaces_bounds(s, i + 1);
    }
}

pub proof fn lemma_token_end_skip(s: Seq<char>, i: int, j: int)
    requires
        0 <= i <= j <= s.len(),
        forall|k: int| i <= k < j ==> !is_space(s[k]),
    ensures
        token_end(s, i) == token_end(s, j),
    decreases j - i,
{
    if i < j {
        lemma_token_end_skip(s, i + 1, j);
    }
}

/// A body `/register u`, for a non-empty `u` without white space, is a command whose
/// first token is `/register` and whose second token is `u`.
pub proof fn lemma_register_body(u: Seq<char>)
    requires
        u.len() > 0,
        forall|k: int| 0 <= k < u.len() ==> !is_space(#[trigger] u[k]),
    ensures
        ({
            let body = register_word() + seq![' '] + u;
            &&& first_token(body) == register_word()
            &&& second_token(body) == Some(u)
            &&& is_command(body)
        }),
{
    reveal_strlit("/register");
    let body = register_word() + seq![' '] + u;
    assert(register_word().len() == 9);
    assert(body[0] == '/');
    assert(skip_spaces(body, 0) == 0);
    assert(body[9] == ' ');
    assert forall|k: int| 0 <= k < 9 implies !is_space(body[k]) by {
        assert(body[k] == register_word()[k]);
    }
    lemma_token_end_skip(body, 0, 9);
    assert(token_end(body, 0) == 9);
    assert(body.subrange(0, 9) =~= register_word());
    assert(body[10] == u[0]);
    assert(skip_spaces(body, 10) == 10);
    assert(skip_spaces(body, 9) == 10);
    assert forall|k: int| 10 <= k < body.len() implies !is_space(body[k]) by {
        assert(body[k] == u[k - 10]);
    }
    lemma_token_end_skip(body, 10, body.len() as int);
    assert(body.subrange(10, body.len() as int) =~= u);
}

/// Whether every character of `s` is an ASCII digit.
pub open spec fn is_digits(s: Seq<char>) -> bool {
    forall|k: int| 0 <= k < s.len() ==> '0' <= #[trigger] s[k] <= '9'
}

/// The value of a text of decimal digits.
pub open spec fn digits_value(s: Seq<char>) -> nat
    decreases s.len(),
{
    if s.len() == 0 {
        0
    } else {
        digits_value(s.drop_last()) * 10 + ((s.last() as u32) - 48) as nat
    }
}

/// The number that a decimal text denotes: an optional `+`, then at least one digit.
pub open spec fn decimal_of(s: Seq<char>) -> Option<nat> {
    let d = if s.len() > 0 && s[0] == '+' {
        s.subrange(1, s.len() as int)
    } else {
        s
    };
    if d.len() > 0 && is_digits(d) {
        Some(digits_value(d))
    } else {
        None
    }
}

pub proof fn lemma_digits_prefix(d: Seq<char>, j: int)
    requires
        0 <= j <= d.len(),
        is_digits(d),
    ensures
        digits_value(d.subrange(0, j)) <= digits_value(d),
    decreases d.len(),
{
    if j < d.len() {
        let f = d.drop_last();
        assert(is_digits(f)) by {
            assert forall|k: int| 0 <= k < f.len() implies '0' <= #[trigger] f[k] <= '9' by {
                assert(f[k] == d[k]);
            }
        }
        lemma_digits_prefix(f, j);
        assert(f.subrange(0, j) =~= d.subrange(0, j));
    } else {
        assert(d.subrange(0, j) =~= d);
    }
}

/// Reads a `u64` written in decimal, as `str::parse::<u64>` does: an optional `+`, then
/// digits only, and a value that fits.
pub fn parse_u64(s: &str) -> (r: Option<u64>)
    ensures
        r matches Some(v) ==> decimal_of(s@) == Some(v as nat),
        r is None ==> (decimal_of(s@) matches Some(v) ==> v > u64::MAX),
{
    let n = s.unicode_len();
    let start: usize = if n > 0 && s.get_char(0) == '+' {
        1
    } else {
        0
    };
    let ghost d = if s@.len() > 0 && s@[0] == '+' {
        s@.subrange(1, s@.len() as int)
    } else {
        s@
    };
    assert(d =~= s@.subrange(start as int, n as int));
    assert(decimal_of(s@) == (if d.len() > 0 && is_digits(d) {
        Some(digits_value(d))
    } else {
        None
    }));
    if start >= n {
        return None;
    }
    let mut value: u64 = 0;
    let mut i: usize = start;
    while i < n
        invariant
            start <= i <= n,
            n == s@.len(),
            d == s@.subrange(start as int, n as int),
            d.len() > 0,
            decimal_of(s@) == (if is_digits(d) {
                Some(digits_value(d))
            } else {
                None
            }),
            is_digits(s@.subrange(start as int, i as int)),
            value as nat == digits_value(s@.subrange(start as int, i as int)),
        decreases n - i,
    {
        let c = s.get_char(i);
        if c < '0' || c > '9' {
            assert(d[i - start] == c);
            assert(!is_digits(d));
            return None;
        }
        let digit: u64 = ((c as u32) - 48) as u64;
        let ghost next = s@.subrange(start as int, i + 1);
        assert(next.drop_last() =~= s@.subrange(start as int, i as int));
        assert(is_digits(next)) by {
            assert forall|k: int| 0 <= k < next.len() implies '0' <= #[trigger] next[k] <= '9' by {
                if k < next.len() - 1 {
                    assert(next[k] == s@.subrange(start as int, i as int)[k]);
                }
            }
        }
        if value > 1844674407370955161 || (value == 1844674407370955161 && digit > 5) {
            proof {
                assert(digits_value(next) > u64::MAX) by (nonlinear_arith)
                    requires
                        digits_value(next) == value * 10 + digit,
                        value > 1844674407370955161 || (value == 1844674407370955161 && digit
                            > 5),
                ;
                if is_digits(d) {
                    assert(next =~= d.subrange(0, i + 1 - start));
                    lemma_digits_prefix(d, i + 1 - start);
                }
            }
            return None;
        }
        assert(value * 10 + digit <= u64::MAX) by (nonlinear_arith)
            requires
                !(value > 1844674407370955161 || (value == 1844674407370955161 && digit > 5)),
                digit <= 9,
        ;
        value = value * 10 + digit;
        i = i + 1;
    }
    Some(value)
}

/// Whether `c` is white space, as `char::is_whitespace` decides.
pub fn is_space_char(c: char) -> (r: bool)
    ensures
        r == is_space(c),
{
    ('\u{9}' <= c && c <= '\u{d}') || c == ' ' || c == '\u{85}' || c == '\u{a0}' || c
        == '\u{1680}' || ('\u{2000}' <= c && c <= '\u{200a}') || c == '\u{2028}' || c
        == '\u{2029}' || c == '\u{202f}' || c == '\u{205f}' || c == '\u{3000}'
}

/// Position of the first white space of `s` at or after `from`.
pub fn find_token_end(s: &str, from: usize) -> (r: usize)
    requires
        from <= s@.len(),
    ensures
        r == token_end(s@, from as int),
{
    let n = s.unicode_len();
    let mut i = from;
    while i < n && !is_space_char(s.get_char(i))
        invariant
            from <= i <= n,
            n == s@.len(),
            token_end(s@, from as int) == token_end(s@, i as int),
        decreases n - i,
    {
        i = i + 1;
    }
    i
}

/// Position of the first character of `s` at or after `from` that is not white space.
pub fn skip_whitespace(s: &str, from: usize) -> (r: usize)
    requires
        from <= s@.len(),
    ensures
        r == skip_spaces(s@, from as int),
{
    let n = s.unicode_len();
    let mut i = from;
    while i < n && is_space_char(s.get_char(i))
        invariant
            from <= i <= n,
            n == s@.len(),
            skip_spaces(s@, from as int) == skip_spaces(s@, i as int),
        decreases n - i,
    {
        i = i + 1;
    }
    i
}

/// Removes one trailing line feed, then one trailing carriage return.
pub fn clean_string(string: String) -> (r: String)
    ensures
        r@ == cleaned(string@),
{
    let s = string.as_str();
    let n = s.unicode_len();
    let mut end = n;
    if end > 0 && s.get_char(end - 1) == '\n' {
        end = end - 1;
    }
    if end > 0 && s.get_char(end - 1) == '\r' {
        end = end - 1;
    }
    let r = String::from_str(s.substring_char(0, end));
    assert(r@ =~= cleaned(string@));
    r
}

/// The first whitespace-delimited token of `text`, as a new string.
pub fn first_token_of(text: &str) -> (r: String)
    ensures
        r@ == first_token(text@),
{
    proof {
        lemma_skip_spaces_bounds(text@, 0);
    }
    let a = skip_whitespace(text, 0);
    proof {
        lemma_token_end_bounds(text@, a as int);
    }
    let e = find_token_end(text, a);
    String::from_str(text.substring_char(a, e))
}

/// The second whitespace-delimited token of `text`, if it has one.
pub fn second_token_of(text: &str) -> (r: Option<String>)
    ensures
        r matches Some(t) ==> second_token(text@) == Some(t@),
        r is None ==> second_token(text@) is None,
{
    proof {
        lemma_skip_spaces_bounds(text@, 0);
    }
    let n = text.unicode_len();
    let a = skip_whitespace(text, 0);
    proof {
        lemma_token_end_bounds(text@, a as int);
    }
    let e = find_token_end(text, a);
    proof {
        lemma_skip_spaces_bounds(text@, e as int);
    }
    let b = skip_whitespace(text, e);
    if b >= n {
        None
    } else {
        proof {
            lemma_token_end_bounds(text@, b as int);
        }
        let f = find_token_end(text, b);
        Some(String::from_str(text.substring_char(b, f)))
    }
}

/// Whether `text` starts with one of the allowed command words.
pub fn command_word(text: &str) -> (r: bool)
    ensures
        r == is_command(text@),
{
    let t = first_token_of(text);
    let register = String::from_str("/register");
    let unregister = String::from_str("/unregister");
    let add_device = String::from_str("/add_device");
    let rm_device = String::from_str("/rm_device");
    let link = String::from_str("/link");
    t == register || t == unregister || t == add_device || t == rm_device || t == link
}

} // verus!
