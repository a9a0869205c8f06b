//! Conversion of `PascalCase` / `camelCase` identifiers to `snake_case`.

use vstd::prelude::*;

verus! {

/// What `char::is_uppercase` returns for `c` (the Unicode `Uppercase` property).
pub uninterp spec fn is_upper_char(c: char) -> bool;

/// What `char::is_lowercase` returns for `c` (the Unicode `Lowercase` property).
pub uninterp spec fn is_lower_char(c: char) -> bool;

/// The first char that `char::to_lowercase` yields for `c`.
pub uninterp spec fn lower_first_char(c: char) -> char;

/// An ASCII letter `A`..=`Z`.
pub open spec fn is_ascii_upper(c: char) -> bool {
    'A' <= c && c <= 'Z'
}

/// An ASCII letter `a`..=`z`.
pub open spec fn is_ascii_lower(c: char) -> bool {
    'a' <= c && c <= 'z'
}

/// What `char` reports on every ASCII char: `A`..=`Z` and nothing else is
/// uppercase, `A`..=`Z` lowercase to `a`..=`z`, every other ASCII char to
/// itself.
pub open spec fn ascii_case_facts() -> bool {
    &&& forall|c: char| c <= '\x7f' ==> (#[trigger] is_upper_char(c) <==> is_ascii_upper(c))
    &&& forall|c: char|
        c <= '\x7f' ==> (is_ascii_upper(c) ==> (#[trigger] lower_first_char(c)) as u32 == c as u32
            + 32) && (!is_ascii_upper(c) ==> lower_first_char(c) == c)
}

/// Establishes [`ascii_case_facts`] by asking `char` about each ASCII char.
pub fn ascii_case_behaviour()
    ensures
        ascii_case_facts(),
{
    let mut code: u32 = 0;
    while code < 128
        invariant
            code <= 128,
            forall|c: char| (c as u32) < code ==> (#[trigger] is_upper_char(c) <==> is_ascii_upper(c)),
            forall|c: char|
                (c as u32) < code ==> (is_ascii_upper(c) ==> (#[trigger] lower_first_char(c)) as u32
                    == c as u32 + 32) && (!is_ascii_upper(c) ==> lower_first_char(c) == c),
        decreases 128 - code,
    {
        let c = (code as u8) as char;
        assert(c as u32 == code);
        let _ = char_is_uppercase(c);
        let _ = char_to_lowercase_first(c);
        proof {
            assert forall|d: char| (d as u32) < code + 1 implies (is_upper_char(d) <==> is_ascii_upper(d)) by {
                if d as u32 == code {
                    vstd::utf8::char_u32_cast(d, code);
                    vstd::utf8::char_u32_cast(c, code);
                    assert(d == c);
                }
            }
            assert forall|d: char| (d as u32) < code + 1 implies (is_ascii_upper(d) ==> lower_first_char(d) as u32
                == d as u32 + 32) && (!is_ascii_upper(d) ==> lower_first_char(d) == d) by {
                if d as u32 == code {
                    vstd::utf8::char_u32_cast(d, code);
                    vstd::utf8::char_u32_cast(c, code);
                    assert(d == c);
                }
            }
        }
        code += 1;
    }
    assert forall|c: char| c <= '\x7f' implies (#[trigger] is_upper_char(c) <==> is_ascii_upper(c)) by {
        vstd::utf8::char_u32_cast(c, c as u32);
    }
    assert forall|c: char|
        c <= '\x7f' implies (is_ascii_upper(c) ==> (#[trigger] lower_first_char(c)) as u32 == c as u32
            + 32) && (!is_ascii_upper(c) ==> lower_first_char(c) == c) by {
        vstd::utf8::char_u32_cast(c, c as u32);
    }
}

/// Calls `char::is_uppercase`. Claimed: the result is the named property
/// `is_upper_char(c)`, and on ASCII it holds exactly of `A`..=`Z`.
#[verifier::external_body]
pub(crate) fn char_is_uppercase(c: char) -> (r: bool)
    ensures
        r == is_upper_char(c),
        c <= '\x7f' ==> (r <==> is_ascii_upper(c)),
{
    c.is_uppercase()
}

/// Calls `char::is_lowercase`. Claimed: the result is the named property
/// `is_lower_char(c)`, and on ASCII it holds exactly of `a`..=`z`.
#[verifier::external_body]
pub(crate) fn char_is_lowercase(c: char) -> (r: bool)
    ensures
        r == is_lower_char(c),
        c <= '\x7f' ==> (r <==> is_ascii_lower(c)),
{
    c.is_lowercase()
}

/// Calls `char::to_lowercase` and takes the first char of the mapping (the
/// documentation promises one or more chars). Claimed: the result is the
/// named `lower_first_char(c)`; on ASCII, `A`..=`Z` map to `a`..=`z` and every
/// other ASCII char maps to itself.
#[verifier::external_body]
pub(crate) fn char_to_lowercase_first(c: char) -> (r: char)
    ensures
        r == lower_first_char(c),
        is_ascii_upper(c) ==> r as u32 == c as u32 + 32,
        c <= '\x7f' && !is_ascii_upper(c) ==> r == c,
{
    c.to_lowercase().next().unwrap()
}

/// Calls `String::push`: appends one char.
#[verifier::external_body]
pub(crate) fn push_char(s: &mut String, c: char)
    ensures
        final(s)@ == old(s)@.push(c),
{
    s.push(c)
}

/// Whether position `i` of `s` gets an underscore in front of it: it holds an
/// uppercase char, is not the first position, and the char before it or the
/// char after it is lowercase.
pub open spec fn needs_underscore(s: Seq<char>, i: int) -> bool {
    &&& is_upper_char(s[i])
    &&& i > 0
    &&& (is_lower_char(s[i - 1]) || (i + 1 < s.len() && is_lower_char(s[i + 1])))
}

/// What position `i` of `s` turns into.
pub open spec fn snake_piece(s: Seq<char>, i: int) -> Seq<char> {
    if is_upper_char(s[i]) {
        if needs_underscore(s, i) {
            seq!['_', lower_first_char(s[i])]
        } else {
            seq![lower_first_char(s[i])]
        }
    } else {
        seq![s[i]]
    }
}

/// The conversion of the first `n` positions of `s`.
pub open spec fn snake_case_prefix(s: Seq<char>, n: int) -> Seq<char>
    decreases n,
{
    if n <= 0 {
        seq![]
    } else {
        snake_case_prefix(s, n - 1) + snake_piece(s, n - 1)
    }
}

/// `s` in snake_case: each uppercase char is lowercased, and an underscore
/// goes in front of it where `needs_underscore` says so.
pub open spec fn snake_case(s: Seq<char>) -> Seq<char> {
    snake_case_prefix(s, s.len() as int)
}

/// Collects the chars of `s`.
fn chars_of(s: &str) -> (v: Vec<char>)
    ensures
        v@ == s@,
{
    let mut v: Vec<char> = Vec::new();
    for c in it: s.chars()
        invariant
            it.seq() == s@,
            v@ == it.seq().take(it.index() as int),
    {
        v.push(c);
    }
    v
}

/// Converts `PascalCase` or `camelCase` to `snake_case`.
///
/// Acronyms stay together: `FSMState` gives `fsm_state`, `HTTPServer` gives
/// `http_server`.
pub fn to_snake_case(s: &str) -> (r: String)
    ensures
        r@ == snake_case(s@),
{
    let mut result = String::new();
    let chars = chars_of(s);
    let n = chars.len();
    let mut i: usize = 0;
    while i < n
        invariant
            n == chars@.len(),
            chars@ == s@,
            i <= n,
            result@ == snake_case_prefix(s@, i as int),
        decreases n - i,
    {
        let ch = chars[i];
        if char_is_uppercase(ch) {
            let is_first = i == 0;
            let prev_is_lower = i > 0 && char_is_lowercase(chars[i - 1]);
            let next_is_lower = i + 1 < n && char_is_lowercase(chars[i + 1]);
            if !is_first && (prev_is_lower || next_is_lower) {
                push_char(&mut result, '_');
            }
            push_char(&mut result, char_to_lowercase_first(ch));
        } else {
            push_char(&mut result, ch);
        }
        i += 1;
    }
    result
}

} // verus!
