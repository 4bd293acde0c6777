//! What the player endpoints decide, apart from storage.

use vstd::prelude::*;
use crate::text::owned;

verus! {

/// The characters with the Unicode White_Space property, the white space
/// of `char::is_whitespace` and `str::trim`.
pub open spec fn is_white_space(c: char) -> bool {
    let v = c as u32;
    ||| 0x9 <= v <= 0xd
    ||| v == 0x20
    ||| v == 0x85
    ||| v == 0xa0
    ||| v == 0x1680
    ||| 0x2000 <= v <= 0x200a
    ||| v == 0x2028
    ||| v == 0x2029
    ||| v == 0x202f
    ||| v == 0x205f
    ||| v == 0x3000
}

/// How many white space characters the string starts with.
pub open spec fn leading_ws(s: Seq<char>) -> nat
    decreases s.len(),
{
    if s.len() == 0 || !is_white_space(s[0]) {
        0
    } else {
        1 + leading_ws(s.drop_first())
    }
}

/// How many white space characters the string ends with.
pub open spec fn trailing_ws(s: Seq<char>) -> nat
    decreases s.len(),
{
    if s.len() == 0 || !is_white_space(s.last()) {
        0
    } else {
        1 + trailing_ws(s.drop_last())
    }
}

/// The string without its leading and trailing white space.
pub open spec fn trimmed(s: Seq<char>) -> Seq<char> {
    if leading_ws(s) == s.len() {
        Seq::empty()
    } else {
        s.subrange(leading_ws(s) as int, s.len() - trailing_ws(s))
    }
}

proof fn lemma_leading_ws(s: Seq<char>, i: int)
    requires
        0 <= i <= s.len(),
        forall|k: int| 0 <= k < i ==> is_white_space(#[trigger] s[k]),
        i == s.len() || !is_white_space(s[i]),
    ensures
        leading_ws(s) == i,
    decreases i,
{
    if i > 0 {
        let t = s.drop_first();
        assert forall|k: int| 0 <= k < i - 1 implies is_white_space(#[trigger] t[k]) by {
            assert(t[k] == s[k + 1]);
        }
        if i < s.len() {
            assert(t[i - 1] == s[i]);
        }
        lemma_leading_ws(t, i - 1);
    }
}

proof fn lemma_trailing_ws(s: Seq<char>, j: int)
    requires
        0 <= j <= s.len(),
        forall|k: int| j <= k < s.len() ==> is_white_space(#[trigger] s[k]),
        j == 0 || !is_white_space(s[j - 1]),
    ensures
        trailing_ws(s) == s.len() - j,
    decreases s.len() - j,
{
    if j < s.len() {
        let t = s.drop_last();
        assert forall|k: int| j <= k < t.len() implies is_white_space(#[trigger] t[k]) by {
            assert(t[k] == s[k]);
        }
        if j > 0 {
            assert(t[j - 1] == s[j - 1]);
        }
        assert(is_white_space(s[s.len() - 1]));
        lemma_trailing_ws(t, j);
    }
}

/// Among ASCII characters, white space is exactly tab, line feed, vertical
/// tab, form feed, carriage return and space.
pub proof fn lemma_ascii_white_space(c: char)
    requires
        (c as u32) < 128,
    ensures
        is_white_space(c) <==> (c == '\t' || c == '\n' || c == '\u{b}' || c == '\u{c}' || c == '\r' || c == ' '),
{
}

/// White space beyond ASCII: next line, no-break space, Ogham space mark,
/// the en quad to hair space block, line and paragraph separators, narrow
/// no-break space, medium mathematical space and ideographic space, and
/// nothing else at or above U+0080.
pub proof fn lemma_non_ascii_white_space(c: char)
    requires
        (c as u32) >= 128,
    ensures
        is_white_space(c) <==> (c == '\u{85}' || c == '\u{a0}' || c == '\u{1680}'
            || ('\u{2000}' as u32 <= c as u32 && c as u32 <= '\u{200a}' as u32)
            || c == '\u{2028}' || c == '\u{2029}' || c == '\u{202f}' || c == '\u{205f}' || c == '\u{3000}'),
{
}

proof fn lemma_leading_ws_shape(s: Seq<char>)
    ensures
        leading_ws(s) <= s.len(),
        forall|k: int| 0 <= k < leading_ws(s) ==> is_white_space(#[trigger] s[k]),
        leading_ws(s) < s.len() ==> !is_white_space(s[leading_ws(s) as int]),
    decreases s.len(),
{
    if s.len() > 0 && is_white_space(s[0]) {
        let t = s.drop_first();
        lemma_leading_ws_shape(t);
        assert forall|k: int| 0 <= k < leading_ws(s) implies is_white_space(#[trigger] s[k]) by {
            if k > 0 {
                assert(s[k] == t[k - 1]);
            }
        }
        if leading_ws(s) < s.len() {
            assert(s[leading_ws(s) as int] == t[leading_ws(t) as int]);
        }
    }
}

proof fn lemma_trailing_ws_shape(s: Seq<char>)
    ensures
        trailing_ws(s) <= s.len(),
        forall|k: int| s.len() - trailing_ws(s) <= k < s.len() ==> is_white_space(#[trigger] s[k]),
        trailing_ws(s) < s.len() ==> !is_white_space(s[s.len() - trailing_ws(s) - 1]),
    decreases s.len(),
{
    if s.len() > 0 && is_white_space(s.last()) {
        let t = s.drop_last();
        lemma_trailing_ws_shape(t);
        assert forall|k: int| s.len() - trailing_ws(s) <= k < s.len() implies is_white_space(#[trigger] s[k]) by {
            if k < s.len() - 1 {
                assert(s[k] == t[k]);
            }
        }
        if trailing_ws(s) < s.len() {
            assert(s[s.len() - trailing_ws(s) - 1] == t[t.len() - trailing_ws(t) - 1]);
        }
    }
}

/// Trimming keeps a contiguous part of the string: everything cut off at
/// either end is white space, and what is kept, when anything is, starts and
/// ends with a character that is not white space.
pub proof fn lemma_trimmed_shape(s: Seq<char>)
    ensures
        exists|i: int, j: int|
            #![trigger s.subrange(i, j)]
            0 <= i <= j <= s.len() && trimmed(s) == s.subrange(i, j)
                && (forall|k: int| 0 <= k < i ==> is_white_space(#[trigger] s[k]))
                && (forall|k: int| j <= k < s.len() ==> is_white_space(#[trigger] s[k]))
                && (i < j ==> !is_white_space(s[i]) && !is_white_space(s[j - 1])),
{
    lemma_leading_ws_shape(s);
    lemma_trailing_ws_shape(s);
    let n = s.len() as int;
    let i = leading_ws(s) as int;
    if i == n {
        assert(trimmed(s) =~= s.subrange(n, n));
        assert(0 <= n <= n <= s.len() && trimmed(s) == s.subrange(n, n));
    } else {
        let j = n - trailing_ws(s);
        // the first character that is not white space stops the trailing run
        assert(j > i) by {
            if j <= i {
                assert(is_white_space(s[i]));
            }
        }
        assert(trimmed(s) == s.subrange(i, j));
    }
}

/// Whether a character has the Unicode White_Space property.
fn white_space(c: char) -> (r: bool)
    ensures
        r == is_white_space(c),
{
    let v = c as u32;
    (0x9 <= v && v <= 0xd) || v == 0x20 || v == 0x85 || v == 0xa0 || v == 0x1680
        || (0x2000 <= v && v <= 0x200a) || v == 0x2028 || v == 0x2029 || v == 0x202f
        || v == 0x205f || v == 0x3000
}

/// Removes leading and trailing white space (what `str::trim` does).
fn trim_white_space(s: &str) -> (r: String)
    ensures
        r@ == trimmed(s@),
{
    let n = s.unicode_len();
    let mut i: usize = 0;
    while i < n
        invariant
            n == s@.len(),
            i <= n,
            forall|k: int| 0 <= k < i ==> is_white_space(#[trigger] s@[k]),
        ensures
            i <= n,
            forall|k: int| 0 <= k < i ==> is_white_space(#[trigger] s@[k]),
            i == n || !is_white_space(s@[i as int]),
        decreases n - i,
    {
        if !white_space(s.get_char(i)) {
            break;
        }
        i += 1;
    }
    proof {
        lemma_leading_ws(s@, i as int);
    }
    if i == n {
        return String::new();
    }
    let mut j: usize = n;
    while j > i
        invariant
            n == s@.len(),
            i < j <= n || j == i,
            i < n,
            !is_white_space(s@[i as int]),
            forall|k: int| j <= k < n ==> is_white_space(#[trigger] s@[k]),
        ensures
            i < j <= n,
            forall|k: int| j <= k < n ==> is_white_space(#[trigger] s@[k]),
            !is_white_space(s@[j - 1]),
        decreases j,
    {
        if !white_space(s.get_char(j - 1)) {
            break;
        }
        j -= 1;
    }
    proof {
        lemma_trailing_ws(s@, j as int);
    }
    owned(s.substring_char(i, j))
}

/// The username a create-player request asks for: the request's name with
/// surrounding white space removed, refused when nothing is left.
pub fn normalize_username(raw: &str) -> (r: Result<String, String>)
    ensures
        match r {
            Ok(name) => {
                &&& name@ == trimmed(raw@)
                &&& name@.len() > 0
                &&& !is_white_space(name@[0])
                &&& !is_white_space(name@.last())
            },
            Err(e) => trimmed(raw@).len() == 0 && e@ == "Username cannot be empty"@,
        },
{
    let username = trim_white_space(raw);
    proof {
        lemma_trimmed_shape(raw@);
    }
    if username.as_str().unicode_len() == 0 {
        return Err(owned("Username cannot be empty"));
    }
    Ok(username)
}

} // verus!
