//! Locating a token in a document's text.
//!
//! When a file parses but violates a record schema, the underlying parser
//! reports no position — its document tree keeps no spans.  The offending
//! token's line and column are therefore found by a verified scan of the
//! already-valid text: the first place the blamed field name is written as
//! an object key (a quoted occurrence outside any string literal, followed
//! by a colon — in valid JSON only keys are followed by a colon), or, for a
//! violation of the record root itself, the first character of the root
//! value.  A name that cannot be written without escapes is not found, and
//! then no location is reported.

use vstd::prelude::*;
use vstd::string::*;

verus! {

/// JSON's insignificant whitespace.
pub open spec fn is_ws(c: char) -> bool {
    c == ' ' || c == '\t' || c == '\n' || c == '\r'
}

/// The string-literal lexing state after the first `i` characters: whether
/// position `i` lies inside a string literal, and whether the character
/// there is escaped.
pub open spec fn lex_state(text: Seq<char>, i: int) -> (bool, bool)
    decreases i,
{
    if i <= 0 {
        (false, false)
    } else {
        let s = lex_state(text, i - 1);
        let c = text[i - 1];
        if s.0 {
            if s.1 {
                (true, false)
            } else if c == '\\' {
                (true, true)
            } else if c == '"' {
                (false, false)
            } else {
                (true, false)
            }
        } else {
            if c == '"' {
                (true, false)
            } else {
                (false, false)
            }
        }
    }
}

/// After any run of whitespace starting at `k`, the next character is a
/// colon.
pub open spec fn colon_follows(text: Seq<char>, k: int) -> bool
    decreases text.len() - k,
{
    if k < 0 || k >= text.len() {
        false
    } else if is_ws(text[k]) {
        colon_follows(text, k + 1)
    } else {
        text[k] == ':'
    }
}

/// `name` is written as an object key starting at offset `i`.
pub open spec fn is_key_at(text: Seq<char>, name: Seq<char>, i: int) -> bool {
    &&& 0 <= i
    &&& i + name.len() + 2 <= text.len()
    &&& !lex_state(text, i).0
    &&& text[i] == '"'
    &&& text.subrange(i + 1, i + 1 + name.len()) == name
    &&& text[i + 1 + name.len()] == '"'
    &&& colon_follows(text, i + 2 + name.len())
}

/// The first offset at or after `i` where `name` is written as a key.
pub open spec fn first_key_from(text: Seq<char>, name: Seq<char>, i: int) -> Option<int>
    decreases text.len() - i,
{
    if i < 0 || i >= text.len() {
        None
    } else if is_key_at(text, name, i) {
        Some(i)
    } else {
        first_key_from(text, name, i + 1)
    }
}

/// The first offset at or after `i` holding a non-whitespace character.
pub open spec fn first_non_ws(text: Seq<char>, i: int) -> Option<int>
    decreases text.len() - i,
{
    if i < 0 || i >= text.len() {
        None
    } else if is_ws(text[i]) {
        first_non_ws(text, i + 1)
    } else {
        Some(i)
    }
}

/// The 1-based line of offset `i`.
pub open spec fn line_at(text: Seq<char>, i: int) -> int
    decreases i,
{
    if i <= 0 {
        1
    } else if text[i - 1] == '\n' {
        line_at(text, i - 1) + 1
    } else {
        line_at(text, i - 1)
    }
}

/// The 1-based column of offset `i`: characters since the last line break.
pub open spec fn col_at(text: Seq<char>, i: int) -> int
    decreases i,
{
    if i <= 0 {
        1
    } else if text[i - 1] == '\n' {
        1
    } else {
        col_at(text, i - 1) + 1
    }
}

/// Line and column of the first place `name` is written as a key, if any.
pub open spec fn key_location(text: Seq<char>, name: Seq<char>) -> Option<(usize, usize)> {
    match first_key_from(text, name, 0) {
        Option::None => Option::None,
        Option::Some(i) => Option::Some(
            (line_at(text, i) as usize, col_at(text, i) as usize),
        ),
    }
}

/// Line and column of the document's root value, if the text holds one.
pub open spec fn root_location(text: Seq<char>) -> Option<(usize, usize)> {
    match first_non_ws(text, 0) {
        Option::None => Option::None,
        Option::Some(i) => Option::Some(
            (line_at(text, i) as usize, col_at(text, i) as usize),
        ),
    }
}

/// The content of an optional owned string.
pub open spec fn opt_view(o: Option<String>) -> Option<Seq<char>> {
    match o {
        Option::Some(s) => Option::Some(s@),
        Option::None => Option::None,
    }
}

/// The location reported for a schema violation: where the blamed field
/// name is first written as a key, or the root token when the violation is
/// the record root's own.
pub open spec fn spec_blame_location(text: Seq<char>, blame: Option<Seq<char>>) -> Option<
    (usize, usize),
> {
    match blame {
        Option::None => root_location(text),
        Option::Some(name) => key_location(text, name),
    }
}

proof fn lemma_first_key_from_sound(text: Seq<char>, name: Seq<char>, j: int, i: int)
    requires
        first_key_from(text, name, j) == Some(i),
    ensures
        is_key_at(text, name, i),
        j <= i < text.len(),
    decreases text.len() - j,
{
    if 0 <= j < text.len() && !is_key_at(text, name, j) {
        lemma_first_key_from_sound(text, name, j + 1, i);
    }
}

proof fn lemma_first_non_ws_sound(text: Seq<char>, j: int, i: int)
    requires
        first_non_ws(text, j) == Some(i),
    ensures
        j <= i < text.len(),
    decreases text.len() - j,
{
    if 0 <= j < text.len() && is_ws(text[j]) {
        lemma_first_non_ws_sound(text, j + 1, i);
    }
}

/// Lines and columns are positive and never exceed the offset plus one.
proof fn lemma_line_col_bounds(text: Seq<char>, i: int)
    requires
        0 <= i,
    ensures
        1 <= line_at(text, i) <= i + 1,
        1 <= col_at(text, i) <= i + 1,
    decreases i,
{
    if i > 0 {
        lemma_line_col_bounds(text, i - 1);
    }
}

/// Decides whether everything of `is_key_at` beyond the lexing state holds
/// at offset `i`: the quoted name, its closing quote, and the colon after
/// optional whitespace.
fn key_body_matches(text: &str, name: &str, i: usize, len: usize, nlen: usize) -> (r: bool)
    requires
        len == text@.len(),
        nlen == name@.len(),
        i < len,
    ensures
        r == ({
            &&& i + nlen + 2 <= text@.len()
            &&& text@[i as int] == '"'
            &&& text@.subrange(i as int + 1, i as int + 1 + nlen) == name@
            &&& text@[i as int + 1 + nlen] == '"'
            &&& colon_follows(text@, i as int + 2 + nlen)
        }),
{
    let avail = len - i;
    if avail < 2 || nlen > avail - 2 {
        return false;
    }
    if text.get_char(i) != '"' {
        return false;
    }
    let mut k: usize = 0;
    loop
        invariant
            k <= nlen,
            len == text@.len(),
            nlen == name@.len(),
            i + nlen + 2 <= len,
            forall|t: int| 0 <= t < k ==> text@[i + 1 + t] == name@[t],
        ensures
            k == nlen,
            len == text@.len(),
            nlen == name@.len(),
            i + nlen + 2 <= len,
            forall|t: int| 0 <= t < nlen ==> text@[i + 1 + t] == name@[t],
        decreases nlen - k,
    {
        if k == nlen {
            break;
        }
        if text.get_char(i + 1 + k) != name.get_char(k) {
            proof {
                assert(text@.subrange(i as int + 1, i as int + 1 + nlen)[k as int] != name@[
                    k as int
                ]);
            }
            return false;
        }
        k = k + 1;
    }
    proof {
        assert(text@.subrange(i as int + 1, i as int + 1 + nlen) =~= name@);
    }
    if text.get_char(i + 1 + nlen) != '"' {
        return false;
    }
    let mut k2: usize = i + nlen + 2;
    loop
        invariant
            i + nlen + 2 <= k2 <= len,
            len == text@.len(),
            nlen == name@.len(),
            i + nlen + 2 <= len,
            text@.subrange(i as int + 1, i as int + 1 + nlen) == name@,
            text@[i as int] == '"',
            text@[i as int + 1 + nlen] == '"',
            colon_follows(text@, i as int + 2 + nlen) == colon_follows(text@, k2 as int),
        decreases len - k2,
    {
        if k2 == len {
            return false;
        }
        let c2 = text.get_char(k2);
        if !(c2 == ' ' || c2 == '\t' || c2 == '\n' || c2 == '\r') {
            return c2 == ':';
        }
        k2 = k2 + 1;
    }
}

/// Finds the offset where `name` is first written as a key, by one pass of
/// string-literal aware scanning.
fn find_key_index(text: &str, name: &str) -> (r: Option<usize>)
    ensures
        r matches Some(i) ==> first_key_from(text@, name@, 0) == Some(i as int),
        r is None ==> first_key_from(text@, name@, 0) is None,
{
    let len = text.unicode_len();
    let nlen = name.unicode_len();
    let mut i: usize = 0;
    let mut in_str = false;
    let mut esc = false;
    loop
        invariant
            i <= len,
            len == text@.len(),
            nlen == name@.len(),
            (in_str, esc) == lex_state(text@, i as int),
            first_key_from(text@, name@, 0) == first_key_from(text@, name@, i as int),
        decreases len - i,
    {
        if i == len {
            return None;
        }
        let c = text.get_char(i);
        if !in_str && c == '"' {
            if key_body_matches(text, name, i, len, nlen) {
                proof {
                    assert(is_key_at(text@, name@, i as int));
                }
                return Some(i);
            }
        }
        proof {
            assert(!is_key_at(text@, name@, i as int));
            assert(first_key_from(text@, name@, i as int) == first_key_from(
                text@,
                name@,
                i as int + 1,
            ));
        }
        if in_str {
            if esc {
                esc = false;
            } else if c == '\\' {
                esc = true;
            } else if c == '"' {
                in_str = false;
            }
        } else {
            if c == '"' {
                in_str = true;
            }
        }
        i = i + 1;
        proof {
            assert((in_str, esc) == lex_state(text@, i as int));
        }
    }
}

/// Finds the offset of the first non-whitespace character.
fn find_root_index(text: &str) -> (r: Option<usize>)
    ensures
        r matches Some(i) ==> first_non_ws(text@, 0) == Some(i as int),
        r is None ==> first_non_ws(text@, 0) is None,
{
    let len = text.unicode_len();
    let mut i: usize = 0;
    loop
        invariant
            i <= len,
            len == text@.len(),
            first_non_ws(text@, 0) == first_non_ws(text@, i as int),
        decreases len - i,
    {
        if i == len {
            return None;
        }
        let c = text.get_char(i);
        if !(c == ' ' || c == '\t' || c == '\n' || c == '\r') {
            return Some(i);
        }
        proof {
            assert(first_non_ws(text@, i as int) == first_non_ws(text@, i as int + 1));
        }
        i = i + 1;
    }
}

/// The line and column of offset `i`.
fn position_of(text: &str, i: usize, len: usize) -> (r: (usize, usize))
    requires
        len == text@.len(),
        i < len,
    ensures
        r.0 as int == line_at(text@, i as int),
        r.1 as int == col_at(text@, i as int),
{
    let mut k: usize = 0;
    let mut line: usize = 1;
    let mut col: usize = 1;
    loop
        invariant
            k <= i,
            i < len,
            len == text@.len(),
            line as int == line_at(text@, k as int),
            col as int == col_at(text@, k as int),
            line <= k + 1,
            col <= k + 1,
        decreases i - k,
    {
        if k == i {
            return (line, col);
        }
        if text.get_char(k) == '\n' {
            line = line + 1;
            col = 1;
        } else {
            col = col + 1;
        }
        k = k + 1;
        proof {
            assert(line as int == line_at(text@, k as int));
            assert(col as int == col_at(text@, k as int));
        }
    }
}

/// Finds where `name` is first written as a key, as a line and column.
pub fn find_key(text: &str, name: &str) -> (r: Option<(usize, usize)>)
    ensures
        r == key_location(text@, name@),
{
    match find_key_index(text, name) {
        Some(i) => {
            let len = text.unicode_len();
            proof {
                lemma_first_key_from_sound(text@, name@, 0, i as int);
                lemma_line_col_bounds(text@, i as int);
            }
            Some(position_of(text, i, len))
        },
        None => None,
    }
}

/// Finds where the document's root value begins, as a line and column.
pub fn find_root_token(text: &str) -> (r: Option<(usize, usize)>)
    ensures
        r == root_location(text@),
{
    match find_root_index(text) {
        Some(i) => {
            let len = text.unicode_len();
            proof {
                lemma_first_non_ws_sound(text@, 0, i as int);
                lemma_line_col_bounds(text@, i as int);
            }
            Some(position_of(text, i, len))
        },
        None => None,
    }
}

/// The location for a schema violation's blame: the blamed key, or the root
/// token when no field is blamed.
pub fn blame_location(text: &str, blame: &Option<String>) -> (r: Option<(usize, usize)>)
    ensures
        r == spec_blame_location(text@, opt_view(*blame)),
{
    match blame {
        Some(name) => find_key(text, name.as_str()),
        None => find_root_token(text),
    }
}

} // verus!
