use vstd::prelude::*;

use crate::error::ToolError;
use crate::pathname::spec_dir;
use crate::pathname::resolve_sibling;
use crate::planner::CutSegment;
use crate::text::all_digits;
use crate::text::is_digit;
use crate::text::lemma_first_index_of;
use crate::text::parse_sec_ms;
use crate::text::parse_u64;
use crate::text::spec_dec_value;
use crate::text::spec_first_index_of;
use crate::text::spec_sec_ms;
use crate::text::str_eq;

verus! {

/// An externally authored cut-list document: its format version, the name
/// of the media file it describes, resolved against the document's own
/// directory, and the ordered segments.
pub struct CutList {
    pub version: u64,
    pub media_file_name: String,
    pub segments: Vec<CutSegment>,
}

/// One segment as the document states it, at the specification level: its
/// name, its start in milliseconds and, when present, its end.
pub type SpecSegment = (Seq<char>, int, Option<int>);

/// Relies on `String::from_iter` over a character iterator: the collected
/// string holds exactly the characters handed to it, in order.
#[verifier::external_body]
fn chars_to_string(cs: &Vec<char>) -> (r: String)
    ensures
        r@ == cs@,
{
    cs.iter().collect()
}

/// The characters of a string, for random access while scanning.
pub fn str_to_chars(s: &str) -> (r: Vec<char>)
    ensures
        r@ == s@,
{
    let n: usize = s.unicode_len();
    let mut r: Vec<char> = Vec::new();
    let mut i: usize = 0;
    while i < n
        invariant
            n == s@.len(),
            0 <= i <= n,
            r@ == s@.take(i as int),
        decreases n - i,
    {
        r.push(s.get_char(i));
        proof {
            assert(r@ =~= s@.take(i + 1));
        }
        i = i + 1;
    }
    proof {
        assert(s@.take(n as int) =~= s@);
    }
    r
}

/// Whitespace between the document's tokens.
pub open spec fn is_json_space(c: char) -> bool {
    c == ' ' || c == '\t' || c == '\r' || c == '\n'
}

/// Where a line comment opened before `i` ends: at its line's end, or at
/// the end of the document.
pub open spec fn spec_line_end(cs: Seq<char>, i: int) -> int {
    let k = spec_first_index_of(cs, '\n', i);
    if k == -1 {
        cs.len() as int
    } else {
        k
    }
}

/// Where a block comment whose body starts at `i` ends: just past its
/// closing pair, or at the end of the document when it never closes.
pub open spec fn spec_block_end(cs: Seq<char>, i: int) -> int
    decreases cs.len() - i,
{
    if i < 0 || i >= cs.len() {
        cs.len() as int
    } else if cs[i] == '*' && i + 1 < cs.len() && cs[i + 1] == '/' {
        i + 2
    } else {
        spec_block_end(cs, i + 1)
    }
}

/// The first position at or after `i` that holds neither whitespace nor a
/// comment.
pub open spec fn spec_skip_ws(cs: Seq<char>, i: int) -> int
    decreases cs.len() - i,
{
    if i < 0 || i >= cs.len() {
        cs.len() as int
    } else if is_json_space(cs[i]) {
        spec_skip_ws(cs, i + 1)
    } else if cs[i] == '/' && i + 1 < cs.len() && cs[i + 1] == '/' {
        let e = spec_line_end(cs, i + 2);
        if i < e <= cs.len() {
            spec_skip_ws(cs, e)
        } else {
            cs.len() as int
        }
    } else if cs[i] == '/' && i + 1 < cs.len() && cs[i + 1] == '*' {
        let e = spec_block_end(cs, i + 2);
        if i < e <= cs.len() {
            spec_skip_ws(cs, e)
        } else {
            cs.len() as int
        }
    } else {
        i
    }
}

proof fn lemma_line_end_bounds(cs: Seq<char>, i: int)
    requires
        0 <= i <= cs.len(),
    ensures
        i <= spec_line_end(cs, i) <= cs.len(),
{
    lemma_first_index_of(cs, '\n', i);
}

proof fn lemma_block_end_bounds(cs: Seq<char>, i: int)
    requires
        0 <= i <= cs.len(),
    ensures
        i <= spec_block_end(cs, i) <= cs.len(),
    decreases cs.len() - i,
{
    if 0 <= i < cs.len() && !(cs[i] == '*' && i + 1 < cs.len() && cs[i + 1] == '/') {
        lemma_block_end_bounds(cs, i + 1);
    }
}

/// Skipping whitespace never moves backwards and stays in the document.
pub proof fn lemma_skip_ws_bounds(cs: Seq<char>, i: int)
    requires
        0 <= i <= cs.len(),
    ensures
        i <= spec_skip_ws(cs, i) <= cs.len(),
    decreases cs.len() - i,
{
    if 0 <= i < cs.len() {
        if is_json_space(cs[i]) {
            lemma_skip_ws_bounds(cs, i + 1);
        } else if cs[i] == '/' && i + 1 < cs.len() && cs[i + 1] == '/' {
            lemma_line_end_bounds(cs, i + 2);
            lemma_skip_ws_bounds(cs, spec_line_end(cs, i + 2));
        } else if cs[i] == '/' && i + 1 < cs.len() && cs[i + 1] == '*' {
            lemma_block_end_bounds(cs, i + 2);
            lemma_skip_ws_bounds(cs, spec_block_end(cs, i + 2));
        }
    }
}

/// Moves past whitespace and comments: both the line form, which runs to
/// the end of its line, and the block form, which runs to its closing
/// pair or, unterminated, to the end of the document.
fn skip_ws(cs: &Vec<char>, pos: usize) -> (r: usize)
    requires
        pos <= cs@.len(),
    ensures
        pos <= r <= cs@.len(),
        r == spec_skip_ws(cs@, pos as int),
{
    let n: usize = cs.len();
    let mut i: usize = pos;
    proof {
        lemma_skip_ws_bounds(cs@, pos as int);
    }
    while i < n
        invariant
            n == cs@.len(),
            pos <= i <= n,
            spec_skip_ws(cs@, pos as int) == spec_skip_ws(cs@, i as int),
        decreases n - i,
    {
        let c: char = cs[i];
        if c == ' ' || c == '\t' || c == '\r' || c == '\n' {
            i = i + 1;
        } else if c == '/' && i + 1 < n && cs[i + 1] == '/' {
            let ghost base = i as int;
            i = i + 2;
            while i < n && cs[i] != '\n'
                invariant
                    n == cs@.len(),
                    base + 2 <= i <= n,
                    spec_first_index_of(cs@, '\n', base + 2) == spec_first_index_of(
                        cs@,
                        '\n',
                        i as int,
                    ),
                decreases n - i,
            {
                i = i + 1;
            }
            proof {
                assert(i == spec_line_end(cs@, base + 2));
                lemma_line_end_bounds(cs@, base + 2);
            }
        } else if c == '/' && i + 1 < n && cs[i + 1] == '*' {
            let ghost base = i as int;
            i = i + 2;
            while i < n && !(cs[i] == '*' && i + 1 < n && cs[i + 1] == '/')
                invariant
                    n == cs@.len(),
                    base + 2 <= i <= n,
                    spec_block_end(cs@, base + 2) == spec_block_end(cs@, i as int),
                decreases n - i,
            {
                i = i + 1;
            }
            if i < n {
                i = i + 2;
            }
            proof {
                assert(i == spec_block_end(cs@, base + 2));
                lemma_block_end_bounds(cs@, base + 2);
            }
        } else {
            return i;
        }
    }
    i
}

/// The character an escape pair inside a quoted string stands for.
pub open spec fn spec_unescape(c: char) -> char {
    if c == 'n' {
        '\n'
    } else if c == 't' {
        '\t'
    } else if c == 'r' {
        '\r'
    } else {
        c
    }
}

fn unescape(c: char) -> (r: char)
    ensures
        r == spec_unescape(c),
{
    if c == 'n' {
        '\n'
    } else if c == 't' {
        '\t'
    } else if c == 'r' {
        '\r'
    } else {
        c
    }
}

/// The text and end of a quoted string's body read from `i`, with the
/// closing quote `q`; nothing, when the string never closes.
pub open spec fn spec_string_body(cs: Seq<char>, i: int, q: char) -> Option<(Seq<char>, int)>
    decreases cs.len() - i,
{
    if i < 0 || i >= cs.len() {
        None
    } else if cs[i] == q {
        Some((Seq::<char>::empty(), i + 1))
    } else if cs[i] == '\\' {
        if i + 1 >= cs.len() {
            None
        } else {
            match spec_string_body(cs, i + 2, q) {
                Some((t, e)) => Some((seq![spec_unescape(cs[i + 1])] + t, e)),
                None => None,
            }
        }
    } else {
        match spec_string_body(cs, i + 1, q) {
            Some((t, e)) => Some((seq![cs[i]] + t, e)),
            None => None,
        }
    }
}

/// A quoted string read at `i`: its unescaped text and the position just
/// past its closing quote.
pub open spec fn spec_parse_string(cs: Seq<char>, i: int) -> Option<(Seq<char>, int)> {
    if 0 <= i < cs.len() && (cs[i] == '"' || cs[i] == '\'') {
        spec_string_body(cs, i + 1, cs[i])
    } else {
        None
    }
}

/// A closed string body ends within the document, past where it began.
proof fn lemma_string_body_bounds(cs: Seq<char>, i: int, q: char)
    requires
        0 <= i <= cs.len(),
    ensures
        spec_string_body(cs, i, q) matches Some(p) ==> i < p.1 <= cs.len(),
    decreases cs.len() - i,
{
    if 0 <= i < cs.len() && cs[i] != q {
        if cs[i] == '\\' {
            if i + 1 < cs.len() {
                lemma_string_body_bounds(cs, i + 2, q);
            }
        } else {
            lemma_string_body_bounds(cs, i + 1, q);
        }
    }
}

/// A string-body result behind an already-read prefix.
pub open spec fn spec_prepend(prefix: Seq<char>, r: Option<(Seq<char>, int)>) -> Option<
    (Seq<char>, int),
> {
    match r {
        Some((t, e)) => Some((prefix + t, e)),
        None => None,
    }
}

/// Reads a quoted string starting at an opening quote, honouring escape
/// pairs; an unterminated string is refused.
fn parse_string(cs: &Vec<char>, pos: usize) -> (r: Option<(String, usize)>)
    requires
        pos <= cs@.len(),
    ensures
        r is Some <==> spec_parse_string(cs@, pos as int) is Some,
        r matches Some(p) ==> ({
            &&& spec_parse_string(cs@, pos as int) == Some((p.0@, p.1 as int))
            &&& pos < p.1 <= cs@.len()
        }),
{
    let n: usize = cs.len();
    if pos >= n {
        return None;
    }
    let q: char = cs[pos];
    if !(q == '"' || q == '\'') {
        return None;
    }
    let mut out: Vec<char> = Vec::new();
    let mut i: usize = pos + 1;
    proof {
        assert(spec_string_body(cs@, pos + 1, q) == spec_prepend(
            out@,
            spec_string_body(cs@, pos + 1, q),
        )) by {
            match spec_string_body(cs@, pos + 1, q) {
                Some((t, e)) => {
                    assert(out@ + t =~= t);
                },
                None => {},
            }
        }
    }
    while i < n
        invariant
            n == cs@.len(),
            pos < i <= n,
            q == cs@[pos as int],
            q == '"' || q == '\'',
            spec_string_body(cs@, pos + 1, q) == spec_prepend(
                out@,
                spec_string_body(cs@, i as int, q),
            ),
        decreases n - i,
    {
        let c: char = cs[i];
        if c == q {
            proof {
                assert(out@ + Seq::<char>::empty() =~= out@);
                lemma_string_body_bounds(cs@, pos + 1, q);
            }
            return Some((chars_to_string(&out), i + 1));
        }
        if c == '\\' {
            if i + 1 >= n {
                return None;
            }
            let ghost before = out@;
            out.push(unescape(cs[i + 1]));
            proof {
                match spec_string_body(cs@, i + 2, q) {
                    Some((t, e)) => {
                        assert(before + (seq![spec_unescape(cs@[i + 1])] + t) =~= out@ + t);
                    },
                    None => {},
                }
            }
            i = i + 2;
        } else {
            let ghost before = out@;
            out.push(c);
            proof {
                match spec_string_body(cs@, i + 1, q) {
                    Some((t, e)) => {
                        assert(before + (seq![cs@[i as int]] + t) =~= out@ + t);
                    },
                    None => {},
                }
            }
            i = i + 1;
        }
    }
    None
}

/// A character that may stand in an unquoted member key.
pub open spec fn spec_is_ident_char(c: char) -> bool {
    ('a' <= c && c <= 'z') || ('A' <= c && c <= 'Z') || is_digit(c) || c == '_' || c == '$'
}

fn is_ident_char(c: char) -> (r: bool)
    ensures
        r == spec_is_ident_char(c),
{
    (c >= 'a' && c <= 'z') || (c >= 'A' && c <= 'Z') || (c >= '0' && c <= '9') || c == '_' || c
        == '$'
}

/// Where an unquoted word starting at `i` ends.
pub open spec fn spec_ident_end(cs: Seq<char>, i: int) -> int
    decreases cs.len() - i,
{
    if 0 <= i < cs.len() && spec_is_ident_char(cs[i]) {
        spec_ident_end(cs, i + 1)
    } else {
        i
    }
}

/// A member key read at `i`: a quoted string, or an unquoted word.
pub open spec fn spec_parse_key(cs: Seq<char>, i: int) -> Option<(Seq<char>, int)> {
    if 0 <= i < cs.len() && (cs[i] == '"' || cs[i] == '\'') {
        spec_parse_string(cs, i)
    } else if 0 <= i < cs.len() && spec_is_ident_char(cs[i]) {
        Some((cs.subrange(i, spec_ident_end(cs, i)), spec_ident_end(cs, i)))
    } else {
        None
    }
}

/// Reads a member key: a quoted string, or an unquoted word.
fn parse_key(cs: &Vec<char>, pos: usize) -> (r: Option<(String, usize)>)
    requires
        pos <= cs@.len(),
    ensures
        r is Some <==> spec_parse_key(cs@, pos as int) is Some,
        r matches Some(p) ==> ({
            &&& spec_parse_key(cs@, pos as int) == Some((p.0@, p.1 as int))
            &&& pos < p.1 <= cs@.len()
        }),
{
    let n: usize = cs.len();
    if pos >= n {
        return None;
    }
    let c: char = cs[pos];
    if c == '"' || c == '\'' {
        return parse_string(cs, pos);
    }
    if !is_ident_char(c) {
        return None;
    }
    let mut out: Vec<char> = Vec::new();
    out.push(c);
    let mut i: usize = pos + 1;
    proof {
        assert(out@ =~= cs@.subrange(pos as int, pos + 1));
    }
    while i < n && is_ident_char(cs[i])
        invariant
            n == cs@.len(),
            pos < i <= n,
            out@ == cs@.subrange(pos as int, i as int),
            spec_ident_end(cs@, pos as int) == spec_ident_end(cs@, i as int),
        decreases n - i,
    {
        out.push(cs[i]);
        proof {
            assert(out@ =~= cs@.subrange(pos as int, i + 1));
        }
        i = i + 1;
    }
    proof {
        assert(spec_ident_end(cs@, i as int) == i);
    }
    Some((chars_to_string(&out), i))
}

/// The end of a run of digits and dots starting at `i`.
pub open spec fn spec_number_end(cs: Seq<char>, i: int) -> int
    decreases cs.len() - i,
{
    if 0 <= i < cs.len() && (is_digit(cs[i]) || cs[i] == '.') {
        spec_number_end(cs, i + 1)
    } else {
        i
    }
}

/// The extent of a plain decimal number token: digits with at most an
/// inner dot.
fn number_end(cs: &Vec<char>, pos: usize) -> (r: usize)
    requires
        pos <= cs@.len(),
    ensures
        pos <= r <= cs@.len(),
        r == spec_number_end(cs@, pos as int),
{
    let n: usize = cs.len();
    let mut i: usize = pos;
    while i < n && ((cs[i] >= '0' && cs[i] <= '9') || cs[i] == '.')
        invariant
            n == cs@.len(),
            pos <= i <= n,
            spec_number_end(cs@, pos as int) == spec_number_end(cs@, i as int),
        decreases n - i,
    {
        i = i + 1;
    }
    i
}

/// A seconds number token read at `i`: its value in milliseconds and the
/// position just past it; nothing, when the token is empty, misshapen or
/// too large.
pub open spec fn spec_number_ms(cs: Seq<char>, i: int) -> Option<(int, int)> {
    let e = spec_number_end(cs, i);
    let v = spec_sec_ms(cs.subrange(i, e));
    if i < e && 0 <= v <= u64::MAX {
        Some((v, e))
    } else {
        None
    }
}

/// Reads a non-negative decimal number of seconds and returns it in
/// milliseconds, exactly as the seconds reader states it.
fn parse_number_ms(cs: &Vec<char>, pos: usize) -> (r: Option<(u64, usize)>)
    requires
        pos <= cs@.len(),
    ensures
        r is Some <==> spec_number_ms(cs@, pos as int) is Some,
        r matches Some(p) ==> ({
            &&& spec_number_ms(cs@, pos as int) == Some((p.0 as int, p.1 as int))
            &&& pos < p.1 <= cs@.len()
        }),
{
    let e: usize = number_end(cs, pos);
    if e == pos {
        return None;
    }
    let mut digits: Vec<char> = Vec::new();
    let mut i: usize = pos;
    while i < e
        invariant
            pos <= i <= e <= cs@.len(),
            digits@ == cs@.subrange(pos as int, i as int),
        decreases e - i,
    {
        digits.push(cs[i]);
        proof {
            assert(digits@ =~= cs@.subrange(pos as int, i + 1));
        }
        i = i + 1;
    }
    let text: String = chars_to_string(&digits);
    match parse_sec_ms(text.as_str()) {
        Some(v) => Some((v, e)),
        None => None,
    }
}

/// An integer token read at `i`: its value and the position just past it.
pub open spec fn spec_integer(cs: Seq<char>, i: int) -> Option<(int, int)> {
    let e = spec_number_end(cs, i);
    let t = cs.subrange(i, e);
    if i < e && all_digits(t) && spec_dec_value(t) <= u64::MAX {
        Some((spec_dec_value(t), e))
    } else {
        None
    }
}

/// Reads a non-negative integer token.
fn parse_integer(cs: &Vec<char>, pos: usize) -> (r: Option<(u64, usize)>)
    requires
        pos <= cs@.len(),
    ensures
        r is Some <==> spec_integer(cs@, pos as int) is Some,
        r matches Some(p) ==> ({
            &&& spec_integer(cs@, pos as int) == Some((p.0 as int, p.1 as int))
            &&& pos < p.1 <= cs@.len()
        }),
{
    let e: usize = number_end(cs, pos);
    if e == pos {
        return None;
    }
    let mut digits: Vec<char> = Vec::new();
    let mut i: usize = pos;
    while i < e
        invariant
            pos <= i <= e <= cs@.len(),
            digits@ == cs@.subrange(pos as int, i as int),
        decreases e - i,
    {
        digits.push(cs[i]);
        proof {
            assert(digits@ =~= cs@.subrange(pos as int, i + 1));
        }
        i = i + 1;
    }
    let text: String = chars_to_string(&digits);
    proof {
        if all_digits(text@) {
            crate::text::lemma_dec_value_nonneg(text@);
        }
    }
    match parse_u64(text.as_str()) {
        Some(v) => Some((v, e)),
        None => None,
    }
}

/// The position just past the literal word `w` read at `i`, when the
/// document spells it there.
pub open spec fn spec_word(cs: Seq<char>, i: int, w: Seq<char>) -> Option<int> {
    if 0 <= i && i + w.len() <= cs.len() && cs.subrange(i, i + w.len()) == w {
        Some(i + w.len())
    } else {
        None
    }
}

/// Matches a literal word at the position.
fn match_word(cs: &Vec<char>, pos: usize, w: &str) -> (r: Option<usize>)
    requires
        pos <= cs@.len(),
    ensures
        r is Some <==> spec_word(cs@, pos as int, w@) is Some,
        r matches Some(p) ==> p == pos + w@.len() && p <= cs@.len(),
{
    let m: usize = w.unicode_len();
    let n: usize = cs.len();
    if m > n - pos {
        return None;
    }
    let mut i: usize = 0;
    while i < m
        invariant
            n == cs@.len(),
            pos + m <= n,
            m == w@.len(),
            0 <= i <= m,
            forall|j: int| 0 <= j < i ==> cs@[pos + j] == w@[j],
        decreases m - i,
    {
        if cs[pos + i] != w.get_char(i) {
            proof {
                assert(cs@.subrange(pos as int, pos + m)[i as int] != w@[i as int]);
            }
            return None;
        }
        i = i + 1;
    }
    proof {
        assert(cs@.subrange(pos as int, pos + m) =~= w@);
    }
    Some(pos + m)
}

/// The position just past one value of any form read at `i`: a string, a
/// number, one of the literal words, an array or an object, however
/// nested; nothing, when none of these stands there.
pub open spec fn spec_skip_value(cs: Seq<char>, i: int) -> Option<int>
    decreases cs.len() - i, 0int,
{
    if i < 0 || i >= cs.len() {
        None
    } else {
        let c = cs[i];
        if c == '"' || c == '\'' {
            match spec_parse_string(cs, i) {
                Some((t, e)) => Some(e),
                None => None,
            }
        } else if is_digit(c) || c == '.' || c == '-' || c == '+' {
            Some(spec_number_end(cs, i + 1))
        } else if c == 't' {
            spec_word(cs, i, "true"@)
        } else if c == 'f' {
            spec_word(cs, i, "false"@)
        } else if c == 'n' {
            spec_word(cs, i, "null"@)
        } else if c == '[' {
            spec_skip_members(cs, i + 1, ']')
        } else if c == '{' {
            spec_skip_members(cs, i + 1, '}')
        } else {
            None
        }
    }
}

/// The position just past the members of a bracketed composite whose body
/// starts at `i`, commas, colons and keys included, up to and past the
/// closing bracket.
pub open spec fn spec_skip_members(cs: Seq<char>, i: int, close: char) -> Option<int>
    decreases cs.len() - i, 1int,
{
    if i < 0 || i > cs.len() {
        None
    } else {
        let j = spec_skip_ws(cs, i);
        if j < i || j >= cs.len() {
            None
        } else if cs[j] == close {
            Some(j + 1)
        } else if cs[j] == ',' || cs[j] == ':' {
            if j + 1 <= cs.len() {
                spec_skip_members(cs, j + 1, close)
            } else {
                None
            }
        } else {
            match spec_skip_value(cs, j) {
                Some(v) => {
                    if i < v <= cs.len() {
                        spec_skip_members(cs, v, close)
                    } else {
                        None
                    }
                },
                None => None,
            }
        }
    }
}

/// Moves past one value of any form.
fn skip_value(cs: &Vec<char>, pos: usize) -> (r: Option<usize>)
    requires
        pos <= cs@.len(),
    ensures
        r is Some <==> spec_skip_value(cs@, pos as int) is Some,
        r matches Some(p) ==> spec_skip_value(cs@, pos as int) == Some(p as int) && p
            <= cs@.len(),
    decreases cs@.len() - pos, 0int,
{
    let n: usize = cs.len();
    if pos >= n {
        return None;
    }
    let c: char = cs[pos];
    if c == '"' || c == '\'' {
        match parse_string(cs, pos) {
            Some((_, p)) => Some(p),
            None => None,
        }
    } else if (c >= '0' && c <= '9') || c == '.' || c == '-' || c == '+' {
        let e: usize = number_end(cs, pos + 1);
        Some(e)
    } else if c == 't' {
        match_word(cs, pos, "true")
    } else if c == 'f' {
        match_word(cs, pos, "false")
    } else if c == 'n' {
        match_word(cs, pos, "null")
    } else if c == '[' {
        skip_members(cs, pos + 1, ']')
    } else if c == '{' {
        skip_members(cs, pos + 1, '}')
    } else {
        None
    }
}

/// Moves past a bracketed composite by member, until the matching closing
/// bracket.
fn skip_members(cs: &Vec<char>, pos: usize, close: char) -> (r: Option<usize>)
    requires
        pos <= cs@.len(),
    ensures
        r is Some <==> spec_skip_members(cs@, pos as int, close) is Some,
        r matches Some(p) ==> spec_skip_members(cs@, pos as int, close) == Some(p as int) && p
            <= cs@.len(),
    decreases cs@.len() - pos, 1int,
{
    let n: usize = cs.len();
    let j: usize = skip_ws(cs, pos);
    if j >= n {
        return None;
    }
    let c: char = cs[j];
    if c == close {
        return Some(j + 1);
    }
    if c == ',' || c == ':' {
        return skip_members(cs, j + 1, close);
    }
    match skip_value(cs, j) {
        Some(v) => {
            if v <= pos {
                return None;
            }
            skip_members(cs, v, close)
        },
        None => None,
    }
}


/// The specification view of an optionally read string.
pub open spec fn opt_view(o: Option<String>) -> Option<Seq<char>> {
    match o {
        Some(s) => Some(s@),
        None => None,
    }
}

/// The specification view of an optionally read number.
pub open spec fn opt_int(o: Option<u64>) -> Option<int> {
    match o {
        Some(v) => Some(v as int),
        None => None,
    }
}

/// The specification view of a list of read segments.
pub open spec fn segs_view(v: Seq<CutSegment>) -> Seq<SpecSegment> {
    v.map_values(|s: CutSegment| (s.name@, s.start_ms as int, opt_int(s.end_ms)))
}

/// The specification view of an optionally read segment list.
pub open spec fn opt_segs(o: Option<Vec<CutSegment>>) -> Option<Seq<SpecSegment>> {
    match o {
        Some(v) => Some(segs_view(v@)),
        None => None,
    }
}

/// The members of one segment object, read from `i` with what earlier
/// members already supplied: the finished segment and the position past
/// its closing brace.  A segment without a name or a start is refused.
pub open spec fn spec_seg_members(
    cs: Seq<char>,
    i: int,
    name: Option<Seq<char>>,
    start: Option<int>,
    end: Option<int>,
) -> Option<(SpecSegment, int)>
    decreases cs.len() - i,
{
    if i < 0 || i > cs.len() {
        None
    } else {
        let j = spec_skip_ws(cs, i);
        if j < i || j >= cs.len() {
            None
        } else if cs[j] == '}' {
            if name is Some && start is Some {
                Some(((name->0, start->0, end), j + 1))
            } else {
                None
            }
        } else if cs[j] == ',' {
            spec_seg_members(cs, j + 1, name, start, end)
        } else {
            match spec_parse_key(cs, j) {
                Some((k, ak)) => {
                    let kk = spec_skip_ws(cs, ak);
                    if kk < 0 || kk >= cs.len() || cs[kk] != ':' {
                        None
                    } else {
                        let v = spec_skip_ws(cs, kk + 1);
                        if k == "name"@ {
                            match spec_parse_string(cs, v) {
                                Some((s, p)) => {
                                    if i < p <= cs.len() {
                                        spec_seg_members(cs, p, Some(s), start, end)
                                    } else {
                                        None
                                    }
                                },
                                None => None,
                            }
                        } else if k == "start"@ {
                            match spec_number_ms(cs, v) {
                                Some((ms, p)) => {
                                    if i < p <= cs.len() {
                                        spec_seg_members(cs, p, name, Some(ms), end)
                                    } else {
                                        None
                                    }
                                },
                                None => None,
                            }
                        } else if k == "end"@ {
                            match spec_number_ms(cs, v) {
                                Some((ms, p)) => {
                                    if i < p <= cs.len() {
                                        spec_seg_members(cs, p, name, start, Some(ms))
                                    } else {
                                        None
                                    }
                                },
                                None => None,
                            }
                        } else {
                            match spec_skip_value(cs, v) {
                                Some(p) => {
                                    if i < p <= cs.len() {
                                        spec_seg_members(cs, p, name, start, end)
                                    } else {
                                        None
                                    }
                                },
                                None => None,
                            }
                        }
                    }
                },
                None => None,
            }
        }
    }
}

/// Reads the members of one segment object.
fn seg_members(
    cs: &Vec<char>,
    pos: usize,
    name: Option<String>,
    start: Option<u64>,
    end: Option<u64>,
) -> (r: Option<(CutSegment, usize)>)
    requires
        pos <= cs@.len(),
    ensures
        r is Some <==> spec_seg_members(
            cs@,
            pos as int,
            opt_view(name),
            opt_int(start),
            opt_int(end),
        ) is Some,
        r matches Some(p) ==> ({
            let s = spec_seg_members(
                cs@,
                pos as int,
                opt_view(name),
                opt_int(start),
                opt_int(end),
            )->0;
            &&& p.0.name@ == s.0.0
            &&& p.0.start_ms as int == s.0.1
            &&& opt_int(p.0.end_ms) == s.0.2
            &&& p.1 as int == s.1
            &&& p.1 <= cs@.len()
        }),
    decreases cs@.len() - pos,
{
    let n: usize = cs.len();
    let j: usize = skip_ws(cs, pos);
    if j >= n {
        return None;
    }
    let c: char = cs[j];
    if c == '}' {
        match (name, start) {
            (Some(nm), Some(st)) => {
                return Some((CutSegment { name: nm, start_ms: st, end_ms: end }, j + 1));
            },
            _ => {
                return None;
            },
        }
    }
    if c == ',' {
        return seg_members(cs, j + 1, name, start, end);
    }
    let (key, ak): (String, usize) = match parse_key(cs, j) {
        Some(p) => p,
        None => {
            return None;
        },
    };
    let kk: usize = skip_ws(cs, ak);
    if kk >= n {
        return None;
    }
    if cs[kk] != ':' {
        return None;
    }
    let v: usize = skip_ws(cs, kk + 1);
    if str_eq(key.as_str(), "name") {
        match parse_string(cs, v) {
            Some((s, p)) => {
                if p <= pos {
                    return None;
                }
                seg_members(cs, p, Some(s), start, end)
            },
            None => None,
        }
    } else if str_eq(key.as_str(), "start") {
        match parse_number_ms(cs, v) {
            Some((ms, p)) => {
                if p <= pos {
                    return None;
                }
                seg_members(cs, p, name, Some(ms), end)
            },
            None => None,
        }
    } else if str_eq(key.as_str(), "end") {
        match parse_number_ms(cs, v) {
            Some((ms, p)) => {
                if p <= pos {
                    return None;
                }
                seg_members(cs, p, name, start, Some(ms))
            },
            None => None,
        }
    } else {
        match skip_value(cs, v) {
            Some(p) => {
                if p <= pos {
                    return None;
                }
                seg_members(cs, p, name, start, end)
            },
            None => None,
        }
    }
}

/// One segment object read at `i`.
pub open spec fn spec_parse_segment(cs: Seq<char>, i: int) -> Option<(SpecSegment, int)> {
    if 0 <= i < cs.len() && cs[i] == '{' {
        spec_seg_members(cs, i + 1, None, None, None)
    } else {
        None
    }
}

fn parse_segment(cs: &Vec<char>, pos: usize) -> (r: Option<(CutSegment, usize)>)
    requires
        pos <= cs@.len(),
    ensures
        r is Some <==> spec_parse_segment(cs@, pos as int) is Some,
        r matches Some(p) ==> ({
            let s = spec_parse_segment(cs@, pos as int)->0;
            &&& p.0.name@ == s.0.0
            &&& p.0.start_ms as int == s.0.1
            &&& opt_int(p.0.end_ms) == s.0.2
            &&& p.1 as int == s.1
            &&& p.1 <= cs@.len()
        }),
{
    let n: usize = cs.len();
    if pos >= n || cs[pos] != '{' {
        return None;
    }
    seg_members(cs, pos + 1, None, None, None)
}

/// The elements of the segment array read from `i`, behind the segments
/// already read: the finished list and the position past the closing
/// bracket.
pub open spec fn spec_segments_tail(cs: Seq<char>, i: int, acc: Seq<SpecSegment>) -> Option<
    (Seq<SpecSegment>, int),
>
    decreases cs.len() - i,
{
    if i < 0 || i > cs.len() {
        None
    } else {
        let j = spec_skip_ws(cs, i);
        if j < i || j >= cs.len() {
            None
        } else if cs[j] == ']' {
            Some((acc, j + 1))
        } else if cs[j] == ',' {
            spec_segments_tail(cs, j + 1, acc)
        } else {
            match spec_parse_segment(cs, j) {
                Some((seg, p)) => {
                    if i < p <= cs.len() {
                        spec_segments_tail(cs, p, acc.push(seg))
                    } else {
                        None
                    }
                },
                None => None,
            }
        }
    }
}

/// The segment array read at `i`.
pub open spec fn spec_segments(cs: Seq<char>, i: int) -> Option<(Seq<SpecSegment>, int)> {
    if 0 <= i < cs.len() && cs[i] == '[' {
        spec_segments_tail(cs, i + 1, Seq::<SpecSegment>::empty())
    } else {
        None
    }
}

fn segments_tail(cs: &Vec<char>, pos: usize, acc: Vec<CutSegment>) -> (r: Option<
    (Vec<CutSegment>, usize),
>)
    requires
        pos <= cs@.len(),
    ensures
        r is Some <==> spec_segments_tail(cs@, pos as int, segs_view(acc@)) is Some,
        r matches Some(p) ==> ({
            let s = spec_segments_tail(cs@, pos as int, segs_view(acc@))->0;
            &&& segs_view(p.0@) == s.0
            &&& p.1 as int == s.1
            &&& p.1 <= cs@.len()
        }),
    decreases cs@.len() - pos,
{
    let n: usize = cs.len();
    let j: usize = skip_ws(cs, pos);
    if j >= n {
        return None;
    }
    let c: char = cs[j];
    if c == ']' {
        return Some((acc, j + 1));
    }
    if c == ',' {
        return segments_tail(cs, j + 1, acc);
    }
    match parse_segment(cs, j) {
        Some((seg, p)) => {
            if p <= pos {
                return None;
            }
            let ghost seg_spec = (spec_parse_segment(cs@, j as int)->0).0;
            let ghost before = acc@;
            let mut acc2: Vec<CutSegment> = acc;
            acc2.push(seg);
            proof {
                assert(segs_view(acc2@) =~= segs_view(before).push(seg_spec));
            }
            segments_tail(cs, p, acc2)
        },
        None => None,
    }
}

fn parse_segments(cs: &Vec<char>, pos: usize) -> (r: Option<(Vec<CutSegment>, usize)>)
    requires
        pos <= cs@.len(),
    ensures
        r is Some <==> spec_segments(cs@, pos as int) is Some,
        r matches Some(p) ==> ({
            let s = spec_segments(cs@, pos as int)->0;
            &&& segs_view(p.0@) == s.0
            &&& p.1 as int == s.1
            &&& p.1 <= cs@.len()
        }),
{
    let n: usize = cs.len();
    if pos >= n || cs[pos] != '[' {
        return None;
    }
    let acc: Vec<CutSegment> = Vec::new();
    proof {
        assert(segs_view(acc@) =~= Seq::<SpecSegment>::empty());
    }
    segments_tail(cs, pos + 1, acc)
}

/// The members of the top-level document object, read from `i` with what
/// earlier members already supplied: the version, the media file name and
/// the segments, with the position past the closing brace.  A document
/// that lacks one of the three is refused.
pub open spec fn spec_top_members(
    cs: Seq<char>,
    i: int,
    ver: Option<int>,
    media: Option<Seq<char>>,
    segs: Option<Seq<SpecSegment>>,
) -> Option<((int, Seq<char>, Seq<SpecSegment>), int)>
    decreases cs.len() - i,
{
    if i < 0 || i > cs.len() {
        None
    } else {
        let j = spec_skip_ws(cs, i);
        if j < i || j >= cs.len() {
            None
        } else if cs[j] == '}' {
            if ver is Some && media is Some && segs is Some {
                Some(((ver->0, media->0, segs->0), j + 1))
            } else {
                None
            }
        } else if cs[j] == ',' {
            spec_top_members(cs, j + 1, ver, media, segs)
        } else {
            match spec_parse_key(cs, j) {
                Some((k, ak)) => {
                    let kk = spec_skip_ws(cs, ak);
                    if kk < 0 || kk >= cs.len() || cs[kk] != ':' {
                        None
                    } else {
                        let v = spec_skip_ws(cs, kk + 1);
                        if k == "version"@ {
                            match spec_integer(cs, v) {
                                Some((val, p)) => {
                                    if i < p <= cs.len() {
                                        spec_top_members(cs, p, Some(val), media, segs)
                                    } else {
                                        None
                                    }
                                },
                                None => None,
                            }
                        } else if k == "mediaFileName"@ {
                            match spec_parse_string(cs, v) {
                                Some((s, p)) => {
                                    if i < p <= cs.len() {
                                        spec_top_members(cs, p, ver, Some(s), segs)
                                    } else {
                                        None
                                    }
                                },
                                None => None,
                            }
                        } else if k == "cutSegments"@ {
                            match spec_segments(cs, v) {
                                Some((ss, p)) => {
                                    if i < p <= cs.len() {
                                        spec_top_members(cs, p, ver, media, Some(ss))
                                    } else {
                                        None
                                    }
                                },
                                None => None,
                            }
                        } else {
                            match spec_skip_value(cs, v) {
                                Some(p) => {
                                    if i < p <= cs.len() {
                                        spec_top_members(cs, p, ver, media, segs)
                                    } else {
                                        None
                                    }
                                },
                                None => None,
                            }
                        }
                    }
                },
                None => None,
            }
        }
    }
}

fn top_members(
    cs: &Vec<char>,
    pos: usize,
    ver: Option<u64>,
    media: Option<String>,
    segs: Option<Vec<CutSegment>>,
) -> (r: Option<(u64, String, Vec<CutSegment>, usize)>)
    requires
        pos <= cs@.len(),
    ensures
        r is Some <==> spec_top_members(
            cs@,
            pos as int,
            opt_int(ver),
            opt_view(media),
            opt_segs(segs),
        ) is Some,
        r matches Some(p) ==> ({
            let s = spec_top_members(
                cs@,
                pos as int,
                opt_int(ver),
                opt_view(media),
                opt_segs(segs),
            )->0;
            &&& p.0 as int == s.0.0
            &&& p.1@ == s.0.1
            &&& segs_view(p.2@) == s.0.2
            &&& p.3 as int == s.1
            &&& p.3 <= cs@.len()
        }),
    decreases cs@.len() - pos,
{
    let n: usize = cs.len();
    let j: usize = skip_ws(cs, pos);
    if j >= n {
        return None;
    }
    let c: char = cs[j];
    if c == '}' {
        match (ver, media, segs) {
            (Some(v0), Some(m0), Some(s0)) => {
                return Some((v0, m0, s0, j + 1));
            },
            _ => {
                return None;
            },
        }
    }
    if c == ',' {
        return top_members(cs, j + 1, ver, media, segs);
    }
    let (key, ak): (String, usize) = match parse_key(cs, j) {
        Some(p) => p,
        None => {
            return None;
        },
    };
    let kk: usize = skip_ws(cs, ak);
    if kk >= n {
        return None;
    }
    if cs[kk] != ':' {
        return None;
    }
    let v: usize = skip_ws(cs, kk + 1);
    if str_eq(key.as_str(), "version") {
        match parse_integer(cs, v) {
            Some((val, p)) => {
                if p <= pos {
                    return None;
                }
                top_members(cs, p, Some(val), media, segs)
            },
            None => None,
        }
    } else if str_eq(key.as_str(), "mediaFileName") {
        match parse_string(cs, v) {
            Some((s, p)) => {
                if p <= pos {
                    return None;
                }
                top_members(cs, p, ver, Some(s), segs)
            },
            None => None,
        }
    } else if str_eq(key.as_str(), "cutSegments") {
        match parse_segments(cs, v) {
            Some((ss, p)) => {
                if p <= pos {
                    return None;
                }
                top_members(cs, p, ver, media, Some(ss))
            },
            None => None,
        }
    } else {
        match skip_value(cs, v) {
            Some(p) => {
                if p <= pos {
                    return None;
                }
                top_members(cs, p, ver, media, segs)
            },
            None => None,
        }
    }
}

/// The whole cut-list document: its version, media file name and
/// segments, read exactly when the text is one commented, loosely quoted
/// object with those members and nothing but whitespace after it.
pub open spec fn spec_cutlist(cs: Seq<char>) -> Option<(int, Seq<char>, Seq<SpecSegment>)> {
    let s0 = spec_skip_ws(cs, 0);
    if 0 <= s0 < cs.len() && cs[s0] == '{' {
        match spec_top_members(cs, s0 + 1, None, None, None) {
            Some((t, e)) => {
                if spec_skip_ws(cs, e) == cs.len() {
                    Some(t)
                } else {
                    None
                }
            },
            None => None,
        }
    } else {
        None
    }
}

/// Reads a whole cut-list document, exactly as the document reading above
/// states it; everything else is a malformed job input.
pub fn parse_cutlist(content: &str) -> (r: Result<CutList, ToolError>)
    ensures
        r is Ok <==> spec_cutlist(content@) is Some,
        r is Err ==> r == Err::<CutList, ToolError>(ToolError::MalformedJobInput),
        r matches Ok(c) ==> ({
            let t = spec_cutlist(content@)->0;
            &&& c.version as int == t.0
            &&& c.media_file_name@ == t.1
            &&& segs_view(c.segments@) == t.2
        }),
{
    let cs: Vec<char> = str_to_chars(content);
    let n: usize = cs.len();
    let start: usize = skip_ws(&cs, 0);
    if start >= n {
        return Err(ToolError::MalformedJobInput);
    }
    if cs[start] != '{' {
        return Err(ToolError::MalformedJobInput);
    }
    match top_members(&cs, start + 1, None, None, None) {
        Some((version, media, segments, e)) => {
            let rest: usize = skip_ws(&cs, e);
            if rest != n {
                return Err(ToolError::MalformedJobInput);
            }
            Ok(CutList { version, media_file_name: media, segments })
        },
        None => Err(ToolError::MalformedJobInput),
    }
}

/// The cut-list read and its media file located: the document names the
/// file, and the path is resolved against the document's own directory.
pub struct PreparedTrim {
    pub cutlist: CutList,
    pub source: String,
}

/// Reads a cut-list document and resolves the media file it names to a
/// path beside the document.
pub fn prepare_trim(llc_path: &str, llc_content: &str) -> (r: Result<PreparedTrim, ToolError>)
    ensures
        r is Ok <==> spec_cutlist(llc_content@) is Some,
        r is Err ==> r == Err::<PreparedTrim, ToolError>(ToolError::MalformedJobInput),
        r matches Ok(pt) ==> ({
            let t = spec_cutlist(llc_content@)->0;
            &&& pt.cutlist.version as int == t.0
            &&& pt.cutlist.media_file_name@ == t.1
            &&& segs_view(pt.cutlist.segments@) == t.2
            &&& pt.source@ == spec_dir(llc_path@) + pt.cutlist.media_file_name@
        }),
{
    let cutlist: CutList = match parse_cutlist(llc_content) {
        Ok(c) => c,
        Err(_) => {
            return Err(ToolError::MalformedJobInput);
        },
    };
    let source: String = resolve_sibling(llc_path, cutlist.media_file_name.as_str());
    Ok(PreparedTrim { cutlist, source })
}

} // verus!
