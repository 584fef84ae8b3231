//! The record grammar: issue records and tracker responses travel as
//! back-to-back JSON documents on a byte stream, with no separator between
//! them. This module decodes that stream incrementally, one document at a
//! time, against an exact specification of the grammar.
//!
//! A document is an object. Field values the pipeline reads are scalars:
//! strings (with the usual single-character escapes), `null`, `true`,
//! `false`, or numbers; a nested object or array is checked for
//! well-formedness and skipped, since no record field holds one. A decode
//! can also end in `Partial`, meaning the buffer ends inside a document: the
//! caller either waits for more bytes or, when the stream is finished,
//! treats it as an incomplete stream.

use vstd::prelude::*;

verus! {

/// One field value of a record document.
#[derive(Debug, Clone)]
pub enum Scalar {
    Null,
    Bool(bool),
    /// A JSON number; the record pipeline never reads one, so only its
    /// well-formedness is checked and its text is not kept.
    Num,
    Str(Vec<char>),
    /// A nested object or array; the record pipeline never reads one, so
    /// only its well-formedness is checked and its contents are not kept.
    Composite,
}

/// One `key: value` field of a record document.
#[derive(Debug, Clone)]
pub struct Member {
    pub key: Vec<char>,
    pub val: Scalar,
}

/// Mathematical counterpart of `Scalar`.
pub enum GScalar {
    Null,
    Bool(bool),
    Num,
    Str(Seq<char>),
    Composite,
}

/// Mathematical counterpart of `Member`.
pub struct GMember {
    pub key: Seq<char>,
    pub val: GScalar,
}

impl View for Scalar {
    type V = GScalar;

    open spec fn view(&self) -> GScalar {
        match self {
            Scalar::Null => GScalar::Null,
            Scalar::Bool(b) => GScalar::Bool(*b),
            Scalar::Num => GScalar::Num,
            Scalar::Str(v) => GScalar::Str(v@),
            Scalar::Composite => GScalar::Composite,
        }
    }
}

impl View for Member {
    type V = GMember;

    open spec fn view(&self) -> GMember {
        GMember { key: self.key@, val: self.val@ }
    }
}

/// The members of a document, viewed mathematically.
pub open spec fn members_view(ms: Seq<Member>) -> Seq<GMember> {
    ms.map_values(|m: Member| m@)
}

/// Outcome of decoding one production: a value with the position just past
/// it, an incomplete buffer, or a malformed buffer.
pub enum Step<T> {
    Found(T, usize),
    Partial,
    Bad,
}

/// Mathematical counterpart of `Step`.
pub enum GStep<T> {
    Found(T, int),
    Partial,
    Bad,
}

/// Outcome of recognizing a production whose text is not kept.
pub enum PosStep {
    At(usize),
    Partial,
    Bad,
}

/// Mathematical counterpart of `PosStep`.
pub enum GPos {
    At(int),
    Partial,
    Bad,
}

/// Outcome of decoding the next document of the stream: a document, a clean
/// end (only whitespace remains), an incomplete buffer, or a malformed one.
pub enum DocStep {
    Doc(Vec<Member>, usize),
    End,
    Partial,
    Bad,
}

/// Mathematical counterpart of `DocStep`.
pub enum GDocStep {
    Doc(Seq<GMember>, int),
    End,
    Partial,
    Bad,
}

/// JSON insignificant whitespace.
pub open spec fn is_ws(c: char) -> bool {
    c == ' ' || c == '\n' || c == '\t' || c == '\r'
}

/// An ASCII decimal digit.
pub open spec fn spec_is_digit(c: char) -> bool {
    48 <= (c as u32) && (c as u32) <= 57
}

/// First position at or after `i` holding no whitespace (or the end).
pub open spec fn spec_skip_ws(s: Seq<char>, i: int) -> int
    decreases s.len() - i,
{
    if 0 <= i < s.len() && is_ws(s[i]) {
        spec_skip_ws(s, i + 1)
    } else {
        i
    }
}

/// What a backslash escape denotes, if the escaped character is accepted.
pub open spec fn spec_escape(c: char) -> Option<char> {
    if c == '"' {
        Some('"')
    } else if c == '\\' {
        Some('\\')
    } else if c == '/' {
        Some('/')
    } else if c == 'b' {
        Some('\u{8}')
    } else if c == 'f' {
        Some('\u{c}')
    } else if c == 'n' {
        Some('\n')
    } else if c == 'r' {
        Some('\r')
    } else if c == 't' {
        Some('\t')
    } else {
        None
    }
}

/// The value of one hexadecimal digit, upper or lower case.
pub open spec fn spec_hex_val(c: char) -> Option<u32> {
    if spec_is_digit(c) {
        Some(((c as u32) - 48) as u32)
    } else if 97 <= (c as u32) && (c as u32) <= 102 {
        Some(((c as u32) - 87) as u32)
    } else if 65 <= (c as u32) && (c as u32) <= 70 {
        Some(((c as u32) - 55) as u32)
    } else {
        None
    }
}

/// The value of the four hexadecimal digits at `j`.
pub open spec fn spec_hex4(s: Seq<char>, j: int) -> Option<u32> {
    if 0 <= j && j + 4 <= s.len() {
        match (spec_hex_val(s[j]), spec_hex_val(s[j + 1]), spec_hex_val(s[j + 2]), spec_hex_val(
            s[j + 3],
        )) {
            (Some(a), Some(b), Some(c), Some(d)) => Some(
                ((((a * 16 + b) * 16 + c) * 16 + d)) as u32,
            ),
            _ => None,
        }
    } else {
        None
    }
}

/// Every position in `from..to` holds a hexadecimal digit.
pub open spec fn spec_all_hex(s: Seq<char>, from: int, to: int) -> bool
    decreases to - from,
{
    if from >= to {
        true
    } else if !(0 <= from < s.len()) {
        false
    } else {
        spec_hex_val(s[from]) is Some && spec_all_hex(s, from + 1, to)
    }
}

/// Decodes the body of a string literal from position `j` (just past the
/// opening quote), with `acc` the characters decoded so far.
pub open spec fn spec_str_body(s: Seq<char>, j: int, acc: Seq<char>) -> GStep<Seq<char>>
    decreases s.len() - j, 1int,
{
    if !(0 <= j <= s.len()) {
        GStep::Bad
    } else if j == s.len() {
        GStep::Partial
    } else {
        let c = s[j];
        if c == '"' {
            GStep::Found(acc, j + 1)
        } else if c == '\\' {
            if j + 1 == s.len() {
                GStep::Partial
            } else if s[j + 1] == 'u' {
                spec_unicode_escape(s, j, acc)
            } else {
                match spec_escape(s[j + 1]) {
                    Some(e) => spec_str_body(s, j + 2, acc.push(e)),
                    None => GStep::Bad,
                }
            }
        } else if (c as u32) < 32 {
            GStep::Bad
        } else {
            spec_str_body(s, j + 1, acc.push(c))
        }
    }
}

/// Decodes a `\u` escape whose backslash stands at `j` (a surrogate pair
/// counts as one escape of twelve characters), then the rest of the string
/// body.
pub open spec fn spec_unicode_escape(s: Seq<char>, j: int, acc: Seq<char>) -> GStep<Seq<char>>
    decreases s.len() - j, 0int,
{
    if !(0 <= j && j + 2 <= s.len()) {
        GStep::Bad
    } else if j + 6 > s.len() {
        if spec_all_hex(s, j + 2, s.len() as int) {
            GStep::Partial
        } else {
            GStep::Bad
        }
    } else {
        match spec_hex4(s, j + 2) {
            None => GStep::Bad,
            Some(h) => {
                if 0xD800 <= h < 0xDC00 {
                    if j + 6 >= s.len() {
                        GStep::Partial
                    } else if s[j + 6] != '\\' {
                        GStep::Bad
                    } else if j + 7 >= s.len() {
                        GStep::Partial
                    } else if s[j + 7] != 'u' {
                        GStep::Bad
                    } else if j + 12 > s.len() {
                        if spec_all_hex(s, j + 8, s.len() as int) {
                            GStep::Partial
                        } else {
                            GStep::Bad
                        }
                    } else {
                        match spec_hex4(s, j + 8) {
                            None => GStep::Bad,
                            Some(l) => if 0xDC00 <= l < 0xE000 {
                                let code = (0x10000 + (h - 0xD800) * 0x400 + (l - 0xDC00)) as u32;
                                spec_str_body(s, j + 12, acc.push(code as char))
                            } else {
                                GStep::Bad
                            },
                        }
                    }
                } else if 0xDC00 <= h < 0xE000 {
                    GStep::Bad
                } else {
                    spec_str_body(s, j + 6, acc.push(h as char))
                }
            },
        }
    }
}

/// Decodes a string literal whose opening quote stands at `i`.
pub open spec fn spec_parse_string(s: Seq<char>, i: int) -> GStep<Seq<char>> {
    if 0 <= i < s.len() && s[i] == '"' {
        spec_str_body(s, i + 1, Seq::empty())
    } else {
        GStep::Bad
    }
}

/// End of the run of digits beginning at `i` (`i` itself if there is none).
pub open spec fn spec_digits_end(s: Seq<char>, i: int) -> int
    decreases s.len() - i,
{
    if 0 <= i < s.len() && spec_is_digit(s[i]) {
        spec_digits_end(s, i + 1)
    } else {
        i
    }
}

/// Recognizes the exponent part of a number, if any, from position `q`.
pub open spec fn spec_num_exp(s: Seq<char>, q: int) -> GPos {
    if !(0 <= q < s.len()) {
        GPos::Bad
    } else if s[q] == 'e' || s[q] == 'E' {
        let t = if q + 1 < s.len() && (s[q + 1] == '+' || s[q + 1] == '-') {
            q + 2
        } else {
            q + 1
        };
        if t >= s.len() {
            GPos::Partial
        } else {
            let r = spec_digits_end(s, t);
            if r == t {
                GPos::Bad
            } else if r >= s.len() {
                GPos::Partial
            } else {
                GPos::At(r)
            }
        }
    } else {
        GPos::At(q)
    }
}

/// Recognizes the fraction part of a number, if any, from position `q`, then
/// the exponent part.
pub open spec fn spec_num_frac(s: Seq<char>, q: int) -> GPos {
    if !(0 <= q < s.len()) {
        GPos::Bad
    } else if s[q] == '.' {
        let r = spec_digits_end(s, q + 1);
        if r == q + 1 {
            if q + 1 >= s.len() {
                GPos::Partial
            } else {
                GPos::Bad
            }
        } else if r >= s.len() {
            GPos::Partial
        } else {
            spec_num_exp(s, r)
        }
    } else {
        spec_num_exp(s, q)
    }
}

/// Recognizes a number beginning at `i`. A number that runs to the end of
/// the buffer is `Partial`: more digits could still arrive.
pub open spec fn spec_num_end(s: Seq<char>, i: int) -> GPos {
    if !(0 <= i <= s.len()) {
        GPos::Bad
    } else {
        let p = if i < s.len() && s[i] == '-' {
            i + 1
        } else {
            i
        };
        if p >= s.len() {
            GPos::Partial
        } else if !spec_is_digit(s[p]) {
            GPos::Bad
        } else {
            let q = if s[p] == '0' {
                p + 1
            } else {
                spec_digits_end(s, p)
            };
            if q < s.len() && spec_is_digit(s[q]) {
                GPos::Bad
            } else if q >= s.len() {
                GPos::Partial
            } else {
                spec_num_frac(s, q)
            }
        }
    }
}

/// Matches the word `w` character by character from position `i`.
pub open spec fn spec_word_end(s: Seq<char>, i: int, w: Seq<char>) -> GPos
    decreases w.len(),
{
    if w.len() == 0 {
        GPos::At(i)
    } else if !(0 <= i) {
        GPos::Bad
    } else if i >= s.len() {
        GPos::Partial
    } else if s[i] == w[0] {
        spec_word_end(s, i + 1, w.drop_first())
    } else {
        GPos::Bad
    }
}

/// Recognizes a nested value beginning at `i`, without keeping its contents.
pub open spec fn spec_skip_value(s: Seq<char>, i: int) -> GPos
    decreases s.len() - i, 0int,
{
    if !(0 <= i) {
        GPos::Bad
    } else if i >= s.len() {
        GPos::Partial
    } else {
        let c = s[i];
        if c == '"' {
            match spec_parse_string(s, i) {
                GStep::Found(_, j) => GPos::At(j),
                GStep::Partial => GPos::Partial,
                GStep::Bad => GPos::Bad,
            }
        } else if c == 'n' {
            spec_word_end(s, i, "null"@)
        } else if c == 't' {
            spec_word_end(s, i, "true"@)
        } else if c == 'f' {
            spec_word_end(s, i, "false"@)
        } else if c == '-' || spec_is_digit(c) {
            spec_num_end(s, i)
        } else if c == '{' {
            spec_skip_members(s, i + 1, false)
        } else if c == '[' {
            spec_skip_elements(s, i + 1, false)
        } else {
            GPos::Bad
        }
    }
}

/// Recognizes the remaining members of a nested object from position `j`
/// (just past its `{` or one of its commas), up to and including the
/// closing brace.
pub open spec fn spec_skip_members(s: Seq<char>, j: int, after_comma: bool) -> GPos
    decreases s.len() - j, 1int,
{
    if !(0 <= j <= s.len()) {
        GPos::Bad
    } else {
        let w = spec_skip_ws(s, j);
        if !(j <= w <= s.len()) {
            GPos::Bad
        } else if w == s.len() {
            GPos::Partial
        } else if s[w] == '}' {
            if after_comma {
                GPos::Bad
            } else {
                GPos::At(w + 1)
            }
        } else if s[w] != '"' {
            GPos::Bad
        } else {
            match spec_parse_string(s, w) {
                GStep::Partial => GPos::Partial,
                GStep::Bad => GPos::Bad,
                GStep::Found(_, j2) => {
                    let c = spec_skip_ws(s, j2);
                    if !(w < j2 && j2 <= c <= s.len()) {
                        GPos::Bad
                    } else if c == s.len() {
                        GPos::Partial
                    } else if s[c] != ':' {
                        GPos::Bad
                    } else {
                        let v = spec_skip_ws(s, c + 1);
                        if !(c + 1 <= v <= s.len()) {
                            GPos::Bad
                        } else {
                            match spec_skip_value(s, v) {
                                GPos::Partial => GPos::Partial,
                                GPos::Bad => GPos::Bad,
                                GPos::At(e) => {
                                    let t = spec_skip_ws(s, e);
                                    if !(v < e && e <= t <= s.len()) {
                                        GPos::Bad
                                    } else if t == s.len() {
                                        GPos::Partial
                                    } else if s[t] == '}' {
                                        GPos::At(t + 1)
                                    } else if s[t] == ',' {
                                        spec_skip_members(s, t + 1, true)
                                    } else {
                                        GPos::Bad
                                    }
                                },
                            }
                        }
                    }
                },
            }
        }
    }
}

/// Recognizes the remaining elements of a nested array from position `j`
/// (just past its `[` or one of its commas), up to and including the
/// closing bracket.
pub open spec fn spec_skip_elements(s: Seq<char>, j: int, after_comma: bool) -> GPos
    decreases s.len() - j, 1int,
{
    if !(0 <= j <= s.len()) {
        GPos::Bad
    } else {
        let w = spec_skip_ws(s, j);
        if !(j <= w <= s.len()) {
            GPos::Bad
        } else if w == s.len() {
            GPos::Partial
        } else if s[w] == ']' {
            if after_comma {
                GPos::Bad
            } else {
                GPos::At(w + 1)
            }
        } else {
            match spec_skip_value(s, w) {
                GPos::Partial => GPos::Partial,
                GPos::Bad => GPos::Bad,
                GPos::At(e) => {
                    let t = spec_skip_ws(s, e);
                    if !(w < e && e <= t <= s.len()) {
                        GPos::Bad
                    } else if t == s.len() {
                        GPos::Partial
                    } else if s[t] == ']' {
                        GPos::At(t + 1)
                    } else if s[t] == ',' {
                        spec_skip_elements(s, t + 1, true)
                    } else {
                        GPos::Bad
                    }
                },
            }
        }
    }
}

/// Decodes one field value beginning at `i`. A nested object or array is
/// checked for well-formedness and kept only as `Composite`.
pub open spec fn spec_parse_scalar(s: Seq<char>, i: int) -> GStep<GScalar> {
    if !(0 <= i < s.len()) {
        GStep::Bad
    } else {
        let c = s[i];
        if c == '"' {
            match spec_parse_string(s, i) {
                GStep::Found(v, j) => GStep::Found(GScalar::Str(v), j),
                GStep::Partial => GStep::Partial,
                GStep::Bad => GStep::Bad,
            }
        } else if c == 'n' {
            match spec_word_end(s, i, "null"@) {
                GPos::At(j) => GStep::Found(GScalar::Null, j),
                GPos::Partial => GStep::Partial,
                GPos::Bad => GStep::Bad,
            }
        } else if c == 't' {
            match spec_word_end(s, i, "true"@) {
                GPos::At(j) => GStep::Found(GScalar::Bool(true), j),
                GPos::Partial => GStep::Partial,
                GPos::Bad => GStep::Bad,
            }
        } else if c == 'f' {
            match spec_word_end(s, i, "false"@) {
                GPos::At(j) => GStep::Found(GScalar::Bool(false), j),
                GPos::Partial => GStep::Partial,
                GPos::Bad => GStep::Bad,
            }
        } else if c == '-' || spec_is_digit(c) {
            match spec_num_end(s, i) {
                GPos::At(j) => GStep::Found(GScalar::Num, j),
                GPos::Partial => GStep::Partial,
                GPos::Bad => GStep::Bad,
            }
        } else if c == '{' {
            match spec_skip_members(s, i + 1, false) {
                GPos::At(j) => GStep::Found(GScalar::Composite, j),
                GPos::Partial => GStep::Partial,
                GPos::Bad => GStep::Bad,
            }
        } else if c == '[' {
            match spec_skip_elements(s, i + 1, false) {
                GPos::At(j) => GStep::Found(GScalar::Composite, j),
                GPos::Partial => GStep::Partial,
                GPos::Bad => GStep::Bad,
            }
        } else {
            GStep::Bad
        }
    }
}

/// Decodes the members of an object from position `j` (at the opening quote
/// of a key), with `acc` the members decoded so far, up to and including the
/// closing brace.
pub open spec fn spec_members(s: Seq<char>, j: int, acc: Seq<GMember>) -> GStep<Seq<GMember>>
    decreases s.len() - j,
{
    if !(0 <= j <= s.len()) {
        GStep::Bad
    } else if j == s.len() {
        GStep::Partial
    } else if s[j] != '"' {
        GStep::Bad
    } else {
        match spec_parse_string(s, j) {
            GStep::Partial => GStep::Partial,
            GStep::Bad => GStep::Bad,
            GStep::Found(key, j2) => {
                let w = spec_skip_ws(s, j2);
                if !(j < j2 && j2 <= w <= s.len()) {
                    GStep::Bad
                } else if w == s.len() {
                    GStep::Partial
                } else if s[w] != ':' {
                    GStep::Bad
                } else {
                    let v = spec_skip_ws(s, w + 1);
                    if !(w + 1 <= v <= s.len()) {
                        GStep::Bad
                    } else {
                        match spec_parse_scalar(s, v) {
                            GStep::Partial => GStep::Partial,
                            GStep::Bad => GStep::Bad,
                            GStep::Found(val, j3) => {
                                let acc2 = acc.push(GMember { key, val });
                                let w2 = spec_skip_ws(s, j3);
                                if !(v < j3 && j3 <= w2 <= s.len()) {
                                    GStep::Bad
                                } else if w2 == s.len() {
                                    GStep::Partial
                                } else if s[w2] == '}' {
                                    GStep::Found(acc2, w2 + 1)
                                } else if s[w2] == ',' {
                                    let n = spec_skip_ws(s, w2 + 1);
                                    if !(w2 + 1 <= n <= s.len()) {
                                        GStep::Bad
                                    } else {
                                        spec_members(s, n, acc2)
                                    }
                                } else {
                                    GStep::Bad
                                }
                            },
                        }
                    }
                }
            },
        }
    }
}

/// Decodes one whole document beginning at or after `i` (leading whitespace
/// allowed).
pub open spec fn spec_parse_doc(s: Seq<char>, i: int) -> GStep<Seq<GMember>> {
    let w = spec_skip_ws(s, i);
    if !(i <= w <= s.len()) {
        GStep::Bad
    } else if w == s.len() {
        GStep::Partial
    } else if s[w] != '{' {
        GStep::Bad
    } else {
        let b = spec_skip_ws(s, w + 1);
        if !(w + 1 <= b <= s.len()) {
            GStep::Bad
        } else if b == s.len() {
            GStep::Partial
        } else if s[b] == '}' {
            GStep::Found(Seq::empty(), b + 1)
        } else {
            spec_members(s, b, Seq::empty())
        }
    }
}

/// The escaped form of one character inside an encoded string literal. Only
/// the two characters that JSON cannot carry bare in a string are escaped;
/// the encoder does not accept control characters.
pub open spec fn spec_escape_enc(c: char) -> Seq<char> {
    if c == '"' {
        seq!['\\', '"']
    } else if c == '\\' {
        seq!['\\', '\\']
    } else {
        seq![c]
    }
}

/// The encoded body of a string literal holding `u[k..]`.
pub open spec fn spec_encode_from(u: Seq<char>, k: int) -> Seq<char>
    decreases u.len() - k,
{
    if !(0 <= k < u.len()) {
        Seq::empty()
    } else {
        spec_escape_enc(u[k]) + spec_encode_from(u, k + 1)
    }
}

/// Encodes the characters of `u` as the body of a string literal.
pub fn encode_str_body(u: &Vec<char>) -> (r: Vec<char>)
    ensures
        r@ == spec_encode_from(u@, 0),
{
    let mut out: Vec<char> = Vec::new();
    let mut i: usize = 0;
    while i < u.len()
        invariant
            i <= u@.len(),
            out@ + spec_encode_from(u@, i as int) == spec_encode_from(u@, 0),
        decreases u@.len() - i,
    {
        let c = u[i];
        let ghost prev = out@;
        if c == '"' || c == '\\' {
            out.push('\\');
            out.push(c);
        } else {
            out.push(c);
        }
        assert(out@ =~= prev + spec_escape_enc(c));
        assert(out@ + spec_encode_from(u@, i + 1) =~= prev + spec_encode_from(u@, i as int));
        i += 1;
    }
    assert(out@ =~= out@ + spec_encode_from(u@, u@.len() as int));
    out
}

/// Decoding an encoded string body gives back exactly the encoded
/// characters: if the text of `s` from `i` is the encoding of `u[k..]`
/// followed by a closing quote, the string-body decoder accepts it and
/// appends `u[k..]` to what it has decoded so far.
pub proof fn lemma_decode_encoded_body(s: Seq<char>, u: Seq<char>, k: int, i: int, acc: Seq<char>)
    requires
        0 <= k <= u.len(),
        0 <= i,
        forall|t: int| 0 <= t < u.len() ==> (#[trigger] (u[t] as u32)) >= 32,
        i + spec_encode_from(u, k).len() < s.len(),
        s.subrange(i, i + spec_encode_from(u, k).len() as int) == spec_encode_from(u, k),
        s[i + spec_encode_from(u, k).len()] == '"',
    ensures
        spec_str_body(s, i, acc) == GStep::Found(
            acc + u.skip(k),
            i + spec_encode_from(u, k).len() + 1,
        ),
    decreases u.len() - k,
{
    let e = spec_encode_from(u, k);
    if k == u.len() {
        assert(e =~= Seq::<char>::empty());
        assert(s[i] == '"');
        assert(acc + u.skip(k) =~= acc);
    } else {
        let c = u[k];
        let e2 = spec_encode_from(u, k + 1);
        assert(e == spec_escape_enc(c) + e2);
        assert((c as u32) >= 32);
        if c == '"' || c == '\\' {
            assert(e.len() == 2 + e2.len());
            assert(e[0] == '\\' && e[1] == c);
            assert(s.subrange(i, i + e.len() as int)[0] == s[i]);
            assert(s.subrange(i, i + e.len() as int)[1] == s[i + 1]);
            assert(s[i] == '\\');
            assert(s[i + 1] == c);
            assert(spec_escape(c) == Some(c));
            assert(s.subrange(i + 2, i + 2 + e2.len() as int) =~= e2) by {
                assert forall|t: int| 0 <= t < e2.len() implies s.subrange(
                    i + 2,
                    i + 2 + e2.len() as int,
                )[t] == e2[t] by {
                    assert(s.subrange(i, i + e.len() as int)[t + 2] == s[i + 2 + t]);
                    assert(e[t + 2] == e2[t]);
                }
            }
            lemma_decode_encoded_body(s, u, k + 1, i + 2, acc.push(c));
            assert(acc.push(c) + u.skip(k + 1) =~= acc + u.skip(k));
            assert(spec_str_body(s, i, acc) == spec_str_body(s, i + 2, acc.push(c)));
        } else {
            assert(e.len() == 1 + e2.len());
            assert(e[0] == c);
            assert(s.subrange(i, i + e.len() as int)[0] == s[i]);
            assert(s[i] == c);
            assert(s.subrange(i + 1, i + 1 + e2.len() as int) =~= e2) by {
                assert forall|t: int| 0 <= t < e2.len() implies s.subrange(
                    i + 1,
                    i + 1 + e2.len() as int,
                )[t] == e2[t] by {
                    assert(s.subrange(i, i + e.len() as int)[t + 1] == s[i + 1 + t]);
                    assert(e[t + 1] == e2[t]);
                }
            }
            lemma_decode_encoded_body(s, u, k + 1, i + 1, acc.push(c));
            assert(acc.push(c) + u.skip(k + 1) =~= acc + u.skip(k));
            assert(spec_str_body(s, i, acc) == spec_str_body(s, i + 1, acc.push(c)));
        }
    }
}

/// Decodes the next document of the stream from position `i`: a clean end
/// when only whitespace remains, otherwise one document.
pub open spec fn spec_next_doc(s: Seq<char>, i: int) -> GDocStep {
    let w = spec_skip_ws(s, i);
    if !(i <= w <= s.len()) {
        GDocStep::Bad
    } else if w == s.len() {
        GDocStep::End
    } else {
        match spec_parse_doc(s, w) {
            GStep::Found(d, j) => GDocStep::Doc(d, j),
            GStep::Partial => GDocStep::Partial,
            GStep::Bad => GDocStep::Bad,
        }
    }
}

fn is_digit_c(c: char) -> (r: bool)
    ensures
        r == spec_is_digit(c),
{
    let u = c as u32;
    48 <= u && u <= 57
}

fn is_ws_c(c: char) -> (r: bool)
    ensures
        r == is_ws(c),
{
    c == ' ' || c == '\n' || c == '\t' || c == '\r'
}

fn escape_char(c: char) -> (r: Option<char>)
    ensures
        r == spec_escape(c),
{
    if c == '"' {
        Some('"')
    } else if c == '\\' {
        Some('\\')
    } else if c == '/' {
        Some('/')
    } else if c == 'b' {
        Some('\u{8}')
    } else if c == 'f' {
        Some('\u{c}')
    } else if c == 'n' {
        Some('\n')
    } else if c == 'r' {
        Some('\r')
    } else if c == 't' {
        Some('\t')
    } else {
        None
    }
}

/// First position at or after `i` holding no whitespace.
pub fn skip_ws(s: &Vec<char>, i: usize) -> (r: usize)
    requires
        i <= s@.len(),
    ensures
        r == spec_skip_ws(s@, i as int),
        i <= r <= s@.len(),
{
    let mut j = i;
    while j < s.len() && is_ws_c(s[j])
        invariant
            i <= j <= s@.len(),
            spec_skip_ws(s@, i as int) == spec_skip_ws(s@, j as int),
        decreases s@.len() - j,
    {
        j += 1;
    }
    j
}

fn digits_end(s: &Vec<char>, i: usize) -> (r: usize)
    requires
        i <= s@.len(),
    ensures
        r == spec_digits_end(s@, i as int),
        i <= r <= s@.len(),
{
    let mut j = i;
    while j < s.len() && is_digit_c(s[j])
        invariant
            i <= j <= s@.len(),
            spec_digits_end(s@, i as int) == spec_digits_end(s@, j as int),
        decreases s@.len() - j,
    {
        j += 1;
    }
    j
}

fn word_end(s: &Vec<char>, i: usize, w: &str) -> (r: PosStep)
    requires
        i <= s@.len(),
    ensures
        (r is Partial <==> spec_word_end(s@, i as int, w@) is Partial),
        (r is Bad <==> spec_word_end(s@, i as int, w@) is Bad),
        r matches PosStep::At(j) ==> GPos::At(j as int) == spec_word_end(s@, i as int, w@)
            && i <= j <= s@.len() && j == i + w@.len(),
{
    let slen = s.len();
    let wlen = w.unicode_len();
    let mut k: usize = 0;
    assert(w@.skip(0) =~= w@);
    while k < wlen
        invariant
            0 <= k <= wlen,
            wlen == w@.len(),
            slen == s@.len(),
            i + k <= slen,
            spec_word_end(s@, i as int, w@) == spec_word_end(s@, i + k, w@.skip(k as int)),
        decreases wlen - k,
    {
        assert(w@.skip(k as int).len() > 0);
        assert(w@.skip(k as int)[0] == w@[k as int]);
        if slen - i <= k {
            return PosStep::Partial;
        }
        if s[i + k] != w.get_char(k) {
            return PosStep::Bad;
        }
        assert(w@.skip(k as int).drop_first() =~= w@.skip(k as int + 1));
        k += 1;
    }
    assert(w@.skip(k as int).len() == 0);
    PosStep::At(i + k)
}

fn hex_val_c(c: char) -> (r: Option<u32>)
    ensures
        r == spec_hex_val(c),
{
    let u = c as u32;
    if 48 <= u && u <= 57 {
        Some(u - 48)
    } else if 97 <= u && u <= 102 {
        Some(u - 87)
    } else if 65 <= u && u <= 70 {
        Some(u - 55)
    } else {
        None
    }
}

fn hex4(s: &Vec<char>, j: usize) -> (r: Option<u32>)
    requires
        j + 4 <= s@.len(),
    ensures
        r == spec_hex4(s@, j as int),
        r matches Some(h) ==> h <= 0xFFFF,
{
    let slen = s.len();
    assert(j + 4 <= slen);
    let a = hex_val_c(s[j]);
    let b = hex_val_c(s[j + 1]);
    let c = hex_val_c(s[j + 2]);
    let d = hex_val_c(s[j + 3]);
    match (a, b, c, d) {
        (Some(a), Some(b), Some(c), Some(d)) => Some(((a * 16 + b) * 16 + c) * 16 + d),
        _ => None,
    }
}

fn all_hex(s: &Vec<char>, from: usize, to: usize) -> (r: bool)
    ensures
        r == spec_all_hex(s@, from as int, to as int),
    decreases to - from,
{
    if from >= to {
        true
    } else if from >= s.len() {
        false
    } else if hex_val_c(s[from]).is_some() {
        all_hex(s, from + 1, to)
    } else {
        false
    }
}

/// Relies on `char::from_u32`: it returns a character exactly for Unicode
/// scalar values (codes below the surrogate range, or from its end up to
/// 0x10FFFF), and the returned character has the given code.
#[verifier::external_body]
fn char_from_u32(x: u32) -> (r: Option<char>)
    ensures
        (r is Some <==> (x < 0xD800 || (0xE000 <= x && x <= 0x10FFFF))),
        r matches Some(c) ==> c as u32 == x,
{
    char::from_u32(x)
}

/// Decodes a string literal whose opening quote stands at `i`.
fn parse_string(s: &Vec<char>, i: usize) -> (r: Step<Vec<char>>)
    requires
        i < s@.len(),
        s@[i as int] == '"',
    ensures
        (r is Partial <==> spec_parse_string(s@, i as int) is Partial),
        (r is Bad <==> spec_parse_string(s@, i as int) is Bad),
        r matches Step::Found(v, j) ==> GStep::Found(v@, j as int) == spec_parse_string(
            s@,
            i as int,
        ) && i < j <= s@.len(),
{
    let slen = s.len();
    let mut j = i + 1;
    let mut acc: Vec<char> = Vec::new();
    loop
        invariant
            i + 1 <= j <= slen,
            slen == s@.len(),
            spec_parse_string(s@, i as int) == spec_str_body(s@, j as int, acc@),
        decreases s@.len() - j,
    {
        if j == s.len() {
            return Step::Partial;
        }
        let c = s[j];
        if c == '"' {
            return Step::Found(acc, j + 1);
        } else if c == '\\' {
            if j + 1 == s.len() {
                return Step::Partial;
            }
            if s[j + 1] == 'u' {
                proof {
                    assert(spec_str_body(s@, j as int, acc@) == spec_unicode_escape(
                        s@,
                        j as int,
                        acc@,
                    ));
                }
                let rem = slen - j;
                if rem < 6 {
                    if all_hex(s, j + 2, slen) {
                        return Step::Partial;
                    }
                    return Step::Bad;
                }
                let h = match hex4(s, j + 2) {
                    Some(h) => h,
                    None => {
                        return Step::Bad;
                    },
                };
                if 0xD800 <= h && h < 0xDC00 {
                    if rem == 6 {
                        return Step::Partial;
                    }
                    if s[j + 6] != '\\' {
                        return Step::Bad;
                    }
                    if rem == 7 {
                        return Step::Partial;
                    }
                    if s[j + 7] != 'u' {
                        return Step::Bad;
                    }
                    if rem < 12 {
                        if all_hex(s, j + 8, slen) {
                            return Step::Partial;
                        }
                        return Step::Bad;
                    }
                    let l = match hex4(s, j + 8) {
                        Some(l) => l,
                        None => {
                            return Step::Bad;
                        },
                    };
                    if !(0xDC00 <= l && l < 0xE000) {
                        return Step::Bad;
                    }
                    let code = 0x10000 + (h - 0xD800) * 0x400 + (l - 0xDC00);
                    match char_from_u32(code) {
                        Some(ch) => {
                            proof {
                                vstd::utf8::char_u32_cast(ch, code);
                            }
                            acc.push(ch);
                            j += 12;
                        },
                        None => {
                            assert(false);
                            return Step::Bad;
                        },
                    }
                } else if 0xDC00 <= h && h < 0xE000 {
                    return Step::Bad;
                } else {
                    match char_from_u32(h) {
                        Some(ch) => {
                            proof {
                                vstd::utf8::char_u32_cast(ch, h);
                            }
                            acc.push(ch);
                            j += 6;
                        },
                        None => {
                            assert(false);
                            return Step::Bad;
                        },
                    }
                }
            } else {
                match escape_char(s[j + 1]) {
                    Some(e) => {
                        acc.push(e);
                        j += 2;
                    },
                    None => {
                        return Step::Bad;
                    },
                }
            }
        } else if (c as u32) < 32 {
            return Step::Bad;
        } else {
            acc.push(c);
            j += 1;
        }
    }
}

/// Recognizes a number beginning at `i`.
fn parse_num(s: &Vec<char>, i: usize) -> (r: PosStep)
    requires
        i < s@.len(),
    ensures
        (r is Partial <==> spec_num_end(s@, i as int) is Partial),
        (r is Bad <==> spec_num_end(s@, i as int) is Bad),
        r matches PosStep::At(j) ==> GPos::At(j as int) == spec_num_end(s@, i as int)
            && i < j <= s@.len(),
{
    let slen = s.len();
    let p = if s[i] == '-' {
        i + 1
    } else {
        i
    };
    if p >= slen {
        return PosStep::Partial;
    }
    if !is_digit_c(s[p]) {
        return PosStep::Bad;
    }
    assert(spec_digits_end(s@, p as int) == spec_digits_end(s@, p + 1));
    let q = if s[p] == '0' {
        p + 1
    } else {
        digits_end(s, p + 1)
    };
    if q < s.len() && is_digit_c(s[q]) {
        return PosStep::Bad;
    }
    if q >= s.len() {
        return PosStep::Partial;
    }
    // fraction part
    let q2 = if s[q] == '.' {
        let r = digits_end(s, q + 1);
        if r == q + 1 {
            if q + 1 >= s.len() {
                return PosStep::Partial;
            } else {
                return PosStep::Bad;
            }
        }
        if r >= s.len() {
            return PosStep::Partial;
        }
        r
    } else {
        q
    };
    // exponent part
    if s[q2] == 'e' || s[q2] == 'E' {
        let t = if q2 + 1 < s.len() && (s[q2 + 1] == '+' || s[q2 + 1] == '-') {
            q2 + 2
        } else {
            q2 + 1
        };
        if t >= s.len() {
            return PosStep::Partial;
        }
        let r = digits_end(s, t);
        if r == t {
            return PosStep::Bad;
        }
        if r >= s.len() {
            return PosStep::Partial;
        }
        PosStep::At(r)
    } else {
        PosStep::At(q2)
    }
}

/// Recognizes a nested value beginning at `i`, without keeping its contents.
fn skip_value(s: &Vec<char>, i: usize) -> (r: PosStep)
    requires
        i <= s@.len(),
    ensures
        (r is Partial <==> spec_skip_value(s@, i as int) is Partial),
        (r is Bad <==> spec_skip_value(s@, i as int) is Bad),
        r matches PosStep::At(j) ==> GPos::At(j as int) == spec_skip_value(s@, i as int)
            && i < j <= s@.len(),
    decreases s@.len() - i, 0int,
{
    if i >= s.len() {
        return PosStep::Partial;
    }
    let c = s[i];
    if c == '"' {
        match parse_string(s, i) {
            Step::Found(_, j) => PosStep::At(j),
            Step::Partial => PosStep::Partial,
            Step::Bad => PosStep::Bad,
        }
    } else if c == 'n' {
        let r = word_end(s, i, "null");
        proof {
            reveal_strlit("null");
        }
        r
    } else if c == 't' {
        let r = word_end(s, i, "true");
        proof {
            reveal_strlit("true");
        }
        r
    } else if c == 'f' {
        let r = word_end(s, i, "false");
        proof {
            reveal_strlit("false");
        }
        r
    } else if c == '-' || is_digit_c(c) {
        parse_num(s, i)
    } else if c == '{' {
        skip_members(s, i + 1, false)
    } else if c == '[' {
        skip_elements(s, i + 1, false)
    } else {
        PosStep::Bad
    }
}

/// Recognizes the remaining members of a nested object from position `j`.
fn skip_members(s: &Vec<char>, j: usize, after_comma: bool) -> (r: PosStep)
    requires
        j <= s@.len(),
    ensures
        (r is Partial <==> spec_skip_members(s@, j as int, after_comma) is Partial),
        (r is Bad <==> spec_skip_members(s@, j as int, after_comma) is Bad),
        r matches PosStep::At(e) ==> GPos::At(e as int) == spec_skip_members(
            s@,
            j as int,
            after_comma,
        ) && j < e <= s@.len(),
    decreases s@.len() - j, 1int,
{
    let w = skip_ws(s, j);
    if w == s.len() {
        return PosStep::Partial;
    }
    if s[w] == '}' {
        if after_comma {
            return PosStep::Bad;
        }
        return PosStep::At(w + 1);
    }
    if s[w] != '"' {
        return PosStep::Bad;
    }
    let j2 = match parse_string(s, w) {
        Step::Found(_, j2) => j2,
        Step::Partial => {
            return PosStep::Partial;
        },
        Step::Bad => {
            return PosStep::Bad;
        },
    };
    let c = skip_ws(s, j2);
    if c == s.len() {
        return PosStep::Partial;
    }
    if s[c] != ':' {
        return PosStep::Bad;
    }
    let v = skip_ws(s, c + 1);
    let e = match skip_value(s, v) {
        PosStep::At(e) => e,
        PosStep::Partial => {
            return PosStep::Partial;
        },
        PosStep::Bad => {
            return PosStep::Bad;
        },
    };
    let t = skip_ws(s, e);
    if t == s.len() {
        return PosStep::Partial;
    }
    if s[t] == '}' {
        return PosStep::At(t + 1);
    }
    if s[t] == ',' {
        skip_members(s, t + 1, true)
    } else {
        PosStep::Bad
    }
}

/// Recognizes the remaining elements of a nested array from position `j`.
fn skip_elements(s: &Vec<char>, j: usize, after_comma: bool) -> (r: PosStep)
    requires
        j <= s@.len(),
    ensures
        (r is Partial <==> spec_skip_elements(s@, j as int, after_comma) is Partial),
        (r is Bad <==> spec_skip_elements(s@, j as int, after_comma) is Bad),
        r matches PosStep::At(e) ==> GPos::At(e as int) == spec_skip_elements(
            s@,
            j as int,
            after_comma,
        ) && j < e <= s@.len(),
    decreases s@.len() - j, 1int,
{
    let w = skip_ws(s, j);
    if w == s.len() {
        return PosStep::Partial;
    }
    if s[w] == ']' {
        if after_comma {
            return PosStep::Bad;
        }
        return PosStep::At(w + 1);
    }
    let e = match skip_value(s, w) {
        PosStep::At(e) => e,
        PosStep::Partial => {
            return PosStep::Partial;
        },
        PosStep::Bad => {
            return PosStep::Bad;
        },
    };
    let t = skip_ws(s, e);
    if t == s.len() {
        return PosStep::Partial;
    }
    if s[t] == ']' {
        return PosStep::At(t + 1);
    }
    if s[t] == ',' {
        skip_elements(s, t + 1, true)
    } else {
        PosStep::Bad
    }
}

/// Decodes one field value beginning at `i`.
fn parse_scalar(s: &Vec<char>, i: usize) -> (r: Step<Scalar>)
    requires
        i < s@.len(),
    ensures
        (r is Partial <==> spec_parse_scalar(s@, i as int) is Partial),
        (r is Bad <==> spec_parse_scalar(s@, i as int) is Bad),
        r matches Step::Found(v, j) ==> GStep::Found(v@, j as int) == spec_parse_scalar(
            s@,
            i as int,
        ) && i < j <= s@.len(),
{
    if i >= s.len() {
        return Step::Bad;
    }
    let c = s[i];
    if c == '"' {
        match parse_string(s, i) {
            Step::Found(v, j) => Step::Found(Scalar::Str(v), j),
            Step::Partial => Step::Partial,
            Step::Bad => Step::Bad,
        }
    } else if c == 'n' {
        match word_end(s, i, "null") {
            PosStep::At(j) => {
                proof {
                    reveal_strlit("null");
                }
                Step::Found(Scalar::Null, j)
            },
            PosStep::Partial => Step::Partial,
            PosStep::Bad => Step::Bad,
        }
    } else if c == 't' {
        match word_end(s, i, "true") {
            PosStep::At(j) => {
                proof {
                    reveal_strlit("true");
                }
                Step::Found(Scalar::Bool(true), j)
            },
            PosStep::Partial => Step::Partial,
            PosStep::Bad => Step::Bad,
        }
    } else if c == 'f' {
        match word_end(s, i, "false") {
            PosStep::At(j) => {
                proof {
                    reveal_strlit("false");
                }
                Step::Found(Scalar::Bool(false), j)
            },
            PosStep::Partial => Step::Partial,
            PosStep::Bad => Step::Bad,
        }
    } else if c == '-' || is_digit_c(c) {
        match parse_num(s, i) {
            PosStep::At(j) => Step::Found(Scalar::Num, j),
            PosStep::Partial => Step::Partial,
            PosStep::Bad => Step::Bad,
        }
    } else if c == '{' {
        match skip_members(s, i + 1, false) {
            PosStep::At(j) => Step::Found(Scalar::Composite, j),
            PosStep::Partial => Step::Partial,
            PosStep::Bad => Step::Bad,
        }
    } else if c == '[' {
        match skip_elements(s, i + 1, false) {
            PosStep::At(j) => Step::Found(Scalar::Composite, j),
            PosStep::Partial => Step::Partial,
            PosStep::Bad => Step::Bad,
        }
    } else {
        Step::Bad
    }
}

/// Decodes the members of an object from position `j0` (at the opening quote
/// of the first key), up to and including the closing brace.
fn parse_members(s: &Vec<char>, j0: usize) -> (r: Step<Vec<Member>>)
    requires
        j0 <= s@.len(),
    ensures
        (r is Partial <==> spec_members(s@, j0 as int, Seq::empty()) is Partial),
        (r is Bad <==> spec_members(s@, j0 as int, Seq::empty()) is Bad),
        r matches Step::Found(ms, j) ==> GStep::Found(members_view(ms@), j as int) == spec_members(
            s@,
            j0 as int,
            Seq::empty(),
        ) && j0 < j <= s@.len(),
{
    let mut j = j0;
    let mut acc: Vec<Member> = Vec::new();
    assert(members_view(acc@) =~= Seq::<GMember>::empty());
    loop
        invariant
            j0 <= j <= s@.len(),
            spec_members(s@, j0 as int, Seq::empty()) == spec_members(
                s@,
                j as int,
                members_view(acc@),
            ),
        decreases s@.len() - j,
    {
        if j == s.len() {
            return Step::Partial;
        }
        if s[j] != '"' {
            return Step::Bad;
        }
        let (key, j2) = match parse_string(s, j) {
            Step::Found(v, j2) => (v, j2),
            Step::Partial => {
                return Step::Partial;
            },
            Step::Bad => {
                return Step::Bad;
            },
        };
        let w = skip_ws(s, j2);
        if w == s.len() {
            return Step::Partial;
        }
        if s[w] != ':' {
            return Step::Bad;
        }
        let v = skip_ws(s, w + 1);
        if v == s.len() {
            assert(spec_parse_scalar(s@, v as int) is Bad);
            return Step::Bad;
        }
        let (val, j3) = match parse_scalar(s, v) {
            Step::Found(x, j3) => (x, j3),
            Step::Partial => {
                return Step::Partial;
            },
            Step::Bad => {
                return Step::Bad;
            },
        };
        let ghost old_acc = acc@;
        acc.push(Member { key, val });
        assert(members_view(acc@) =~= members_view(old_acc).push(acc@[old_acc.len() as int]@));
        let w2 = skip_ws(s, j3);
        if w2 == s.len() {
            return Step::Partial;
        }
        if s[w2] == '}' {
            return Step::Found(acc, w2 + 1);
        }
        if s[w2] == ',' {
            let n = skip_ws(s, w2 + 1);
            j = n;
        } else {
            return Step::Bad;
        }
    }
}

/// Decodes one whole document beginning at or after `i`.
pub fn parse_doc(s: &Vec<char>, i: usize) -> (r: Step<Vec<Member>>)
    requires
        i <= s@.len(),
    ensures
        (r is Partial <==> spec_parse_doc(s@, i as int) is Partial),
        (r is Bad <==> spec_parse_doc(s@, i as int) is Bad),
        r matches Step::Found(ms, j) ==> GStep::Found(members_view(ms@), j as int)
            == spec_parse_doc(s@, i as int) && i < j <= s@.len(),
{
    let w = skip_ws(s, i);
    if w == s.len() {
        return Step::Partial;
    }
    if s[w] != '{' {
        return Step::Bad;
    }
    let b = skip_ws(s, w + 1);
    if b == s.len() {
        return Step::Partial;
    }
    if s[b] == '}' {
        let ms: Vec<Member> = Vec::new();
        assert(members_view(ms@) =~= Seq::<GMember>::empty());
        return Step::Found(ms, b + 1);
    }
    match parse_members(s, b) {
        Step::Found(ms, j) => Step::Found(ms, j),
        Step::Partial => Step::Partial,
        Step::Bad => Step::Bad,
    }
}

/// Decodes the next document of the stream from position `i`.
pub fn next_doc(s: &Vec<char>, i: usize) -> (r: DocStep)
    requires
        i <= s@.len(),
    ensures
        (r is Partial <==> spec_next_doc(s@, i as int) is Partial),
        (r is Bad <==> spec_next_doc(s@, i as int) is Bad),
        (r is End <==> spec_next_doc(s@, i as int) is End),
        r matches DocStep::Doc(ms, j) ==> GDocStep::Doc(members_view(ms@), j as int)
            == spec_next_doc(s@, i as int) && i < j <= s@.len(),
{
    let w = skip_ws(s, i);
    if w == s.len() {
        return DocStep::End;
    }
    match parse_doc(s, w) {
        Step::Found(ms, j) => DocStep::Doc(ms, j),
        Step::Partial => DocStep::Partial,
        Step::Bad => DocStep::Bad,
    }
}

} // verus!
