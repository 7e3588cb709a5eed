//! Parsing of Whisper's generated text.
//!
//! Each chunk of generated text (one per 30 s window of audio) interleaves
//! literal text with control tokens of the form `<|...|>`. A token whose
//! body is a floating-point literal (as `f32` parsing accepts it) is a
//! timestamp; text between two timestamps is a segment. Other control tokens (`<|de|>`, `<|transcribe|>`, ...) are
//! dropped. A `<|` with no closing `|>` is literal text.
//!
//! Timestamps are kept as the token text itself (`"2.50"`); turning them
//! into seconds is floating-point work that the caller does, with the
//! chunk's offset of `30 * chunk` seconds.

use vstd::prelude::*;
use vstd::string::*;

verus! {

// ---------------------------------------------------------------------------
// Tokenization
// ---------------------------------------------------------------------------

/// A piece of a chunk: one character of literal text, or the body of a
/// `<|...|>` control token.
pub ghost enum Piece {
    Text(char),
    Token(Seq<char>),
}

/// The first position `j >= from` where `|>` starts, if any.
pub open spec fn token_end(s: Seq<char>, from: int) -> Option<int>
    decreases s.len() - from,
{
    if from < 0 || from + 1 >= s.len() {
        None
    } else if s[from] == '|' && s[from + 1] == '>' {
        Some(from)
    } else {
        token_end(s, from + 1)
    }
}

/// `|>` starts at position `j` of `s`.
pub open spec fn closes_at(s: Seq<char>, j: int) -> bool {
    0 <= j && j + 1 < s.len() && s[j] == '|' && s[j + 1] == '>'
}

/// `token_end` finds the first `|>` at or after `from`.
pub proof fn lemma_token_end(s: Seq<char>, from: int)
    requires
        from >= 0,
    ensures
        token_end(s, from) matches Some(e) ==> from <= e && closes_at(s, e) && (forall|k: int|
            from <= k < e ==> !closes_at(s, k)),
        token_end(s, from) is None ==> forall|k: int| from <= k ==> !closes_at(s, k),
    decreases s.len() - from,
{
    if from + 1 >= s.len() {
    } else if s[from] == '|' && s[from + 1] == '>' {
    } else {
        lemma_token_end(s, from + 1);
    }
}

/// A control token opens at position `i`: `<|` followed, somewhere later, by `|>`.
pub open spec fn opens_token_at(s: Seq<char>, i: int) -> bool {
    0 <= i && i + 1 < s.len() && s[i] == '<' && s[i + 1] == '|' && token_end(s, i + 2) is Some
}

/// The literal character at position `i`, as a piece.
pub open spec fn text_piece(s: Seq<char>, i: int) -> Piece {
    Piece::Text(s[i])
}

/// The pieces of `s` from position `i` on, scanning left to right.
pub open spec fn pieces_from(s: Seq<char>, i: int) -> Seq<Piece>
    decreases s.len() - i,
{
    if i < 0 || i >= s.len() {
        Seq::empty()
    } else if opens_token_at(s, i) {
        let e = token_end(s, i + 2)->Some_0;
        proof {
            lemma_token_end(s, i + 2);
        }
        seq![Piece::Token(s.subrange(i + 2, e))] + pieces_from(s, e + 2)
    } else {
        seq![text_piece(s, i)] + pieces_from(s, i + 1)
    }
}

/// The pieces of a whole chunk.
pub open spec fn pieces(s: Seq<char>) -> Seq<Piece> {
    pieces_from(s, 0)
}

/// A one-piece sequence followed by `rest`.
proof fn lemma_cons_piece(p: Piece, rest: Seq<Piece>)
    ensures
        (seq![p] + rest).len() == rest.len() + 1,
        (seq![p] + rest)[0] == p,
        (seq![p] + rest).drop_first() == rest,
{
    assert((seq![p] + rest).drop_first() =~= rest);
}

/// Unfolds `pieces_from` by one step.
proof fn lemma_pieces_step(s: Seq<char>, i: int)
    requires
        0 <= i < s.len(),
    ensures
        opens_token_at(s, i) ==> {
            let e = token_end(s, i + 2)->Some_0;
            &&& i + 2 <= e && e + 2 <= s.len()
            &&& pieces_from(s, i).drop_first() == pieces_from(s, e + 2)
            &&& pieces_from(s, i)[0] == Piece::Token(s.subrange(i + 2, e))
        },
        !opens_token_at(s, i) ==> {
            &&& pieces_from(s, i).drop_first() == pieces_from(s, i + 1)
            &&& pieces_from(s, i)[0] == Piece::Text(s[i])
        },
        pieces_from(s, i).len() > 0,
{
    lemma_token_end(s, i + 2);
    if opens_token_at(s, i) {
        let e = token_end(s, i + 2)->Some_0;
        lemma_cons_piece(Piece::Token(s.subrange(i + 2, e)), pieces_from(s, e + 2));
    } else {
        lemma_cons_piece(text_piece(s, i), pieces_from(s, i + 1));
    }
}

/// The characters of a string, one per element.
pub fn chars_of(s: &str) -> (cs: Vec<char>)
    ensures
        cs@ == s@,
{
    let n = s.unicode_len();
    let mut cs: Vec<char> = Vec::new();
    let mut i: usize = 0;
    while i < n
        invariant
            n == s@.len(),
            i <= n,
            cs@ == s@.subrange(0, i as int),
        decreases n - i,
    {
        cs.push(s.get_char(i));
        i = i + 1;
        assert(cs@ =~= s@.subrange(0, i as int));
    }
    assert(cs@ =~= s@);
    cs
}

/// Finds the first `|>` at or after `from`: the position of its `|`.
pub fn find_token_end(cs: &Vec<char>, from: usize) -> (r: Option<usize>)
    ensures
        match r {
            Some(e) => token_end(cs@, from as int) == Some(e as int),
            None => token_end(cs@, from as int) is None,
        },
{
    let n = cs.len();
    let mut j = from;
    while j < n && j + 1 < n
        invariant
            n == cs@.len(),
            from <= j,
            token_end(cs@, from as int) == token_end(cs@, j as int),
        decreases n - j,
    {
        if cs[j] == '|' && cs[j + 1] == '>' {
            return Some(j);
        }
        j = j + 1;
    }
    None
}

// ---------------------------------------------------------------------------
// Language tokens
// ---------------------------------------------------------------------------

/// A language control token: two or three lowercase ASCII letters
/// (an ISO 639 code such as `de` or `haw`).
pub open spec fn is_language_token(t: Seq<char>) -> bool {
    2 <= t.len() <= 3 && forall|k: int| 0 <= k < t.len() ==> 'a' <= #[trigger] t[k] <= 'z'
}

/// Decides `is_language_token` for the token `cs[a..b]`.
pub fn is_language_token_at(cs: &Vec<char>, a: usize, b: usize) -> (r: bool)
    requires
        a <= b <= cs@.len(),
    ensures
        r == is_language_token(cs@.subrange(a as int, b as int)),
{
    let len = b - a;
    if len < 2 || len > 3 {
        return false;
    }
    let mut k = a;
    while k < b
        invariant
            a <= k <= b,
            b <= cs@.len(),
            forall|m: int| a <= m < k ==> 'a' <= #[trigger] cs@[m] <= 'z',
        decreases b - k,
    {
        let c = cs[k];
        if !('a' <= c && c <= 'z') {
            assert(cs@.subrange(a as int, b as int)[k - a] == c);
            return false;
        }
        k = k + 1;
    }
    true
}

/// The first language token among `ps`, if any.
pub open spec fn first_language(ps: Seq<Piece>) -> Option<Seq<char>>
    decreases ps.len(),
{
    if ps.len() == 0 {
        None
    } else {
        match ps[0] {
            Piece::Token(t) => if is_language_token(t) {
                Some(t)
            } else {
                first_language(ps.drop_first())
            },
            Piece::Text(_) => first_language(ps.drop_first()),
        }
    }
}

/// The language Whisper announced in a list of chunks: the first language
/// token of the first chunk.
pub open spec fn detected_language(chunks: Seq<Seq<char>>) -> Option<Seq<char>> {
    if chunks.len() == 0 {
        None
    } else {
        first_language(pieces(chunks[0]))
    }
}

/// The views of a list of strings.
pub open spec fn strings_view(v: Seq<String>) -> Seq<Seq<char>> {
    v.map_values(|s: String| s@)
}

/// Scans the first chunk for Whisper's `<|xx|>` language control token and
/// returns its code.
pub fn detect_language_from_chunks(chunks: &Vec<String>) -> (r: Option<String>)
    ensures
        match r {
            Some(l) => detected_language(strings_view(chunks@)) == Some(l@),
            None => detected_language(strings_view(chunks@)) is None,
        },
{
    if chunks.len() == 0 {
        return None;
    }
    let first: &str = chunks[0].as_str();
    let cs = chars_of(first);
    let n = cs.len();
    let ghost s = cs@;
    assert(strings_view(chunks@)[0] == s);
    assert(detected_language(strings_view(chunks@)) == first_language(pieces_from(s, 0)));
    let mut i: usize = 0;
    while i < n && i + 1 < n
        invariant
            n == s.len(),
            i <= n,
            s == cs@,
            s == first@,
            first_language(pieces_from(s, i as int)) == detected_language(strings_view(chunks@)),
        decreases n - i,
    {
        proof {
            lemma_pieces_step(s, i as int);
        }
        if cs[i] == '<' && cs[i + 1] == '|' {
            match find_token_end(&cs, i + 2) {
                Some(end) => {
                    proof {
                        lemma_token_end(s, i + 2);
                    }
                    if is_language_token_at(&cs, i + 2, end) {
                        let tok = String::from_str(first.substring_char(i + 2, end));
                        assert(opens_token_at(s, i as int));
                        let ghost ps = pieces_from(s, i as int);
                        assert(ps[0] == Piece::Token(tok@));
                        assert(first_language(ps) == Some(tok@));
                        return Some(tok);
                    }
                    assert(opens_token_at(s, i as int));
                    i = end + 2;
                    continue;
                },
                None => {},
            }
        }
        i = i + 1;
    }
    proof {
        if i < n {
            lemma_pieces_step(s, i as int);
            assert(!opens_token_at(s, i as int));
            assert(pieces_from(s, i as int + 1).len() == 0);
            let ps = pieces_from(s, i as int);
            assert(first_language(ps.drop_first()) is None);
        }
    }
    None
}

// ---------------------------------------------------------------------------
// Timestamp tokens
// ---------------------------------------------------------------------------

/// An ASCII decimal digit.
pub open spec fn is_digit(c: char) -> bool {
    '0' <= c <= '9'
}

/// Every character of `t` is a decimal digit.
pub open spec fn all_digits(t: Seq<char>) -> bool {
    forall|k: int| 0 <= k < t.len() ==> is_digit(#[trigger] t[k])
}

/// A sign character.
pub open spec fn is_sign(c: char) -> bool {
    c == '+' || c == '-'
}

/// The exponent marker, either case.
pub open spec fn is_exp_marker(c: char) -> bool {
    c == 'e' || c == 'E'
}

/// `Digit+ | Digit+ '.' Digit* | Digit* '.' Digit+`.
pub open spec fn is_decimal(m: Seq<char>) -> bool {
    ||| m.len() > 0 && all_digits(m)
    ||| m.len() > 1 && exists|d: int|
        0 <= d < m.len() && #[trigger] m[d] == '.' && all_digits(m.take(d)) && all_digits(m.skip(d + 1))
}

/// `Sign? Digit+`, what follows the exponent marker.
pub open spec fn is_exponent(x: Seq<char>) -> bool {
    ||| x.len() > 0 && all_digits(x)
    ||| x.len() > 1 && is_sign(x[0]) && all_digits(x.skip(1))
}

/// `Decimal Exp?` where `Exp ::= ('e' | 'E') Sign? Digit+`.
pub open spec fn is_number(t: Seq<char>) -> bool {
    ||| is_decimal(t)
    ||| exists|k: int|
        0 <= k < t.len() && is_exp_marker(#[trigger] t[k]) && is_decimal(t.take(k)) && is_exponent(
            t.skip(k + 1),
        )
}

/// `t` spells `word` (lowercase ASCII letters) in any ASCII case.
pub open spec fn spells_ignoring_case(t: Seq<char>, word: Seq<char>) -> bool {
    t.len() == word.len() && forall|k: int|
        0 <= k < t.len() ==> (#[trigger] t[k] == word[k] || t[k] as u32 + 32 == word[k] as u32)
}

/// `inf`, `infinity` or `nan`, in any case.
pub open spec fn is_special_value(t: Seq<char>) -> bool {
    ||| spells_ignoring_case(t, seq!['i', 'n', 'f'])
    ||| spells_ignoring_case(t, seq!['i', 'n', 'f', 'i', 'n', 'i', 't', 'y'])
    ||| spells_ignoring_case(t, seq!['n', 'a', 'n'])
}

/// The strings that Rust's `f32::from_str` accepts, by the grammar its
/// documentation gives: `Sign? ('inf' | 'infinity' | 'nan' | Number)`,
/// letters in any case. A control token whose body is such a string is a
/// timestamp.
pub open spec fn is_float_literal(t: Seq<char>) -> bool {
    ||| is_special_value(t) || is_number(t)
    ||| t.len() > 0 && is_sign(t[0]) && (is_special_value(t.skip(1)) || is_number(t.skip(1)))
}

/// A decimal consists of digits and dots only.
proof fn lemma_decimal_chars(m: Seq<char>)
    requires
        is_decimal(m),
    ensures
        forall|k: int| 0 <= k < m.len() ==> is_digit(#[trigger] m[k]) || m[k] == '.',
{
    if m.len() > 0 && all_digits(m) {
    } else {
        let d = choose|d: int|
            0 <= d < m.len() && #[trigger] m[d] == '.' && all_digits(m.take(d)) && all_digits(
                m.skip(d + 1),
            );
        assert forall|k: int| 0 <= k < m.len() implies is_digit(#[trigger] m[k]) || m[k] == '.' by {
            if k < d {
                assert(m.take(d)[k] == m[k]);
            } else if k > d {
                assert(m.skip(d + 1)[k - d - 1] == m[k]);
            }
        }
    }
}

/// Decides `is_decimal` for `cs[a..b]`.
fn decimal_at(cs: &Vec<char>, a: usize, b: usize) -> (r: bool)
    requires
        a <= b <= cs@.len(),
    ensures
        r == is_decimal(cs@.subrange(a as int, b as int)),
{
    let ghost m = cs@.subrange(a as int, b as int);
    let mut i = a;
    while i < b && '0' <= cs[i] && cs[i] <= '9'
        invariant
            a <= i <= b,
            b <= cs@.len(),
            forall|k: int| a <= k < i ==> is_digit(#[trigger] cs@[k]),
        decreases b - i,
    {
        i = i + 1;
    }
    if i == b {
        assert(m.len() > 0 ==> all_digits(m)) by {
            assert forall|k: int| 0 <= k < m.len() implies is_digit(#[trigger] m[k]) by {
                assert(m[k] == cs@[a + k]);
            }
        }
        if b == a {
            return false;
        }
        return true;
    }
    // cs[i] is not a digit
    assert(m[i - a] == cs@[i as int]);
    assert(!all_digits(m));
    if cs[i] != '.' {
        proof {
            if is_decimal(m) {
                lemma_decimal_chars(m);
            }
        }
        return false;
    }
    let mut j = i + 1;
    while j < b && '0' <= cs[j] && cs[j] <= '9'
        invariant
            i < j <= b,
            b <= cs@.len(),
            forall|k: int| i < k < j ==> is_digit(#[trigger] cs@[k]),
        decreases b - j,
    {
        j = j + 1;
    }
    let ghost d: int = i - a;
    if j != b {
        proof {
            assert(m[j - a] == cs@[j as int]);
            if is_decimal(m) {
                lemma_decimal_chars(m);
                assert(m[j - a] != '.') by {
                    // the only dot is at d; any other dot would make the tail non-digits
                    let d2 = choose|d2: int|
                        0 <= d2 < m.len() && #[trigger] m[d2] == '.' && all_digits(m.take(d2))
                            && all_digits(m.skip(d2 + 1));
                    if d2 < d {
                        assert(m.skip(d2 + 1)[d - d2 - 1] == m[d]);
                    } else if d2 > d {
                        assert(m.take(d2)[d] == m[d]);
                    }
                    assert(m.skip(d2 + 1)[j - a - d2 - 1] == m[j - a]);
                }
            }
        }
        return false;
    }
    assert(m[d] == '.');
    assert(all_digits(m.take(d))) by {
        assert forall|k: int| 0 <= k < m.take(d).len() implies is_digit(#[trigger] m.take(d)[k]) by {
            assert(m.take(d)[k] == cs@[a + k]);
        }
    }
    assert(all_digits(m.skip(d + 1))) by {
        assert forall|k: int| 0 <= k < m.skip(d + 1).len() implies is_digit(
            #[trigger] m.skip(d + 1)[k],
        ) by {
            assert(m.skip(d + 1)[k] == cs@[a + d + 1 + k]);
        }
    }
    b - a > 1
}

/// Decides `is_exponent` for `cs[a..b]`.
fn exponent_at(cs: &Vec<char>, a: usize, b: usize) -> (r: bool)
    requires
        a <= b <= cs@.len(),
    ensures
        r == is_exponent(cs@.subrange(a as int, b as int)),
{
    let ghost x = cs@.subrange(a as int, b as int);
    if a == b {
        return false;
    }
    let mut p = a;
    assert(x[0] == cs@[a as int]);
    if cs[a] == '+' || cs[a] == '-' {
        p = a + 1;
        if p == b {
            return false;
        }
    }
    assert(x[0] == cs@[a as int]);
    let mut k = p;
    while k < b
        invariant
            a <= p <= k <= b,
            b <= cs@.len(),
            x == cs@.subrange(a as int, b as int),
            x.len() > 0,
            (p == a && !is_sign(x[0])) || (p == a + 1 && is_sign(x[0]) && x.len() > 1),
            forall|m: int| p <= m < k ==> is_digit(#[trigger] cs@[m]),
        decreases b - k,
    {
        if !('0' <= cs[k] && cs[k] <= '9') {
            proof {
                assert(x[k - a] == cs@[k as int]);
                if p > a {
                    assert(x.skip(1)[k - a - 1] == cs@[k as int]);
                }
            }
            return false;
        }
        k = k + 1;
    }
    proof {
        if p == a {
            assert forall|m: int| 0 <= m < x.len() implies is_digit(#[trigger] x[m]) by {
                assert(x[m] == cs@[a + m]);
            }
        } else {
            assert forall|m: int| 0 <= m < x.skip(1).len() implies is_digit(#[trigger] x.skip(1)[m]) by {
                assert(x.skip(1)[m] == cs@[a + 1 + m]);
            }
        }
    }
    true
}

/// Decides `is_number` for `cs[a..b]`.
fn number_at(cs: &Vec<char>, a: usize, b: usize) -> (r: bool)
    requires
        a <= b <= cs@.len(),
    ensures
        r == is_number(cs@.subrange(a as int, b as int)),
{
    let ghost t = cs@.subrange(a as int, b as int);
    let mut k = a;
    while k < b && !(cs[k] == 'e' || cs[k] == 'E')
        invariant
            a <= k <= b,
            b <= cs@.len(),
            forall|m: int| a <= m < k ==> !is_exp_marker(#[trigger] cs@[m]),
        decreases b - k,
    {
        k = k + 1;
    }
    if k == b {
        let r = decimal_at(cs, a, b);
        proof {
            assert forall|q: int| 0 <= q < t.len() implies !is_exp_marker(#[trigger] t[q]) by {
                assert(t[q] == cs@[a + q]);
            }
        }
        return r;
    }
    let ghost q = k - a;
    assert(t[q] == cs@[k as int]);
    assert(t.take(q) =~= cs@.subrange(a as int, k as int));
    assert(t.skip(q + 1) =~= cs@.subrange(k + 1, b as int));
    let dm = decimal_at(cs, a, k);
    let ex = exponent_at(cs, k + 1, b);
    proof {
        if is_decimal(t) {
            lemma_decimal_chars(t);
        }
        if exists|q2: int|
            0 <= q2 < t.len() && is_exp_marker(#[trigger] t[q2]) && is_decimal(t.take(q2))
                && is_exponent(t.skip(q2 + 1)) {
            let q2 = choose|q2: int|
                0 <= q2 < t.len() && is_exp_marker(#[trigger] t[q2]) && is_decimal(t.take(q2))
                    && is_exponent(t.skip(q2 + 1));
            if q2 < q {
                assert(t[q2] == cs@[a + q2]);
            } else if q2 > q {
                lemma_decimal_chars(t.take(q2));
                assert(t.take(q2)[q] == t[q]);
            }
        }
    }
    dm && ex
}

/// Decides `is_special_value` for `cs[a..b]`.
fn special_at(cs: &Vec<char>, a: usize, b: usize) -> (r: bool)
    requires
        a <= b <= cs@.len(),
    ensures
        r == is_special_value(cs@.subrange(a as int, b as int)),
{
    spells_at(cs, a, b, 0) || spells_at(cs, a, b, 1) || spells_at(cs, a, b, 2)
}

/// The three special words.
pub open spec fn special_word(w: u8) -> Seq<char> {
    if w == 0 {
        seq!['i', 'n', 'f']
    } else if w == 1 {
        seq!['i', 'n', 'f', 'i', 'n', 'i', 't', 'y']
    } else {
        seq!['n', 'a', 'n']
    }
}

fn special_word_char(w: u8, k: usize) -> (c: char)
    requires
        k < special_word(w).len(),
    ensures
        c == special_word(w)[k as int],
{
    if w == 0 {
        if k == 0 { 'i' } else if k == 1 { 'n' } else { 'f' }
    } else if w == 1 {
        if k == 0 { 'i' } else if k == 1 { 'n' } else if k == 2 { 'f' } else if k == 3 { 'i' }
        else if k == 4 { 'n' } else if k == 5 { 'i' } else if k == 6 { 't' } else { 'y' }
    } else {
        if k == 0 { 'n' } else if k == 1 { 'a' } else { 'n' }
    }
}

fn spells_at(cs: &Vec<char>, a: usize, b: usize, w: u8) -> (r: bool)
    requires
        a <= b <= cs@.len(),
    ensures
        r == spells_ignoring_case(cs@.subrange(a as int, b as int), special_word(w)),
{
    let ghost t = cs@.subrange(a as int, b as int);
    let len: usize = if w == 1 { 8 } else { 3 };
    if b - a != len {
        return false;
    }
    let mut k: usize = 0;
    while k < len
        invariant
            k <= len,
            len == special_word(w).len(),
            b - a == len,
            b <= cs@.len(),
            t == cs@.subrange(a as int, b as int),
            forall|m: int|
                0 <= m < k ==> (#[trigger] t[m] == special_word(w)[m] || t[m] as u32 + 32
                    == special_word(w)[m] as u32),
        decreases len - k,
    {
        let c = cs[a + k];
        let expected = special_word_char(w, k);
        assert(t[k as int] == c);
        let ec = expected as u32;
        if !(c == expected || (ec >= 32 && (c as u32) == ec - 32)) {
            return false;
        }
        k = k + 1;
    }
    true
}

/// Decides whether the token `cs[a..b]` is a timestamp (`is_float_literal`).
pub fn is_float_literal_at(cs: &Vec<char>, a: usize, b: usize) -> (r: bool)
    requires
        a <= b <= cs@.len(),
    ensures
        r == is_float_literal(cs@.subrange(a as int, b as int)),
{
    let ghost t = cs@.subrange(a as int, b as int);
    if a < b && (cs[a] == '+' || cs[a] == '-') {
        assert(t[0] == cs@[a as int]);
        assert(t.skip(1) =~= cs@.subrange(a + 1, b as int));
        let r = special_at(cs, a + 1, b) || number_at(cs, a + 1, b);
        proof {
            // a leading sign rules out the unsigned forms
            if is_number(t) {
                if is_decimal(t) {
                    lemma_decimal_chars(t);
                } else {
                    let q = choose|q: int|
                        0 <= q < t.len() && is_exp_marker(#[trigger] t[q]) && is_decimal(t.take(q))
                            && is_exponent(t.skip(q + 1));
                    lemma_decimal_chars(t.take(q));
                    assert(t.take(q)[0] == t[0]);
                }
            }
            if is_special_value(t) {
                assert(t[0] == t[0]);
            }
        }
        r
    } else {
        let r = special_at(cs, a, b) || number_at(cs, a, b);
        proof {
            if a < b {
                assert(t[0] == cs@[a as int]);
            }
        }
        r
    }
}

// ---------------------------------------------------------------------------
// Segments
// ---------------------------------------------------------------------------

/// A character with the Unicode `White_Space` property, the set that
/// `char::is_whitespace` (and so `str::trim`) uses.
pub open spec fn is_white_space(c: char) -> bool {
    let u = c as u32;
    ||| 0x09 <= u <= 0x0D
    ||| u == 0x20 || u == 0x85 || u == 0xA0 || u == 0x1680
    ||| 0x2000 <= u <= 0x200A
    ||| u == 0x2028 || u == 0x2029 || u == 0x202F || u == 0x205F || u == 0x3000
}

/// Decides `is_white_space`.
pub fn is_white_space_char(c: char) -> (r: bool)
    ensures
        r == is_white_space(c),
{
    let u = c as u32;
    (0x09 <= u && u <= 0x0D) || u == 0x20 || u == 0x85 || u == 0xA0 || u == 0x1680 || (0x2000 <= u
        && u <= 0x200A) || u == 0x2028 || u == 0x2029 || u == 0x202F || u == 0x205F || u == 0x3000
}

/// Text that trims to nothing.
pub open spec fn is_blank(t: Seq<char>) -> bool {
    forall|k: int| 0 <= k < t.len() ==> is_white_space(#[trigger] t[k])
}

/// A segment of a transcript: the chunk it came from, its start and end
/// timestamps as token text (`None` means the start of the chunk) and its
/// text. Its time in seconds is `30 * chunk` plus the timestamp's value.
#[derive(Debug)]
pub struct RawSegment {
    pub chunk: usize,
    pub start: Option<String>,
    pub end: Option<String>,
    pub text: String,
}

/// Mathematical value of a [`RawSegment`].
#[verifier::ext_equal]
pub ghost struct SegmentView {
    pub chunk: nat,
    pub start: Option<Seq<char>>,
    pub end: Option<Seq<char>>,
    pub text: Seq<char>,
}

/// The view of an optional string.
pub open spec fn opt_view(o: Option<String>) -> Option<Seq<char>> {
    match o {
        Some(s) => Some(s@),
        None => None,
    }
}

impl View for RawSegment {
    type V = SegmentView;

    open spec fn view(&self) -> SegmentView {
        SegmentView {
            chunk: self.chunk as nat,
            start: opt_view(self.start),
            end: opt_view(self.end),
            text: self.text@,
        }
    }
}

/// The views of a list of segments.
pub open spec fn segments_view(v: Seq<RawSegment>) -> Seq<SegmentView> {
    v.map_values(|g: RawSegment| g@)
}

/// What the scan of a chunk has seen so far: the last timestamp, the text
/// since it, and the segments closed.
#[verifier::ext_equal]
pub ghost struct ScanState {
    pub last_ts: Option<Seq<char>>,
    pub pending: Seq<char>,
    pub out: Seq<SegmentView>,
}

/// Nothing seen yet.
pub open spec fn scan_start() -> ScanState {
    ScanState { last_ts: None, pending: Seq::empty(), out: Seq::empty() }
}

/// One piece of the scan. Text accumulates; a timestamp closes the pending
/// text as a segment from the previous timestamp to this one (unless the
/// text is blank, which is dropped); other control tokens are skipped.
pub open spec fn scan_step(chunk: nat, st: ScanState, p: Piece) -> ScanState {
    match p {
        Piece::Text(c) => ScanState { pending: st.pending.push(c), ..st },
        Piece::Token(t) => if is_float_literal(t) {
            ScanState {
                last_ts: Some(t),
                pending: Seq::empty(),
                out: if is_blank(st.pending) {
                    st.out
                } else {
                    st.out.push(
                        SegmentView { chunk, start: st.last_ts, end: Some(t), text: st.pending },
                    )
                },
            }
        } else {
            st
        },
    }
}

/// The scan over a sequence of pieces.
pub open spec fn scan(chunk: nat, st: ScanState, ps: Seq<Piece>) -> ScanState
    decreases ps.len(),
{
    if ps.len() == 0 {
        st
    } else {
        scan(chunk, scan_step(chunk, st, ps[0]), ps.drop_first())
    }
}

/// Closes a scan: text after the last timestamp, unless blank, becomes a
/// segment that starts and ends at that timestamp.
pub open spec fn finish_scan(chunk: nat, st: ScanState) -> Seq<SegmentView> {
    if is_blank(st.pending) {
        st.out
    } else {
        st.out.push(SegmentView { chunk, start: st.last_ts, end: st.last_ts, text: st.pending })
    }
}

/// The segments of chunk number `chunk`, whose text is `s`.
pub open spec fn chunk_segments(chunk: nat, s: Seq<char>) -> Seq<SegmentView> {
    finish_scan(chunk, scan(chunk, scan_start(), pieces(s)))
}

/// The segments of all chunks, in order.
pub open spec fn all_segments(chunks: Seq<Seq<char>>) -> Seq<SegmentView>
    decreases chunks.len(),
{
    if chunks.len() == 0 {
        Seq::empty()
    } else {
        all_segments(chunks.drop_last()) + chunk_segments(
            (chunks.len() - 1) as nat,
            chunks.last(),
        )
    }
}

proof fn lemma_blank_push(t: Seq<char>, ch: char)
    ensures
        is_blank(t.push(ch)) == (is_blank(t) && is_white_space(ch)),
{
    if is_blank(t) && is_white_space(ch) {
        assert forall|k: int| 0 <= k < t.push(ch).len() implies is_white_space(#[trigger] t.push(ch)[k]) by {
            if k < t.len() {
                assert(t.push(ch)[k] == t[k]);
            }
        }
    }
    if is_blank(t.push(ch)) {
        assert(t.push(ch)[t.len() as int] == ch);
        assert forall|k: int| 0 <= k < t.len() implies is_white_space(#[trigger] t[k]) by {
            assert(t.push(ch)[k] == t[k]);
        }
    }
}

fn copy_opt_string(o: &Option<String>) -> (r: Option<String>)
    ensures
        opt_view(r) == opt_view(*o),
{
    match o {
        Some(s) => Some(s.clone()),
        None => None,
    }
}

/// Parses one chunk of generated text into its segments.
pub fn parse_one_chunk(chunk: &str, index: usize) -> (segs: Vec<RawSegment>)
    ensures
        segments_view(segs@) == chunk_segments(index as nat, chunk@),
{
    let cs = chars_of(chunk);
    let n = cs.len();
    let ghost s = cs@;
    let ghost c = index as nat;
    let mut out: Vec<RawSegment> = Vec::new();
    let mut last_ts: Option<String> = None;
    let mut pending = String::new();
    let mut pending_blank = true;
    let mut text_start: usize = 0;
    let mut i: usize = 0;
    assert(pending@ + s.subrange(0, 0) =~= Seq::<char>::empty());
    assert(segments_view(out@) =~= Seq::<SegmentView>::empty());
    while i < n
        invariant
            n == s.len(),
            s == cs@,
            s == chunk@,
            c == index as nat,
            text_start <= i <= n,
            pending_blank == is_blank(pending@ + s.subrange(text_start as int, i as int)),
            scan(
                c,
                ScanState {
                    last_ts: opt_view(last_ts),
                    pending: pending@ + s.subrange(text_start as int, i as int),
                    out: segments_view(out@),
                },
                pieces_from(s, i as int),
            ) == scan(c, scan_start(), pieces(s)),
        decreases n - i,
    {
        let ghost st = ScanState {
            last_ts: opt_view(last_ts),
            pending: pending@ + s.subrange(text_start as int, i as int),
            out: segments_view(out@),
        };
        proof {
            lemma_pieces_step(s, i as int);
        }
        let mut token_end_at: Option<usize> = None;
        if cs[i] == '<' && i + 1 < n && cs[i + 1] == '|' {
            token_end_at = find_token_end(&cs, i + 2);
        }
        match token_end_at {
            Some(end) => {
                proof {
                    lemma_token_end(s, i + 2);
                }
                assert(opens_token_at(s, i as int));
                let ghost tok = s.subrange(i + 2, end as int);
                pending.append(chunk.substring_char(text_start, i));
                assert(pending@ == st.pending);
                if is_float_literal_at(&cs, i + 2, end) {
                    let stamp = String::from_str(chunk.substring_char(i + 2, end));
                    if !pending_blank {
                        let seg = RawSegment {
                            chunk: index,
                            start: copy_opt_string(&last_ts),
                            end: Some(stamp.clone()),
                            text: pending,
                        };
                        out.push(seg);
                        assert(segments_view(out@) =~= st.out.push(seg@));
                    } else {
                        assert(is_blank(st.pending));
                    }
                    pending = String::new();
                    last_ts = Some(stamp);
                    pending_blank = true;
                }
                i = end + 2;
                text_start = i;
                assert(s.subrange(text_start as int, i as int) =~= Seq::<char>::empty());
                assert(pending@ + s.subrange(text_start as int, i as int) =~= pending@);
                proof {
                    let nst = ScanState {
                        last_ts: opt_view(last_ts),
                        pending: pending@ + s.subrange(text_start as int, i as int),
                        out: segments_view(out@),
                    };
                    let expected = scan_step(c, st, Piece::Token(tok));
                    assert(nst.pending =~= expected.pending);
                    assert(nst.out =~= expected.out);
                    assert(nst == expected);
                }
            },
            None => {
                assert(!opens_token_at(s, i as int));
                let ch = cs[i];
                let ws = is_white_space_char(ch);
                assert(s.subrange(text_start as int, i + 1) =~= s.subrange(
                    text_start as int,
                    i as int,
                ).push(ch));
                assert(pending@ + s.subrange(text_start as int, i + 1) =~= st.pending.push(ch));
                proof {
                    lemma_blank_push(st.pending, ch);
                }
                pending_blank = pending_blank && ws;
                i = i + 1;
                proof {
                    let nst = ScanState {
                        last_ts: opt_view(last_ts),
                        pending: pending@ + s.subrange(text_start as int, i as int),
                        out: segments_view(out@),
                    };
                    let expected = scan_step(c, st, Piece::Text(ch));
                    assert(nst == expected);
                }
            },
        }
    }
    pending.append(chunk.substring_char(text_start, n));
    assert(pieces_from(s, n as int) =~= Seq::<Piece>::empty());
    if !pending_blank {
        let seg = RawSegment {
            chunk: index,
            start: copy_opt_string(&last_ts),
            end: copy_opt_string(&last_ts),
            text: pending,
        };
        let ghost before = segments_view(out@);
        out.push(seg);
        assert(segments_view(out@) =~= before.push(seg@));
    }
    out
}

/// Parses the chunks Whisper generated into segments, chunk after chunk.
pub fn parse_segments(chunks: &Vec<String>) -> (segs: Vec<RawSegment>)
    ensures
        segments_view(segs@) == all_segments(strings_view(chunks@)),
{
    let mut out: Vec<RawSegment> = Vec::new();
    let n = chunks.len();
    let mut idx: usize = 0;
    while idx < n
        invariant
            n == chunks@.len(),
            idx <= n,
            segments_view(out@) == all_segments(strings_view(chunks@.subrange(0, idx as int))),
        decreases n - idx,
    {
        let mut segs = parse_one_chunk(chunks[idx].as_str(), idx);
        let ghost before = segments_view(out@);
        let ghost added = segments_view(segs@);
        out.append(&mut segs);
        proof {
            let next = strings_view(chunks@.subrange(0, idx + 1));
            assert(next.drop_last() =~= strings_view(chunks@.subrange(0, idx as int)));
            assert(next.last() == chunks@[idx as int]@);
            assert(segments_view(out@) =~= before + added);
        }
        idx = idx + 1;
    }
    assert(chunks@.subrange(0, n as int) =~= chunks@);
    out
}

// ---------------------------------------------------------------------------
// Transcripts
// ---------------------------------------------------------------------------

/// The text, language and segments of a transcription.
#[derive(Debug)]
pub struct Transcript {
    pub text: String,
    pub language: String,
    pub segments: Vec<RawSegment>,
}

/// The texts of the segments joined with nothing in between.
pub open spec fn joined_text(segs: Seq<SegmentView>) -> Seq<char>
    decreases segs.len(),
{
    if segs.len() == 0 {
        Seq::empty()
    } else {
        joined_text(segs.drop_last()) + segs.last().text
    }
}

/// The language a transcript reports: the one requested, else the one
/// Whisper announced in its output, else the empty string.
pub open spec fn reported_language(
    requested: Option<Seq<char>>,
    chunks: Seq<Seq<char>>,
) -> Seq<char> {
    match requested {
        Some(l) => l,
        None => match detected_language(chunks) {
            Some(d) => d,
            None => Seq::empty(),
        },
    }
}

/// Builds the transcript from the chunks Whisper generated for one call:
/// its segments, their texts joined verbatim, and the language.
pub fn assemble_transcript(chunks: &Vec<String>, language: Option<String>) -> (t: Transcript)
    ensures
        segments_view(t.segments@) == all_segments(strings_view(chunks@)),
        t.text@ == joined_text(all_segments(strings_view(chunks@))),
        t.language@ == reported_language(opt_view(language), strings_view(chunks@)),
{
    let segments = parse_segments(chunks);
    let mut text = String::new();
    let n = segments.len();
    let mut k: usize = 0;
    while k < n
        invariant
            n == segments@.len(),
            k <= n,
            text@ == joined_text(segments_view(segments@.subrange(0, k as int))),
        decreases n - k,
    {
        text.append(segments[k].text.as_str());
        proof {
            let next = segments_view(segments@.subrange(0, k + 1));
            assert(next.drop_last() =~= segments_view(segments@.subrange(0, k as int)));
        }
        k = k + 1;
    }
    assert(segments@.subrange(0, n as int) =~= segments@);
    let language = match language {
        Some(l) => l,
        None => match detect_language_from_chunks(chunks) {
            Some(d) => d,
            None => String::new(),
        },
    };
    Transcript { text, language, segments }
}

// ---------------------------------------------------------------------------
// Laws
// ---------------------------------------------------------------------------

/// A segment as the parser produces it: from chunk `chunk`, with non-blank
/// text and timestamps that are float literals.
pub open spec fn well_formed_segment(g: SegmentView, chunk: nat) -> bool {
    &&& g.chunk == chunk
    &&& !is_blank(g.text)
    &&& (g.start matches Some(t) ==> is_float_literal(t))
    &&& (g.end matches Some(t) ==> is_float_literal(t))
}

/// The state of a scan of chunk `chunk` holds only well-formed segments
/// and a timestamp that is a float literal.
pub open spec fn scan_state_ok(chunk: nat, st: ScanState) -> bool {
    &&& forall|k: int| 0 <= k < st.out.len() ==> well_formed_segment(#[trigger] st.out[k], chunk)
    &&& (st.last_ts matches Some(t) ==> is_float_literal(t))
}

proof fn lemma_scan_ok(chunk: nat, st: ScanState, ps: Seq<Piece>)
    requires
        scan_state_ok(chunk, st),
    ensures
        scan_state_ok(chunk, scan(chunk, st, ps)),
    decreases ps.len(),
{
    if ps.len() > 0 {
        let nst = scan_step(chunk, st, ps[0]);
        assert forall|k: int| 0 <= k < nst.out.len() implies well_formed_segment(
            #[trigger] nst.out[k],
            chunk,
        ) by {
            if k < st.out.len() {
                assert(nst.out[k] == st.out[k]);
            }
        }
        lemma_scan_ok(chunk, nst, ps.drop_first());
    }
}

/// Every segment of a chunk has non-blank text, belongs to that chunk, and
/// carries timestamps that are float literals, so that turning them into
/// seconds cannot fail.
pub proof fn lemma_chunk_segments_well_formed(chunk: nat, s: Seq<char>)
    ensures
        forall|k: int|
            0 <= k < chunk_segments(chunk, s).len() ==> well_formed_segment(
                #[trigger] chunk_segments(chunk, s)[k],
                chunk,
            ),
{
    lemma_scan_ok(chunk, scan_start(), pieces(s));
    let st = scan(chunk, scan_start(), pieces(s));
    let r = chunk_segments(chunk, s);
    assert forall|k: int| 0 <= k < r.len() implies well_formed_segment(#[trigger] r[k], chunk) by {
        if k < st.out.len() {
            assert(r[k] == st.out[k]);
        }
    }
}

/// Every segment of a transcript has non-blank text, timestamps that are
/// float literals, and comes from one of the chunks; segments appear in
/// the order of their chunks.
pub proof fn lemma_all_segments_well_formed(chunks: Seq<Seq<char>>)
    ensures
        forall|k: int|
            0 <= k < all_segments(chunks).len() ==> {
                let g = #[trigger] all_segments(chunks)[k];
                &&& g.chunk < chunks.len()
                &&& well_formed_segment(g, g.chunk)
            },
        forall|j: int, k: int|
            0 <= j < k < all_segments(chunks).len() ==> #[trigger] all_segments(chunks)[j].chunk
                <= #[trigger] all_segments(chunks)[k].chunk,
    decreases chunks.len(),
{
    if chunks.len() > 0 {
        let init = chunks.drop_last();
        let c = (chunks.len() - 1) as nat;
        lemma_all_segments_well_formed(init);
        lemma_chunk_segments_well_formed(c, chunks.last());
        let a = all_segments(init);
        let b = chunk_segments(c, chunks.last());
        let r = all_segments(chunks);
        assert(r == a + b);
        assert forall|k: int| 0 <= k < r.len() implies {
            let g = #[trigger] r[k];
            &&& g.chunk < chunks.len()
            &&& well_formed_segment(g, g.chunk)
        } by {
            if k < a.len() {
                assert(r[k] == a[k]);
            } else {
                assert(r[k] == b[k - a.len()]);
            }
        }
        assert forall|j: int, k: int| 0 <= j < k < r.len() implies #[trigger] r[j].chunk
            <= #[trigger] r[k].chunk by {
            if k < a.len() {
                assert(r[k] == a[k]);
                assert(r[j] == a[j]);
            } else if j < a.len() {
                assert(r[k] == b[k - a.len()]);
                assert(r[j] == a[j]);
            } else {
                assert(r[k] == b[k - a.len()]);
                assert(r[j] == b[j - a.len()]);
            }
        }
    }
}

/// A transcription asked for in a given language reports that language,
/// whatever Whisper's output holds.
pub proof fn lemma_requested_language_echoed(l: Seq<char>, chunks: Seq<Seq<char>>)
    ensures
        reported_language(Some(l), chunks) == l,
{
}

/// The transcript's text is the segments' texts concatenated: the text of
/// segments `0..k` followed by that of segment `k` is the text of `0..=k`.
pub proof fn lemma_joined_text_push(segs: Seq<SegmentView>, g: SegmentView)
    ensures
        joined_text(segs.push(g)) == joined_text(segs) + g.text,
        joined_text(segs.push(g)).len() == joined_text(segs).len() + g.text.len(),
{
    assert(segs.push(g).drop_last() =~= segs);
}


/// The segments of a list of segments, moved to chunk `k`.
pub open spec fn retag(gs: Seq<SegmentView>, k: nat) -> Seq<SegmentView> {
    gs.map_values(|g: SegmentView| SegmentView { chunk: k, ..g })
}

/// A scan state whose segments are moved to chunk `k`.
pub open spec fn retag_state(st: ScanState, k: nat) -> ScanState {
    ScanState { out: retag(st.out, k), ..st }
}

proof fn lemma_scan_retag(k: nat, st: ScanState, ps: Seq<Piece>)
    ensures
        scan(k, retag_state(st, k), ps) == retag_state(scan(0, st, ps), k),
    decreases ps.len(),
{
    if ps.len() > 0 {
        let a = scan_step(k, retag_state(st, k), ps[0]);
        let b = scan_step(0, st, ps[0]);
        match ps[0] {
            Piece::Token(t) => {
                if is_float_literal(t) && !is_blank(st.pending) {
                    assert(retag(
                        st.out.push(
                            SegmentView { chunk: 0, start: st.last_ts, end: Some(t), text: st.pending },
                        ),
                        k,
                    ) =~= retag(st.out, k).push(
                        SegmentView { chunk: k, start: st.last_ts, end: Some(t), text: st.pending },
                    ));
                }
            },
            Piece::Text(_) => {},
        }
        assert(a == retag_state(b, k));
        lemma_scan_retag(k, b, ps.drop_first());
    }
}

/// A chunk's segments do not depend on where the chunk stands, but for
/// the chunk number they carry: those of chunk `k` are those of the chunk
/// parsed alone (as chunk 0), moved to chunk `k`.
pub proof fn lemma_chunk_segments_retag(k: nat, s: Seq<char>)
    ensures
        chunk_segments(k, s) == retag(chunk_segments(0, s), k),
{
    assert(retag_state(scan_start(), k) =~= scan_start());
    lemma_scan_retag(k, scan_start(), pieces(s));
    let r = scan(0, scan_start(), pieces(s));
    if !is_blank(r.pending) {
        assert(retag(
            r.out.push(SegmentView { chunk: 0, start: r.last_ts, end: r.last_ts, text: r.pending }),
            k,
        ) =~= retag(r.out, k).push(
            SegmentView { chunk: k, start: r.last_ts, end: r.last_ts, text: r.pending },
        ));
    }
}

/// The segments of several chunks are, chunk after chunk, the segments of
/// each chunk parsed alone and moved to its position; none of them has
/// blank text.
pub proof fn lemma_segments_chunk_by_chunk(chunks: Seq<Seq<char>>)
    ensures
        all_segments(chunks) == Seq::new(
            chunks.len(),
            |k: int| retag(chunk_segments(0, chunks[k]), k as nat),
        ).flatten(),
        forall|i: int|
            0 <= i < all_segments(chunks).len() ==> !is_blank(#[trigger] all_segments(chunks)[i].text),
    decreases chunks.len(),
{
    lemma_all_segments_well_formed(chunks);
    let f = |k: int| retag(chunk_segments(0, chunks[k]), k as nat);
    if chunks.len() == 0 {
        assert(Seq::new(0, f) =~= Seq::<Seq<SegmentView>>::empty());
    } else {
        let n = chunks.len() - 1;
        let init = chunks.drop_last();
        lemma_segments_chunk_by_chunk(init);
        let g = |k: int| retag(chunk_segments(0, init[k]), k as nat);
        assert(Seq::new(n as nat, g) =~= Seq::new(n as nat, f));
        assert(Seq::new(chunks.len(), f) =~= Seq::new(n as nat, f).push(f(n)));
        Seq::new(n as nat, f).lemma_flatten_push(f(n));
        lemma_chunk_segments_retag(n as nat, chunks.last());
    }
}

/// The pieces of `s` from `i` on name a language only as a token `<|t|>`
/// of `s` whose body is two or three lowercase letters.
proof fn lemma_first_language_from(s: Seq<char>, i: int)
    requires
        0 <= i,
    ensures
        first_language(pieces_from(s, i)) matches Some(t) ==> is_language_token(t) && exists|j: int|
            i <= j && j + t.len() + 4 <= s.len() && #[trigger] s.subrange(j, j + t.len() + 4)
                == seq!['<', '|'] + t + seq!['|', '>'],
    decreases s.len() - i,
{
    if i < s.len() {
        lemma_pieces_step(s, i);
        let ps = pieces_from(s, i);
        if opens_token_at(s, i) {
            let e = token_end(s, i + 2)->Some_0;
            lemma_token_end(s, i + 2);
            let tok = s.subrange(i + 2, e);
            lemma_first_language_from(s, e + 2);
            assert(ps[0] == Piece::Token(tok));
            assert(ps.len() > 0);
            if is_language_token(tok) {
                assert(first_language(ps) == Some(tok));
                assert(i + tok.len() + 4 == e + 2);
                assert(s.subrange(i, i + tok.len() + 4) =~= seq!['<', '|'] + tok + seq!['|', '>']);
            } else {
                assert(first_language(ps) == first_language(pieces_from(s, e + 2)));
            }
        } else {
            lemma_first_language_from(s, i + 1);
            assert(ps[0] == Piece::Text(s[i]));
            assert(first_language(ps) == first_language(pieces_from(s, i + 1)));
        }
    }
}

/// The language detected in Whisper's output is read from the first chunk
/// alone, and is a code of two or three lowercase letters that stands in
/// that chunk as a control token `<|code|>`.
pub proof fn lemma_detected_language_is_a_token(chunks: Seq<Seq<char>>)
    ensures
        chunks.len() == 0 ==> detected_language(chunks) is None,
        chunks.len() > 0 ==> detected_language(chunks) == detected_language(chunks.take(1)),
        detected_language(chunks) matches Some(t) ==> is_language_token(t) && exists|j: int|
            0 <= j && j + t.len() + 4 <= chunks[0].len() && #[trigger] chunks[0].subrange(
                j,
                j + t.len() + 4,
            ) == seq!['<', '|'] + t + seq!['|', '>'],
{
    if chunks.len() > 0 {
        assert(chunks.take(1)[0] == chunks[0]);
        lemma_first_language_from(chunks[0], 0);
    }
}

} // verus!
