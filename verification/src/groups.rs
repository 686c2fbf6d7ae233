//! The JSON form of the supplemental-claims cookie: an object holding the
//! group names, `{"groups":["a","b"]}`, with the string escaping JSON
//! requires. Encoding and decoding are exact inverses, which the decoder's
//! contract and the injectivity lemma below pin down.

use vstd::prelude::*;

verus! {

/// The lower-case hex digit of a value below 16.
pub open spec fn hex_digit(n: u32) -> char {
    if n < 10 {
        ((n + 48) as u8) as char
    } else {
        ((n + 87) as u8) as char
    }
}

/// The value of a lower-case hex digit, 16 if the character is none.
pub open spec fn hex_val(c: char) -> u32 {
    let u = c as u32;
    if 48 <= u && u <= 57 {
        (u - 48) as u32
    } else if 97 <= u && u <= 102 {
        (u - 87) as u32
    } else {
        16
    }
}

/// How one character appears inside a JSON string: itself, a two-character
/// escape for quote and backslash, or a `\u00..` escape for control characters.
pub open spec fn esc_char(c: char) -> Seq<char> {
    if c == '"' {
        seq!['\\', '"']
    } else if c == '\\' {
        seq!['\\', '\\']
    } else if (c as u32) < 32 {
        seq!['\\', 'u', '0', '0', hex_digit((c as u32) / 16), hex_digit((c as u32) % 16)]
    } else {
        seq![c]
    }
}

/// A whole string, escaped.
pub open spec fn esc_seq(s: Seq<char>) -> Seq<char>
    decreases s.len(),
{
    if s.len() == 0 {
        Seq::empty()
    } else {
        esc_char(s[0]) + esc_seq(s.drop_first())
    }
}

/// A JSON string literal: the escaped characters between quotes.
pub open spec fn quoted(s: Seq<char>) -> Seq<char> {
    seq!['"'] + esc_seq(s) + seq!['"']
}

/// The members of the JSON array, comma-separated.
pub open spec fn joined(gs: Seq<Seq<char>>) -> Seq<char>
    decreases gs.len(),
{
    if gs.len() == 0 {
        Seq::empty()
    } else if gs.len() == 1 {
        quoted(gs[0])
    } else {
        quoted(gs[0]) + seq![','] + joined(gs.drop_first())
    }
}

pub open spec fn groups_prefix() -> Seq<char> {
    seq!['{', '"', 'g', 'r', 'o', 'u', 'p', 's', '"', ':', '[']
}

pub open spec fn groups_suffix() -> Seq<char> {
    seq![']', '}']
}

/// The cookie value that carries the given group names.
pub open spec fn groups_json(gs: Seq<Seq<char>>) -> Seq<char> {
    groups_prefix() + joined(gs) + groups_suffix()
}

/// Escaping distributes over concatenation.
pub proof fn lemma_esc_concat(a: Seq<char>, b: Seq<char>)
    ensures
        esc_seq(a + b) == esc_seq(a) + esc_seq(b),
    decreases a.len(),
{
    if a.len() == 0 {
        assert(a + b =~= b);
        assert(esc_seq(a) + esc_seq(b) =~= esc_seq(b));
    } else {
        assert((a + b).drop_first() =~= a.drop_first() + b);
        lemma_esc_concat(a.drop_first(), b);
        assert(esc_seq(a + b) =~= esc_seq(a) + esc_seq(b));
    }
}

/// Escaping one more character appends its escape.
pub proof fn lemma_esc_push(s: Seq<char>, c: char)
    ensures
        esc_seq(s.push(c)) == esc_seq(s) + esc_char(c),
{
    assert(s.push(c) =~= s + seq![c]);
    lemma_esc_concat(s, seq![c]);
    assert(seq![c].drop_first() =~= Seq::<char>::empty());
    assert(esc_seq(seq![c]) =~= esc_char(c) + esc_seq(Seq::<char>::empty()));
    assert(esc_seq(seq![c]) =~= esc_char(c));
    assert(esc_seq(s.push(c)) =~= esc_seq(s) + esc_char(c));
}

/// One more member appends a comma and its quoted form.
pub proof fn lemma_joined_push(gs: Seq<Seq<char>>, g: Seq<char>)
    requires
        gs.len() > 0,
    ensures
        joined(gs.push(g)) == joined(gs) + seq![','] + quoted(g),
    decreases gs.len(),
{
    if gs.len() == 1 {
        assert(gs.push(g).drop_first() =~= seq![g]);
        assert(seq![g].drop_first() =~= Seq::<Seq<char>>::empty());
        assert(joined(seq![g]) == quoted(seq![g][0]));
        assert(joined(seq![g]) == quoted(g));
        assert(gs.push(g)[0] == gs[0]);
        assert(joined(gs.push(g)) == quoted(gs[0]) + seq![','] + joined(seq![g]));
        assert(joined(gs.push(g)) =~= joined(gs) + seq![','] + quoted(g));
    } else {
        assert(gs.push(g).drop_first() =~= gs.drop_first().push(g));
        lemma_joined_push(gs.drop_first(), g);
        assert(joined(gs.push(g)) =~= joined(gs) + seq![','] + quoted(g));
    }
}

/// The escape of a character never starts with a quote, and starts with a
/// backslash exactly when the character needed escaping.
pub proof fn lemma_esc_char_shape(c: char)
    ensures
        esc_char(c).len() == 1 || esc_char(c).len() == 2 || esc_char(c).len() == 6,
        esc_char(c)[0] != '"',
        esc_char(c)[0] == '\\' <==> (c == '"' || c == '\\' || (c as u32) < 32),
        esc_char(c).len() == 1 ==> esc_char(c)[0] == c && c != '"' && c != '\\' && (c as u32)
            >= 32,
        c == '"' ==> esc_char(c) == seq!['\\', '"'],
        c == '\\' ==> esc_char(c) == seq!['\\', '\\'],
        (c != '"' && c != '\\' && (c as u32) < 32) ==> esc_char(c) == seq![
            '\\',
            'u',
            '0',
            '0',
            hex_digit((c as u32) / 16),
            hex_digit((c as u32) % 16),
        ],
{
}

/// A hex digit reads back as its value.
pub proof fn lemma_hex_digit_val(n: u32)
    requires
        n < 16,
    ensures
        hex_val(hex_digit(n)) == n,
        hex_digit(n) != '"' && hex_digit(n) != '\\',
{
}

/// The exec form of `hex_digit`.
fn hex_digit_exec(n: u32) -> (c: char)
    requires
        n < 16,
    ensures
        c == hex_digit(n),
{
    if n < 10 {
        ((n + 48) as u8) as char
    } else {
        ((n + 87) as u8) as char
    }
}

/// Append the escaped form of a string to a character buffer.
fn escape_into(buf: &mut Vec<char>, s: &str)
    ensures
        final(buf)@ == old(buf)@ + esc_seq(s@),
{
    let ghost orig = old(buf)@;
    let n = s.unicode_len();
    let mut j: usize = 0;
    while j < n
        invariant
            n == s@.len(),
            j <= n,
            buf@ == orig + esc_seq(s@.take(j as int)),
        decreases n - j,
    {
        let c = s.get_char(j);
        let ghost pre = buf@;
        if c == '"' {
            buf.push('\\');
            buf.push('"');
        } else if c == '\\' {
            buf.push('\\');
            buf.push('\\');
        } else if (c as u32) < 32 {
            let v = c as u32;
            buf.push('\\');
            buf.push('u');
            buf.push('0');
            buf.push('0');
            buf.push(hex_digit_exec(v / 16));
            buf.push(hex_digit_exec(v % 16));
        } else {
            buf.push(c);
        }
        proof {
            assert(buf@ =~= pre + esc_char(s@[j as int]));
            lemma_esc_push(s@.take(j as int), s@[j as int]);
            assert(s@.take(j as int).push(s@[j as int]) =~= s@.take(j + 1 as int));
            assert(buf@ =~= orig + esc_seq(s@.take(j + 1 as int)));
        }
        j += 1;
    }
    proof {
        assert(s@.take(n as int) =~= s@);
    }
}

/// An escaped string closed by its quote, with whatever follows.
pub open spec fn esc_terminated(w: Seq<char>, rest: Seq<char>) -> Seq<char> {
    esc_seq(w) + seq!['"'] + rest
}

/// Whether the input from position `k` on reads as an escaped string closed
/// by a quote.
pub open spec fn tail_valid(s: Seq<char>, k: int) -> bool {
    exists|w: Seq<char>, rest: Seq<char>| s.skip(k) == #[trigger] esc_terminated(w, rest)
}

/// Equal concatenations with equal-length heads have equal parts.
proof fn lemma_concat_cancel(p: Seq<char>, s: Seq<char>, q: Seq<char>, t: Seq<char>)
    requires
        p + s == q + t,
        p.len() == q.len(),
    ensures
        p == q,
        s == t,
{
    assert((p + s).len() == p.len() + s.len());
    assert((q + t).len() == q.len() + t.len());
    assert(s.len() == t.len());
    assert forall|i: int| 0 <= i < p.len() implies p[i] == q[i] by {
        assert((p + s)[i] == p[i]);
        assert((q + t)[i] == q[i]);
    }
    assert forall|i: int| 0 <= i < s.len() implies s[i] == t[i] by {
        assert((p + s)[p.len() + i] == s[i]);
        assert((q + t)[q.len() + i] == t[i]);
    }
    assert(p =~= q);
    assert(s =~= t);
}

/// A character's escape determines the character: equal streams that both
/// start with an escape unit agree on the unit and on the remainder.
proof fn lemma_esc_unit_head(a: char, b: char, s: Seq<char>, t: Seq<char>)
    requires
        esc_char(a) + s == esc_char(b) + t,
    ensures
        a == b,
        s == t,
{
    lemma_esc_char_shape(a);
    lemma_esc_char_shape(b);
    let ea = esc_char(a);
    let eb = esc_char(b);
    assert((ea + s)[0] == ea[0]);
    assert((eb + t)[0] == eb[0]);
    if ea.len() == 1 || eb.len() == 1 {
        // A bare character is at least 0x20 and is not a backslash, while
        // every longer unit starts with a backslash: both must be bare.
        assert(ea.len() == 1 && eb.len() == 1);
        assert(a == b);
        lemma_concat_cancel(ea, s, eb, t);
    } else {
        assert((ea + s)[1] == ea[1]);
        assert((eb + t)[1] == eb[1]);
        if a == '"' || b == '"' {
            // The second character of the unit, `"` here, tells the form.
            assert(a == '"' && b == '"');
            lemma_concat_cancel(ea, s, eb, t);
        } else if a == '\\' || b == '\\' {
            assert(a == '\\' && b == '\\');
            lemma_concat_cancel(ea, s, eb, t);
        } else {
            // Both are `\u00..` units: the two hex digits fix the character.
            assert(ea.len() == 6 && eb.len() == 6);
            assert((ea + s)[4] == ea[4] && (ea + s)[5] == ea[5]);
            assert((eb + t)[4] == eb[4] && (eb + t)[5] == eb[5]);
            lemma_hex_digit_val((a as u32) / 16);
            lemma_hex_digit_val((a as u32) % 16);
            lemma_hex_digit_val((b as u32) / 16);
            lemma_hex_digit_val((b as u32) % 16);
            assert((a as u32) / 16 == (b as u32) / 16);
            assert((a as u32) % 16 == (b as u32) % 16);
            assert(a as u32 == b as u32);
            vstd::utf8::char_u32_cast(a, a as u32);
            vstd::utf8::char_u32_cast(b, b as u32);
            assert(a == b);
            lemma_concat_cancel(ea, s, eb, t);
        }
    }
}

/// A quote-terminated escaped string has one reading: the string and what
/// follows the closing quote are both determined.
pub proof fn lemma_esc_terminated_unique(x: Seq<char>, y: Seq<char>, r1: Seq<char>, r2: Seq<char>)
    requires
        esc_terminated(x, r1) == esc_terminated(y, r2),
    ensures
        x == y,
        r1 == r2,
    decreases x.len(),
{
    if x.len() == 0 && y.len() == 0 {
        assert(esc_terminated(x, r1) =~= seq!['"'] + r1);
        assert(esc_terminated(y, r2) =~= seq!['"'] + r2);
        lemma_concat_cancel(seq!['"'], r1, seq!['"'], r2);
        assert(x =~= y);
    } else if x.len() == 0 {
        // The right side starts inside an escape unit, never with a quote.
        lemma_esc_char_shape(y[0]);
        assert(esc_terminated(x, r1)[0] == '"');
        assert(esc_seq(y) =~= esc_char(y[0]) + esc_seq(y.drop_first()));
        assert(esc_terminated(y, r2)[0] == esc_char(y[0])[0]);
        assert(false);
    } else if y.len() == 0 {
        lemma_esc_char_shape(x[0]);
        assert(esc_terminated(y, r2)[0] == '"');
        assert(esc_seq(x) =~= esc_char(x[0]) + esc_seq(x.drop_first()));
        assert(esc_terminated(x, r1)[0] == esc_char(x[0])[0]);
        assert(false);
    } else {
        assert(esc_seq(x) =~= esc_char(x[0]) + esc_seq(x.drop_first()));
        assert(esc_seq(y) =~= esc_char(y[0]) + esc_seq(y.drop_first()));
        assert(esc_terminated(x, r1) =~= esc_char(x[0]) + esc_terminated(x.drop_first(), r1));
        assert(esc_terminated(y, r2) =~= esc_char(y[0]) + esc_terminated(y.drop_first(), r2));
        lemma_esc_unit_head(x[0], y[0], esc_terminated(x.drop_first(), r1), esc_terminated(
            y.drop_first(),
            r2,
        ));
        lemma_esc_terminated_unique(x.drop_first(), y.drop_first(), r1, r2);
        assert(x.len() == y.len());
        assert forall|i: int| 0 <= i < x.len() implies x[i] == y[i] by {
            if i > 0 {
                assert(x.drop_first()[i - 1] == x[i]);
                assert(y.drop_first()[i - 1] == y[i]);
            }
        }
        assert(x =~= y);
    }
}

/// The exec form of `hex_val`.
fn hex_val_exec(c: char) -> (n: u32)
    ensures
        n == hex_val(c),
{
    let u = c as u32;
    if 48 <= u && u <= 57 {
        u - 48
    } else if 97 <= u && u <= 102 {
        u - 87
    } else {
        16
    }
}

/// A character that reads as a hex digit is that digit's canonical form.
proof fn lemma_hex_val_digit(c: char)
    requires
        hex_val(c) < 16,
    ensures
        hex_digit(hex_val(c)) == c,
{
    vstd::utf8::char_u32_cast(c, c as u32);
}

/// How a valid tail lays out at its start: a closing quote at once, or one
/// whole escape unit with at least the closing quote after it.
proof fn lemma_tail_layout(s: Seq<char>, j: int, w: Seq<char>, rest: Seq<char>)
    requires
        0 <= j < s.len(),
        s.skip(j) == esc_terminated(w, rest),
    ensures
        w.len() == 0 ==> s[j] == '"',
        w.len() > 0 ==> j + esc_char(w[0]).len() < s.len() && (forall|i: int|
            0 <= i < esc_char(w[0]).len() ==> s[j + i] == esc_char(w[0])[i]),
{
    if w.len() == 0 {
        assert(esc_terminated(w, rest) =~= seq!['"'] + rest);
        assert(s.skip(j)[0] == s[j]);
    } else {
        let u = esc_char(w[0]);
        assert(esc_seq(w) =~= u + esc_seq(w.drop_first()));
        assert(esc_terminated(w, rest) =~= u + esc_terminated(w.drop_first(), rest));
        assert(esc_terminated(w.drop_first(), rest).len() >= 1);
        assert(s.skip(j).len() == s.len() - j);
        assert forall|i: int| 0 <= i < u.len() implies s[j + i] == u[i] by {
            assert(s.skip(j)[i] == s[j + i]);
            assert((u + esc_terminated(w.drop_first(), rest))[i] == u[i]);
        }
    }
}

/// One consumed escape unit advances both the soundness and the validity
/// facts of the parse.
proof fn lemma_consume_unit(s: Seq<char>, start: int, j: int, pre: Seq<char>, e: char, delta: int)
    requires
        0 <= start <= j,
        j + delta <= s.len(),
        delta == esc_char(e).len(),
        s.subrange(start, j) == esc_seq(pre),
        s.subrange(j, j + delta) == esc_char(e),
    ensures
        s.subrange(start, j + delta) == esc_seq(pre.push(e)),
        tail_valid(s, j) ==> tail_valid(s, j + delta),
{
    lemma_esc_push(pre, e);
    assert(s.subrange(start, j + delta) =~= s.subrange(start, j) + s.subrange(j, j + delta));
    assert(s.subrange(start, j + delta) =~= esc_seq(pre.push(e)));
    if tail_valid(s, j) {
        let (w, rest) = choose|w: Seq<char>, rest: Seq<char>|
            s.skip(j) == #[trigger] esc_terminated(w, rest);
        lemma_esc_char_shape(e);
        if w.len() == 0 {
            assert(esc_terminated(w, rest) =~= seq!['"'] + rest);
            assert(s.skip(j)[0] == s[j]);
            assert(s.subrange(j, j + delta)[0] == s[j]);
            assert(esc_char(e)[0] != '"');
            assert(false);
        }
        let u = esc_char(w[0]);
        assert(esc_seq(w) =~= u + esc_seq(w.drop_first()));
        assert(esc_terminated(w, rest) =~= u + esc_terminated(w.drop_first(), rest));
        assert(s.skip(j) =~= s.subrange(j, j + delta) + s.skip(j + delta));
        lemma_esc_unit_head(e, w[0], s.skip(j + delta), esc_terminated(w.drop_first(), rest));
        assert(s.skip(j + delta) == esc_terminated(w.drop_first(), rest));
    }
}

/// Read a JSON string body starting just after its opening quote; on success
/// return the unescaped text and the position just after the closing quote.
/// What was consumed is exactly the escape of the result plus that quote; a
/// failure means no reading as a terminated escaped string exists at all.
pub fn parse_string(buf: &Vec<char>, start: usize) -> (r: Option<(String, usize)>)
    requires
        start <= buf@.len(),
    ensures
        match r {
            Some(p) => start <= p.1 <= buf@.len() && buf@.subrange(start as int, p.1 as int)
                == esc_seq(p.0@) + seq!['"'],
            None => !tail_valid(buf@, start as int),
        },
{
    let len = buf.len();
    let mut j: usize = start;
    let mut out: Vec<char> = Vec::new();
    loop
        invariant
            start <= j <= len,
            len == buf@.len(),
            buf@.subrange(start as int, j as int) == esc_seq(out@),
            tail_valid(buf@, start as int) ==> tail_valid(buf@, j as int),
        decreases len - j,
    {
        if j >= len {
            proof {
                if tail_valid(buf@, j as int) {
                    let (w, rest) = choose|w: Seq<char>, rest: Seq<char>|
                        buf@.skip(j as int) == esc_terminated(w, rest);
                    assert(buf@.skip(j as int).len() == 0);
                    assert(esc_terminated(w, rest).len() >= 1);
                }
            }
            return None;
        }
        let c = buf[j];
        let ghost rem = buf@.skip(j as int);
        proof {
            assert(rem[0] == buf@[j as int]);
        }
        if c == '"' {
            proof {
                assert(buf@.subrange(start as int, j + 1 as int) =~= esc_seq(out@)
                    + seq!['"']);
            }
            let end = j + 1;
            return Some((string_of(out), end));
        } else if c == '\\' {
            if j + 1 >= len {
                proof {
                    if tail_valid(buf@, j as int) {
                        let (w, rest) = choose|w: Seq<char>, rest: Seq<char>|
                            buf@.skip(j as int) == #[trigger] esc_terminated(w, rest);
                        lemma_tail_layout(buf@, j as int, w, rest);
                        if w.len() > 0 {
                            lemma_esc_char_shape(w[0]);
                        }
                        assert(false);
                    }
                }
                return None;
            }
            let d = buf[j + 1];
            proof {
                assert(rem[1] == buf@[j + 1 as int]);
            }
            if d == '"' {
                let ghost pre = out@;
                out.push('"');
                proof {
                    lemma_esc_char_shape('"');
                    assert(buf@.subrange(j as int, j + 2 as int) =~= seq!['\\', '"']);
                    lemma_consume_unit(buf@, start as int, j as int, pre, '"', 2);
                }
                j += 2;
            } else if d == '\\' {
                let ghost pre = out@;
                out.push('\\');
                proof {
                    lemma_esc_char_shape('\\');
                    assert(buf@.subrange(j as int, j + 2 as int) =~= seq!['\\', '\\']);
                    lemma_consume_unit(buf@, start as int, j as int, pre, '\\', 2);
                }
                j += 2;
            } else if d == 'u' {
                if len - j < 6 {
                    proof {
                        if tail_valid(buf@, j as int) {
                            let (w, rest) = choose|w: Seq<char>, rest: Seq<char>|
                                buf@.skip(j as int) == #[trigger] esc_terminated(w, rest);
                            lemma_tail_layout(buf@, j as int, w, rest);
                            if w.len() > 0 {
                                lemma_esc_char_shape(w[0]);
                            }
                            assert(false);
                        }
                    }
                    return None;
                }
                let z1 = buf[j + 2];
                let z2 = buf[j + 3];
                let h1 = hex_val_exec(buf[j + 4]);
                let h2 = hex_val_exec(buf[j + 5]);
                if z1 != '0' || z2 != '0' || h1 >= 2 || h2 >= 16 {
                    proof {
                        if tail_valid(buf@, j as int) {
                            let (w, rest) = choose|w: Seq<char>, rest: Seq<char>|
                                buf@.skip(j as int) == #[trigger] esc_terminated(w, rest);
                            lemma_tail_layout(buf@, j as int, w, rest);
                            if w.len() > 0 {
                                lemma_esc_char_shape(w[0]);
                                lemma_hex_digit_val((w[0] as u32) / 16);
                                lemma_hex_digit_val((w[0] as u32) % 16);
                            }
                            assert(false);
                        }
                    }
                    return None;
                }
                let v = h1 * 16 + h2;
                let e = (v as u8) as char;
                let ghost pre = out@;
                out.push(e);
                proof {
                    assert(v < 32);
                    assert(e as u32 == v);
                    lemma_esc_char_shape(e);
                    lemma_hex_val_digit(buf@[j + 4 as int]);
                    lemma_hex_val_digit(buf@[j + 5 as int]);
                    assert(buf@.subrange(j as int, j + 6 as int) =~= seq![
                        '\\',
                        'u',
                        '0',
                        '0',
                        hex_digit(v / 16),
                        hex_digit(v % 16),
                    ]);
                    lemma_consume_unit(buf@, start as int, j as int, pre, e, 6);
                }
                j += 6;
            } else {
                proof {
                    if tail_valid(buf@, j as int) {
                        let (w, rest) = choose|w: Seq<char>, rest: Seq<char>|
                            buf@.skip(j as int) == #[trigger] esc_terminated(w, rest);
                        lemma_tail_layout(buf@, j as int, w, rest);
                        if w.len() > 0 {
                            lemma_esc_char_shape(w[0]);
                        }
                        assert(false);
                    }
                }
                return None;
            }
        } else if (c as u32) < 32 {
            proof {
                if tail_valid(buf@, j as int) {
                    let (w, rest) = choose|w: Seq<char>, rest: Seq<char>|
                        buf@.skip(j as int) == #[trigger] esc_terminated(w, rest);
                    lemma_tail_layout(buf@, j as int, w, rest);
                    if w.len() > 0 {
                        lemma_esc_char_shape(w[0]);
                    }
                    assert(false);
                }
            }
            return None;
        } else {
            let ghost pre = out@;
            out.push(c);
            proof {
                lemma_esc_char_shape(c);
                assert(buf@.subrange(j as int, j + 1 as int) =~= seq![c]);
                lemma_consume_unit(buf@, start as int, j as int, pre, c, 1);
            }
            j += 1;
        }
    }
}

/// Whether a text is the JSON form of some list of group names.
pub open spec fn is_groups_json(s: Seq<char>) -> bool {
    exists|gs: Seq<Seq<char>>| s == #[trigger] groups_json(gs)
}

/// A non-empty member list with the array's closing characters.
pub open spec fn members_json(gs: Seq<Seq<char>>) -> Seq<char> {
    joined(gs) + groups_suffix()
}

/// What follows a member's closing quote: the array's end, or a comma and
/// the remaining members.
pub open spec fn tail_after(gs: Seq<Seq<char>>) -> Seq<char>
    recommends
        gs.len() > 0,
{
    if gs.len() == 1 {
        groups_suffix()
    } else {
        seq![','] + joined(gs.drop_first()) + groups_suffix()
    }
}

/// Where a member list starts, an opening quote stands, and after it the
/// first member reads as a terminated escaped string.
proof fn lemma_members_layout(s: Seq<char>, k: int, gs: Seq<Seq<char>>)
    requires
        0 <= k <= s.len(),
        gs.len() > 0,
        s.skip(k) == joined(gs) + groups_suffix(),
    ensures
        k < s.len(),
        s[k] == '"',
        s.skip(k + 1) == esc_terminated(gs[0], tail_after(gs)),
{
    if gs.len() == 1 {
        assert(joined(gs) + groups_suffix() =~= seq!['"'] + esc_terminated(gs[0], tail_after(gs)));
    } else {
        assert(joined(gs) =~= quoted(gs[0]) + seq![','] + joined(gs.drop_first()));
        assert(joined(gs) + groups_suffix() =~= seq!['"'] + esc_terminated(gs[0], tail_after(gs)));
    }
    assert(s.skip(k).len() == s.len() - k);
    assert(s.skip(k)[0] == s[k]);
    assert(s.skip(k + 1) =~= s.skip(k).drop_first());
    assert(s.skip(k + 1) =~= esc_terminated(gs[0], tail_after(gs)));
}

/// What the text after a member's closing quote looks like: the array's two
/// closing characters end the input, or a comma starts the next member.
proof fn lemma_after_member(s: Seq<char>, end: int, gs: Seq<Seq<char>>)
    requires
        0 <= end <= s.len(),
        gs.len() > 0,
        s.skip(end) == tail_after(gs),
    ensures
        gs.len() == 1 ==> end + 2 == s.len() && s[end] == ']' && s[end + 1] == '}',
        gs.len() > 1 ==> end < s.len() && s[end] == ',' && s.skip(end + 1) == joined(
            gs.drop_first(),
        ) + groups_suffix(),
{
    assert(s.skip(end).len() == s.len() - end);
    if gs.len() == 1 {
        assert(s.skip(end)[0] == s[end]);
        assert(s.skip(end)[1] == s[end + 1]);
    } else {
        assert(s.skip(end)[0] == s[end]);
        assert(s.skip(end + 1) =~= s.skip(end).drop_first());
        assert(s.skip(end).drop_first() =~= joined(gs.drop_first()) + groups_suffix());
    }
}

/// Parse the supplemental-claims cookie value. A result is returned exactly
/// when the input is the JSON form of some list of group names, and then the
/// input is the JSON form of the result.
pub fn decode_groups(s: &str) -> (r: Option<Vec<String>>)
    ensures
        match r {
            Some(v) => s@ == groups_json(v.deep_view()),
            None => !is_groups_json(s@),
        },
{
    let buf = chars_of(s);
    let len = buf.len();
    proof {
        if is_groups_json(s@) {
            let gs = choose|gs: Seq<Seq<char>>| s@ == groups_json(gs);
            assert(groups_json(gs).len() >= 13);
        }
    }
    if len < 13 {
        return None;
    }
    // The fixed object head, `{"groups":[`.
    let head = [
        '{',
        '"',
        'g',
        'r',
        'o',
        'u',
        'p',
        's',
        '"',
        ':',
        '[',
    ];
    let mut p: usize = 0;
    while p < 11
        invariant
            len == buf@.len(),
            buf@ == s@,
            len >= 13,
            head@ == groups_prefix(),
            p <= 11,
            forall|q: int| 0 <= q < p ==> buf@[q] == groups_prefix()[q],
        decreases 11 - p,
    {
        if buf[p] != head[p] {
            proof {
                if is_groups_json(s@) {
                    let gs = choose|gs: Seq<Seq<char>>| s@ == groups_json(gs);
                    assert(s@[p as int] == groups_prefix()[p as int]);
                    assert(false);
                }
            }
            return None;
        }
        p += 1;
    }
    proof {
        assert(buf@.subrange(0, 11) =~= groups_prefix());
        if is_groups_json(s@) {
            let gs = choose|gs: Seq<Seq<char>>| s@ == groups_json(gs);
            assert(s@.skip(11) =~= joined(gs) + groups_suffix());
            assert(s@.skip(11) == members_json(gs));
        }
    }
    if buf[11] == ']' {
        // Only the empty list closes at once.
        if buf[12] == '}' && len == 13 {
            proof {
                let empty: Seq<Seq<char>> = Seq::empty();
                assert(buf@ =~= groups_json(empty));
            }
            let out: Vec<String> = Vec::new();
            proof {
                assert(out.deep_view() =~= Seq::<Seq<char>>::empty());
            }
            return Some(out);
        } else {
            proof {
                if is_groups_json(s@) {
                    let gs = choose|gs: Seq<Seq<char>>| s@ == groups_json(gs);
                    if gs.len() == 0 {
                        assert(s@ =~= groups_prefix() + groups_suffix());
                        assert(s@.len() == 13);
                        assert(s@[12] == '}');
                    } else {
                        lemma_members_layout(s@, 11, gs);
                    }
                    assert(false);
                }
            }
            return None;
        }
    }
    let mut out: Vec<String> = Vec::new();
    let mut i: usize = 11;
    proof {
        if is_groups_json(s@) {
            let gs = choose|gs: Seq<Seq<char>>| s@ == groups_json(gs);
            assert(s@.skip(11) =~= joined(gs) + groups_suffix());
            if gs.len() == 0 {
                assert(s@.skip(11) =~= groups_suffix());
                assert(s@.skip(11)[0] == s@[11]);
                assert(false);
            }
            assert(buf@.skip(11) == members_json(gs));
        }
        assert(out.deep_view() =~= Seq::<Seq<char>>::empty());
    }
    loop
        invariant
            len == buf@.len(),
            buf@ == s@,
            11 <= i <= len,
            ({
                if out.deep_view().len() == 0 {
                    buf@.subrange(0, i as int) == groups_prefix()
                } else {
                    buf@.subrange(0, i as int) == groups_prefix() + joined(out.deep_view())
                        + seq![',']
                }
            }),
            is_groups_json(s@) ==> exists|gs: Seq<Seq<char>>|
                gs.len() > 0 && buf@.skip(i as int) == #[trigger] members_json(gs),
        decreases len - i,
    {
        let ghost gsw: Seq<Seq<char>> = if is_groups_json(s@) {
            choose|gs: Seq<Seq<char>>|
                gs.len() > 0 && buf@.skip(i as int) == #[trigger] members_json(gs)
        } else {
            Seq::empty()
        };
        proof {
            if is_groups_json(s@) {
                lemma_members_layout(buf@, i as int, gsw);
            }
        }
        if i >= len {
            proof {
                if is_groups_json(s@) {
                    assert(false);
                }
            }
            return None;
        }
        if buf[i] != '"' {
            proof {
                if is_groups_json(s@) {
                    assert(false);
                }
            }
            return None;
        }
        match parse_string(&buf, i + 1) {
            None => {
                proof {
                    if is_groups_json(s@) {
                        assert(buf@.skip(i + 1 as int) == esc_terminated(gsw[0], tail_after(gsw)));
                        assert(tail_valid(buf@, i + 1 as int));
                        assert(false);
                    }
                }
                return None;
            },
            Some(pair) => {
                let (u, end) = pair;
                let ghost pre_acc = out.deep_view();
                proof {
                    assert(buf@.subrange(i as int, end as int) =~= seq!['"'] + buf@.subrange(
                        i + 1 as int,
                        end as int,
                    ));
                    assert(buf@.subrange(i as int, end as int) =~= quoted(u@));
                    if is_groups_json(s@) {
                        assert(buf@.skip(i + 1 as int) =~= buf@.subrange(i + 1 as int, end as int)
                            + buf@.skip(end as int));
                        assert(esc_terminated(u@, buf@.skip(end as int)) == esc_terminated(
                            gsw[0],
                            tail_after(gsw),
                        ));
                        lemma_esc_terminated_unique(u@, gsw[0], buf@.skip(end as int), tail_after(
                            gsw,
                        ));
                        lemma_after_member(buf@, end as int, gsw);
                    }
                }
                out.push(u);
                proof {
                    assert(out.deep_view() =~= pre_acc.push(u@));
                    assert(buf@.subrange(0, end as int) =~= buf@.subrange(0, i as int)
                        + buf@.subrange(i as int, end as int));
                    if pre_acc.len() == 0 {
                        assert(joined(out.deep_view()) == quoted(u@));
                        assert(buf@.subrange(0, end as int) =~= groups_prefix() + joined(
                            out.deep_view(),
                        ));
                    } else {
                        lemma_joined_push(pre_acc, u@);
                        assert(buf@.subrange(0, end as int) =~= groups_prefix() + joined(
                            out.deep_view(),
                        ));
                    }
                }
                if end < len && buf[end] == ',' {
                    proof {
                        if is_groups_json(s@) {
                            if gsw.len() == 1 {
                                assert(buf@[end as int] == ']');
                                assert(false);
                            }
                            assert(buf@.skip(end + 1 as int) == joined(gsw.drop_first())
                                + groups_suffix());
                            assert(buf@.skip(end + 1 as int) == members_json(gsw.drop_first()));
                        }
                        assert(buf@.subrange(0, end + 1 as int) =~= groups_prefix() + joined(
                            out.deep_view(),
                        ) + seq![',']);
                    }
                    i = end + 1;
                } else if end < len && buf[end] == ']' {
                    if len - end == 2 && buf[end + 1] == '}' {
                        proof {
                            assert(buf@ =~= buf@.subrange(0, end as int) + groups_suffix());
                            assert(buf@ =~= groups_json(out.deep_view()));
                        }
                        return Some(out);
                    } else {
                        proof {
                            if is_groups_json(s@) {
                                if gsw.len() == 1 {
                                    assert(end + 2 == len && buf@[end + 1 as int] == '}');
                                } else {
                                    assert(buf@[end as int] == ',');
                                }
                                assert(false);
                            }
                        }
                        return None;
                    }
                } else {
                    proof {
                        if is_groups_json(s@) {
                            if gsw.len() == 1 {
                                assert(end + 2 == len && buf@[end as int] == ']');
                            } else {
                                assert(end < len && buf@[end as int] == ',');
                            }
                            assert(false);
                        }
                    }
                    return None;
                }
            },
        }
    }
}

/// Two different lists never share a JSON form.
pub proof fn lemma_joined_suffix_unique(a: Seq<Seq<char>>, b: Seq<Seq<char>>)
    requires
        joined(a) + groups_suffix() == joined(b) + groups_suffix(),
    ensures
        a == b,
    decreases a.len(),
{
    if a.len() == 0 && b.len() == 0 {
        assert(a =~= b);
    } else if a.len() == 0 {
        assert((joined(a) + groups_suffix())[0] == ']');
        lemma_members_layout(joined(b) + groups_suffix(), 0, b);
        assert(false);
    } else if b.len() == 0 {
        assert((joined(b) + groups_suffix())[0] == ']');
        lemma_members_layout(joined(a) + groups_suffix(), 0, a);
        assert(false);
    } else {
        let sa = joined(a) + groups_suffix();
        assert(sa.skip(0) =~= sa);
        lemma_members_layout(sa, 0, a);
        lemma_members_layout(sa, 0, b);
        assert(sa.skip(1) == esc_terminated(a[0], tail_after(a)));
        assert(sa.skip(1) == esc_terminated(b[0], tail_after(b)));
        lemma_esc_terminated_unique(a[0], b[0], tail_after(a), tail_after(b));
        if a.len() == 1 && b.len() == 1 {
            assert(a =~= b);
        } else if a.len() == 1 {
            assert(tail_after(a)[0] == ']');
            assert(tail_after(b)[0] == ',');
            assert(false);
        } else if b.len() == 1 {
            assert(tail_after(a)[0] == ',');
            assert(tail_after(b)[0] == ']');
            assert(false);
        } else {
            assert(tail_after(a).drop_first() =~= joined(a.drop_first()) + groups_suffix());
            assert(tail_after(b).drop_first() =~= joined(b.drop_first()) + groups_suffix());
            lemma_joined_suffix_unique(a.drop_first(), b.drop_first());
            assert(a.len() == b.len());
            assert forall|i: int| 0 <= i < a.len() implies a[i] == b[i] by {
                if i > 0 {
                    assert(a.drop_first()[i - 1] == a[i]);
                    assert(b.drop_first()[i - 1] == b[i]);
                }
            }
            assert(a =~= b);
        }
    }
}

/// The JSON form determines the group names: the encoding is injective.
pub proof fn lemma_groups_json_injective(a: Seq<Seq<char>>, b: Seq<Seq<char>>)
    requires
        groups_json(a) == groups_json(b),
    ensures
        a == b,
{
    assert(groups_json(a) =~= groups_prefix() + (joined(a) + groups_suffix()));
    assert(groups_json(b) =~= groups_prefix() + (joined(b) + groups_suffix()));
    lemma_concat_cancel(
        groups_prefix(),
        joined(a) + groups_suffix(),
        groups_prefix(),
        joined(b) + groups_suffix(),
    );
    lemma_joined_suffix_unique(a, b);
}

/// Turn a character buffer into a string.
///
/// Relies on `String`'s `FromIterator` over `char`: the string holds exactly
/// the given characters, in order.
#[verifier::external_body]
pub(crate) fn string_of(chars: Vec<char>) -> (r: String)
    ensures
        r@ == chars@,
{
    String::from_iter(chars)
}

/// Read a string out as a character buffer.
pub fn chars_of(s: &str) -> (r: Vec<char>)
    ensures
        r@ == s@,
{
    let n = s.unicode_len();
    let mut out: Vec<char> = Vec::new();
    let mut j: usize = 0;
    while j < n
        invariant
            n == s@.len(),
            j <= n,
            out@ == s@.take(j as int),
        decreases n - j,
    {
        out.push(s.get_char(j));
        proof {
            assert(out@ =~= s@.take(j + 1 as int));
        }
        j += 1;
    }
    proof {
        assert(s@.take(n as int) =~= s@);
    }
    out
}

/// Write the group names as the supplemental-claims cookie value.
pub fn encode_groups(groups: &Vec<String>) -> (r: String)
    ensures
        r@ == groups_json(groups.deep_view()),
{
    let mut buf: Vec<char> = Vec::new();
    buf.push('{');
    buf.push('"');
    buf.push('g');
    buf.push('r');
    buf.push('o');
    buf.push('u');
    buf.push('p');
    buf.push('s');
    buf.push('"');
    buf.push(':');
    buf.push('[');
    proof {
        assert(buf@ =~= groups_prefix());
    }
    let n = groups.len();
    let mut i: usize = 0;
    while i < n
        invariant
            n == groups@.len(),
            i <= n,
            buf@ == groups_prefix() + joined(groups.deep_view().take(i as int)),
        decreases n - i,
    {
        let ghost done = groups.deep_view().take(i as int);
        if i > 0 {
            buf.push(',');
        }
        buf.push('"');
        escape_into(&mut buf, groups[i].as_str());
        buf.push('"');
        proof {
            let g = groups.deep_view()[i as int];
            assert(done.push(g) =~= groups.deep_view().take(i + 1 as int));
            if i > 0 {
                lemma_joined_push(done, g);
            }
            assert(buf@ =~= groups_prefix() + joined(groups.deep_view().take(i + 1 as int)));
        }
        i += 1;
    }
    buf.push(']');
    buf.push('}');
    proof {
        assert(groups.deep_view().take(n as int) =~= groups.deep_view());
        assert(buf@ =~= groups_json(groups.deep_view()));
    }
    string_of(buf)
}

} // verus!
