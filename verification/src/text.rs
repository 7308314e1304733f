//! Exact text building: decimal renderings of 64-bit integers, cause chains
//! joined with `"; "`, and JSON string escaping.

use vstd::prelude::*;
use vstd::string::*;

verus! {

/// Relies on alloc's `String::push`: appends the given character to the end
/// of the string.
pub assume_specification[ String::push ](s: &mut String, c: char)
    ensures
        final(s)@ == old(s)@.push(c),
;

/// The decimal digit character for a value below ten.
pub open spec fn digit_char(d: nat) -> char {
    if d == 0 {
        '0'
    } else if d == 1 {
        '1'
    } else if d == 2 {
        '2'
    } else if d == 3 {
        '3'
    } else if d == 4 {
        '4'
    } else if d == 5 {
        '5'
    } else if d == 6 {
        '6'
    } else if d == 7 {
        '7'
    } else if d == 8 {
        '8'
    } else {
        '9'
    }
}

/// The decimal digits of a natural number, most significant first.
pub open spec fn dec_digits(n: nat) -> Seq<char>
    decreases n,
{
    if n < 10 {
        seq![digit_char(n)]
    } else {
        dec_digits(n / 10).push(digit_char(n % 10))
    }
}

/// The decimal rendering of an integer, with a leading minus sign when
/// negative.
pub open spec fn dec_int(n: int) -> Seq<char> {
    if n < 0 {
        seq!['-'] + dec_digits((-n) as nat)
    } else {
        dec_digits(n as nat)
    }
}

fn digit_str(d: u64) -> (r: &'static str)
    requires
        d < 10,
    ensures
        r@ == seq![digit_char(d as nat)],
{
    let r: &'static str = match d {
        0 => "0",
        1 => "1",
        2 => "2",
        3 => "3",
        4 => "4",
        5 => "5",
        6 => "6",
        7 => "7",
        8 => "8",
        _ => "9",
    };
    proof {
        reveal_strlit("0");
        reveal_strlit("1");
        reveal_strlit("2");
        reveal_strlit("3");
        reveal_strlit("4");
        reveal_strlit("5");
        reveal_strlit("6");
        reveal_strlit("7");
        reveal_strlit("8");
        reveal_strlit("9");
        assert(r@ =~= seq![digit_char(d as nat)]);
    }
    r
}

fn u64_to_dec(n: u64) -> (r: String)
    ensures
        r@ == dec_digits(n as nat),
    decreases n,
{
    if n < 10 {
        String::from_str(digit_str(n))
    } else {
        let mut s = u64_to_dec(n / 10);
        s.append(digit_str(n % 10));
        proof {
            assert(s@ =~= dec_digits(n as nat));
        }
        s
    }
}

/// Render a 64-bit signed integer in decimal.
pub fn i64_to_dec(n: i64) -> (r: String)
    ensures
        r@ == dec_int(n as int),
{
    if n >= 0 {
        u64_to_dec(n as u64)
    } else {
        let mag: u64 = if n == i64::MIN {
            9223372036854775808
        } else {
            (-n) as u64
        };
        let mut s = String::from_str("-");
        let digits = u64_to_dec(mag);
        s.append(digits.as_str());
        proof {
            reveal_strlit("-");
            assert(mag as nat == (-(n as int)) as nat);
            assert(s@ =~= dec_int(n as int));
        }
        s
    }
}

/// The parts joined with the separator between consecutive parts.
pub open spec fn joined(parts: Seq<Seq<char>>, sep: Seq<char>) -> Seq<char>
    decreases parts.len(),
{
    if parts.len() == 0 {
        Seq::empty()
    } else if parts.len() == 1 {
        parts[0]
    } else {
        parts[0] + sep + joined(parts.drop_first(), sep)
    }
}

/// The views of a vector of strings.
pub open spec fn texts_of(parts: Seq<String>) -> Seq<Seq<char>> {
    parts.map_values(|p: String| p@)
}

fn join_from(parts: &Vec<String>, i: usize) -> (r: String)
    requires
        i <= parts.len(),
    ensures
        r@ == joined(texts_of(parts@).skip(i as int), "; "@),
    decreases parts.len() - i,
{
    let ghost t = texts_of(parts@).skip(i as int);
    if i == parts.len() {
        let r = String::new();
        proof {
            assert(t =~= Seq::<Seq<char>>::empty());
        }
        r
    } else if i + 1 == parts.len() {
        let r = parts[i].clone();
        proof {
            assert(t.len() == 1);
            assert(t[0] == parts@[i as int]@);
        }
        r
    } else {
        let mut s = parts[i].clone();
        s.append("; ");
        let rest = join_from(parts, i + 1);
        s.append(rest.as_str());
        proof {
            assert(t[0] == parts@[i as int]@);
            assert(t.drop_first() =~= texts_of(parts@).skip(i as int + 1));
            assert(s@ =~= joined(t, "; "@));
        }
        s
    }
}

/// Join the cause texts with `"; "` between consecutive causes.
pub fn join_causes(parts: &Vec<String>) -> (r: String)
    ensures
        r@ == joined(texts_of(parts@), "; "@),
{
    let r = join_from(parts, 0);
    proof {
        assert(texts_of(parts@).skip(0) =~= texts_of(parts@));
    }
    r
}

/// The lowercase hexadecimal digit character for a value below sixteen.
pub open spec fn hex_char(d: nat) -> char {
    if d < 10 {
        digit_char(d)
    } else if d == 10 {
        'a'
    } else if d == 11 {
        'b'
    } else if d == 12 {
        'c'
    } else if d == 13 {
        'd'
    } else if d == 14 {
        'e'
    } else {
        'f'
    }
}

/// How one character appears inside a JSON string literal: the two-character
/// short escapes of JSON, a `\u00..` escape for the remaining control
/// characters, and every other character unchanged.
pub open spec fn escaped_char(c: char) -> Seq<char> {
    if c == '"' {
        seq!['\\', '"']
    } else if c == '\\' {
        seq!['\\', '\\']
    } else if c as int == 8 {
        seq!['\\', 'b']
    } else if c as int == 9 {
        seq!['\\', 't']
    } else if c as int == 10 {
        seq!['\\', 'n']
    } else if c as int == 12 {
        seq!['\\', 'f']
    } else if c as int == 13 {
        seq!['\\', 'r']
    } else if (c as int) < 32 {
        seq!['\\', 'u', '0', '0', hex_char((c as int / 16) as nat), hex_char((c as int % 16) as nat)]
    } else {
        seq![c]
    }
}

/// The body of a JSON string literal holding the given text.
pub open spec fn escaped(s: Seq<char>) -> Seq<char>
    decreases s.len(),
{
    if s.len() == 0 {
        Seq::empty()
    } else {
        escaped(s.drop_last()) + escaped_char(s.last())
    }
}

fn hex_digit(d: u32) -> (r: char)
    requires
        d < 16,
    ensures
        r == hex_char(d as nat),
{
    match d {
        0 => '0',
        1 => '1',
        2 => '2',
        3 => '3',
        4 => '4',
        5 => '5',
        6 => '6',
        7 => '7',
        8 => '8',
        9 => '9',
        10 => 'a',
        11 => 'b',
        12 => 'c',
        13 => 'd',
        14 => 'e',
        _ => 'f',
    }
}

fn push_escaped_char(out: &mut String, c: char)
    ensures
        final(out)@ == old(out)@ + escaped_char(c),
{
    if c == '"' {
        out.append("\\\"");
        proof {
            reveal_strlit("\\\"");
            assert(out@ =~= old(out)@ + escaped_char(c));
        }
    } else if c == '\\' {
        out.append("\\\\");
        proof {
            reveal_strlit("\\\\");
            assert(out@ =~= old(out)@ + escaped_char(c));
        }
    } else {
        let cv = c as u32;
        if cv == 8 {
            out.append("\\b");
            proof {
                reveal_strlit("\\b");
                assert(out@ =~= old(out)@ + escaped_char(c));
            }
        } else if cv == 9 {
            out.append("\\t");
            proof {
                reveal_strlit("\\t");
                assert(out@ =~= old(out)@ + escaped_char(c));
            }
        } else if cv == 10 {
            out.append("\\n");
            proof {
                reveal_strlit("\\n");
                assert(out@ =~= old(out)@ + escaped_char(c));
            }
        } else if cv == 12 {
            out.append("\\f");
            proof {
                reveal_strlit("\\f");
                assert(out@ =~= old(out)@ + escaped_char(c));
            }
        } else if cv == 13 {
            out.append("\\r");
            proof {
                reveal_strlit("\\r");
                assert(out@ =~= old(out)@ + escaped_char(c));
            }
        } else if cv < 32 {
            out.append("\\u00");
            out.push(hex_digit(cv / 16));
            out.push(hex_digit(cv % 16));
            proof {
                reveal_strlit("\\u00");
                assert(out@ =~= old(out)@ + escaped_char(c));
            }
        } else {
            out.push(c);
            proof {
                assert(out@ =~= old(out)@ + escaped_char(c));
            }
        }
    }
}

/// Escape a text for inclusion in a JSON string literal.
pub fn escape_json(s: &str) -> (r: String)
    ensures
        r@ == escaped(s@),
{
    let n = s.unicode_len();
    let mut out = String::new();
    let mut i: usize = 0;
    while i < n
        invariant
            n == s@.len(),
            i <= n,
            out@ == escaped(s@.take(i as int)),
        decreases n - i,
    {
        let c = s.get_char(i);
        push_escaped_char(&mut out, c);
        proof {
            assert(s@.take(i as int + 1).drop_last() =~= s@.take(i as int));
            assert(s@.take(i as int + 1).last() == s@[i as int]);
        }
        i += 1;
    }
    proof {
        assert(s@.take(n as int) =~= s@);
    }
    out
}

} // verus!
