//! Latin-1 text utilities: whitespace trimming, parsing of comma-separated
//! integer lists, and decimal formatting.
//!
//! Text fields are Latin-1 bytes. Parsing treats as whitespace exactly the
//! bytes whose Latin-1 characters are Unicode whitespace, and accepts an
//! integer in the form an optional sign followed by decimal digits, with
//! values outside the 32-bit signed range rejected.

use vstd::prelude::*;

verus! {

/// A byte whose Latin-1 character is Unicode whitespace: tab, line feed,
/// vertical tab, form feed, carriage return, space, next line, no-break
/// space.
pub open spec fn is_ws(b: u8) -> bool {
    b == 9 || b == 10 || b == 11 || b == 12 || b == 13 || b == 32 || b == 133 || b == 160
}

/// `s` without leading whitespace.
pub open spec fn trim_start(s: Seq<u8>) -> Seq<u8>
    decreases s.len(),
{
    if s.len() > 0 && is_ws(s[0]) {
        trim_start(s.drop_first())
    } else {
        s
    }
}

/// `s` without trailing whitespace.
pub open spec fn trim_end(s: Seq<u8>) -> Seq<u8>
    decreases s.len(),
{
    if s.len() > 0 && is_ws(s.last()) {
        trim_end(s.drop_last())
    } else {
        s
    }
}

/// `s` without leading and trailing whitespace.
pub open spec fn trim_ws(s: Seq<u8>) -> Seq<u8> {
    trim_end(trim_start(s))
}

/// All bytes are decimal digits, and there is at least one.
pub open spec fn all_digits(s: Seq<u8>) -> bool {
    s.len() > 0 && forall|i: int| 0 <= i < s.len() ==> 48 <= #[trigger] s[i] <= 57
}

/// The value of a digit string.
pub open spec fn digits_val(s: Seq<u8>) -> int
    decreases s.len(),
{
    if s.len() == 0 {
        0
    } else {
        digits_val(s.drop_last()) * 10 + (s.last() - 48)
    }
}

/// The parse of a byte string as a 32-bit signed integer: an optional sign,
/// then decimal digits; nothing when any other byte occurs, no digit
/// occurs, or the value does not fit.
pub open spec fn parse_i32_spec(s: Seq<u8>) -> Option<i32> {
    let sign: int = if s.len() > 0 && s[0] == 45 {
        -1
    } else {
        1
    };
    let body = if s.len() > 0 && (s[0] == 43 || s[0] == 45) {
        s.drop_first()
    } else {
        s
    };
    if all_digits(body) {
        let v = sign * digits_val(body);
        if -0x8000_0000 <= v <= 0x7FFF_FFFF {
            Some(v as i32)
        } else {
            None
        }
    } else {
        None
    }
}

/// The first position at or after `i` holding a comma, or the length.
pub open spec fn next_comma(s: Seq<u8>, i: int) -> int
    decreases s.len() - i,
{
    if i < 0 || i >= s.len() {
        s.len() as int
    } else if s[i] == 44 {
        i
    } else {
        next_comma(s, i + 1)
    }
}

/// The integers parsed out of the comma-separated segments of `s` from
/// position `i` on: each segment is trimmed and parsed, and segments that
/// do not parse are skipped.
pub open spec fn parse_list_from(s: Seq<u8>, i: int) -> Seq<i32>
    decreases s.len() - i,
    via parse_list_from_decreases
{
    if i < 0 || i > s.len() {
        Seq::empty()
    } else {
        let j = next_comma(s, i);
        let head = parse_i32_spec(trim_ws(s.subrange(i, j)));
        let rest = if j < s.len() {
            parse_list_from(s, j + 1)
        } else {
            Seq::empty()
        };
        match head {
            Some(v) => seq![v] + rest,
            None => rest,
        }
    }
}

#[via_fn]
proof fn parse_list_from_decreases(s: Seq<u8>, i: int) {
    if 0 <= i <= s.len() {
        lemma_next_comma(s, i);
    }
}

/// The parse of a whole comma-separated integer list.
pub open spec fn parse_id_list_spec(s: Seq<u8>) -> Seq<i32> {
    parse_list_from(s, 0)
}

proof fn lemma_next_comma(s: Seq<u8>, i: int)
    requires
        0 <= i <= s.len(),
    ensures
        i <= next_comma(s, i) <= s.len(),
        next_comma(s, i) < s.len() ==> s[next_comma(s, i)] == 44,
        forall|x: int| i <= x < next_comma(s, i) ==> s[x] != 44,
    decreases s.len() - i,
{
    if i < s.len() && s[i] != 44 {
        lemma_next_comma(s, i + 1);
    }
}

/// Digit accumulation step: extending a digit prefix by one digit.
proof fn lemma_digits_val_step(s: Seq<u8>, k: int)
    requires
        0 <= k < s.len(),
    ensures
        digits_val(s.take(k + 1)) == digits_val(s.take(k)) * 10 + (s[k] - 48),
{
    assert(s.take(k + 1).drop_last() =~= s.take(k));
    assert(s.take(k + 1).last() == s[k]);
}

proof fn lemma_digits_val_nonneg(s: Seq<u8>)
    requires
        forall|i: int| 0 <= i < s.len() ==> 48 <= #[trigger] s[i] <= 57,
    ensures
        digits_val(s) >= 0,
    decreases s.len(),
{
    if s.len() > 0 {
        assert(forall|i: int| 0 <= i < s.drop_last().len() ==> s.drop_last()[i] == s[i]);
        lemma_digits_val_nonneg(s.drop_last());
    }
}

/// Parse the trimmed slice `s[lo..hi]` as a 32-bit signed integer.
fn parse_i32_range(s: &[u8], lo: usize, hi: usize) -> (r: Option<i32>)
    requires
        lo <= hi <= s@.len(),
    ensures
        r == parse_i32_spec(trim_ws(s@.subrange(lo as int, hi as int))),
{
    let ghost orig = s@.subrange(lo as int, hi as int);
    // Trim leading whitespace.
    let mut a = lo;
    while a < hi && (s[a] == 9 || s[a] == 10 || s[a] == 11 || s[a] == 12 || s[a] == 13 || s[a]
        == 32 || s[a] == 133 || s[a] == 160)
        invariant
            lo <= a <= hi <= s@.len(),
            trim_start(orig) == trim_start(s@.subrange(a as int, hi as int)),
        decreases hi - a,
    {
        proof {
            assert(s@.subrange(a as int, hi as int).drop_first() =~= s@.subrange(
                a as int + 1,
                hi as int,
            ));
        }
        a = a + 1;
    }
    proof {
        assert(trim_start(orig) == s@.subrange(a as int, hi as int));
    }
    // Trim trailing whitespace.
    let mut b = hi;
    while b > a && (s[b - 1] == 9 || s[b - 1] == 10 || s[b - 1] == 11 || s[b - 1] == 12 || s[b - 1]
        == 13 || s[b - 1] == 32 || s[b - 1] == 133 || s[b - 1] == 160)
        invariant
            a <= b <= hi <= s@.len(),
            trim_end(trim_start(orig)) == trim_end(s@.subrange(a as int, b as int)),
        decreases b - a,
    {
        proof {
            assert(s@.subrange(a as int, b as int).drop_last() =~= s@.subrange(
                a as int,
                b as int - 1,
            ));
        }
        b = b - 1;
    }
    proof {
        assert(trim_ws(orig) == s@.subrange(a as int, b as int));
    }
    let ghost t = s@.subrange(a as int, b as int);
    // Sign.
    let negative = a < b && s[a] == 45;
    let body_lo = if a < b && (s[a] == 43 || s[a] == 45) {
        a + 1
    } else {
        a
    };
    let ghost body = s@.subrange(body_lo as int, b as int);
    proof {
        if a < b && (t[0] == 43 || t[0] == 45) {
            assert(t.drop_first() =~= body);
        } else {
            assert(t =~= body);
        }
    }
    if body_lo == b {
        // No digits at all.
        proof {
            assert(!all_digits(body));
        }
        return None;
    }
    // Check digits and accumulate.
    let mut acc: u64 = 0;
    let mut overflow = false;
    let mut k = body_lo;
    while k < b
        invariant
            lo <= a <= body_lo,
            body_lo <= k <= b <= hi <= s@.len(),
            t == s@.subrange(a as int, b as int),
            trim_ws(s@.subrange(lo as int, hi as int)) == t,
            body == (if t.len() > 0 && (t[0] == 43 || t[0] == 45) {
                t.drop_first()
            } else {
                t
            }),
            negative == (t.len() > 0 && t[0] == 45),
            body.len() > 0,
            body == s@.subrange(body_lo as int, b as int),
            body.len() == b - body_lo,
            forall|i: int| 0 <= i < k - body_lo ==> 48 <= #[trigger] body[i] <= 57,
            !overflow ==> acc == digits_val(body.take(k - body_lo)) && acc <= 0xFFFF_FFFF * 10 + 9,
            overflow ==> digits_val(body.take(k - body_lo)) > 0xFFFF_FFFF,
        decreases b - k,
    {
        let c = s[k];
        if c < 48 || c > 57 {
            proof {
                assert(body[k - body_lo] == c);
                assert(!all_digits(body));
            }
            return None;
        }
        proof {
            lemma_digits_val_step(body, k - body_lo);
            if !overflow && acc > 0xFFFF_FFFF {
                assert(digits_val(body.take(k - body_lo)) > 0xFFFF_FFFF);
                assert(digits_val(body.take(k - body_lo + 1)) > 0xFFFF_FFFF) by {
                    assert(forall|i: int| 0 <= i < k - body_lo + 1 ==> 48 <= #[trigger] body.take(
                        k - body_lo + 1,
                    )[i] <= 57);
                };
            }
            if overflow {
                assert(digits_val(body.take(k - body_lo + 1)) == digits_val(
                    body.take(k - body_lo),
                ) * 10 + (body[k - body_lo] - 48));
            }
        }
        if acc > 0xFFFF_FFFF {
            overflow = true;
        } else {
            acc = acc * 10 + ((c - 48) as u64);
        }
        k = k + 1;
    }
    proof {
        assert(body.take(b - body_lo) =~= body);
        assert(all_digits(body));
        lemma_digits_val_nonneg(body);
        assert(trim_ws(s@.subrange(lo as int, hi as int)) == t);
        assert(!overflow ==> acc == digits_val(body));
        assert(overflow ==> digits_val(body) > 0xFFFF_FFFF);
    }
    proof {
        let u = trim_ws(s@.subrange(lo as int, hi as int));
        assert(u == t);
        let sgn: int = if u.len() > 0 && u[0] == 45 {
            -1
        } else {
            1
        };
        let bd = if u.len() > 0 && (u[0] == 43 || u[0] == 45) {
            u.drop_first()
        } else {
            u
        };
        assert(bd == body);
        assert(all_digits(bd));
        assert(sgn == if negative {
            -1int
        } else {
            1int
        });
        assert(parse_i32_spec(u) == {
            let v = sgn * digits_val(bd);
            if -0x8000_0000 <= v <= 0x7FFF_FFFF {
                Some(v as i32)
            } else {
                None
            }
        });
    }
    if overflow {
        proof {
            assert(digits_val(body) > 0xFFFF_FFFF);
        }
        return None;
    }
    if negative {
        if acc > 0x8000_0000 {
            None
        } else {
            let wide: i64 = -(acc as i64);
            Some(wide as i32)
        }
    } else {
        if acc > 0x7FFF_FFFF {
            None
        } else {
            Some(acc as i32)
        }
    }
}

/// Parse a comma-separated list of 32-bit integers out of Latin-1 text:
/// split on commas, trim each segment, parse it, and skip segments that do
/// not parse.
pub fn parse_id_list(s: &[u8]) -> (r: Vec<i32>)
    ensures
        r@ == parse_id_list_spec(s@),
{
    let mut out: Vec<i32> = Vec::new();
    let mut i: usize = 0;
    let mut done = false;
    while !done
        invariant
            i <= s@.len(),
            parse_id_list_spec(s@) == out@ + (if done {
                Seq::<i32>::empty()
            } else {
                parse_list_from(s@, i as int)
            }),
        decreases s@.len() - i + (if done {
            0int
        } else {
            1int
        }),
    {
        // Find the end of the current segment.
        let mut j = i;
        while j < s.len() && s[j] != 44
            invariant
                i <= j <= s@.len(),
                next_comma(s@, i as int) == next_comma(s@, j as int),
                forall|x: int| i <= x < j ==> s@[x] != 44,
            decreases s@.len() - j,
        {
            j = j + 1;
        }
        proof {
            assert(next_comma(s@, j as int) == j as int);
        }
        let head = parse_i32_range(s, i, j);
        proof {
            assert(s@.subrange(i as int, next_comma(s@, i as int)) == s@.subrange(
                i as int,
                j as int,
            ));
        }
        match head {
            Some(v) => {
                out.push(v);
            },
            None => {
            },
        }
        if j < s.len() {
            i = j + 1;
        } else {
            i = j;
            done = true;
        }
    }
    out
}

/// The decimal digits of a nonnegative number, most significant first.
pub open spec fn dec_u(n: int) -> Seq<u8>
    decreases n,
{
    if n < 10 {
        seq![(48 + if n >= 0 {
            n
        } else {
            0
        }) as u8]
    } else {
        dec_u(n / 10).push((48 + n % 10) as u8)
    }
}

/// The decimal form of a 32-bit signed integer, with a leading minus sign
/// when negative.
pub open spec fn dec_i32(v: int) -> Seq<u8> {
    if v < 0 {
        seq![45u8] + dec_u(-v)
    } else {
        dec_u(v)
    }
}

/// Format a 32-bit signed integer in decimal.
pub fn format_i32(v: i32) -> (r: Vec<u8>)
    ensures
        r@ == dec_i32(v as int),
{
    let wide: i64 = v as i64;
    let mut n: i64 = if wide < 0 {
        -wide
    } else {
        wide
    };
    let ghost abs0 = n as int;
    let mut buf: Vec<u8> = Vec::new();
    while n >= 10
        invariant
            0 <= n,
            dec_u(abs0) =~= dec_u(n as int) + buf@.reverse(),
        decreases n,
    {
        let d = (n % 10) as u8;
        proof {
            assert((buf@.push((48 + n % 10) as u8)).reverse() =~= seq![(48 + n % 10) as u8]
                + buf@.reverse());
        }
        buf.push(48 + d);
        n = n / 10;
    }
    proof {
        assert(dec_u(n as int) == seq![(48 + n) as u8]);
    }
    buf.push(48 + (n as u8));
    proof {
        assert(buf@.reverse() =~= dec_u(abs0));
    }
    let mut out: Vec<u8> = Vec::new();
    if v < 0 {
        out.push(45u8);
    }
    let ghost prefix = out@;
    let mut k: usize = 0;
    while k < buf.len()
        invariant
            k <= buf@.len(),
            out@.len() == prefix.len() + k,
            forall|m: int| 0 <= m < prefix.len() ==> out@[m] == prefix[m],
            forall|m: int| prefix.len() <= m < out@.len() ==> #[trigger] out@[m] == buf@[buf@.len()
                - 1 - (m - prefix.len())],
        decreases buf@.len() - k,
    {
        out.push(buf[buf.len() - 1 - k]);
        k = k + 1;
    }
    proof {
        assert(buf@.len() > 0);
        assert(forall|m: int| 0 <= m < buf@.len() ==> buf@.reverse()[m] == buf@[buf@.len() - 1
            - m]);
        assert(out@ =~= prefix + buf@.reverse());
        if v < 0 {
            assert(out@ =~= seq![45u8] + dec_u(-(v as int)));
        } else {
            assert(out@ =~= dec_u(v as int));
        }
    }
    out
}

/// Append a byte slice to a byte vector.
pub fn append_bytes(dst: &mut Vec<u8>, src: &[u8])
    ensures
        final(dst)@ == old(dst)@ + src@,
{
    let mut k: usize = 0;
    while k < src.len()
        invariant
            k <= src@.len(),
            dst@ == old(dst)@ + src@.take(k as int),
        decreases src@.len() - k,
    {
        proof {
            assert((old(dst)@ + src@.take(k as int)).push(src@[k as int]) =~= old(dst)@
                + src@.take(k as int + 1));
        }
        dst.push(src[k]);
        k = k + 1;
    }
    proof {
        assert(src@.take(src@.len() as int) =~= src@);
    }
}

} // verus!
