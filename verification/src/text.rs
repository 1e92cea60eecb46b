//! The textual form of an IPv6 address.

use vstd::prelude::*;
use vstd::string::StringExecFns;
use crate::address::Ipv6Address;

verus! {

/// The digit for a value below sixteen, in lower case.
pub open spec fn digit_char(n: u16) -> char {
    if n == 0 {
        '0'
    } else if n == 1 {
        '1'
    } else if n == 2 {
        '2'
    } else if n == 3 {
        '3'
    } else if n == 4 {
        '4'
    } else if n == 5 {
        '5'
    } else if n == 6 {
        '6'
    } else if n == 7 {
        '7'
    } else if n == 8 {
        '8'
    } else if n == 9 {
        '9'
    } else if n == 10 {
        'a'
    } else if n == 11 {
        'b'
    } else if n == 12 {
        'c'
    } else if n == 13 {
        'd'
    } else if n == 14 {
        'e'
    } else {
        'f'
    }
}

/// A segment in hexadecimal, without leading zeros.
pub open spec fn segment_text(s: u16) -> Seq<char> {
    (if s >= 0x1000 {
        seq![digit_char(s / 0x1000)]
    } else {
        Seq::empty()
    }) + (if s >= 0x100 {
        seq![digit_char(s / 0x100 % 16)]
    } else {
        Seq::empty()
    }) + (if s >= 0x10 {
        seq![digit_char(s / 0x10 % 16)]
    } else {
        Seq::empty()
    }) + seq![digit_char(s % 16)]
}

/// A byte in decimal, without leading zeros.
pub open spec fn decimal_text(b: u16) -> Seq<char> {
    (if b >= 100 {
        seq![digit_char(b / 100)]
    } else {
        Seq::empty()
    }) + (if b >= 10 {
        seq![digit_char(b / 10 % 10)]
    } else {
        Seq::empty()
    }) + seq![digit_char(b % 10)]
}

/// Segments in hexadecimal with `:` between them.
pub open spec fn joined(segments: Seq<u16>) -> Seq<char>
    decreases segments.len(),
{
    if segments.len() == 0 {
        Seq::empty()
    } else if segments.len() == 1 {
        segment_text(segments[0])
    } else {
        joined(segments.drop_last()) + seq![':'] + segment_text(segments.last())
    }
}

/// The number of zero segments in a row from position `start` on.
pub open spec fn zeros_from(segments: Seq<u16>, start: int) -> int
    decreases segments.len() - start,
{
    if 0 <= start < segments.len() && segments[start] == 0 {
        1 + zeros_from(segments, start + 1)
    } else {
        0
    }
}

/// Start and length of the longest run of zero segments that starts before
/// position `n`, the leftmost of them where several are longest; `(0, 0)`
/// where no segment before `n` is zero.
pub open spec fn longest_zero_run(segments: Seq<u16>, n: int) -> (int, int)
    decreases n,
{
    if n <= 0 {
        (0, 0)
    } else {
        let best = longest_zero_run(segments, n - 1);
        if zeros_from(segments, n - 1) > best.1 {
            (n - 1, zeros_from(segments, n - 1))
        } else {
            best
        }
    }
}

/// The address is an IPv4 address mapped into IPv6, `::ffff:0:0/96`.
pub open spec fn is_ipv4_mapped(segments: Seq<u16>) -> bool {
    &&& segments[0] == 0
    &&& segments[1] == 0
    &&& segments[2] == 0
    &&& segments[3] == 0
    &&& segments[4] == 0
    &&& segments[5] == 0xffff
}

/// The textual form of an address. An IPv4-mapped address is `::ffff:`
/// and the IPv4 address in dotted decimal. Any other address is its segments
/// in hexadecimal with `:` between them, where the longest run of two or more
/// zero segments, the leftmost of the longest, is written as `::`.
pub open spec fn address_text(ip: Ipv6Address) -> Seq<char> {
    let s = ip.segments@;
    let run = longest_zero_run(s, 8);
    if is_ipv4_mapped(s) {
        seq![':', ':', 'f', 'f', 'f', 'f', ':'] + decimal_text(s[6] / 256) + seq!['.']
            + decimal_text(s[6] % 256) + seq!['.'] + decimal_text(s[7] / 256) + seq!['.']
            + decimal_text(s[7] % 256)
    } else if run.1 >= 2 {
        joined(s.subrange(0, run.0)) + seq![':', ':'] + joined(s.subrange(run.0 + run.1, 8))
    } else {
        joined(s)
    }
}

/// What the longest run is: no run is longer, it is a run of zeros of that
/// length, and every run that starts before it is shorter.
pub proof fn lemma_longest_zero_run(segments: Seq<u16>, n: int)
    requires
        0 <= n <= segments.len(),
    ensures
        forall|j: int| 0 <= j < n ==> zeros_from(segments, j) <= longest_zero_run(segments, n).1,
        longest_zero_run(segments, n).1 > 0 ==> {
            let run = longest_zero_run(segments, n);
            &&& 0 <= run.0 < n
            &&& zeros_from(segments, run.0) == run.1
            &&& forall|j: int| 0 <= j < run.0 ==> zeros_from(segments, j) < run.1
        },
        longest_zero_run(segments, n).1 >= 0,
    decreases n,
{
    if n > 0 {
        lemma_longest_zero_run(segments, n - 1);
    }
}

/// The digit for a value below sixteen, as a text of one character.
fn digit_str(n: u16) -> (res: &'static str)
    requires
        n < 16,
    ensures
        res@ == seq![digit_char(n)],
{
    proof {
        reveal_strlit("0");
        reveal_strlit("1");
        reveal_strlit("2");
        reveal_strlit("3");
        reveal_strlit("4");
        reveal_strlit("5");
        reveal_strlit("6");
        reveal_strlit("7");
        reveal_strlit("8");
        reveal_strlit("9");
        reveal_strlit("a");
        reveal_strlit("b");
        reveal_strlit("c");
        reveal_strlit("d");
        reveal_strlit("e");
        reveal_strlit("f");
    }
    let res = match n {
        0 => "0",
        1 => "1",
        2 => "2",
        3 => "3",
        4 => "4",
        5 => "5",
        6 => "6",
        7 => "7",
        8 => "8",
        9 => "9",
        10 => "a",
        11 => "b",
        12 => "c",
        13 => "d",
        14 => "e",
        _ => "f",
    };
    assert(res@ =~= seq![digit_char(n)]);
    res
}

/// Appends a segment in hexadecimal, without leading zeros.
fn append_segment(out: &mut String, s: u16)
    ensures
        final(out)@ == old(out)@ + segment_text(s),
{
    if s >= 0x1000 {
        out.append(digit_str(s / 0x1000));
    }
    if s >= 0x100 {
        out.append(digit_str(s / 0x100 % 16));
    }
    if s >= 0x10 {
        out.append(digit_str(s / 0x10 % 16));
    }
    out.append(digit_str(s % 16));
    assert(out@ =~= old(out)@ + segment_text(s));
}

/// Appends a byte in decimal, without leading zeros.
fn append_decimal(out: &mut String, b: u16)
    requires
        b < 256,
    ensures
        final(out)@ == old(out)@ + decimal_text(b),
{
    if b >= 100 {
        out.append(digit_str(b / 100));
    }
    if b >= 10 {
        out.append(digit_str(b / 10 % 10));
    }
    out.append(digit_str(b % 10));
    assert(out@ =~= old(out)@ + decimal_text(b));
}

/// Appends the segments from `from` up to `to`, with `:` between them.
fn append_joined(out: &mut String, segments: &[u16; 8], from: usize, to: usize)
    requires
        from <= to <= 8,
    ensures
        final(out)@ == old(out)@ + joined(segments@.subrange(from as int, to as int)),
{
    let mut i: usize = from;
    assert(segments@.subrange(from as int, from as int) =~= Seq::<u16>::empty());
    assert(out@ =~= old(out)@ + joined(segments@.subrange(from as int, i as int)));
    while i < to
        invariant
            from <= i <= to <= 8,
            out@ == old(out)@ + joined(segments@.subrange(from as int, i as int)),
        decreases to - i,
    {
        let ghost before = out@;
        if i > from {
            out.append(":");
            proof {
                reveal_strlit(":");
            }
        }
        append_segment(out, segments[i]);
        proof {
            let next = segments@.subrange(from as int, i + 1);
            assert(next.drop_last() =~= segments@.subrange(from as int, i as int));
            assert(next.last() == segments@[i as int]);
            if i > from {
                assert(out@ =~= before + seq![':'] + segment_text(segments@[i as int]));
            }
            assert(out@ =~= old(out)@ + joined(next));
        }
        i += 1;
    }
}

/// Finds the longest run of zero segments, the leftmost of the longest.
fn longest_run(segments: &[u16; 8]) -> (res: (usize, usize))
    ensures
        (res.0 as int, res.1 as int) == longest_zero_run(segments@, 8),
        res.0 + res.1 <= 8,
{
    let mut best_start: usize = 0;
    let mut best_len: usize = 0;
    let mut i: usize = 0;
    while i < 8
        invariant
            i <= 8,
            best_start + best_len <= 8,
            (best_start as int, best_len as int) == longest_zero_run(segments@, i as int),
        decreases 8 - i,
    {
        let mut k: usize = i;
        while k < 8 && segments[k] == 0
            invariant
                i <= k <= 8,
                zeros_from(segments@, i as int) == (k - i) + zeros_from(segments@, k as int),
            decreases 8 - k,
        {
            k += 1;
        }
        let run: usize = k - i;
        if run > best_len {
            best_start = i;
            best_len = run;
        }
        i += 1;
    }
    (best_start, best_len)
}

impl Ipv6Address {
    /// The address in its textual form.
    pub fn to_text(&self) -> (res: String)
        ensures
            res@ == address_text(*self),
    {
        let s = &self.segments;
        let mut out = String::new();
        if s[0] == 0 && s[1] == 0 && s[2] == 0 && s[3] == 0 && s[4] == 0 && s[5] == 0xffff {
            out.append("::ffff:");
            proof {
                reveal_strlit("::ffff:");
                reveal_strlit(".");
            }
            append_decimal(&mut out, s[6] / 256);
            out.append(".");
            append_decimal(&mut out, s[6] % 256);
            out.append(".");
            append_decimal(&mut out, s[7] / 256);
            out.append(".");
            append_decimal(&mut out, s[7] % 256);
            assert(out@ =~= address_text(*self));
        } else {
            let (start, len) = longest_run(s);
            if len >= 2 {
                append_joined(&mut out, s, 0, start);
                out.append("::");
                proof {
                    reveal_strlit("::");
                }
                append_joined(&mut out, s, start + len, 8);
                assert(out@ =~= address_text(*self));
            } else {
                append_joined(&mut out, s, 0, 8);
                assert(s@.subrange(0, 8) =~= s@);
                assert(out@ =~= address_text(*self));
            }
        }
        out
    }
}

} // verus!
