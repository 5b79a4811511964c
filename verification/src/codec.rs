//! The command codec.  Every outbound command is one structured line: a
//! record with a single text field holding the command payload,
//! `{"query":"..."}`, with quotes, backslashes and control bytes escaped,
//! closed and terminated by exactly one newline.  The decoder inverts the
//! encoder; the round trip is proved exact for every payload.

use vstd::prelude::*;

verus! {

/// The lower-case hexadecimal digit for a value below sixteen.
pub open spec fn hex_digit(n: u8) -> u8 {
    if n < 10 {
        (0x30 + n) as u8
    } else {
        (0x57 + n) as u8
    }
}

/// Whether a byte is a hexadecimal digit, either case.
pub open spec fn is_hex_digit(b: u8) -> bool {
    (0x30 <= b && b <= 0x39) || (0x61 <= b && b <= 0x66) || (0x41 <= b && b <= 0x46)
}

/// The numeric value of a hexadecimal digit byte.
pub open spec fn hex_value(b: u8) -> u8 {
    if 0x30 <= b && b <= 0x39 {
        (b - 0x30) as u8
    } else if 0x61 <= b && b <= 0x66 {
        (b - 0x57) as u8
    } else {
        (b - 0x37) as u8
    }
}

/// The escaped form of one payload byte inside the quoted field: quote and
/// backslash get a backslash escape, newline, carriage return and tab get
/// their letter escapes, any other control byte gets the four-digit form,
/// and every other byte stands for itself.
pub open spec fn esc_byte(b: u8) -> Seq<u8> {
    if b == 0x22 {
        seq![0x5cu8, 0x22u8]
    } else if b == 0x5c {
        seq![0x5cu8, 0x5cu8]
    } else if b == 0x0a {
        seq![0x5cu8, 0x6eu8]
    } else if b == 0x0d {
        seq![0x5cu8, 0x72u8]
    } else if b == 0x09 {
        seq![0x5cu8, 0x74u8]
    } else if b < 0x20 {
        seq![0x5cu8, 0x75u8, 0x30u8, 0x30u8, hex_digit(b / 16), hex_digit(b % 16)]
    } else {
        seq![b]
    }
}

/// The escaped form of a whole payload.
pub open spec fn esc_bytes(s: Seq<u8>) -> Seq<u8>
    decreases s.len(),
{
    if s.len() == 0 {
        Seq::empty()
    } else {
        esc_byte(s[0]) + esc_bytes(s.skip(1))
    }
}

/// The opening of the encoded record: `{"query":"`.
pub open spec fn record_prefix() -> Seq<u8> {
    seq![0x7bu8, 0x22u8, 0x71u8, 0x75u8, 0x65u8, 0x72u8, 0x79u8, 0x22u8, 0x3au8, 0x22u8]
}

/// The close of the record and the line terminator: `"}` and one newline.
pub open spec fn record_suffix() -> Seq<u8> {
    seq![0x22u8, 0x7du8, 0x0au8]
}

/// The encoded line for a command payload.
pub open spec fn encoded_line(payload: Seq<u8>) -> Seq<u8> {
    record_prefix() + esc_bytes(payload) + record_suffix()
}

/// The byte a short escape letter stands for.
pub open spec fn unesc_short(b: u8) -> u8 {
    if b == 0x22 {
        0x22u8
    } else if b == 0x5c {
        0x5cu8
    } else if b == 0x6e {
        0x0au8
    } else if b == 0x72 {
        0x0du8
    } else {
        0x09u8
    }
}

/// Unescape the quoted field body.  Rejects a raw quote, a raw control
/// byte, and any malformed escape.
pub open spec fn unesc_bytes(s: Seq<u8>) -> Option<Seq<u8>>
    decreases s.len(),
{
    if s.len() == 0 {
        Some(Seq::empty())
    } else if s[0] == 0x5c {
        if s.len() >= 2 && (s[1] == 0x22 || s[1] == 0x5c || s[1] == 0x6e || s[1] == 0x72 || s[1]
            == 0x74) {
            match unesc_bytes(s.skip(2)) {
                Some(r) => Some(seq![unesc_short(s[1])] + r),
                None => None,
            }
        } else if s.len() >= 6 && s[1] == 0x75 && s[2] == 0x30 && s[3] == 0x30 && is_hex_digit(
            s[4],
        ) && is_hex_digit(s[5]) {
            match unesc_bytes(s.skip(6)) {
                Some(r) => Some(seq![(hex_value(s[4]) * 16 + hex_value(s[5])) as u8] + r),
                None => None,
            }
        } else {
            None
        }
    } else if s[0] == 0x22 || s[0] < 0x20 {
        None
    } else {
        match unesc_bytes(s.skip(1)) {
            Some(r) => Some(seq![s[0]] + r),
            None => None,
        }
    }
}

/// Decode an encoded command line back to its payload.
pub open spec fn decode_line(line: Seq<u8>) -> Option<Seq<u8>> {
    if line.len() >= 13 && line.subrange(0, 10) == record_prefix() && line.subrange(
        line.len() - 3,
        line.len() as int,
    ) == record_suffix() {
        unesc_bytes(line.subrange(10, line.len() - 3))
    } else {
        None
    }
}

/// The body decoded so far, joined with whatever the rest decodes to.
pub open spec fn unesc_with_prefix(prefix: Seq<u8>, s: Seq<u8>) -> Option<Seq<u8>> {
    match unesc_bytes(s) {
        Some(r) => Some(prefix + r),
        None => None,
    }
}

proof fn lemma_prefix_empty(s: Seq<u8>)
    ensures
        unesc_with_prefix(Seq::empty(), s) == unesc_bytes(s),
{
    match unesc_bytes(s) {
        Some(r) => {
            assert(Seq::<u8>::empty() + r =~= r);
        },
        None => {},
    }
}

proof fn lemma_prefix_shift(p: Seq<u8>, x: u8, s2: Seq<u8>)
    ensures
        unesc_with_prefix(p.push(x), s2) == (match unesc_bytes(s2) {
            Some(r) => Some(p + (seq![x] + r)),
            None => None::<Seq<u8>>,
        }),
{
    match unesc_bytes(s2) {
        Some(r) => {
            assert(p.push(x) + r =~= p + (seq![x] + r));
        },
        None => {},
    }
}

proof fn lemma_hex_digit_value(n: u8)
    requires
        n < 16,
    ensures
        is_hex_digit(hex_digit(n)),
        hex_value(hex_digit(n)) == n,
{
}

/// Escaping distributes over concatenation of payloads.
proof fn lemma_esc_bytes_concat(a: Seq<u8>, b: Seq<u8>)
    ensures
        esc_bytes(a + b) == esc_bytes(a) + esc_bytes(b),
    decreases a.len(),
{
    if a.len() == 0 {
        assert(a + b =~= b);
        assert(esc_bytes(a) + esc_bytes(b) =~= esc_bytes(b));
    } else {
        assert((a + b).skip(1) =~= a.skip(1) + b);
        lemma_esc_bytes_concat(a.skip(1), b);
        assert((a + b)[0] == a[0]);
        assert(esc_byte(a[0]) + (esc_bytes(a.skip(1)) + esc_bytes(b)) =~= (esc_byte(a[0])
            + esc_bytes(a.skip(1))) + esc_bytes(b));
    }
}

/// The escaped form of one payload byte, as a whole-payload escape.
proof fn lemma_esc_bytes_single(b: u8)
    ensures
        esc_bytes(seq![b]) == esc_byte(b),
{
    assert(seq![b].skip(1) =~= Seq::<u8>::empty());
    assert(esc_bytes(Seq::<u8>::empty()) =~= Seq::<u8>::empty());
    assert(esc_byte(b) + Seq::<u8>::empty() =~= esc_byte(b));
}

/// Every byte of an escaped payload is printable; in particular no raw
/// newline ever stands inside the encoded field.
proof fn lemma_esc_bytes_printable(s: Seq<u8>)
    ensures
        forall|i: int| 0 <= i < esc_bytes(s).len() ==> 0x20 <= #[trigger] esc_bytes(s)[i],
    decreases s.len(),
{
    if s.len() > 0 {
        lemma_esc_bytes_printable(s.skip(1));
        let e = esc_byte(s[0]);
        assert(forall|i: int| 0 <= i < e.len() ==> 0x20 <= #[trigger] e[i]) by {
            let b = s[0];
            if b == 0x22 || b == 0x5c || b == 0x0a || b == 0x0d || b == 0x09 {
            } else if b < 0x20 {
                lemma_hex_digit_value(b / 16);
                lemma_hex_digit_value(b % 16);
            }
        }
        assert(forall|i: int| 0 <= i < esc_bytes(s).len() ==> 0x20 <= #[trigger] esc_bytes(s)[i])
            by {
            assert(esc_bytes(s) == e + esc_bytes(s.skip(1)));
        }
    }
}

/// Unescaping inverts escaping on the field body.
pub proof fn lemma_unesc_esc(s: Seq<u8>)
    ensures
        unesc_bytes(esc_bytes(s)) == Some(s),
    decreases s.len(),
{
    if s.len() == 0 {
        assert(esc_bytes(s) =~= Seq::<u8>::empty());
        assert(Seq::<u8>::empty() =~= s);
    } else {
        let b = s[0];
        let e = esc_byte(b);
        let rest = esc_bytes(s.skip(1));
        let w = esc_bytes(s);
        lemma_unesc_esc(s.skip(1));
        assert(w == e + rest);
        if b == 0x22 || b == 0x5c || b == 0x0a || b == 0x0d || b == 0x09 {
            assert(w[0] == 0x5c);
            assert(w[1] == e[1]);
            assert(w.skip(2) =~= rest);
            assert(unesc_short(e[1]) == b);
            assert(seq![b] + s.skip(1) =~= s);
        } else if b < 0x20 {
            assert(w[0] == 0x5c);
            assert(w[1] == 0x75);
            assert(w[2] == 0x30);
            assert(w[3] == 0x30);
            assert(w[4] == hex_digit(b / 16));
            assert(w[5] == hex_digit(b % 16));
            lemma_hex_digit_value(b / 16);
            lemma_hex_digit_value(b % 16);
            assert((b / 16) * 16 + (b % 16) == b) by (nonlinear_arith);
            assert(w.skip(6) =~= rest);
            assert(seq![b] + s.skip(1) =~= s);
        } else {
            assert(w[0] == b);
            assert(w.skip(1) =~= rest);
            assert(seq![b] + s.skip(1) =~= s);
        }
    }
}

/// The round trip: decoding an encoded command line yields the payload
/// exactly, for every payload, including ones holding quotes, backslashes
/// and embedded newlines.
pub proof fn lemma_encode_decode(payload: Seq<u8>)
    ensures
        decode_line(encoded_line(payload)) == Some(payload),
{
    let line = encoded_line(payload);
    let m = esc_bytes(payload);
    assert(line.len() == 13 + m.len());
    assert(line.subrange(0, 10) =~= record_prefix());
    assert(line.subrange(line.len() - 3, line.len() as int) =~= record_suffix());
    assert(line.subrange(10, line.len() - 3) =~= m);
    lemma_unesc_esc(payload);
}

fn hex_digit_exec(n: u8) -> (r: u8)
    requires
        n < 16,
    ensures
        r == hex_digit(n),
{
    if n < 10 {
        0x30 + n
    } else {
        0x57 + n
    }
}

/// Encode one command payload as a single structured line.  The result is
/// the whole line, newline-terminated; a writer can hand it to the stream
/// in one piece.  No byte but the final one is a newline, so the line can
/// never be read back as more than one line.
pub fn encode_command_line(payload: &[u8]) -> (out: Vec<u8>)
    ensures
        out@ == encoded_line(payload@),
        out@.len() >= 1,
        out@[out@.len() - 1] == 0x0a,
        forall|i: int| 0 <= i < out@.len() - 1 ==> out@[i] != 0x0a,
{
    let mut out: Vec<u8> = Vec::new();
    out.push(0x7b);
    out.push(0x22);
    out.push(0x71);
    out.push(0x75);
    out.push(0x65);
    out.push(0x72);
    out.push(0x79);
    out.push(0x22);
    out.push(0x3a);
    out.push(0x22);
    proof {
        assert(esc_bytes(payload@.subrange(0, 0)) =~= Seq::<u8>::empty());
        assert(out@ =~= record_prefix() + esc_bytes(payload@.subrange(0, 0)));
    }
    let n = payload.len();
    let mut i: usize = 0;
    while i < n
        invariant
            n == payload@.len(),
            i <= n,
            out@ == record_prefix() + esc_bytes(payload@.subrange(0, i as int)),
        decreases n - i,
    {
        let b = payload[i];
        if b == 0x22 {
            out.push(0x5c);
            out.push(0x22);
        } else if b == 0x5c {
            out.push(0x5c);
            out.push(0x5c);
        } else if b == 0x0a {
            out.push(0x5c);
            out.push(0x6e);
        } else if b == 0x0d {
            out.push(0x5c);
            out.push(0x72);
        } else if b == 0x09 {
            out.push(0x5c);
            out.push(0x74);
        } else if b < 0x20 {
            out.push(0x5c);
            out.push(0x75);
            out.push(0x30);
            out.push(0x30);
            out.push(hex_digit_exec(b / 16));
            out.push(hex_digit_exec(b % 16));
        } else {
            out.push(b);
        }
        proof {
            let pre = payload@.subrange(0, i as int);
            assert(payload@.subrange(0, i as int + 1) =~= pre + seq![payload@[i as int]]);
            lemma_esc_bytes_concat(pre, seq![payload@[i as int]]);
            lemma_esc_bytes_single(payload@[i as int]);
            assert(out@ =~= record_prefix() + esc_bytes(payload@.subrange(0, i as int + 1)));
        }
        i = i + 1;
    }
    proof {
        assert(payload@.subrange(0, n as int) =~= payload@);
    }
    out.push(0x22);
    out.push(0x7d);
    out.push(0x0a);
    proof {
        assert(out@ =~= encoded_line(payload@));
        lemma_esc_bytes_printable(payload@);
        let m = esc_bytes(payload@);
        assert forall|j: int| 0 <= j < out@.len() - 1 implies out@[j] != 0x0a by {
            if j < 10 {
                assert(out@[j] == record_prefix()[j]);
            } else if j < 10 + m.len() {
                assert(out@[j] == m[j - 10]);
            } else {
                assert(out@[j] == record_suffix()[j - (10 + m.len())]);
            }
        }
    }
    out
}

fn unesc_short_exec(b: u8) -> (r: u8)
    ensures
        r == unesc_short(b),
{
    if b == 0x22 {
        0x22
    } else if b == 0x5c {
        0x5c
    } else if b == 0x6e {
        0x0a
    } else if b == 0x72 {
        0x0d
    } else {
        0x09
    }
}

fn is_hex_digit_exec(b: u8) -> (r: bool)
    ensures
        r == is_hex_digit(b),
{
    (0x30 <= b && b <= 0x39) || (0x61 <= b && b <= 0x66) || (0x41 <= b && b <= 0x46)
}

fn hex_value_exec(b: u8) -> (r: u8)
    requires
        is_hex_digit(b),
    ensures
        r == hex_value(b),
        r < 16,
{
    if 0x30 <= b && b <= 0x39 {
        b - 0x30
    } else if 0x61 <= b && b <= 0x66 {
        b - 0x57
    } else {
        b - 0x37
    }
}

/// Decode one encoded command line back to its payload.  Returns `None`
/// exactly when the line is not a well-formed encoded command record.
pub fn decode_command_line(line: &[u8]) -> (r: Option<Vec<u8>>)
    ensures
        match r {
            Some(v) => decode_line(line@) == Some(v@),
            None => decode_line(line@) is None,
        },
{
    let n = line.len();
    if n < 13 {
        return None;
    }
    if !(line[0] == 0x7b && line[1] == 0x22 && line[2] == 0x71 && line[3] == 0x75 && line[4]
        == 0x65 && line[5] == 0x72 && line[6] == 0x79 && line[7] == 0x22 && line[8] == 0x3a
        && line[9] == 0x22) {
        proof {
            if line@.subrange(0, 10) == record_prefix() {
                assert(line@[0] == line@.subrange(0, 10)[0]);
                assert(line@[1] == line@.subrange(0, 10)[1]);
                assert(line@[2] == line@.subrange(0, 10)[2]);
                assert(line@[3] == line@.subrange(0, 10)[3]);
                assert(line@[4] == line@.subrange(0, 10)[4]);
                assert(line@[5] == line@.subrange(0, 10)[5]);
                assert(line@[6] == line@.subrange(0, 10)[6]);
                assert(line@[7] == line@.subrange(0, 10)[7]);
                assert(line@[8] == line@.subrange(0, 10)[8]);
                assert(line@[9] == line@.subrange(0, 10)[9]);
            }
        }
        return None;
    }
    if !(line[n - 3] == 0x22 && line[n - 2] == 0x7d && line[n - 1] == 0x0a) {
        proof {
            if line@.subrange(n as int - 3, n as int) == record_suffix() {
                assert(line@[n as int - 3] == line@.subrange(n as int - 3, n as int)[0]);
                assert(line@[n as int - 2] == line@.subrange(n as int - 3, n as int)[1]);
                assert(line@[n as int - 1] == line@.subrange(n as int - 3, n as int)[2]);
            }
        }
        return None;
    }
    proof {
        assert(line@.subrange(0, 10) =~= record_prefix());
        assert(line@.subrange(n as int - 3, n as int) =~= record_suffix());
    }
    let ghost mid = line@.subrange(10, n as int - 3);
    let end = n - 3;
    let mut i: usize = 10;
    let mut out: Vec<u8> = Vec::new();
    proof {
        assert(mid.skip(0) =~= mid);
        lemma_prefix_empty(mid);
    }
    while i < end
        invariant
            10 <= i <= end,
            end == n - 3,
            n == line@.len(),
            n >= 13,
            mid == line@.subrange(10, n as int - 3),
            decode_line(line@) == unesc_bytes(mid),
            unesc_bytes(mid) == unesc_with_prefix(out@, mid.skip(i - 10)),
        decreases end - i,
    {
        let ghost rem = mid.skip(i - 10);
        proof {
            assert(rem[0] == line@[i as int]);
            assert(rem.len() == end - i);
        }
        let b = line[i];
        if b == 0x5c {
            if end - i < 2 {
                proof {
                    assert(unesc_bytes(rem) is None);
                }
                return None;
            }
            let c = line[i + 1];
            proof {
                assert(rem[1] == line@[i as int + 1]);
            }
            if c == 0x22 || c == 0x5c || c == 0x6e || c == 0x72 || c == 0x74 {
                let ghost out0 = out@;
                proof {
                    assert(rem.skip(2) =~= mid.skip(i + 2 - 10));
                }
                out.push(unesc_short_exec(c));
                proof {
                    lemma_prefix_shift(out0, unesc_short(c), mid.skip(i + 2 - 10));
                    assert(unesc_bytes(rem) == (match unesc_bytes(rem.skip(2)) {
                        Some(r) => Some(seq![unesc_short(rem[1])] + r),
                        None => None::<Seq<u8>>,
                    }));
                }
                i = i + 2;
            } else if c == 0x75 && end - i >= 6 && line[i + 2] == 0x30 && line[i + 3] == 0x30
                && is_hex_digit_exec(line[i + 4]) && is_hex_digit_exec(line[i + 5]) {
                proof {
                    assert(rem[2] == line@[i as int + 2]);
                    assert(rem[3] == line@[i as int + 3]);
                    assert(rem[4] == line@[i as int + 4]);
                    assert(rem[5] == line@[i as int + 5]);
                    assert(rem.skip(6) =~= mid.skip(i + 6 - 10));
                }
                let hi = hex_value_exec(line[i + 4]);
                let lo = hex_value_exec(line[i + 5]);
                let ghost out0 = out@;
                out.push(hi * 16 + lo);
                proof {
                    lemma_prefix_shift(out0, (hex_value(rem[4]) * 16 + hex_value(rem[5])) as u8,
                        mid.skip(i + 6 - 10));
                    assert(unesc_bytes(rem) == (match unesc_bytes(rem.skip(6)) {
                        Some(r) => Some(seq![(hex_value(rem[4]) * 16 + hex_value(rem[5])) as u8]
                            + r),
                        None => None::<Seq<u8>>,
                    }));
                }
                i = i + 6;
            } else {
                proof {
                    if end - i >= 6 {
                        assert(rem[2] == line@[i as int + 2]);
                        assert(rem[3] == line@[i as int + 3]);
                        assert(rem[4] == line@[i as int + 4]);
                        assert(rem[5] == line@[i as int + 5]);
                    }
                    assert(unesc_bytes(rem) is None);
                }
                return None;
            }
        } else if b == 0x22 || b < 0x20 {
            proof {
                assert(unesc_bytes(rem) is None);
            }
            return None;
        } else {
            let ghost out0 = out@;
            proof {
                assert(rem.skip(1) =~= mid.skip(i + 1 - 10));
            }
            out.push(b);
            proof {
                lemma_prefix_shift(out0, rem[0], mid.skip(i + 1 - 10));
                assert(unesc_bytes(rem) == (match unesc_bytes(rem.skip(1)) {
                    Some(r) => Some(seq![rem[0]] + r),
                    None => None::<Seq<u8>>,
                }));
            }
            i = i + 1;
        }
    }
    proof {
        assert(mid.skip(i - 10) =~= Seq::<u8>::empty());
        assert(unesc_bytes(mid) == Some(out@ + Seq::<u8>::empty()));
        assert(out@ + Seq::<u8>::empty() =~= out@);
    }
    Some(out)
}

} // verus!
