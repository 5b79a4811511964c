//! The startup handshake: the worker's first output line must carry the
//! literal token `READY` (trailing whitespace ignored) before any command
//! may be sent or any background reading may begin.

use vstd::prelude::*;

verus! {

/// Bytes treated as trailing whitespace when the first line is compared
/// against the readiness token: space, tab, line feed, carriage return.
pub open spec fn is_ws_byte(b: u8) -> bool {
    b == 0x20 || b == 0x09 || b == 0x0a || b == 0x0d
}

/// The line with its trailing whitespace removed.
pub open spec fn trim_trailing_ws(s: Seq<u8>) -> Seq<u8>
    decreases s.len(),
{
    if s.len() > 0 && is_ws_byte(s[s.len() - 1]) {
        trim_trailing_ws(s.drop_last())
    } else {
        s
    }
}

/// The token the worker must emit on its first output line: `READY`.
pub open spec fn ready_token() -> Seq<u8> {
    seq![0x52u8, 0x45u8, 0x41u8, 0x44u8, 0x59u8]
}

/// Whether a first line confirms the handshake.
pub open spec fn signals_ready(s: Seq<u8>) -> bool {
    trim_trailing_ws(s) == ready_token()
}

fn is_ws_byte_exec(b: u8) -> (r: bool)
    ensures
        r == is_ws_byte(b),
{
    b == 0x20 || b == 0x09 || b == 0x0a || b == 0x0d
}

/// The handshake test: succeeds exactly when the line, after trimming
/// trailing whitespace, equals the token `READY`.
pub fn line_signals_ready(line: &str) -> (r: bool)
    ensures
        r == signals_ready(vstd::utf8::encode_utf8(line@)),
{
    let b: &[u8] = line.as_bytes();
    let mut end: usize = b.len();
    proof {
        assert(b@.subrange(0, end as int) =~= b@);
    }
    while end > 0 && is_ws_byte_exec(b[end - 1])
        invariant
            end <= b@.len(),
            trim_trailing_ws(b@) == trim_trailing_ws(b@.subrange(0, end as int)),
        decreases end,
    {
        proof {
            assert(b@.subrange(0, end as int).drop_last() =~= b@.subrange(0, end as int - 1));
            assert(b@.subrange(0, end as int)[end as int - 1] == b@[end as int - 1]);
        }
        end = end - 1;
    }
    proof {
        assert(trim_trailing_ws(b@.subrange(0, end as int)) == b@.subrange(0, end as int));
    }
    if end == 5 {
        let r = b[0] == 0x52 && b[1] == 0x45 && b[2] == 0x41 && b[3] == 0x44 && b[4] == 0x59;
        proof {
            if r {
                assert(b@.subrange(0, 5) =~= ready_token());
            } else {
                assert(!(b@.subrange(0, 5) == ready_token())) by {
                    if b@.subrange(0, 5) == ready_token() {
                        assert(b@.subrange(0, 5)[0] == b@[0]);
                        assert(b@.subrange(0, 5)[1] == b@[1]);
                        assert(b@.subrange(0, 5)[2] == b@[2]);
                        assert(b@.subrange(0, 5)[3] == b@[3]);
                        assert(b@.subrange(0, 5)[4] == b@[4]);
                    }
                }
            }
        }
        r
    } else {
        proof {
            assert(b@.subrange(0, end as int).len() != ready_token().len());
        }
        false
    }
}

} // verus!
