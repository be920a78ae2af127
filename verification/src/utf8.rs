//! UTF-8 well-formedness, as the Unicode standard defines it (the byte ranges
//! of its table of well-formed byte sequences).
use vstd::prelude::*;

verus! {

/// Whether `b` is a continuation byte.
pub open spec fn is_cont(b: u8) -> bool {
    0x80 <= b <= 0xBF
}

/// The range of the second byte of a sequence led by `b0`.
pub open spec fn second_ok(b0: u8, b1: u8) -> bool {
    if b0 == 0xE0 {
        0xA0 <= b1 <= 0xBF
    } else if b0 == 0xED {
        0x80 <= b1 <= 0x9F
    } else if b0 == 0xF0 {
        0x90 <= b1 <= 0xBF
    } else if b0 == 0xF4 {
        0x80 <= b1 <= 0x8F
    } else {
        is_cont(b1)
    }
}

/// How many bytes the sequence led by `b0` takes, or 0 if `b0` leads none.
pub open spec fn seq_len(b0: u8) -> int {
    if b0 < 0x80 {
        1
    } else if 0xC2 <= b0 <= 0xDF {
        2
    } else if 0xE0 <= b0 <= 0xEF {
        3
    } else if 0xF0 <= b0 <= 0xF4 {
        4
    } else {
        0
    }
}

/// Whether a well-formed sequence starts at `i`.
pub open spec fn seq_ok_at(s: Seq<u8>, i: int) -> bool {
    let n = seq_len(s[i]);
    &&& n > 0
    &&& i + n <= s.len()
    &&& n >= 2 ==> second_ok(s[i], s[i + 1])
    &&& n >= 3 ==> is_cont(s[i + 2])
    &&& n >= 4 ==> is_cont(s[i + 3])
}

/// Whether `s[i..]` is well-formed UTF-8.
pub open spec fn utf8_from(s: Seq<u8>, i: int) -> bool
    decreases s.len() - i,
{
    if i < 0 || i >= s.len() {
        true
    } else if seq_ok_at(s, i) {
        utf8_from(s, i + seq_len(s[i]))
    } else {
        false
    }
}

/// Whether `s` is well-formed UTF-8.
pub open spec fn is_utf8_spec(s: Seq<u8>) -> bool {
    utf8_from(s, 0)
}

/// Whether `bytes` is well-formed UTF-8.
pub fn is_utf8(bytes: &[u8]) -> (r: bool)
    ensures
        r == is_utf8_spec(bytes@),
{
    let n = bytes.len();
    let mut i: usize = 0;
    while i < n
        invariant
            n == bytes@.len(),
            i <= n,
            is_utf8_spec(bytes@) == utf8_from(bytes@, i as int),
        decreases n - i,
    {
        let b0 = bytes[i];
        let len: usize = if b0 < 0x80 {
            1
        } else if 0xC2 <= b0 && b0 <= 0xDF {
            2
        } else if 0xE0 <= b0 && b0 <= 0xEF {
            3
        } else if 0xF0 <= b0 && b0 <= 0xF4 {
            4
        } else {
            0
        };
        assert(len == seq_len(b0));
        if len == 0 || len > n - i {
            return false;
        }
        if len >= 2 {
            let b1 = bytes[i + 1];
            let ok1 = if b0 == 0xE0 {
                0xA0 <= b1 && b1 <= 0xBF
            } else if b0 == 0xED {
                0x80 <= b1 && b1 <= 0x9F
            } else if b0 == 0xF0 {
                0x90 <= b1 && b1 <= 0xBF
            } else if b0 == 0xF4 {
                0x80 <= b1 && b1 <= 0x8F
            } else {
                0x80 <= b1 && b1 <= 0xBF
            };
            if !ok1 {
                return false;
            }
        }
        if len >= 3 && !(0x80 <= bytes[i + 2] && bytes[i + 2] <= 0xBF) {
            return false;
        }
        if len >= 4 && !(0x80 <= bytes[i + 3] && bytes[i + 3] <= 0xBF) {
            return false;
        }
        assert(seq_ok_at(bytes@, i as int));
        i = i + len;
    }
    true
}

} // verus!
