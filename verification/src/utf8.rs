//! UTF-8 validity: a specification of well-formed UTF-8 byte sequences and a
//! checker proved against it.
use vstd::prelude::*;

verus! {

/// A continuation byte: the second, third or fourth byte of an encoded
/// character.
pub open spec fn is_cont(b: u8) -> bool {
    0x80 <= b && b <= 0xBF
}

/// Well-formed UTF-8, as the encoding defines it: each character is one to
/// four bytes, the leading byte fixes the length and the admissible range of
/// the first continuation byte (which excludes overlong forms, surrogates,
/// and code points above 0x10FFFF).
pub open spec fn is_utf8(s: Seq<u8>) -> bool
    decreases s.len(),
{
    if s.len() == 0 {
        true
    } else {
        let b0 = s[0];
        if b0 < 0x80 {
            is_utf8(s.skip(1))
        } else if 0xC2 <= b0 && b0 <= 0xDF {
            s.len() >= 2 && is_cont(s[1]) && is_utf8(s.skip(2))
        } else if b0 == 0xE0 {
            s.len() >= 3 && 0xA0 <= s[1] && s[1] <= 0xBF && is_cont(s[2]) && is_utf8(s.skip(3))
        } else if b0 == 0xED {
            s.len() >= 3 && 0x80 <= s[1] && s[1] <= 0x9F && is_cont(s[2]) && is_utf8(s.skip(3))
        } else if 0xE1 <= b0 && b0 <= 0xEF {
            s.len() >= 3 && is_cont(s[1]) && is_cont(s[2]) && is_utf8(s.skip(3))
        } else if b0 == 0xF0 {
            s.len() >= 4 && 0x90 <= s[1] && s[1] <= 0xBF && is_cont(s[2]) && is_cont(s[3])
                && is_utf8(s.skip(4))
        } else if 0xF1 <= b0 && b0 <= 0xF3 {
            s.len() >= 4 && is_cont(s[1]) && is_cont(s[2]) && is_cont(s[3]) && is_utf8(s.skip(4))
        } else if b0 == 0xF4 {
            s.len() >= 4 && 0x80 <= s[1] && s[1] <= 0x8F && is_cont(s[2]) && is_cont(s[3])
                && is_utf8(s.skip(4))
        } else {
            false
        }
    }
}

/// Decides whether `bytes` is well-formed UTF-8.
pub fn check_utf8(bytes: &Vec<u8>) -> (r: bool)
    ensures
        r == is_utf8(bytes@),
{
    let n = bytes.len();
    let mut i: usize = 0;
    proof {
        assert(bytes@.skip(0) =~= bytes@);
    }
    while i < n
        invariant
            n == bytes@.len(),
            i <= n,
            is_utf8(bytes@) == is_utf8(bytes@.skip(i as int)),
        decreases n - i,
    {
        let ghost rem = bytes@.skip(i as int);
        let b0 = bytes[i];
        proof {
            assert(rem.len() == n - i);
            assert(rem[0] == b0);
        }
        if b0 < 0x80 {
            proof {
                assert(rem.skip(1) =~= bytes@.skip(i + 1));
            }
            i = i + 1;
        } else if b0 < 0xC2 {
            return false;
        } else if b0 <= 0xDF {
            if n - i < 2 {
                return false;
            }
            let b1 = bytes[i + 1];
            proof {
                assert(rem[1] == b1);
            }
            if b1 < 0x80 || 0xBF < b1 {
                return false;
            }
            proof {
                assert(rem.skip(2) =~= bytes@.skip(i + 2));
            }
            i = i + 2;
        } else if b0 <= 0xEF {
            if n - i < 3 {
                return false;
            }
            let b1 = bytes[i + 1];
            let b2 = bytes[i + 2];
            proof {
                assert(rem[1] == b1);
                assert(rem[2] == b2);
            }
            let lo: u8 = if b0 == 0xE0 { 0xA0 } else { 0x80 };
            let hi: u8 = if b0 == 0xED { 0x9F } else { 0xBF };
            if b1 < lo || hi < b1 {
                return false;
            }
            if b2 < 0x80 || 0xBF < b2 {
                return false;
            }
            proof {
                assert(rem.skip(3) =~= bytes@.skip(i + 3));
            }
            i = i + 3;
        } else if b0 <= 0xF4 {
            if n - i < 4 {
                return false;
            }
            let b1 = bytes[i + 1];
            let b2 = bytes[i + 2];
            let b3 = bytes[i + 3];
            proof {
                assert(rem[1] == b1);
                assert(rem[2] == b2);
                assert(rem[3] == b3);
            }
            let lo: u8 = if b0 == 0xF0 { 0x90 } else { 0x80 };
            let hi: u8 = if b0 == 0xF4 { 0x8F } else { 0xBF };
            if b1 < lo || hi < b1 {
                return false;
            }
            if b2 < 0x80 || 0xBF < b2 {
                return false;
            }
            if b3 < 0x80 || 0xBF < b3 {
                return false;
            }
            proof {
                assert(rem.skip(4) =~= bytes@.skip(i + 4));
            }
            i = i + 4;
        } else {
            return false;
        }
    }
    proof {
        assert(bytes@.skip(n as int) =~= Seq::<u8>::empty());
    }
    true
}

} // verus!
