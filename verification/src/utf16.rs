//! Decoding the NUL-terminated UTF-16 buffers that wide-character
//! system calls fill: units up to the first zero become text, surrogate
//! pairs are combined, and a lone surrogate becomes the replacement
//! character.

use vstd::prelude::*;

verus! {

use vstd::utf8::{encode_utf8, encode_utf8_decode_utf8, encode_utf8_valid_utf8, is_scalar};

/// The text a NUL-terminated UTF-16 buffer holds.
pub open spec fn utf16_chars(us: Seq<u16>) -> Seq<char>
    decreases us.len(),
{
    if us.len() == 0 {
        Seq::empty()
    } else {
        let u = us[0];
        if u == 0 {
            Seq::empty()
        } else if u < 0xD800 || u >= 0xE000 {
            seq![(u as u32) as char] + utf16_chars(us.drop_first())
        } else if u < 0xDC00 {
            if us.len() >= 2 && 0xDC00 <= us[1] < 0xE000 {
                seq![
                    ((0x10000 + (u as int - 0xD800) * 0x400 + (us[1] as int - 0xDC00))
                        as u32) as char,
                ] + utf16_chars(us.skip(2))
            } else {
                seq![(0xFFFDu32) as char] + utf16_chars(us.drop_first())
            }
        } else {
            seq![(0xFFFDu32) as char] + utf16_chars(us.drop_first())
        }
    }
}

fn utf16_to_utf8(us: &[u16], i: usize) -> (r: Vec<u8>)
    requires
        i <= us@.len(),
    ensures
        r@ == encode_utf8(utf16_chars(us@.skip(i as int))),
    decreases us@.len() - i,
{
    let ghost rem = us@.skip(i as int);
    if i >= us.len() {
        let r: Vec<u8> = Vec::new();
        proof {
            assert(rem =~= Seq::<u16>::empty());
        }
        return r;
    }
    proof {
        assert(rem[0] == us@[i as int]);
    }
    let u = us[i];
    if u == 0 {
        let r: Vec<u8> = Vec::new();
        proof {
            assert(r@ =~= encode_utf8(utf16_chars(rem)));
        }
        return r;
    }
    let pair = u >= 0xD800 && u < 0xDC00 && i + 1 < us.len() && 0xDC00 <= us[i + 1] && us[i
        + 1] < 0xE000;
    let (v, step): (u32, usize) = if u < 0xD800 || u >= 0xE000 {
        (u as u32, 1)
    } else if pair {
        (0x10000 + (u as u32 - 0xD800) * 0x400 + (us[i + 1] as u32 - 0xDC00), 2)
    } else {
        (0xFFFD, 1)
    };
    proof {
        if pair {
            assert(rem.len() >= 2 && rem[1] == us@[i + 1]);
        }
        assert(is_scalar(v));
    }
    let mut out = crate::parse::scalar_bytes(v);
    let mut rest = utf16_to_utf8(us, i + step);
    out.append(&mut rest);
    proof {
        let c = (v as char);
        let tail = us@.skip(i + step as int);
        if step == 1 {
            assert(rem.drop_first() =~= tail);
        } else {
            assert(rem.skip(2) =~= tail);
        }
        assert(utf16_chars(rem) == seq![c] + utf16_chars(tail));
        assert((seq![c] + utf16_chars(tail))[0] == c);
        assert((seq![c] + utf16_chars(tail)).drop_first() =~= utf16_chars(tail));
        assert(c as u32 == v);
        assert(encode_utf8(utf16_chars(rem)) == vstd::utf8::encode_scalar(v) + encode_utf8(
            utf16_chars(tail),
        ));
    }
    out
}

/// The text of a NUL-terminated UTF-16 buffer, with the replacement
/// character standing in for any lone surrogate.
pub fn from_utf16_buf(units: &[u16]) -> (r: String)
    ensures
        r@ == utf16_chars(units@),
{
    let bytes = utf16_to_utf8(units, 0);
    proof {
        broadcast use encode_utf8_valid_utf8, encode_utf8_decode_utf8;

        assert(units@.skip(0) =~= units@);
    }
    crate::text::string_from_utf8(bytes).unwrap()
}

} // verus!
