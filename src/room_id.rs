use vstd::prelude::*;

use crate::room::RoomId;

verus! {

pub open spec fn is_hex_digit(b: u8) -> bool {
    (0x30 <= b && b <= 0x39) || (0x61 <= b && b <= 0x66) || (0x41 <= b && b <= 0x46)
}

pub open spec fn hex_digit_value(b: u8) -> nat {
    if 0x30 <= b && b <= 0x39 {
        (b - 0x30) as nat
    } else if 0x61 <= b && b <= 0x66 {
        (b - 0x61 + 10) as nat
    } else {
        (b - 0x41 + 10) as nat
    }
}

/// The bytes of `s` other than `-`, in order.
pub open spec fn digits_of(s: Seq<u8>) -> Seq<u8>
    decreases s.len(),
{
    if s.len() == 0 {
        s
    } else if s.last() == 0x2d {
        digits_of(s.drop_last())
    } else {
        digits_of(s.drop_last()).push(s.last())
    }
}

/// Value of a string of hex digits, most significant first.
pub open spec fn hex_value(d: Seq<u8>) -> nat
    decreases d.len(),
{
    if d.len() == 0 {
        0
    } else {
        hex_value(d.drop_last()) * 16 + hex_digit_value(d.last())
    }
}

/// Text that names a room: at least one hex digit, hyphens anywhere, and a
/// value that fits in a room id.
pub open spec fn names_room(s: Seq<u8>) -> bool {
    let d = digits_of(s);
    &&& d.len() > 0
    &&& forall|i: int| 0 <= i < d.len() ==> is_hex_digit(#[trigger] d[i])
    &&& hex_value(d) <= u128::MAX
}

fn digit_value(b: u8) -> (r: Option<u8>)
    ensures
        r == (if is_hex_digit(b) { Some(hex_digit_value(b) as u8) } else { None }),
{
    if 0x30 <= b && b <= 0x39 {
        Some(b - 0x30)
    } else if 0x61 <= b && b <= 0x66 {
        Some(b - 0x61 + 10)
    } else if 0x41 <= b && b <= 0x46 {
        Some(b - 0x41 + 10)
    } else {
        None
    }
}

/// Reads a room id written as hex digits (either case), ignoring hyphens,
/// as in `3f2a9c1e-...`.
pub fn parse_room_id(text: &[u8]) -> (r: Option<RoomId>)
    ensures
        r == (if names_room(text@) { Some(hex_value(digits_of(text@)) as RoomId) } else { None }),
{
    let n = text.len();
    let mut acc: u128 = 0;
    let mut count: usize = 0;
    let mut too_big = false;
    let mut i: usize = 0;
    while i < n
        invariant
            n == text@.len(),
            i <= n,
            count <= i,
            count == digits_of(text@.subrange(0, i as int)).len(),
            forall|k: int|
                0 <= k < count ==> is_hex_digit(#[trigger] digits_of(text@.subrange(0, i as int))[k]),
            too_big ==> hex_value(digits_of(text@.subrange(0, i as int))) > u128::MAX,
            !too_big ==> acc == hex_value(digits_of(text@.subrange(0, i as int))),
        decreases n - i,
    {
        let b = text[i];
        let ghost before = text@.subrange(0, i as int);
        proof {
            assert(text@.subrange(0, i + 1).drop_last() =~= before);
            assert(text@.subrange(0, i + 1).last() == b);
        }
        if b != 0x2d {
            match digit_value(b) {
                None => {
                    proof {
                        let d = digits_of(text@.subrange(0, i + 1));
                        assert(d[count as int] == b);
                        lemma_invalid_digit_stays(text@, i as int + 1, count as int);
                    }
                    return None;
                },
                Some(v) => {
                    proof {
                        let d = digits_of(before);
                        assert(digits_of(text@.subrange(0, i + 1)) == d.push(b));
                        assert(d.push(b).drop_last() =~= d);
                    }
                    if !too_big {
                        if acc > (u128::MAX - v as u128) / 16 {
                            too_big = true;
                        } else {
                            acc = acc * 16 + v as u128;
                        }
                    }
                    count = count + 1;
                },
            }
        }
        i = i + 1;
    }
    proof {
        assert(text@.subrange(0, n as int) =~= text@);
    }
    if count == 0 || too_big {
        None
    } else {
        Some(acc)
    }
}

proof fn lemma_invalid_digit_stays(s: Seq<u8>, i: int, k: int)
    requires
        0 <= i <= s.len(),
        0 <= k < digits_of(s.subrange(0, i)).len(),
        !is_hex_digit(digits_of(s.subrange(0, i))[k]),
    ensures
        !names_room(s),
    decreases s.len() - i,
{
    if i == s.len() {
        assert(s.subrange(0, i) =~= s);
    } else {
        let next = s.subrange(0, i + 1);
        assert(next.drop_last() =~= s.subrange(0, i));
        assert(digits_of(next)[k] == digits_of(s.subrange(0, i))[k]);
        lemma_invalid_digit_stays(s, i + 1, k);
    }
}

} // verus!
