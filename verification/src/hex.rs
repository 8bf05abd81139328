//! Hexadecimal decoding of string-encoded byte sequences.

use vstd::prelude::*;

verus! {

/// Value of a hexadecimal digit character (both cases accepted), or `-1`
/// when the character is no such digit.
pub open spec fn hex_digit_value(c: char) -> int {
    let x = c as int;
    if 48 <= x && x <= 57 {  // '0' to '9'
        x - 48
    } else if 97 <= x && x <= 102 {  // 'a' to 'f'
        x - 97 + 10
    } else if 65 <= x && x <= 70 {  // 'A' to 'F'
        x - 65 + 10
    } else {
        -1
    }
}

pub open spec fn is_hex_digit(c: char) -> bool {
    hex_digit_value(c) >= 0
}

/// A well-formed hex encoding: an even number of characters, all of them
/// hexadecimal digits.
pub open spec fn hex_str_ok(s: Seq<char>) -> bool {
    s.len() % 2 == 0 && (forall|i: int| 0 <= i < s.len() ==> is_hex_digit(#[trigger] s[i]))
}

/// The byte written as the digit pair `hi`, `lo`.
pub open spec fn hex_byte(hi: char, lo: char) -> u8 {
    (hex_digit_value(hi) * 16 + hex_digit_value(lo)) as u8
}

/// The bytes encoded by `s`, two digits for each byte.
pub open spec fn hex_decode(s: Seq<char>) -> Seq<u8>
    decreases s.len(),
{
    if s.len() < 2 {
        Seq::empty()
    } else {
        seq![hex_byte(s[0], s[1])] + hex_decode(s.skip(2))
    }
}

/// Decode one digit character.
fn hex_digit(c: char) -> (r: Option<u8>)
    ensures
        match r {
            Some(d) => is_hex_digit(c) && d as int == hex_digit_value(c) && d < 16,
            None => !is_hex_digit(c),
        },
{
    let x = c as u32;
    if 48 <= x && x <= 57 {
        Some((x - 48) as u8)
    } else if 97 <= x && x <= 102 {
        Some((x - 97 + 10) as u8)
    } else if 65 <= x && x <= 70 {
        Some((x - 65 + 10) as u8)
    } else {
        None
    }
}

/// Decode a whole hex string, or report that it is not one.
pub(crate) fn decode_hex(s: &str) -> (r: Option<Vec<u8>>)
    ensures
        match r {
            Some(v) => hex_str_ok(s@) && v@ == hex_decode(s@),
            None => !hex_str_ok(s@),
        },
{
    let n = s.unicode_len();
    if n % 2 != 0 {
        return None;
    }
    let mut out: Vec<u8> = Vec::new();
    let mut i: usize = 0;
    proof {
        assert(s@.skip(0) =~= s@);
        assert(out@ + hex_decode(s@) =~= hex_decode(s@));
    }
    while i < n
        invariant
            n == s@.len(),
            i <= n,
            i % 2 == 0,
            n % 2 == 0,
            forall|j: int| 0 <= j < i ==> is_hex_digit(#[trigger] s@[j]),
            out@ + hex_decode(s@.skip(i as int)) == hex_decode(s@),
        decreases n - i,
    {
        let c0 = s.get_char(i);
        let c1 = s.get_char(i + 1);
        let d0 = match hex_digit(c0) {
            Some(d) => d,
            None => {
                return None;
            },
        };
        let d1 = match hex_digit(c1) {
            Some(d) => d,
            None => {
                return None;
            },
        };
        let ghost rest = s@.skip(i as int);
        out.push(d0 * 16 + d1);
        proof {
            assert(rest[0] == s@[i as int]);
            assert(rest[1] == s@[i as int + 1]);
            assert(rest.skip(2) =~= s@.skip(i as int + 2));
            assert(out@ + hex_decode(s@.skip(i as int + 2)) =~= hex_decode(s@));
        }
        i = i + 2;
    }
    proof {
        assert(s@.skip(n as int) =~= Seq::<char>::empty());
        assert(out@ =~= hex_decode(s@));
    }
    Some(out)
}

} // verus!
