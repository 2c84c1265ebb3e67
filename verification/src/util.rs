//! Small string helpers shared across the crate: character-wise string
//! equality (with a contract over the string views) and fixed-width
//! hexadecimal rendering / parsing of device addresses.

use vstd::prelude::*;
use vstd::string::{StrSliceExecFns, StringExecFns};

verus! {

/// Character-wise equality of two string slices.
pub fn str_eq(a: &str, b: &str) -> (r: bool)
    ensures
        r == (a@ == b@),
{
    let a_len = a.unicode_len();
    let b_len = b.unicode_len();
    if a_len != b_len {
        return false;
    }
    let mut i: usize = 0;
    while i < a_len
        invariant
            a_len == a@.len(),
            b_len == b@.len(),
            a_len == b_len,
            i <= a_len,
            forall|j: int| 0 <= j < i ==> a@[j] == b@[j],
        decreases a_len - i,
    {
        if a.get_char(i) != b.get_char(i) {
            return false;
        }
        i += 1;
    }
    proof {
        assert(a@ =~= b@);
    }
    true
}

/// Whether `ch` is a hexadecimal digit (either case).
pub open spec fn is_hex_digit(ch: char) -> bool {
    ||| 48 <= ch as u32 <= 57
    ||| 97 <= ch as u32 <= 102
    ||| 65 <= ch as u32 <= 70
}

/// The value of one hexadecimal digit.
pub open spec fn hex_digit_val(ch: char) -> int {
    if 48 <= ch as u32 <= 57 {
        ch as u32 - 48
    } else if 97 <= ch as u32 <= 102 {
        ch as u32 - 87
    } else {
        ch as u32 - 55
    }
}

/// Every character is a hexadecimal digit.
pub open spec fn all_hex(s: Seq<char>) -> bool {
    forall|i: int| 0 <= i < s.len() ==> is_hex_digit(#[trigger] s[i])
}

/// The number a big-endian string of hexadecimal digits denotes.
pub open spec fn hex_val(s: Seq<char>) -> int
    decreases s.len(),
{
    if s.len() == 0 {
        0
    } else {
        hex_val(s.drop_last()) * 16 + hex_digit_val(s.last())
    }
}

/// A string of hexadecimal digits denotes a number, so no prefix of it
/// denotes a larger one.
pub proof fn lemma_hex_val_prefix_le(s: Seq<char>, k: int)
    requires
        all_hex(s),
        0 <= k <= s.len(),
    ensures
        0 <= hex_val(s.take(k)) <= hex_val(s),
    decreases s.len(),
{
    if s.len() == 0 {
        assert(s.take(k) =~= s);
    } else if k == s.len() {
        assert(s.take(k) =~= s);
        assert(all_hex(s.drop_last()));
        lemma_hex_val_prefix_le(s.drop_last(), s.len() - 1);
        assert(hex_digit_val(s.last()) >= 0);
    } else {
        assert(all_hex(s.drop_last()));
        assert(s.drop_last().take(k) =~= s.take(k));
        lemma_hex_val_prefix_le(s.drop_last(), k);
        assert(hex_digit_val(s.last()) >= 0);
        assert(hex_val(s.drop_last()) * 16 >= hex_val(s.drop_last()));
    }
}

/// Parse a big-endian hexadecimal number, of either case, into a 64-bit
/// value: `None` exactly on an empty string, a stray character, or a
/// value beyond 64 bits.
pub fn parse_hex_address(s: &str) -> (r: Option<u64>)
    ensures
        match r {
            Some(v) => s@.len() > 0 && all_hex(s@) && v == hex_val(s@),
            None => s@.len() == 0 || !all_hex(s@) || hex_val(s@) > u64::MAX,
        },
{
    let n = s.unicode_len();
    if n == 0 {
        return None;
    }
    let mut acc: u64 = 0;
    let mut i: usize = 0;
    while i < n
        invariant
            n == s@.len(),
            i <= n,
            forall|j: int| 0 <= j < i ==> is_hex_digit(#[trigger] s@[j]),
            acc == hex_val(s@.take(i as int)),
        decreases n - i,
    {
        let ch = s.get_char(i);
        let cu = ch as u32;
        let d: u32 = if 48 <= cu && cu <= 57 {
            cu - 48
        } else if 97 <= cu && cu <= 102 {
            cu - 87
        } else if 65 <= cu && cu <= 70 {
            cu - 55
        } else {
            return None;
        };
        let wide: u128 = (acc as u128) * 16 + (d as u128);
        proof {
            assert(s@.take(i + 1).drop_last() =~= s@.take(i as int));
            assert(s@.take(i + 1).last() == s@[i as int]);
        }
        if wide > u64::MAX as u128 {
            proof {
                if all_hex(s@) {
                    lemma_hex_val_prefix_le(s@, i + 1);
                }
            }
            return None;
        }
        acc = wide as u64;
        i += 1;
    }
    proof {
        assert(s@.take(n as int) =~= s@);
    }
    Some(acc)
}

/// The big-endian, upper-case, fixed-width hexadecimal rendering of a
/// number: `width` digits of `v`, high nibble first.
pub open spec fn hex_render(v: int, width: nat) -> Seq<char>
    decreases width,
{
    if width == 0 {
        Seq::empty()
    } else {
        hex_render(v / 16, (width - 1) as nat).push(hex_digit_char(v % 16))
    }
}

/// The upper-case character of one hexadecimal digit value.
pub open spec fn hex_digit_char(d: int) -> char {
    if d == 0 {
        '0'
    } else if d == 1 {
        '1'
    } else if d == 2 {
        '2'
    } else if d == 3 {
        '3'
    } else if d == 4 {
        '4'
    } else if d == 5 {
        '5'
    } else if d == 6 {
        '6'
    } else if d == 7 {
        '7'
    } else if d == 8 {
        '8'
    } else if d == 9 {
        '9'
    } else if d == 10 {
        'A'
    } else if d == 11 {
        'B'
    } else if d == 12 {
        'C'
    } else if d == 13 {
        'D'
    } else if d == 14 {
        'E'
    } else {
        'F'
    }
}

/// One upper-case hexadecimal digit as a string.
pub(crate) fn hex_digit_str(d: u64) -> (r: &'static str)
    requires
        d < 16,
    ensures
        r@ =~= seq![hex_digit_char(d as int)],
{
    proof {
        reveal_strlit("0");
        reveal_strlit("1");
        reveal_strlit("2");
        reveal_strlit("3");
        reveal_strlit("4");
        reveal_strlit("5");
        reveal_strlit("6");
        reveal_strlit("7");
        reveal_strlit("8");
        reveal_strlit("9");
        reveal_strlit("A");
        reveal_strlit("B");
        reveal_strlit("C");
        reveal_strlit("D");
        reveal_strlit("E");
        reveal_strlit("F");
    }
    match d {
        0 => "0",
        1 => "1",
        2 => "2",
        3 => "3",
        4 => "4",
        5 => "5",
        6 => "6",
        7 => "7",
        8 => "8",
        9 => "9",
        10 => "A",
        11 => "B",
        12 => "C",
        13 => "D",
        14 => "E",
        _ => "F",
    }
}

/// Render the low `width` nibbles of `v`, high nibble first.
fn hex_fixed(v: u64, width: usize) -> (r: String)
    ensures
        r@ == hex_render(v as int, width as nat),
    decreases width,
{
    if width == 0 {
        String::new()
    } else {
        let mut prefix = hex_fixed(v / 16, width - 1);
        prefix.append(hex_digit_str(v % 16));
        proof {
            assert(prefix@ =~= hex_render(v as int / 16, (width - 1) as nat).push(
                hex_digit_char(v as int % 16),
            ));
        }
        prefix
    }
}

/// The canonical rendering of a device address: twelve upper-case
/// hexadecimal digits, high nibble first.
pub fn format_address(address: u64) -> (r: String)
    ensures
        r@ == hex_render(address as int, 12),
{
    hex_fixed(address, 12)
}

} // verus!
