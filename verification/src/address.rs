//! Bluetooth device addresses: from the text a caller gives to the 64-bit
//! value a Bluetooth socket address carries.
use vstd::prelude::*;
use crate::text::digit_char;

verus! {

// ---------------------------------------------------------------------------
// Hexadecimal text of bytes
// ---------------------------------------------------------------------------

/// A lowercase hexadecimal digit.
pub open spec fn hex_digit_lower(v: nat) -> char
    recommends
        v < 16,
{
    if v < 10 {
        digit_char(v)
    } else if v == 10 {
        'a'
    } else if v == 11 {
        'b'
    } else if v == 12 {
        'c'
    } else if v == 13 {
        'd'
    } else if v == 14 {
        'e'
    } else {
        'f'
    }
}

/// Each byte as two lowercase hexadecimal digits, high nibble first.
pub open spec fn hex_lower(bytes: Seq<u8>) -> Seq<char> {
    Seq::new(
        2 * bytes.len(),
        |i: int|
            if i % 2 == 0 {
                hex_digit_lower((bytes[i / 2] / 16) as nat)
            } else {
                hex_digit_lower((bytes[i / 2] % 16) as nat)
            },
    )
}

/// `hex::encode`: writes each byte as two lowercase hexadecimal digits,
/// the high nibble first (the crate's lowercase table `0123456789abcdef`).
#[verifier::external_body]
fn hex_encode(bytes: &[u8]) -> (text: String)
    ensures
        text@ == hex_lower(bytes@),
{
    hex::encode(bytes)
}

// ---------------------------------------------------------------------------
// Decimal reading of text, as `u64::from_str` does it
// ---------------------------------------------------------------------------

pub open spec fn is_decimal_digit(c: char) -> bool {
    '0' <= c && c <= '9'
}

pub open spec fn all_decimal_digits(s: Seq<char>) -> bool {
    forall|i: int| 0 <= i < s.len() ==> #[trigger] is_decimal_digit(s[i])
}

/// The number that a string of decimal digits denotes.
pub open spec fn decimal_value(s: Seq<char>) -> int
    decreases s.len(),
{
    if s.len() == 0 {
        0
    } else {
        decimal_value(s.drop_last()) * 10 + (s.last() as int - '0' as int)
    }
}

/// The digits that `u64::from_str` reads: the text after one optional leading `+`.
pub open spec fn unsigned_digits(s: Seq<char>) -> Seq<char> {
    if s.len() > 0 && s[0] == '+' {
        s.drop_first()
    } else {
        s
    }
}

/// What `u64::from_str` gives: the value of a non-empty run of decimal digits after an
/// optional `+`, when it fits in 64 bits; nothing otherwise.
pub open spec fn decimal_u64(s: Seq<char>) -> Option<u64> {
    let digits = unsigned_digits(s);
    if digits.len() > 0 && all_decimal_digits(digits) && decimal_value(digits) <= u64::MAX {
        Some(decimal_value(digits) as u64)
    } else {
        None
    }
}

proof fn lemma_decimal_value_nonneg(s: Seq<char>)
    requires
        all_decimal_digits(s),
    ensures
        decimal_value(s) >= 0,
    decreases s.len(),
{
    if s.len() > 0 {
        assert(is_decimal_digit(s[s.len() - 1]));
        lemma_decimal_value_nonneg(s.drop_last());
    }
}

/// A longer run of digits never denotes a smaller number than its prefix.
proof fn lemma_decimal_value_prefix(s: Seq<char>, k: int)
    requires
        all_decimal_digits(s),
        0 <= k <= s.len(),
    ensures
        decimal_value(s.take(k)) <= decimal_value(s),
    decreases s.len() - k,
{
    if k < s.len() {
        lemma_decimal_value_prefix(s, k + 1);
        assert(s.take(k + 1).drop_last() =~= s.take(k));
        assert(is_decimal_digit(s[k]));
        assert(all_decimal_digits(s.take(k))) by {
            assert forall|i: int| 0 <= i < k implies #[trigger] is_decimal_digit(s.take(k)[i]) by {
                assert(is_decimal_digit(s[i]));
            }
        }
        lemma_decimal_value_nonneg(s.take(k));
    } else {
        assert(s.take(k) =~= s);
    }
}

/// Reads text as `u64::from_str` does: one optional `+`, then at least one decimal
/// digit and nothing else, with a value that fits in 64 bits.
pub fn parse_u64(s: &str) -> (r: Option<u64>)
    ensures
        r == decimal_u64(s@),
{
    let len = s.unicode_len();
    let start: usize = if len > 0 && s.get_char(0) == '+' { 1 } else { 0 };
    let ghost digits = unsigned_digits(s@);
    assert(digits =~= s@.subrange(start as int, len as int));
    if start == len {
        return None;
    }
    let mut acc: u64 = 0;
    let mut i: usize = start;
    while i < len
        invariant
            start <= i <= len,
            len == s@.len(),
            digits == s@.subrange(start as int, len as int),
            digits == unsigned_digits(s@),
            all_decimal_digits(digits.take(i - start)),
            acc as int == decimal_value(digits.take(i - start)),
        decreases len - i,
    {
        let c = s.get_char(i);
        let ghost k: int = i - start;
        assert(digits[k] == c);
        if !('0' <= c && c <= '9') {
            assert(!is_decimal_digit(digits[k]));
            return None;
        }
        let d: u64 = if c == '0' { 0 }
            else if c == '1' { 1 }
            else if c == '2' { 2 }
            else if c == '3' { 3 }
            else if c == '4' { 4 }
            else if c == '5' { 5 }
            else if c == '6' { 6 }
            else if c == '7' { 7 }
            else if c == '8' { 8 }
            else { 9 };
        assert(d as int == c as int - '0' as int);
        assert(digits.take(k + 1).drop_last() =~= digits.take(k));
        assert(all_decimal_digits(digits.take(k + 1))) by {
            assert forall|j: int| 0 <= j < k + 1 implies #[trigger] is_decimal_digit(digits.take(k + 1)[j]) by {
                if j < k {
                    assert(digits.take(k + 1)[j] == digits.take(k)[j]);
                }
            }
        }
        let next = match acc.checked_mul(10) {
            Some(m) => m.checked_add(d),
            None => None,
        };
        match next {
            Some(v) => {
                acc = v;
                i = i + 1;
            },
            None => {
                proof {
                    if all_decimal_digits(digits) {
                        lemma_decimal_value_prefix(digits, k + 1);
                    }
                }
                return None;
            },
        }
    }
    assert(digits.take(len - start) =~= digits);
    Some(acc)
}

// ---------------------------------------------------------------------------
// MAC address text
// ---------------------------------------------------------------------------

/// The bytes of the MAC address that `macaddr` reads from a text (six for an EUI-48
/// address, eight for an EUI-64 one), or nothing where it refuses the text.
pub uninterp spec fn mac_address_bytes(text: Seq<char>) -> Option<Seq<u8>>;

/// `<macaddr::MacAddr as FromStr>::from_str`, then `MacAddr::as_bytes`. The parser's grammar
/// (hyphen, colon or dot separators, EUI-48 tried before EUI-64) is not restated: its result
/// is named `mac_address_bytes`. What is stated is that a parsed address has six bytes
/// (`MacAddr::V6`) or eight (`MacAddr::V8`).
#[verifier::external_body]
fn parse_mac_address(text: &str) -> (r: Option<Vec<u8>>)
    ensures
        match r {
            Some(bytes) => mac_address_bytes(text@) == Some(bytes@)
                && (bytes@.len() == 6 || bytes@.len() == 8),
            None => mac_address_bytes(text@) is None,
        },
{
    match text.parse::<macaddr::MacAddr>() {
        Ok(addr) => Some(addr.as_bytes().to_vec()),
        Err(_) => None,
    }
}

// ---------------------------------------------------------------------------
// The socket address value
// ---------------------------------------------------------------------------

/// The address value a connection uses for a MAC address: its lowercase hexadecimal text,
/// read as a decimal number. Only addresses whose every nibble is below ten give one.
pub open spec fn bt_addr_of(mac: Seq<u8>) -> Option<u64> {
    decimal_u64(hex_lower(mac))
}

/// The address value of MAC address bytes: their hexadecimal text read as a decimal
/// `u64`; `None` where that text holds a letter or does not fit.
pub fn bt_addr_from_mac(mac: &[u8]) -> (r: Option<u64>)
    ensures
        r == bt_addr_of(mac@),
        1 <= mac@.len() <= 8 ==> (r is Some <==> nibbles_decimal(mac@)),
        1 <= mac@.len() <= 8 && nibbles_decimal(mac@) ==> r == Some(
            nibble_decimal_value(mac@) as u64,
        ),
{
    let text = hex_encode(mac);
    proof {
        if 1 <= mac@.len() <= 8 {
            lemma_bt_addr_defined_iff_decimal_nibbles(mac@);
            if nibbles_decimal(mac@) {
                lemma_bt_addr_value(mac@);
            }
        }
    }
    parse_u64(text.as_str())
}

/// The address value that a connection to the device named by `addr_str` uses;
/// `None` where `macaddr` refuses the text or its hexadecimal form is not decimal.
pub fn parse_bt_addr(addr_str: &str) -> (r: Option<u64>)
    ensures
        r == match mac_address_bytes(addr_str@) {
            Some(bytes) => bt_addr_of(bytes),
            None => None,
        },
{
    match parse_mac_address(addr_str) {
        Some(bytes) => bt_addr_from_mac(bytes.as_slice()),
        None => None,
    }
}

// ---------------------------------------------------------------------------
// Which MAC addresses have an address value
// ---------------------------------------------------------------------------

/// Every nibble of every byte is below ten, so that its hexadecimal digit is a decimal one.
pub open spec fn nibbles_decimal(mac: Seq<u8>) -> bool {
    forall|i: int| 0 <= i < mac.len() ==> #[trigger] mac[i] / 16 < 10 && mac[i] % 16 < 10
}

pub open spec fn pow10(n: nat) -> nat
    decreases n,
{
    if n == 0 {
        1
    } else {
        10 * pow10((n - 1) as nat)
    }
}

proof fn lemma_decimal_value_bound(s: Seq<char>)
    requires
        all_decimal_digits(s),
    ensures
        0 <= decimal_value(s) < pow10(s.len()),
    decreases s.len(),
{
    if s.len() > 0 {
        let t = s.drop_last();
        assert(all_decimal_digits(t)) by {
            assert forall|i: int| 0 <= i < t.len() implies #[trigger] is_decimal_digit(t[i]) by {
                assert(is_decimal_digit(s[i]));
            }
        }
        assert(is_decimal_digit(s[s.len() - 1]));
        lemma_decimal_value_bound(t);
        assert(decimal_value(s) < pow10(s.len())) by (nonlinear_arith)
            requires
                decimal_value(s) == decimal_value(t) * 10 + (s.last() as int - '0' as int),
                0 <= s.last() as int - '0' as int <= 9,
                0 <= decimal_value(t) < pow10(t.len()),
                pow10(s.len()) == 10 * pow10(t.len()),
        ;
    }
}

proof fn lemma_pow10_monotone(a: nat, b: nat)
    requires
        a <= b,
    ensures
        pow10(a) <= pow10(b),
    decreases b,
{
    if a < b {
        lemma_pow10_monotone(a, (b - 1) as nat);
    }
}

/// A MAC address of one to eight bytes (a parsed one has six or eight) has an address value
/// exactly when every nibble of it is below ten; that value is then below `10^(2 * len)`.
pub proof fn lemma_bt_addr_defined_iff_decimal_nibbles(mac: Seq<u8>)
    requires
        1 <= mac.len() <= 8,
    ensures
        bt_addr_of(mac) is Some <==> nibbles_decimal(mac),
        bt_addr_of(mac) matches Some(v) ==> v < pow10(2 * mac.len()),
{
    let hex = hex_lower(mac);
    assert(hex[0] != '+');
    assert(unsigned_digits(hex) == hex);
    assert(all_decimal_digits(hex) <==> nibbles_decimal(mac)) by {
        if nibbles_decimal(mac) {
            assert forall|i: int| 0 <= i < hex.len() implies #[trigger] is_decimal_digit(hex[i]) by {
                assert(mac[i / 2] / 16 < 10 && mac[i / 2] % 16 < 10);
            }
        }
        if all_decimal_digits(hex) {
            assert forall|i: int| 0 <= i < mac.len() implies #[trigger] mac[i] / 16 < 10 && mac[i] % 16 < 10 by {
                assert(is_decimal_digit(hex[2 * i]));
                assert(is_decimal_digit(hex[2 * i + 1]));
            }
        }
    }
    if all_decimal_digits(hex) {
        lemma_decimal_value_bound(hex);
        lemma_pow10_monotone(2 * mac.len(), 16);
        assert(pow10(16) == 10000000000000000) by {
            reveal_with_fuel(pow10, 17);
        }
    }
}

// ---------------------------------------------------------------------------
// Which value a MAC address has
// ---------------------------------------------------------------------------

/// The number whose decimal digits are the nibbles of `mac`, high nibble first, byte after
/// byte: each byte `b` contributes the two digits `b / 16` and `b % 16`, so the value is the
/// sum over `i` of `(mac[i] / 16 * 10 + mac[i] % 16) * 100^(len - 1 - i)`.
pub open spec fn nibble_decimal_value(mac: Seq<u8>) -> int
    decreases mac.len(),
{
    if mac.len() == 0 {
        0
    } else {
        nibble_decimal_value(mac.drop_last()) * 100 + (mac.last() / 16) * 10 + mac.last() % 16
    }
}

proof fn lemma_decimal_digit_value(v: nat)
    requires
        v < 10,
    ensures
        hex_digit_lower(v) as int - '0' as int == v,
        is_decimal_digit(hex_digit_lower(v)),
{
}

proof fn lemma_decimal_value_of_hex(mac: Seq<u8>)
    requires
        nibbles_decimal(mac),
    ensures
        decimal_value(hex_lower(mac)) == nibble_decimal_value(mac),
    decreases mac.len(),
{
    if mac.len() > 0 {
        let m = mac.drop_last();
        let b = mac.last();
        assert(nibbles_decimal(m)) by {
            assert forall|i: int| 0 <= i < m.len() implies #[trigger] m[i] / 16 < 10 && m[i] % 16
                < 10 by {
                assert(mac[i] / 16 < 10 && mac[i] % 16 < 10);
            }
        }
        assert(b / 16 < 10 && b % 16 < 10) by {
            assert(mac[mac.len() - 1] / 16 < 10 && mac[mac.len() - 1] % 16 < 10);
        }
        lemma_decimal_value_of_hex(m);
        let h = hex_lower(mac);
        let hm = hex_lower(m);
        assert(h.drop_last().drop_last() =~= hm);
        assert(h.last() == hex_digit_lower((b % 16) as nat));
        assert(h.drop_last().last() == hex_digit_lower((b / 16) as nat));
        lemma_decimal_digit_value((b / 16) as nat);
        lemma_decimal_digit_value((b % 16) as nat);
        assert(decimal_value(h) == decimal_value(h.drop_last()) * 10 + (b % 16));
        assert(decimal_value(h.drop_last()) == decimal_value(hm) * 10 + (b / 16));
    }
}

/// A MAC address of one to eight bytes whose nibbles are all decimal has, as its address
/// value, the number whose decimal digits are its nibbles in order (two per byte, high
/// nibble first): `[1, 2, 3, 4, 5, 6]` has `10203040506`.
pub proof fn lemma_bt_addr_value(mac: Seq<u8>)
    requires
        1 <= mac.len() <= 8,
        nibbles_decimal(mac),
    ensures
        bt_addr_of(mac) == Some(nibble_decimal_value(mac) as u64),
        0 <= nibble_decimal_value(mac) < pow10(2 * mac.len()),
{
    lemma_bt_addr_defined_iff_decimal_nibbles(mac);
    lemma_decimal_value_of_hex(mac);
    let hex = hex_lower(mac);
    assert(hex[0] != '+');
    assert(unsigned_digits(hex) == hex);
    assert(all_decimal_digits(hex));
    lemma_decimal_value_bound(hex);
}

} // verus!
