//! A Bluetooth device as the device search reports it: a name and a MAC address text.
use vstd::prelude::*;

verus! {

/// An uppercase hexadecimal digit, as `{:02X}` writes it.
pub open spec fn hex_digit_upper(v: nat) -> char
    recommends
        v < 16,
{
    if v < 10 {
        crate::text::digit_char(v)
    } else if v == 10 {
        'A'
    } else if v == 11 {
        'B'
    } else if v == 12 {
        'C'
    } else if v == 13 {
        'D'
    } else if v == 14 {
        'E'
    } else {
        'F'
    }
}

/// The text of a six-byte MAC address in the colon form `AB:0D:EF:12:34:56`: each byte
/// as two uppercase hexadecimal digits, in the order given, joined by `:`.
pub open spec fn mac_colon_text(b: Seq<u8>) -> Seq<char> {
    Seq::new(
        17,
        |i: int|
            if i % 3 == 2 {
                ':'
            } else if i % 3 == 0 {
                hex_digit_upper((b[i / 3] / 16) as nat)
            } else {
                hex_digit_upper((b[i / 3] % 16) as nat)
            },
    )
}

/// `MacAddr6::from([u8; 6])` then `to_string()`: the plain `Display` form of `macaddr`,
/// `{:02X}:{:02X}:{:02X}:{:02X}:{:02X}:{:02X}` over the six bytes in order.
#[verifier::external_body]
fn mac6_text(bytes: [u8; 6]) -> (text: String)
    ensures
        text@ == mac_colon_text(bytes@),
{
    macaddr::MacAddr6::from(bytes).to_string()
}

/// What `String::from_utf16_lossy` decodes from UTF-16 code units, unpaired surrogates
/// replaced by U+FFFD.
pub uninterp spec fn utf16_lossy(units: Seq<u16>) -> Seq<char>;

/// No code unit is a surrogate, so each one is a character of its own.
pub open spec fn no_surrogates(units: Seq<u16>) -> bool {
    forall|i: int| 0 <= i < units.len() ==> !(0xD800 <= #[trigger] units[i] <= 0xDFFF)
}

pub open spec fn is_surrogate(u: u16) -> bool {
    0xD800 <= u <= 0xDFFF
}

pub open spec fn is_high_surrogate(u: u16) -> bool {
    0xD800 <= u <= 0xDBFF
}

pub open spec fn is_low_surrogate(u: u16) -> bool {
    0xDC00 <= u <= 0xDFFF
}

/// UTF-16 decoding with U+FFFD in place of invalid data: a high surrogate followed by a low
/// one is one character outside the BMP; any other surrogate is U+FFFD (the unit after an
/// unpaired high surrogate is decoded on its own); every other unit is the character of its
/// value.
pub open spec fn utf16_decode(units: Seq<u16>) -> Seq<char>
    decreases units.len(),
{
    if units.len() == 0 {
        Seq::empty()
    } else if units.len() >= 2 && is_high_surrogate(units[0]) && is_low_surrogate(units[1]) {
        seq![((0x10000 + (units[0] - 0xD800) * 0x400 + (units[1] - 0xDC00)) as char)]
            + utf16_decode(units.subrange(2, units.len() as int))
    } else if is_surrogate(units[0]) {
        seq!['\u{FFFD}'] + utf16_decode(units.drop_first())
    } else {
        seq![(units[0] as char)] + utf16_decode(units.drop_first())
    }
}

/// `String::from_utf16_lossy`: as its documentation says, decodes the UTF-16 units and puts
/// U+FFFD in place of invalid data (std's `char::decode_utf16`, each error mapped to
/// `REPLACEMENT_CHARACTER`). The result is named `utf16_lossy` and stated as `utf16_decode`.
#[verifier::external_body]
fn decode_utf16_lossy(units: &[u16]) -> (text: String)
    ensures
        text@ == utf16_lossy(units@),
        text@ == utf16_decode(units@),
        no_surrogates(units@) ==> text@ == units@.map_values(|u: u16| u as char),
{
    String::from_utf16_lossy(units)
}

/// A device found by the device search: its name and its MAC address text.
pub struct BluetoothDevice {
    name: String,
    mac: String,
}

/// The abstract value of a device: the characters of its name and of its address text.
pub struct DeviceView {
    pub name: Seq<char>,
    pub mac: Seq<char>,
}

/// The device that `name_utf16` and `address` describe, as `BluetoothDevice::from_raw`
/// makes it.
pub open spec fn device_of(name_utf16: Seq<u16>, address: Seq<u8>) -> DeviceView {
    DeviceView { name: utf16_decode(name_utf16), mac: mac_colon_text(address) }
}

impl View for BluetoothDevice {
    type V = DeviceView;

    closed spec fn view(&self) -> DeviceView {
        DeviceView { name: self.name@, mac: self.mac@ }
    }
}

impl BluetoothDevice {
    /// The device whose name field holds `name_utf16` (the whole field, as the search
    /// reports it) and whose address bytes are `address`, in the order held.
    pub fn from_raw(name_utf16: &[u16], address: [u8; 6]) -> (device: BluetoothDevice)
        ensures
            device@ == device_of(name_utf16@, address@),
            device@.name == utf16_lossy(name_utf16@),
            no_surrogates(name_utf16@) ==> device@.name == name_utf16@.map_values(|u: u16| u as char),
    {
        BluetoothDevice { name: decode_utf16_lossy(name_utf16), mac: mac6_text(address) }
    }

    /// The device's name.
    pub fn name(&self) -> (r: &str)
        ensures
            r@ == self@.name,
    {
        self.name.as_str()
    }

    /// The device's MAC address text.
    pub fn mac(&self) -> (r: &str)
        ensures
            r@ == self@.mac,
    {
        self.mac.as_str()
    }
}

// ---------------------------------------------------------------------------
// Laws of device names
// ---------------------------------------------------------------------------

proof fn lemma_decode_concat(a: Seq<u16>, b: Seq<u16>)
    requires
        a.len() == 0 || !is_high_surrogate(a.last()),
    ensures
        utf16_decode(a + b) == utf16_decode(a) + utf16_decode(b),
    decreases a.len(),
{
    if a.len() == 0 {
        assert(a + b =~= b);
    } else {
        let ab = a + b;
        assert(ab[0] == a[0]);
        if a.len() >= 2 && is_high_surrogate(a[0]) && is_low_surrogate(a[1]) {
            let rest = a.subrange(2, a.len() as int);
            assert(ab[1] == a[1]);
            assert(ab.subrange(2, ab.len() as int) =~= rest + b);
            if rest.len() > 0 {
                assert(rest.last() == a.last());
            }
            lemma_decode_concat(rest, b);
            assert(utf16_decode(ab) =~= utf16_decode(a) + utf16_decode(b));
        } else {
            let rest = a.drop_first();
            assert(ab.drop_first() =~= rest + b);
            if rest.len() > 0 {
                assert(rest.last() == a.last());
            }
            if a.len() == 1 {
                assert(!is_high_surrogate(a[0]));
            } else {
                assert(ab[1] == a[1]);
            }
            assert(!(ab.len() >= 2 && is_high_surrogate(ab[0]) && is_low_surrogate(ab[1])));
            lemma_decode_concat(rest, b);
            assert(utf16_decode(ab) =~= utf16_decode(a) + utf16_decode(b));
        }
    }
}

/// A device's name is decoded piece by piece: the name of a field made of `a` then `b` is the
/// name of `a` followed by the name of `b`, when `a` does not end in a high surrogate (which
/// would pair with the first unit of `b`).
pub proof fn lemma_device_name_concat(a: Seq<u16>, b: Seq<u16>, address: Seq<u8>)
    requires
        a.len() == 0 || !is_high_surrogate(a.last()),
    ensures
        device_of(a + b, address).name == device_of(a, address).name + device_of(
            b,
            address,
        ).name,
{
    lemma_decode_concat(a, b);
}

/// A single code unit that is not a surrogate is the character of its value in the name;
/// a lone surrogate is U+FFFD.
pub proof fn lemma_device_name_single_unit(u: u16, address: Seq<u8>)
    ensures
        !(0xD800 <= u <= 0xDFFF) ==> device_of(seq![u], address).name == seq![(u as char)],
        0xD800 <= u <= 0xDFFF ==> device_of(seq![u], address).name == seq!['\u{FFFD}'],
{
    let units = seq![u];
    assert(units.drop_first() =~= Seq::<u16>::empty());
    assert(utf16_decode(Seq::<u16>::empty()) == Seq::<char>::empty());
    if 0xD800 <= u <= 0xDFFF {
        assert(utf16_decode(units) =~= seq!['\u{FFFD}']);
    } else {
        assert(utf16_decode(units) =~= seq![(u as char)]);
    }
}

/// A high surrogate followed by a low surrogate is one character of the name: the code point
/// `0x10000 + (high - 0xD800) * 0x400 + (low - 0xDC00)`.
pub proof fn lemma_device_name_surrogate_pair(high: u16, low: u16, address: Seq<u8>)
    requires
        0xD800 <= high <= 0xDBFF,
        0xDC00 <= low <= 0xDFFF,
    ensures
        device_of(seq![high, low], address).name == seq![
            ((0x10000 + (high - 0xD800) * 0x400 + (low - 0xDC00)) as char),
        ],
{
    let units = seq![high, low];
    assert(units.subrange(2, 2) =~= Seq::<u16>::empty());
    assert(utf16_decode(Seq::<u16>::empty()) == Seq::<char>::empty());
    assert(units[0] == high && units[1] == low);
    assert(utf16_decode(units) =~= seq![
        ((0x10000 + (high - 0xD800) * 0x400 + (low - 0xDC00)) as char),
    ]);
}

/// A well-formed surrogate pair anywhere in the name field becomes, in that place of the
/// name, the one character it encodes; what comes before and after decodes on its own.
pub proof fn lemma_device_name_pair_in_place(
    before: Seq<u16>,
    high: u16,
    low: u16,
    after: Seq<u16>,
    address: Seq<u8>,
)
    requires
        before.len() == 0 || !is_high_surrogate(before.last()),
        0xD800 <= high <= 0xDBFF,
        0xDC00 <= low <= 0xDFFF,
    ensures
        device_of(before + seq![high, low] + after, address).name == device_of(before, address).name
            + seq![((0x10000 + (high - 0xD800) * 0x400 + (low - 0xDC00)) as char)]
            + device_of(after, address).name,
{
    let pair = seq![high, low];
    lemma_decode_concat(before, pair);
    assert((before + pair).last() == low);
    lemma_decode_concat(before + pair, after);
    lemma_device_name_surrogate_pair(high, low, address);
}

} // verus!
