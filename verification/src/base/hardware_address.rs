use vstd::prelude::*;

verus! {

/// HardwareAddress is an six octet identifier
///
/// HardwareAddress could be used for MAC address for Ethernet (802.3),
/// Bluetooth or Wi-Fi (802.11) BSSID
#[derive(Copy, Clone, Eq, PartialEq, Hash, Debug)]
pub struct HardwareAddress {
    value: [u8; 6],
}

impl View for HardwareAddress {
    type V = Seq<u8>;

    /// The six octets, first to last.
    closed spec fn view(&self) -> Seq<u8> {
        self.value@
    }
}

/// The lower-case hexadecimal digit of a number below sixteen.
pub open spec fn hex_digit(value: u8) -> char {
    if value < 10 {
        (48 + value) as char
    } else {
        (87 + value) as char
    }
}

/// The text form of six octets: two hexadecimal digits for each, with colons
/// in between.
pub open spec fn address_text(octets: Seq<u8>) -> Seq<char> {
    Seq::new(
        17,
        |i: int|
            if i % 3 == 2 {
                ':'
            } else if i % 3 == 0 {
                hex_digit(octets[i / 3] / 16)
            } else {
                hex_digit(octets[i / 3] % 16)
            },
    )
}

/// `format!` of std with `{:02x}` for each octet: every octet as two
/// lower-case hexadecimal digits, the octets joined by colons.
#[verifier::external_body]
fn format_octets(octets: &[u8; 6]) -> (text: String)
    ensures
        text@ == address_text(octets@),
{
    format!(
        "{:02x}:{:02x}:{:02x}:{:02x}:{:02x}:{:02x}",
        octets[0], octets[1], octets[2], octets[3], octets[4], octets[5]
    )
}

impl HardwareAddress {
    /// The address as text, such as `00:1b:44:11:3a:b7`.
    pub fn to_string(&self) -> (text: String)
        ensures
            text@ == address_text(self@),
    {
        format_octets(&self.value)
    }

    /// An address always has six octets.
    pub proof fn lemma_len(self)
        ensures
            self@.len() == 6,
    {
    }

    /// Get as byte array
    pub fn bytes(&self) -> (octets: [u8; 6])
        ensures
            octets@ == self@,
    {
        self.value
    }

    /// The address made of the first six octets of `value`.
    pub fn from(value: &[u8]) -> (address: HardwareAddress)
        requires
            value@.len() >= 6,
        ensures
            address@ == value@.subrange(0, 6),
    {
        let address = HardwareAddress {
            value: [value[0], value[1], value[2], value[3], value[4], value[5]],
        };
        assert(address@ =~= value@.subrange(0, 6));
        address
    }
}

impl From<[u8; 6]> for HardwareAddress {
    fn from(value: [u8; 6]) -> (address: HardwareAddress) {
        HardwareAddress { value: value }
    }
}

impl vstd::std_specs::convert::FromSpecImpl<[u8; 6]> for HardwareAddress {
    open spec fn obeys_from_spec() -> bool {
        true
    }

    closed spec fn from_spec(value: [u8; 6]) -> HardwareAddress {
        HardwareAddress { value: value }
    }
}

impl HardwareAddress {
    /// Converting an array keeps its octets.
    pub proof fn lemma_from_array(value: [u8; 6])
        ensures
            <HardwareAddress as vstd::std_specs::convert::FromSpec<[u8; 6]>>::from_spec(value)@
                == value@,
    {
    }
}

} // verus!
