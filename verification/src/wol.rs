//! The packet engine: the layout of the magic packet and the address text it is built from.

use vstd::prelude::*;
use vstd::utf8::is_ascii_chars;

verus! {

/// Number of octets in a hardware address.
pub const MAC_LENGTH: usize = 6;

/// Number of times the address is repeated after the header.
pub const MAC_REPEAT_TIMES: usize = 16;

/// Number of synchronisation bytes that open the packet.
pub const HEADER_LENGTH: usize = 6;

/// Value of every synchronisation byte.
pub const HEADER_BYTE: u8 = 0xFF;

/// Total length of a magic packet.
pub const PACKET_SIZE: usize = HEADER_LENGTH + MAC_LENGTH * MAC_REPEAT_TIMES;

/// Number of characters in the text of a hardware address.
pub const MAC_TEXT_LENGTH: usize = 17;

/// UDP port that a magic packet is sent to.
pub const SEND_TO_PORT: u16 = 9;

/// Local address that the sending socket is bound to: any interface, any port.
pub const BIND_TO: &'static str = "0.0.0.0:0";

/// Where a packet goes when no broadcast address is given.
pub const DEFAULT_BROADCAST: &'static str = "255.255.255.255";

/// The magic packet for `address`: the header, then the address over and over.
pub open spec fn magic_packet(address: Seq<u8>) -> Seq<u8> {
    Seq::new(
        PACKET_SIZE as nat,
        |i: int|
            if i < HEADER_LENGTH {
                HEADER_BYTE
            } else {
                address[(i - HEADER_LENGTH) % (MAC_LENGTH as int)]
            },
    )
}

/// The `k`-th copy of the address in `packet`, counted from zero: the bytes
/// that stand where it belongs.
pub open spec fn repetition(packet: Seq<u8>, k: int) -> Seq<u8> {
    packet.subrange(HEADER_LENGTH + MAC_LENGTH * k, HEADER_LENGTH + MAC_LENGTH * (k + 1))
}

/// `packet` is as long as a magic packet, opens with the header and then holds
/// `address` in each of its repetitions.
pub open spec fn has_magic_layout(packet: Seq<u8>, address: Seq<u8>) -> bool {
    &&& packet.len() == PACKET_SIZE
    &&& forall|i: int| 0 <= i < HEADER_LENGTH ==> packet[i] == HEADER_BYTE
    &&& forall|k: int| 0 <= k < MAC_REPEAT_TIMES ==> #[trigger] repetition(packet, k) == address
}

/// A byte sequence has the magic layout for an address exactly when it is
/// that address's magic packet.
pub proof fn lemma_magic_layout(packet: Seq<u8>, address: Seq<u8>)
    requires
        address.len() == MAC_LENGTH,
    ensures
        has_magic_layout(packet, address) <==> packet == magic_packet(address),
{
    let m = magic_packet(address);
    if packet == m {
        assert forall|k: int| 0 <= k < MAC_REPEAT_TIMES implies #[trigger] repetition(m, k)
            == address by {
            assert(repetition(m, k) =~= address);
        }
    }
    if has_magic_layout(packet, address) {
        assert forall|i: int| 0 <= i < PACKET_SIZE implies packet[i] == m[i] by {
            if i >= HEADER_LENGTH {
                let k = (i - HEADER_LENGTH) / (MAC_LENGTH as int);
                let j = (i - HEADER_LENGTH) % (MAC_LENGTH as int);
                assert(repetition(packet, k) == address);
                assert(repetition(packet, k)[j] == packet[HEADER_LENGTH + MAC_LENGTH * k + j]);
            }
        }
        assert(packet =~= m);
    }
}

/// Builds the magic packet for `address`.
pub fn build_packet(address: [u8; MAC_LENGTH]) -> (packet: Vec<u8>)
    ensures
        packet@ == magic_packet(address@),
        has_magic_layout(packet@, address@),
{
    let mut packet: Vec<u8> = Vec::with_capacity(PACKET_SIZE);
    let mut i: usize = 0;
    while i < HEADER_LENGTH
        invariant
            i <= HEADER_LENGTH,
            packet@ =~= magic_packet(address@).take(i as int),
        decreases HEADER_LENGTH - i,
    {
        packet.push(HEADER_BYTE);
        i += 1;
    }
    let mut k: usize = 0;
    while k < MAC_REPEAT_TIMES
        invariant
            k <= MAC_REPEAT_TIMES,
            packet@ =~= magic_packet(address@).take(HEADER_LENGTH + MAC_LENGTH * k),
        decreases MAC_REPEAT_TIMES - k,
    {
        let mut j: usize = 0;
        while j < MAC_LENGTH
            invariant
                k < MAC_REPEAT_TIMES,
                j <= MAC_LENGTH,
                packet@ =~= magic_packet(address@).take(HEADER_LENGTH + MAC_LENGTH * k + j),
            decreases MAC_LENGTH - j,
        {
            packet.push(address[j]);
            j += 1;
        }
        k += 1;
    }
    proof {
        assert(packet@ =~= magic_packet(address@));
        lemma_magic_layout(packet@, address@);
    }
    packet
}

/// Why a text is no hardware address.
#[derive(Debug, Clone, Copy, PartialEq, Eq, Structural)]
pub enum MacParseError {
    /// The text has the right length but a character that is out of place.
    InvalidDigit,
    /// The text is not made of ASCII characters, or of too few or too many.
    InvalidLength,
}

/// `c` is a hexadecimal digit, in either case.
pub open spec fn is_hex_digit(c: char) -> bool {
    ('0' <= c <= '9') || ('a' <= c <= 'f') || ('A' <= c <= 'F')
}

/// The number that the hexadecimal digit `c` stands for.
pub open spec fn hex_value(c: char) -> int {
    if '0' <= c <= '9' {
        c as int - '0' as int
    } else if 'a' <= c <= 'f' {
        c as int - 'a' as int + 10
    } else {
        c as int - 'A' as int + 10
    }
}

/// `c` may stand between two octets.
pub open spec fn is_separator(c: char) -> bool {
    c == ':' || c == '-'
}

/// `text` has the right character at place `i`: a separator after every two
/// digits, a hexadecimal digit elsewhere.
pub open spec fn is_well_placed(text: Seq<char>, i: int) -> bool {
    if i % 3 == 2 {
        is_separator(text[i])
    } else {
        is_hex_digit(text[i])
    }
}

/// `text` writes a hardware address: six octets of two hexadecimal digits
/// each, with a colon or a hyphen between neighbours.
pub open spec fn is_mac_text(text: Seq<char>) -> bool {
    &&& text.len() == MAC_TEXT_LENGTH
    &&& forall|i: int| 0 <= i < MAC_TEXT_LENGTH ==> #[trigger] is_well_placed(text, i)
}

/// The value of the `k`-th octet that `text` writes.
pub open spec fn octet(text: Seq<char>, k: int) -> int {
    16 * hex_value(text[3 * k]) + hex_value(text[3 * k + 1])
}

/// The six octets that `text` writes.
pub open spec fn mac_octets(text: Seq<char>) -> Seq<u8> {
    Seq::new(MAC_LENGTH as nat, |k: int| octet(text, k) as u8)
}

/// What is wrong with a text that writes no hardware address.
pub open spec fn mac_text_error(text: Seq<char>) -> MacParseError {
    if text.len() == MAC_TEXT_LENGTH && is_ascii_chars(text) {
        MacParseError::InvalidDigit
    } else {
        MacParseError::InvalidLength
    }
}

/// A text that writes a hardware address is made of ASCII characters.
pub proof fn lemma_mac_text_is_ascii(text: Seq<char>)
    ensures
        is_mac_text(text) ==> is_ascii_chars(text),
{
    if is_mac_text(text) {
        assert forall|i: int| 0 <= i < text.len() implies '\0' <= #[trigger] text[i] <= '\u{7f}' by {
            assert(is_well_placed(text, i));
        }
    }
}

/// Hands `text` to the parser that `mac_address::MacAddress` has through
/// `FromStr`, and returns the bytes of the address that it read
/// (`MacAddress::bytes`) or tells which of its two errors it gave. The
/// contract covers the texts of six two-digit octets only: the parser accepts
/// each of them and reads every octet as the number that its two digits spell.
#[verifier::external_body]
fn read_mac_address(text: &str) -> (r: Result<[u8; MAC_LENGTH], MacParseError>)
    requires
        is_mac_text(text@),
    ensures
        r is Ok,
        r.unwrap()@ == mac_octets(text@),
{
    match text.parse::<mac_address::MacAddress>() {
        Ok(address) => Ok(address.bytes()),
        Err(mac_address::MacParseError::InvalidDigit) => Err(MacParseError::InvalidDigit),
        Err(mac_address::MacParseError::InvalidLength) => Err(MacParseError::InvalidLength),
    }
}

/// Tells whether the byte `b` is the code of a character that is in place at
/// `i` in the text of a hardware address.
fn is_well_placed_byte(b: u8, i: usize) -> (r: bool)
    requires
        b < 128,
    ensures
        i % 3 == 2 ==> r == is_separator(b as char),
        i % 3 != 2 ==> r == is_hex_digit(b as char),
{
    if i % 3 == 2 {
        b == 0x3A || b == 0x2D
    } else {
        (0x30 <= b && b <= 0x39) || (0x61 <= b && b <= 0x66) || (0x41 <= b && b <= 0x46)
    }
}

/// Reads the hardware address that `text` writes.
pub fn parse_mac(text: &str) -> (r: Result<[u8; MAC_LENGTH], MacParseError>)
    ensures
        match r {
            Ok(address) => is_mac_text(text@) && address@ == mac_octets(text@),
            Err(e) => !is_mac_text(text@) && e == mac_text_error(text@),
        },
{
    let bytes = text.as_bytes();
    proof {
        lemma_mac_text_is_ascii(text@);
        vstd::string::is_ascii_spec_bytes(text);
    }
    if !text.is_ascii() || bytes.len() != MAC_TEXT_LENGTH {
        return Err(MacParseError::InvalidLength);
    }
    let mut i: usize = 0;
    while i < MAC_TEXT_LENGTH
        invariant
            i <= MAC_TEXT_LENGTH,
            text@.len() == MAC_TEXT_LENGTH,
            is_ascii_chars(text@),
            bytes@ == Seq::new(text@.len(), |j: int| text@[j] as u8),
            forall|j: int| 0 <= j < i ==> #[trigger] is_well_placed(text@, j),
        decreases MAC_TEXT_LENGTH - i,
    {
        if !is_well_placed_byte(bytes[i], i) {
            assert(!is_well_placed(text@, i as int));
            return Err(MacParseError::InvalidDigit);
        }
        i += 1;
    }
    read_mac_address(text)
}

/// The bytes of a packet that was built, or the reason why none was.
pub open spec fn packet_view(r: Result<Vec<u8>, MacParseError>) -> Result<Seq<u8>, MacParseError> {
    match r {
        Ok(packet) => Ok(packet@),
        Err(e) => Err(e),
    }
}

/// What `text` leads to: the magic packet for the address that it writes, or
/// what is wrong with it.
pub open spec fn wol_packet(text: Seq<char>) -> Result<Seq<u8>, MacParseError> {
    if is_mac_text(text) {
        Ok(magic_packet(mac_octets(text)))
    } else {
        Err(mac_text_error(text))
    }
}

/// Builds the magic packet for the hardware address that `mac_str` writes.
pub fn create_wol_packet(mac_str: &str) -> (r: Result<Vec<u8>, MacParseError>)
    ensures
        packet_view(r) == wol_packet(mac_str@),
        is_mac_text(mac_str@) ==> r is Ok && has_magic_layout(
            r.unwrap()@,
            mac_octets(mac_str@),
        ),
{
    match parse_mac(mac_str) {
        Ok(address) => Ok(build_packet(address)),
        Err(e) => Err(e),
    }
}

/// Two texts with the same characters lead to the same packet, byte for
/// byte, or to the same failure.
pub proof fn lemma_same_text_same_packet(
    first: &str,
    second: &str,
    a: Result<Vec<u8>, MacParseError>,
    b: Result<Vec<u8>, MacParseError>,
)
    requires
        first@ == second@,
        packet_view(a) == wol_packet(first@),
        packet_view(b) == wol_packet(second@),
    ensures
        packet_view(a) == packet_view(b),
{
}

/// The socket address that a packet for the broadcast address `to_addr` is
/// sent to: that address, a colon, and the port for magic packets.
pub fn send_target(to_addr: &str) -> (r: String)
    ensures
        r@ == to_addr@ + seq![':', '9'],
{
    let mut r = to_addr.to_owned();
    r.append(":9");
    proof {
        reveal_strlit(":9");
        assert(":9"@ =~= seq![':', '9']);
    }
    r
}

} // verus!
