//! Network set-up decisions of the firmware: how it authenticates to Wi-Fi
//! and the name it advertises over mDNS.

use vstd::prelude::*;

verus! {

/// Service / instance name advertised over mDNS. Clients reach the board at
/// `<MDNS_INSTANCE_BASE>-<mac4>.local`.
pub const MDNS_INSTANCE_BASE: &'static str = "local-hid";

/// How the station authenticates to the access point.
#[derive(Debug, Clone, Copy, PartialEq, Eq, Structural)]
pub enum WifiAuth {
    /// Open network.
    Open,
    /// WPA2-Personal with the configured password.
    Wpa2Personal,
}

/// An empty password means an open network; any other is WPA2-Personal.
pub fn wifi_auth(password: &str) -> (auth: WifiAuth)
    ensures
        auth == (if password@.len() == 0 {
            WifiAuth::Open
        } else {
            WifiAuth::Wpa2Personal
        }),
{
    if password.is_empty() {
        WifiAuth::Open
    } else {
        WifiAuth::Wpa2Personal
    }
}

/// Lower-case hexadecimal digit of a nibble.
pub open spec fn hex_digit(n: nat) -> char {
    if n < 10 {
        (48 + n) as char
    } else {
        (87 + n) as char
    }
}

/// Two lower-case hexadecimal digits of a byte, zero-padded.
pub open spec fn hex_byte(b: u8) -> Seq<char> {
    seq![hex_digit((b / 16) as nat), hex_digit((b % 16) as nat)]
}

/// The mDNS host name of a board with station MAC `mac`: the instance base,
/// a dash, and the last two MAC bytes in lower-case hex, so that boards on
/// one network do not compete for one name.
pub open spec fn spec_mdns_hostname(mac: Seq<u8>) -> Seq<char> {
    MDNS_INSTANCE_BASE@ + seq!['-'] + hex_byte(mac[4]) + hex_byte(mac[5])
}

fn hex_digit_str(n: u8) -> (s: &'static str)
    requires
        n < 16,
    ensures
        s@ == seq![hex_digit(n as nat)],
{
    proof {
        reveal_strlit("0");
        reveal_strlit("1");
        reveal_strlit("2");
        reveal_strlit("3");
        reveal_strlit("4");
        reveal_strlit("5");
        reveal_strlit("6");
        reveal_strlit("7");
        reveal_strlit("8");
        reveal_strlit("9");
        reveal_strlit("a");
        reveal_strlit("b");
        reveal_strlit("c");
        reveal_strlit("d");
        reveal_strlit("e");
        reveal_strlit("f");
    }
    if n == 0 {
        "0"
    } else if n == 1 {
        "1"
    } else if n == 2 {
        "2"
    } else if n == 3 {
        "3"
    } else if n == 4 {
        "4"
    } else if n == 5 {
        "5"
    } else if n == 6 {
        "6"
    } else if n == 7 {
        "7"
    } else if n == 8 {
        "8"
    } else if n == 9 {
        "9"
    } else if n == 10 {
        "a"
    } else if n == 11 {
        "b"
    } else if n == 12 {
        "c"
    } else if n == 13 {
        "d"
    } else if n == 14 {
        "e"
    } else {
        "f"
    }
}

/// Builds the stable per-device mDNS host name from the station MAC.
pub fn mdns_hostname(mac: &[u8; 6]) -> (name: String)
    ensures
        name@ == spec_mdns_hostname(mac@),
{
    let mut name = String::new();
    name.append(MDNS_INSTANCE_BASE);
    proof {
        reveal_strlit("-");
    }
    name.append("-");
    name.append(hex_digit_str(mac[4] / 16));
    name.append(hex_digit_str(mac[4] % 16));
    name.append(hex_digit_str(mac[5] / 16));
    name.append(hex_digit_str(mac[5] % 16));
    name
}

/// The value of a lower-case hexadecimal digit character.
pub open spec fn hex_value(c: char) -> int {
    if '0' <= c && c <= '9' {
        c as int - '0' as int
    } else {
        c as int - 'a' as int + 10
    }
}

/// Whether a character is a lower-case hexadecimal digit.
pub open spec fn is_lower_hex(c: char) -> bool {
    ('0' <= c && c <= '9') || ('a' <= c && c <= 'f')
}

/// Each nibble is written as its character in `"0123456789abcdef"`.
pub proof fn lemma_hex_digit_is_table_entry(n: nat)
    requires
        n < 16,
    ensures
        hex_digit(n) == "0123456789abcdef"@[n as int],
{
    reveal_strlit("0123456789abcdef");
}

/// The host name spells `"local-hid-"` followed by the last two MAC bytes in
/// zero-padded lower-case hexadecimal: it has four digit characters, each a
/// lower-case hex digit, and the digits read back as `mac[4]` and `mac[5]`.
pub proof fn lemma_hostname_spells_mac_in_hex(mac: Seq<u8>)
    requires
        mac.len() == 6,
    ensures
        spec_mdns_hostname(mac).len() == 14,
        spec_mdns_hostname(mac).subrange(0, 10) == "local-hid-"@,
        forall|i: int| 10 <= i < 14 ==> is_lower_hex(#[trigger] spec_mdns_hostname(mac)[i]),
        hex_value(spec_mdns_hostname(mac)[10]) == mac[4] / 16,
        hex_value(spec_mdns_hostname(mac)[11]) == mac[4] % 16,
        hex_value(spec_mdns_hostname(mac)[12]) == mac[5] / 16,
        hex_value(spec_mdns_hostname(mac)[13]) == mac[5] % 16,
        16 * hex_value(spec_mdns_hostname(mac)[10]) + hex_value(spec_mdns_hostname(mac)[11])
            == mac[4],
        16 * hex_value(spec_mdns_hostname(mac)[12]) + hex_value(spec_mdns_hostname(mac)[13])
            == mac[5],
{
    reveal_strlit("local-hid");
    reveal_strlit("local-hid-");
    let h = spec_mdns_hostname(mac);
    assert(h.subrange(0, 10) =~= "local-hid-"@);
}

/// The host name depends on the last two MAC bytes only.
pub proof fn lemma_hostname_depends_on_last_two_bytes(a: Seq<u8>, b: Seq<u8>)
    requires
        a.len() == 6,
        b.len() == 6,
        a[4] == b[4],
        a[5] == b[5],
    ensures
        spec_mdns_hostname(a) == spec_mdns_hostname(b),
{
}

} // verus!
