//! What `/sys/class/net` says of an interface.
use vstd::prelude::*;
use vstd::string::StringExecFns;
use crate::iface::NetDeviceEntry;
use crate::text;

verus! {

/// The character of a hexadecimal digit.
pub open spec fn hex_char(d: int) -> char {
    if d < 10 {
        (48 + d) as char
    } else {
        (87 + d) as char
    }
}

pub open spec fn hex_byte(b: u8) -> Seq<char> {
    seq![hex_char(b as int / 16), hex_char(b as int % 16)]
}

/// The hardware address, byte by byte, and the end of the line.
pub open spec fn mac_text(mac: Seq<u8>) -> Seq<char> {
    hex_byte(mac[0]) + ":"@ + hex_byte(mac[1]) + ":"@ + hex_byte(mac[2]) + ":"@ + hex_byte(mac[3])
        + ":"@ + hex_byte(mac[4]) + ":"@ + hex_byte(mac[5]) + "\n"@
}

fn push_hex(s: &mut String, d: u8)
    requires
        d < 16,
    ensures
        final(s)@ == old(s)@.push(hex_char(d as int)),
{
    let ghost before = s@;
    proof {
        reveal_strlit("0");
        reveal_strlit("1");
        reveal_strlit("2");
        reveal_strlit("3");
        reveal_strlit("4");
        reveal_strlit("5");
        reveal_strlit("6");
        reveal_strlit("7");
        reveal_strlit("8");
        reveal_strlit("9");
        reveal_strlit("a");
        reveal_strlit("b");
        reveal_strlit("c");
        reveal_strlit("d");
        reveal_strlit("e");
        reveal_strlit("f");
    }
    let t: &str = match d {
        0 => "0",
        1 => "1",
        2 => "2",
        3 => "3",
        4 => "4",
        5 => "5",
        6 => "6",
        7 => "7",
        8 => "8",
        9 => "9",
        10 => "a",
        11 => "b",
        12 => "c",
        13 => "d",
        14 => "e",
        _ => "f",
    };
    assert(t@ =~= seq![hex_char(d as int)]);
    s.append(t);
    assert(s@ =~= before.push(hex_char(d as int)));
}

fn push_byte(s: &mut String, b: u8)
    ensures
        final(s)@ == old(s)@ + hex_byte(b),
{
    let ghost before = s@;
    push_hex(s, b / 16);
    push_hex(s, b % 16);
    assert(s@ =~= before + hex_byte(b));
}

/// The file `address` of an interface.
pub fn format_mac(mac: [u8; 6]) -> (r: String)
    ensures
        r@ == mac_text(mac@),
{
    let mut s = String::new();
    push_byte(&mut s, mac[0]);
    s.append(":");
    push_byte(&mut s, mac[1]);
    s.append(":");
    push_byte(&mut s, mac[2]);
    s.append(":");
    push_byte(&mut s, mac[3]);
    s.append(":");
    push_byte(&mut s, mac[4]);
    s.append(":");
    push_byte(&mut s, mac[5]);
    s.append("\n");
    assert(s@ =~= mac_text(mac@));
    s
}

/// A file of an interface's directory.
pub struct SysfsFile {
    pub name: String,
    pub content: String,
}

/// The files of an interface's directory, `address` and `mtu`, in the order
/// in which they are made.
pub fn register(iface: &NetDeviceEntry) -> (r: Vec<SysfsFile>)
    ensures
        r@.len() == 2,
        r@[0].name@ == "address"@,
        r@[0].content@ == mac_text(iface@.hwaddr),
        r@[1].name@ == "mtu"@,
        r@[1].content@ == text::decimal(iface@.mtu as nat) + "\n"@,
{
    let mut mtu = String::new();
    text::push_decimal(&mut mtu, iface.mtu() as u64);
    mtu.append("\n");
    assert(mtu@ =~= text::decimal(iface@.mtu as nat) + "\n"@);
    let mut files: Vec<SysfsFile> = Vec::new();
    files.push(
        SysfsFile { name: "address".to_owned(), content: format_mac(iface.mac()) },
    );
    files.push(SysfsFile { name: "mtu".to_owned(), content: mtu });
    files
}

} // verus!
