//! Network address values: MAC addresses, IP addresses, CIDR-style
//! networks, and the address-or-interface forms.  Parsing an address and
//! rendering an IP address go through the outside crates / the core
//! library; everything around those calls is verified.

use vstd::prelude::*;

use crate::RosError;
use crate::ValueFormat;
use crate::text::find_char;
use crate::text::format_u64;
use crate::text::push_char;
use crate::text::spec_dec_digits;
use crate::text::spec_find_char;
use crate::text::substring;
use crate::value::RosValue;
use vstd::string::StrSliceExecFns;
use vstd::string::StringExecFns;

verus! {

/// A 48-bit hardware address, byte by byte.
#[derive(Debug, Clone, Copy, PartialEq, Eq, Structural)]
pub struct MacAddr {
    pub b0: u8,
    pub b1: u8,
    pub b2: u8,
    pub b3: u8,
    pub b4: u8,
    pub b5: u8,
}

impl View for MacAddr {
    type V = MacAddr;

    open spec fn view(&self) -> MacAddr {
        *self
    }
}

/// An IP address: four octets, or eight 16-bit segments.
#[derive(Debug, Clone, Copy, PartialEq, Eq, Structural)]
pub enum IpAddress {
    V4(u8, u8, u8, u8),
    V6(u16, u16, u16, u16, u16, u16, u16, u16),
}

impl View for IpAddress {
    type V = IpAddress;

    open spec fn view(&self) -> IpAddress {
        *self
    }
}

/// A CIDR-style network: an address and a prefix length.
#[derive(Debug, Clone, Copy, PartialEq, Eq, Structural)]
pub struct IpNetAddr {
    pub addr: IpAddress,
    pub prefix_len: u8,
}

impl View for IpNetAddr {
    type V = IpNetAddr;

    open spec fn view(&self) -> IpNetAddr {
        *self
    }
}

/// What a MAC address string parses to.
pub uninterp spec fn parsed_mac(s: Seq<char>) -> Option<MacAddr>;

/// What an IP address string parses to.
pub uninterp spec fn parsed_ip(s: Seq<char>) -> Option<IpAddress>;

/// How an IP address renders (the canonical dotted or compressed form).
pub uninterp spec fn ip_text_of(ip: IpAddress) -> Seq<char>;

/// What a `address/prefix` network string parses to.
pub uninterp spec fn parsed_ip_net(s: Seq<char>) -> Option<IpNetAddr>;

/// Relies on mac_address's `MacAddress::from_str` (six hex pairs joined
/// by `:` or `-`, or twelve bare hex digits) to parse, and on
/// `MacAddress::bytes` to hand the six bytes out.
#[verifier::external_body]
pub fn parse_mac_str(s: &str) -> (r: Option<MacAddr>)
    ensures
        r == parsed_mac(s@),
{
    match s.parse::<mac_address::MacAddress>() {
        Ok(m) => {
            let b = m.bytes();
            Some(MacAddr { b0: b[0], b1: b[1], b2: b[2], b3: b[3], b4: b[4], b5: b[5] })
        },
        Err(_) => None,
    }
}

/// Relies on `core::net::IpAddr`'s `FromStr` to parse dotted-quad and
/// RFC 4291 forms, and on `octets`/`segments` to hand the parts out.
#[verifier::external_body]
pub fn parse_ip_str(s: &str) -> (r: Option<IpAddress>)
    ensures
        r == parsed_ip(s@),
{
    match s.parse::<core::net::IpAddr>() {
        Ok(core::net::IpAddr::V4(v4)) => {
            let o = v4.octets();
            Some(IpAddress::V4(o[0], o[1], o[2], o[3]))
        },
        Ok(core::net::IpAddr::V6(v6)) => {
            let g = v6.segments();
            Some(IpAddress::V6(g[0], g[1], g[2], g[3], g[4], g[5], g[6], g[7]))
        },
        Err(_) => None,
    }
}

/// Relies on `core::net::IpAddr`'s `Display`: the canonical text of the
/// address, a function of its parts alone.
#[verifier::external_body]
pub fn ip_to_text(ip: &IpAddress) -> (r: String)
    ensures
        r@ == ip_text_of(*ip),
{
    let v: core::net::IpAddr = match *ip {
        IpAddress::V4(a, b, c, d) => core::net::Ipv4Addr::new(a, b, c, d).into(),
        IpAddress::V6(a, b, c, d, e, f, g, h) => core::net::Ipv6Addr::new(
            a, b, c, d, e, f, g, h,
        ).into(),
    };
    v.to_string()
}

/// Relies on ipnet's `IpNet::FromStr` (`address/prefix`, the prefix
/// bounded by the address family) to parse, and on `addr`/`prefix_len`
/// to hand the parts out.
#[verifier::external_body]
pub fn parse_ip_net_str(s: &str) -> (r: Option<IpNetAddr>)
    ensures
        r == parsed_ip_net(s@),
{
    match s.parse::<ipnet::IpNet>() {
        Ok(ipnet::IpNet::V4(n)) => {
            let o = n.addr().octets();
            let addr = IpAddress::V4(o[0], o[1], o[2], o[3]);
            Some(IpNetAddr { addr, prefix_len: n.prefix_len() })
        },
        Ok(ipnet::IpNet::V6(n)) => {
            let g = n.addr().segments();
            let addr = IpAddress::V6(g[0], g[1], g[2], g[3], g[4], g[5], g[6], g[7]);
            Some(IpNetAddr { addr, prefix_len: n.prefix_len() })
        },
        Err(_) => None,
    }
}

pub open spec fn hex_digit_char_upper(d: nat) -> char {
    if d == 0 {
        '0'
    } else if d == 1 {
        '1'
    } else if d == 2 {
        '2'
    } else if d == 3 {
        '3'
    } else if d == 4 {
        '4'
    } else if d == 5 {
        '5'
    } else if d == 6 {
        '6'
    } else if d == 7 {
        '7'
    } else if d == 8 {
        '8'
    } else if d == 9 {
        '9'
    } else if d == 10 {
        'A'
    } else if d == 11 {
        'B'
    } else if d == 12 {
        'C'
    } else if d == 13 {
        'D'
    } else if d == 14 {
        'E'
    } else {
        'F'
    }
}

/// A byte as two uppercase hex digits.
pub open spec fn hex_byte(b: u8) -> Seq<char> {
    seq![hex_digit_char_upper(b as nat / 16), hex_digit_char_upper(b as nat % 16)]
}

/// The canonical MAC text: uppercase hex pairs joined with colons.
pub open spec fn mac_text_of(m: MacAddr) -> Seq<char> {
    hex_byte(m.b0) + seq![':'] + hex_byte(m.b1) + seq![':'] + hex_byte(m.b2) + seq![':']
        + hex_byte(m.b3) + seq![':'] + hex_byte(m.b4) + seq![':'] + hex_byte(m.b5)
}

fn hex_digit_upper(d: u8) -> (c: char)
    requires
        d < 16,
    ensures
        c == hex_digit_char_upper(d as nat),
{
    match d {
        0 => '0',
        1 => '1',
        2 => '2',
        3 => '3',
        4 => '4',
        5 => '5',
        6 => '6',
        7 => '7',
        8 => '8',
        9 => '9',
        10 => 'A',
        11 => 'B',
        12 => 'C',
        13 => 'D',
        14 => 'E',
        _ => 'F',
    }
}

fn push_hex_byte(out: &mut String, b: u8)
    ensures
        final(out)@ == old(out)@ + hex_byte(b),
{
    push_char(out, hex_digit_upper(b / 16));
    push_char(out, hex_digit_upper(b % 16));
    proof {
        assert(final(out)@ =~= old(out)@ + hex_byte(b));
    }
}

impl RosValue for MacAddr {
    open spec fn decode_spec(s: Seq<char>) -> Option<MacAddr> {
        parsed_mac(s)
    }

    open spec fn encode_spec(v: MacAddr, f: ValueFormat) -> Seq<char> {
        mac_text_of(v)
    }

    open spec fn veq(a: MacAddr, b: MacAddr) -> bool {
        a == b
    }

    proof fn veq_reflexive(a: MacAddr) {
    }

    proof fn veq_symmetric(a: MacAddr, b: MacAddr) {
    }

    proof fn veq_transitive(a: MacAddr, b: MacAddr, c: MacAddr) {
    }

    fn from_api(value: &str) -> (r: Result<Self, RosError>) {
        match parse_mac_str(value) {
            Some(m) => Ok(m),
            None => Err(RosError::MacParseError(value.to_owned())),
        }
    }

    fn to_api(&self, format: &ValueFormat) -> (r: String) {
        let mut out = String::new();
        push_hex_byte(&mut out, self.b0);
        push_char(&mut out, ':');
        push_hex_byte(&mut out, self.b1);
        push_char(&mut out, ':');
        push_hex_byte(&mut out, self.b2);
        push_char(&mut out, ':');
        push_hex_byte(&mut out, self.b3);
        push_char(&mut out, ':');
        push_hex_byte(&mut out, self.b4);
        push_char(&mut out, ':');
        push_hex_byte(&mut out, self.b5);
        proof {
            assert(out@ =~= mac_text_of(*self));
        }
        out
    }

    fn eq_value(&self, other: &Self) -> (r: bool) {
        self.b0 == other.b0 && self.b1 == other.b1 && self.b2 == other.b2 && self.b3
            == other.b3 && self.b4 == other.b4 && self.b5 == other.b5
    }
}

impl RosValue for IpAddress {
    open spec fn decode_spec(s: Seq<char>) -> Option<IpAddress> {
        parsed_ip(s)
    }

    open spec fn encode_spec(v: IpAddress, f: ValueFormat) -> Seq<char> {
        ip_text_of(v)
    }

    open spec fn veq(a: IpAddress, b: IpAddress) -> bool {
        a == b
    }

    proof fn veq_reflexive(a: IpAddress) {
    }

    proof fn veq_symmetric(a: IpAddress, b: IpAddress) {
    }

    proof fn veq_transitive(a: IpAddress, b: IpAddress, c: IpAddress) {
    }

    fn from_api(value: &str) -> (r: Result<Self, RosError>) {
        match parse_ip_str(value) {
            Some(ip) => Ok(ip),
            None => Err(RosError::AddrParseError(value.to_owned())),
        }
    }

    fn to_api(&self, format: &ValueFormat) -> (r: String) {
        ip_to_text(self)
    }

    fn eq_value(&self, other: &Self) -> (r: bool) {
        match (self, other) {
            (IpAddress::V4(a0, a1, a2, a3), IpAddress::V4(b0, b1, b2, b3)) => a0 == b0 && a1
                == b1 && a2 == b2 && a3 == b3,
            (
                IpAddress::V6(a0, a1, a2, a3, a4, a5, a6, a7),
                IpAddress::V6(b0, b1, b2, b3, b4, b5, b6, b7),
            ) => a0 == b0 && a1 == b1 && a2 == b2 && a3 == b3 && a4 == b4 && a5 == b5 && a6
                == b6 && a7 == b7,
            _ => false,
        }
    }
}

/// The network's text: the address, a slash, the prefix length in decimal.
pub open spec fn ip_net_text_of(n: IpNetAddr) -> Seq<char> {
    ip_text_of(n.addr) + seq!['/'] + spec_dec_digits(n.prefix_len as nat)
}

impl RosValue for IpNetAddr {
    open spec fn decode_spec(s: Seq<char>) -> Option<IpNetAddr> {
        parsed_ip_net(s)
    }

    open spec fn encode_spec(v: IpNetAddr, f: ValueFormat) -> Seq<char> {
        ip_net_text_of(v)
    }

    open spec fn veq(a: IpNetAddr, b: IpNetAddr) -> bool {
        a == b
    }

    proof fn veq_reflexive(a: IpNetAddr) {
    }

    proof fn veq_symmetric(a: IpNetAddr, b: IpNetAddr) {
    }

    proof fn veq_transitive(a: IpNetAddr, b: IpNetAddr, c: IpNetAddr) {
    }

    fn from_api(value: &str) -> (r: Result<Self, RosError>) {
        match parse_ip_net_str(value) {
            Some(n) => Ok(n),
            None => Err(RosError::IpNetAddrParseError(value.to_owned())),
        }
    }

    fn to_api(&self, format: &ValueFormat) -> (r: String) {
        let mut out = ip_to_text(&self.addr);
        push_char(&mut out, '/');
        let digits = format_u64(self.prefix_len as u64);
        out.append(digits.as_str());
        proof {
            assert(out@ =~= ip_net_text_of(*self));
        }
        out
    }

    fn eq_value(&self, other: &Self) -> (r: bool) {
        self.addr.eq_value(&other.addr) && self.prefix_len == other.prefix_len
    }
}

/// A network tagged with the VLAN it lives on.
#[derive(Debug, Clone, Copy, PartialEq, Eq, Structural)]
pub struct VlanIpNetAddr {
    pub vlan_id: u16,
    pub ip: IpNetAddr,
}

impl VlanIpNetAddr {
    pub fn new(vlan_id: u16, ip: IpNetAddr) -> (r: Self)
        ensures
            r.vlan_id == vlan_id,
            r.ip == ip,
    {
        VlanIpNetAddr { vlan_id, ip }
    }

    pub fn net(self) -> (r: IpNetAddr)
        ensures
            r == self.ip,
    {
        self.ip
    }
}

impl Default for VlanIpNetAddr {
    fn default() -> (r: Self)
        ensures
            r.vlan_id == 0,
            r.ip.prefix_len == 0,
            r.ip.addr == IpAddress::V4(0, 0, 0, 0),
    {
        VlanIpNetAddr {
            vlan_id: 0,
            ip: IpNetAddr { addr: IpAddress::V4(0, 0, 0, 0), prefix_len: 0 },
        }
    }
}

/// An address bound to a named interface, written `ip%interface`.
#[derive(Debug, Clone)]
pub struct IpWithInterface {
    ip: IpAddress,
    interface: String,
}

/// The mathematical shape of an interface-bound address.
pub ghost struct IpWithInterfaceV {
    pub ip: IpAddress,
    pub interface: Seq<char>,
}

impl View for IpWithInterface {
    type V = IpWithInterfaceV;

    closed spec fn view(&self) -> IpWithInterfaceV {
        IpWithInterfaceV { ip: self.ip, interface: self.interface@ }
    }
}

impl IpWithInterface {
    pub fn get_ip(&self) -> (r: IpAddress)
        ensures
            r == self@.ip,
    {
        self.ip
    }

    pub fn get_interface(&self) -> (r: &str)
        ensures
            r@ == self@.interface,
    {
        self.interface.as_str()
    }
}

/// What `ip%interface` text means: the part before the first `%` must be
/// an address, the rest names the interface.
pub open spec fn spec_decode_ip_if(s: Seq<char>) -> Option<IpWithInterfaceV> {
    match spec_find_char(s, '%') {
        Some(i) => match parsed_ip(s.take(i)) {
            Some(ip) => Some(IpWithInterfaceV { ip, interface: s.skip(i + 1) }),
            None => None,
        },
        None => None,
    }
}

pub open spec fn spec_encode_ip_if(v: IpWithInterfaceV) -> Seq<char> {
    ip_text_of(v.ip) + seq!['%'] + v.interface
}

impl RosValue for IpWithInterface {
    open spec fn decode_spec(s: Seq<char>) -> Option<IpWithInterfaceV> {
        spec_decode_ip_if(s)
    }

    open spec fn encode_spec(v: IpWithInterfaceV, f: ValueFormat) -> Seq<char> {
        spec_encode_ip_if(v)
    }

    open spec fn veq(a: IpWithInterfaceV, b: IpWithInterfaceV) -> bool {
        a == b
    }

    proof fn veq_reflexive(a: IpWithInterfaceV) {
    }

    proof fn veq_symmetric(a: IpWithInterfaceV, b: IpWithInterfaceV) {
    }

    proof fn veq_transitive(a: IpWithInterfaceV, b: IpWithInterfaceV, c: IpWithInterfaceV) {
    }

    fn from_api(value: &str) -> (r: Result<Self, RosError>) {
        let len = value.unicode_len();
        match find_char(value, '%') {
            Some(i) => {
                let ip_text = substring(value, 0, i);
                let if_name = substring(value, i + 1, len);
                proof {
                    assert(ip_text@ =~= value@.take(i as int));
                    assert(if_name@ =~= value@.skip(i + 1));
                }
                match parse_ip_str(ip_text.as_str()) {
                    Some(ip) => Ok(IpWithInterface { ip, interface: if_name }),
                    None => Err(RosError::AddrParseError(value.to_owned())),
                }
            },
            None => Err(RosError::AddrParseError(value.to_owned())),
        }
    }

    fn to_api(&self, format: &ValueFormat) -> (r: String) {
        let mut out = ip_to_text(&self.ip);
        push_char(&mut out, '%');
        out.append(self.interface.as_str());
        proof {
            assert(out@ =~= spec_encode_ip_if(self@));
        }
        out
    }

    fn eq_value(&self, other: &Self) -> (r: bool) {
        self.ip.eq_value(&other.ip) && crate::text::str_eq(
            self.interface.as_str(),
            other.interface.as_str(),
        )
    }
}

/// An address, an interface name, or an address bound to an interface.
#[derive(Debug, Clone)]
pub enum IpOrInterface {
    Ip(IpAddress),
    Interface(String),
    IpWithInterface(IpWithInterface),
}

/// The mathematical shape of `IpOrInterface`.
pub ghost enum IpOrInterfaceV {
    Ip(IpAddress),
    Interface(Seq<char>),
    IpWithInterface(IpWithInterfaceV),
}

impl View for IpOrInterface {
    type V = IpOrInterfaceV;

    open spec fn view(&self) -> IpOrInterfaceV {
        match self {
            IpOrInterface::Ip(ip) => IpOrInterfaceV::Ip(*ip),
            IpOrInterface::Interface(n) => IpOrInterfaceV::Interface(n@),
            IpOrInterface::IpWithInterface(v) => IpOrInterfaceV::IpWithInterface(v@),
        }
    }
}

impl IpOrInterface {
    pub fn ip(&self) -> (r: Option<IpAddress>)
        ensures
            r == match self@ {
                IpOrInterfaceV::Ip(ip) => Some(ip),
                IpOrInterfaceV::Interface(_) => None::<IpAddress>,
                IpOrInterfaceV::IpWithInterface(v) => Some(v.ip),
            },
    {
        match self {
            IpOrInterface::Ip(ip) => Some(*ip),
            IpOrInterface::Interface(_) => None,
            IpOrInterface::IpWithInterface(v) => Some(v.get_ip()),
        }
    }

    pub fn if_name(&self) -> (r: Option<&str>)
        ensures
            match (r, self@) {
                (None, IpOrInterfaceV::Ip(_)) => true,
                (Some(n), IpOrInterfaceV::Interface(m)) => n@ == m,
                (Some(n), IpOrInterfaceV::IpWithInterface(v)) => n@ == v.interface,
                _ => false,
            },
    {
        match self {
            IpOrInterface::Ip(_) => None,
            IpOrInterface::Interface(n) => Some(n.as_str()),
            IpOrInterface::IpWithInterface(v) => Some(v.get_interface()),
        }
    }
}

/// What the text means: an interface-bound address when it parses as one,
/// else a plain address when it parses as one, else an interface name.
pub open spec fn spec_decode_ip_or_if(s: Seq<char>) -> IpOrInterfaceV {
    match spec_decode_ip_if(s) {
        Some(v) => IpOrInterfaceV::IpWithInterface(v),
        None => match parsed_ip(s) {
            Some(ip) => IpOrInterfaceV::Ip(ip),
            None => IpOrInterfaceV::Interface(s),
        },
    }
}

impl RosValue for IpOrInterface {
    open spec fn decode_spec(s: Seq<char>) -> Option<IpOrInterfaceV> {
        Some(spec_decode_ip_or_if(s))
    }

    open spec fn encode_spec(v: IpOrInterfaceV, f: ValueFormat) -> Seq<char> {
        match v {
            IpOrInterfaceV::Ip(ip) => ip_text_of(ip),
            IpOrInterfaceV::Interface(n) => n,
            IpOrInterfaceV::IpWithInterface(w) => spec_encode_ip_if(w),
        }
    }

    open spec fn veq(a: IpOrInterfaceV, b: IpOrInterfaceV) -> bool {
        a == b
    }

    proof fn veq_reflexive(a: IpOrInterfaceV) {
    }

    proof fn veq_symmetric(a: IpOrInterfaceV, b: IpOrInterfaceV) {
    }

    proof fn veq_transitive(a: IpOrInterfaceV, b: IpOrInterfaceV, c: IpOrInterfaceV) {
    }

    fn from_api(value: &str) -> (r: Result<Self, RosError>) {
        match <IpWithInterface as RosValue>::from_api(value) {
            Ok(v) => Ok(IpOrInterface::IpWithInterface(v)),
            Err(_) => match parse_ip_str(value) {
                Some(ip) => Ok(IpOrInterface::Ip(ip)),
                None => Ok(IpOrInterface::Interface(value.to_owned())),
            },
        }
    }

    fn to_api(&self, format: &ValueFormat) -> (r: String) {
        match self {
            IpOrInterface::Ip(ip) => ip_to_text(ip),
            IpOrInterface::Interface(n) => n.clone(),
            IpOrInterface::IpWithInterface(v) => v.to_api(format),
        }
    }

    fn eq_value(&self, other: &Self) -> (r: bool) {
        match (self, other) {
            (IpOrInterface::Ip(a), IpOrInterface::Ip(b)) => a.eq_value(b),
            (IpOrInterface::Interface(a), IpOrInterface::Interface(b)) => crate::text::str_eq(
                a.as_str(),
                b.as_str(),
            ),
            (IpOrInterface::IpWithInterface(a), IpOrInterface::IpWithInterface(b)) => a
                .eq_value(b),
            _ => false,
        }
    }
}

} // verus!
