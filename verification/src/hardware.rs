//! The supported device models: recognising one from its board name, its
//! switch chip, and the interface names it ships with.  `init` seeds a
//! script backend with those defaults.

use vstd::prelude::*;

use crate::RosError;
use crate::client::ResourceListAccess;
use crate::client::ResourceSingleAccess;
use crate::config::ConfigClient;
use crate::resources::Ethernet;
use crate::resources::EthernetDefaultNameField;
use crate::resources::SystemResource;
use crate::resources::Wireless;
use crate::resources::WirelessDefaultNameField;
use crate::text::format_u64;
use crate::text::spec_dec_digits;
use vstd::string::StrSliceExecFns;
use vstd::string::StringExecFns;

verus! {

/// The device models this library knows.
#[derive(Debug, Clone, Copy, PartialEq, Eq, Structural)]
pub enum MikrotikModel {
    Crs109,
    Crs326,
}

/// The switch chip a model carries.
#[derive(Debug, Clone, Copy, PartialEq, Eq, Structural)]
pub enum SwitchChip {
    Qca8513L,
    Dx3236,
}

/// Does `s` start with `prefix`?
pub open spec fn spec_starts_with(s: Seq<char>, prefix: Seq<char>) -> bool {
    s.len() >= prefix.len() && s.take(prefix.len() as int) == prefix
}

fn starts_with(s: &str, prefix: &str) -> (r: bool)
    ensures
        r == spec_starts_with(s@, prefix@),
{
    let n = s.unicode_len();
    let m = prefix.unicode_len();
    if n < m {
        return false;
    }
    let mut i: usize = 0;
    while i < m
        invariant
            n == s@.len(),
            m == prefix@.len(),
            m <= n,
            0 <= i <= m,
            forall|j: int| 0 <= j < i ==> s@[j] == prefix@[j],
        decreases m - i,
    {
        if s.get_char(i) != prefix.get_char(i) {
            proof {
                assert(s@.take(m as int)[i as int] != prefix@[i as int]);
            }
            return false;
        }
        i = i + 1;
    }
    proof {
        assert(s@.take(m as int) =~= prefix@);
    }
    true
}

/// The name `ether<n>`.
pub open spec fn ether_name(n: nat) -> Seq<char> {
    "ether"@ + spec_dec_digits(n)
}

/// The name `sfp-sfpplus<n>`.
pub open spec fn sfpplus_name(n: nat) -> Seq<char> {
    "sfp-sfpplus"@ + spec_dec_digits(n)
}

fn numbered_name(prefix: &str, n: u64) -> (r: String)
    ensures
        r@ == prefix@ + spec_dec_digits(n as nat),
{
    let mut out = prefix.to_owned();
    let digits = format_u64(n);
    out.append(digits.as_str());
    out
}

impl MikrotikModel {
    /// Recognises a model from a board name: the name's leading characters
    /// decide, and an unknown board is no model.
    pub fn parse_board_name(board: &str) -> (r: Option<MikrotikModel>)
        ensures
            match r {
                Some(MikrotikModel::Crs109) => spec_starts_with(board@, "CRS109"@),
                Some(MikrotikModel::Crs326) => !spec_starts_with(board@, "CRS109"@)
                    && spec_starts_with(board@, "CRS326"@),
                None => !spec_starts_with(board@, "CRS109"@) && !spec_starts_with(
                    board@,
                    "CRS326"@,
                ),
            },
    {
        if starts_with(board, "CRS109") {
            Some(MikrotikModel::Crs109)
        } else if starts_with(board, "CRS326") {
            Some(MikrotikModel::Crs326)
        } else {
            None
        }
    }

    /// Recognises the model of the device a system record came from; an
    /// absent or unknown board name is an error naming the offending board.
    pub fn parse_system(resource: &SystemResource) -> (r: Result<MikrotikModel, RosError>)
        ensures
            match (r, resource.board_name.cur()) {
                (Ok(m), Some(b)) => Self::parse_board_name_matches(m, b),
                (Err(e), Some(b)) => !spec_starts_with(b, "CRS109"@) && !spec_starts_with(
                    b,
                    "CRS326"@,
                ) && (e matches RosError::SimpleMessage(msg) && msg@ == "Unsupported Board: "@
                    + b),
                (Err(e), None) => e matches RosError::SimpleMessage(msg) && msg@
                    == "Unsupported Board: "@,
                (Ok(_), None) => false,
            },
    {
        match resource.board_name.get() {
            Some(board) => {
                let b = board.clone();
                match Self::parse_board_name(b.as_str()) {
                    Some(m) => Ok(m),
                    None => {
                        let mut msg = "Unsupported Board: ".to_owned();
                        msg.append(b.as_str());
                        Err(RosError::SimpleMessage(msg))
                    },
                }
            },
            None => Err(RosError::SimpleMessage("Unsupported Board: ".to_owned())),
        }
    }

    /// Which model a board name maps to.
    pub open spec fn parse_board_name_matches(m: MikrotikModel, board: Seq<char>) -> bool {
        match m {
            MikrotikModel::Crs109 => spec_starts_with(board, "CRS109"@),
            MikrotikModel::Crs326 => !spec_starts_with(board, "CRS109"@) && spec_starts_with(
                board,
                "CRS326"@,
            ),
        }
    }

    pub fn switch_chip(&self) -> (r: SwitchChip)
        ensures
            r == match self {
                MikrotikModel::Crs109 => SwitchChip::Qca8513L,
                MikrotikModel::Crs326 => SwitchChip::Dx3236,
            },
    {
        match self {
            MikrotikModel::Crs109 => SwitchChip::Qca8513L,
            MikrotikModel::Crs326 => SwitchChip::Dx3236,
        }
    }

    /// The ethernet interfaces the model ships with: numbered `ether`
    /// ports, then the fibre ports.
    pub fn ethernet_interface_names(&self) -> (r: Vec<String>)
        ensures
            match self {
                MikrotikModel::Crs109 => r@.len() == 9 && (forall|i: int|
                    0 <= i < 8 ==> (#[trigger] r@[i])@ == ether_name((i + 1) as nat)) && r@[
                    8]@ == "sfp1"@,
                MikrotikModel::Crs326 => r@.len() == 26 && (forall|i: int|
                    0 <= i < 24 ==> (#[trigger] r@[i])@ == ether_name((i + 1) as nat)) && r@[
                    24]@ == sfpplus_name(1) && r@[25]@ == sfpplus_name(2),
            },
    {
        let mut out: Vec<String> = Vec::new();
        let ether_count: u64 = match self {
            MikrotikModel::Crs109 => 8,
            MikrotikModel::Crs326 => 24,
        };
        let mut n: u64 = 1;
        while n <= ether_count
            invariant
                1 <= n <= ether_count + 1,
                ether_count <= 24,
                out@.len() == n - 1,
                forall|i: int| 0 <= i < n - 1 ==> (#[trigger] out@[i])@ == ether_name(
                    (i + 1) as nat,
                ),
            decreases ether_count + 1 - n,
        {
            out.push(numbered_name("ether", n));
            n = n + 1;
        }
        match self {
            MikrotikModel::Crs109 => {
                out.push("sfp1".to_owned());
            },
            MikrotikModel::Crs326 => {
                out.push(numbered_name("sfp-sfpplus", 1));
                out.push(numbered_name("sfp-sfpplus", 2));
            },
        }
        out
    }

    /// The wireless interfaces the model ships with.
    pub fn wireless_interface_names(&self) -> (r: Vec<String>)
        ensures
            match self {
                MikrotikModel::Crs109 => r@.len() == 1 && r@[0]@ == "wlan1"@,
                MikrotikModel::Crs326 => r@.len() == 0,
            },
    {
        let mut out: Vec<String> = Vec::new();
        match self {
            MikrotikModel::Crs109 => {
                out.push("wlan1".to_owned());
            },
            MikrotikModel::Crs326 => {},
        }
        out
    }

    /// The board name `init` writes into the system record.
    pub fn board_name(&self) -> (r: &'static str)
        ensures
            r@ == match self {
                MikrotikModel::Crs109 => "CRS109 Dummy"@,
                MikrotikModel::Crs326 => "CRS326 Dummy"@,
            },
    {
        match self {
            MikrotikModel::Crs109 => "CRS109 Dummy",
            MikrotikModel::Crs326 => "CRS326 Dummy",
        }
    }

    /// Seeds a script backend with the model's default interfaces and
    /// board name, committing them into its mirror, and drops the
    /// generated script text.  On success the backend's script buffer is
    /// empty again and its mirror carries the defaults.
    pub fn init(&self, client: &mut ConfigClient) -> (r: Result<(), RosError>)
        ensures
            r is Ok ==> final(client).output_spec().len() == 0 && final(client).context_spec().len() == 0,
    {
        let mut eth = match ResourceListAccess::<Ethernet>::fetch(client) {
            Ok(a) => a,
            Err(e) => {
                return Err(e);
            },
        };
        let mut wlan = match ResourceListAccess::<Wireless>::fetch(client) {
            Ok(a) => a,
            Err(e) => {
                return Err(e);
            },
        };
        let mut system = match ResourceSingleAccess::<SystemResource>::get(client) {
            Ok(a) => a,
            Err(e) => {
                return Err(e);
            },
        };
        let eth_names = self.ethernet_interface_names();
        let mut i: usize = 0;
        let n = eth_names.len();
        while i < n
            invariant
                n == eth_names@.len(),
                0 <= i <= n,
            decreases n - i,
        {
            let name = eth_names[i].clone();
            eth.get_or_create_by_value(&EthernetDefaultNameField, name);
            i = i + 1;
        }
        let wlan_names = self.wireless_interface_names();
        let mut j: usize = 0;
        let m = wlan_names.len();
        while j < m
            invariant
                m == wlan_names@.len(),
                0 <= j <= m,
            decreases m - j,
        {
            let name = wlan_names[j].clone();
            wlan.get_or_create_by_value(&WirelessDefaultNameField, name);
            j = j + 1;
        }
        system.data_mut().board_name.set(self.board_name().to_owned());
        match wlan.commit(client) {
            Ok(_) => {},
            Err(e) => {
                return Err(e);
            },
        }
        match eth.commit(client) {
            Ok(_) => {},
            Err(e) => {
                return Err(e);
            },
        }
        match system.commit(client) {
            Ok(_) => {},
            Err(e) => {
                return Err(e);
            },
        }
        let discarded = client.dump_cmd();
        Ok(())
    }
}

impl ConfigClient {
    /// A script backend whose mirror already holds a model's defaults.
    pub fn with_default_config(model: MikrotikModel) -> (r: Result<ConfigClient, RosError>)
        ensures
            r matches Ok(c) ==> c.output_spec().len() == 0 && c.context_spec().len() == 0,
    {
        let mut ret = ConfigClient::new();
        match model.init(&mut ret) {
            Ok(_) => Ok(ret),
            Err(e) => Err(e),
        }
    }
}

} // verus!
