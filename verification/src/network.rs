//! Networks in CIDR notation: an address and the number of leading bits
//! that every member shares with it.

use vstd::prelude::*;
use vstd::arithmetic::power2::{lemma2_to64, pow2};
use vstd::string::StringExecFns;
use crate::address::{ip_address_of, lemma_address_family, IpAddress};
use crate::block::{
    block_base, block_size, lemma_block_base, lemma_mask_v4, lemma_mask_v6,
    lemma_same_block_by_base, mask_v4, mask_v6, same_block,
};
use crate::text::{
    all_digits, chars_of, copy_range, decimal_text, decimal_value, is_digit,
    lemma_split_counts_separators, lemma_split_keeps_chars, occurrences, parse_decimal,
    render_decimal, some_field_holds, split, split_on,
};

verus! {

/// Why a text is not a network in CIDR notation.
#[derive(Clone, Copy, Debug, PartialEq, Eq, Structural)]
pub enum CidrError {
    /// The text does not consist of exactly two parts around one `/`.
    InvalidFormat,
    /// The part before the `/` is not an address.
    InvalidAddress,
    /// The part after the `/` is not a number from 0 to 255.
    InvalidPrefix,
    /// The prefix is longer than an address of the family.
    PrefixTooLarge { prefix: u8, max: u8 },
}

/// The words in which an error is told.
pub open spec fn cidr_error_message(error: CidrError) -> Seq<char> {
    match error {
        CidrError::InvalidFormat => "Invalid CIDR format"@,
        CidrError::InvalidAddress => "Invalid IP address"@,
        CidrError::InvalidPrefix => "Invalid prefix length"@,
        CidrError::PrefixTooLarge { prefix, max } => "Prefix length "@ + decimal_text(
            prefix as nat,
        ) + " exceeds maximum "@ + decimal_text(max as nat),
    }
}

impl CidrError {
    /// Tells the error in words.
    pub fn message(&self) -> (message: String)
        ensures
            message@ == cidr_error_message(*self),
    {
        match self {
            CidrError::InvalidFormat => "Invalid CIDR format".to_owned(),
            CidrError::InvalidAddress => "Invalid IP address".to_owned(),
            CidrError::InvalidPrefix => "Invalid prefix length".to_owned(),
            CidrError::PrefixTooLarge { prefix, max } => {
                let mut message = "Prefix length ".to_owned();
                message.append(render_decimal(*prefix as u64).as_str());
                message.append(" exceeds maximum ");
                message.append(render_decimal(*max as u64).as_str());
                message
            },
        }
    }
}

/// A network: its first address and the length of the shared prefix.
#[derive(Clone, Copy, Debug, PartialEq, Eq, Structural)]
pub struct IpNetwork {
    pub ip: IpAddress,
    pub prefix_len: u8,
}

/// The prefix length that `text` writes: decimal digits, after an optional
/// `+`, that make a number of at most 255.
pub open spec fn prefix_of(text: Seq<char>) -> Option<u8> {
    let digits = if text.len() > 0 && text[0] == '+' {
        text.drop_first()
    } else {
        text
    };
    if digits.len() > 0 && all_digits(digits) && decimal_value(digits) <= 255 {
        Some(decimal_value(digits) as u8)
    } else {
        None
    }
}

/// The network of `prefix_len` leading bits that `ip` lies in.
pub open spec fn network_of(ip: IpAddress, prefix_len: u8) -> IpNetwork {
    match ip {
        IpAddress::V4(v) => IpNetwork {
            ip: IpAddress::V4(block_base(v as nat, 32, prefix_len as nat) as u32),
            prefix_len,
        },
        IpAddress::V6(v) => IpNetwork {
            ip: IpAddress::V6(block_base(v as nat, 128, prefix_len as nat) as u128),
            prefix_len,
        },
    }
}

/// What a text in CIDR notation denotes, or why it denotes nothing.
pub open spec fn cidr_of(text: Seq<char>) -> Result<IpNetwork, CidrError> {
    let parts = split_on(text, '/');
    if parts.len() != 2 {
        Err(CidrError::InvalidFormat)
    } else {
        match ip_address_of(parts[0]) {
            None => Err(CidrError::InvalidAddress),
            Some(ip) => match prefix_of(parts[1]) {
                None => Err(CidrError::InvalidPrefix),
                Some(prefix) => if prefix > ip.bits() {
                    Err(CidrError::PrefixTooLarge { prefix, max: ip.bits() as u8 })
                } else {
                    Ok(network_of(ip, prefix))
                },
            },
        }
    }
}

/// Reads a prefix length.
pub fn parse_prefix(text: &Vec<char>) -> (prefix: Option<u8>)
    ensures
        prefix == prefix_of(text@),
{
    let n = text.len();
    let start: usize = if n > 0 && text[0] == '+' {
        1
    } else {
        0
    };
    let digits = copy_range(text, start, n);
    proof {
        if start == 1 {
            assert(digits@ =~= text@.drop_first());
        } else {
            assert(digits@ =~= text@);
        }
    }
    match parse_decimal(&digits, 255) {
        Some(v) => Some(v as u8),
        None => None,
    }
}

impl IpNetwork {
    /// Whether the prefix fits the family and the address has no bit set
    /// behind the prefix.
    pub open spec fn well_formed(self) -> bool {
        &&& self.prefix_len <= self.ip.bits()
        &&& self.ip.value() % block_size(self.ip.bits(), self.prefix_len as nat) == 0
    }

    /// Whether `ip` is a member: an address of the same family that agrees
    /// with the network's address on the leading `prefix_len` bits.
    pub open spec fn covers(self, ip: IpAddress) -> bool {
        match (self.ip, ip) {
            (IpAddress::V4(n), IpAddress::V4(a)) => same_block(
                n as nat,
                a as nat,
                32,
                self.prefix_len as nat,
            ),
            (IpAddress::V6(n), IpAddress::V6(a)) => same_block(
                n as nat,
                a as nat,
                128,
                self.prefix_len as nat,
            ),
            _ => false,
        }
    }

    /// The network of `prefix_len` leading bits that `ip` lies in. The
    /// bits of `ip` behind the prefix are cleared.
    pub fn new(ip: IpAddress, prefix_len: u8) -> (network: IpNetwork)
        requires
            prefix_len <= ip.bits(),
        ensures
            network == network_of(ip, prefix_len),
            network.well_formed(),
    {
        match ip {
            IpAddress::V4(v) => {
                proof {
                    lemma_mask_v4(v, prefix_len);
                    lemma_block_base(v as nat, 32, prefix_len as nat);
                }
                IpNetwork { ip: IpAddress::V4(v & mask_v4(prefix_len)), prefix_len }
            },
            IpAddress::V6(v) => {
                proof {
                    lemma_mask_v6(v, prefix_len);
                    lemma_block_base(v as nat, 128, prefix_len as nat);
                }
                IpNetwork { ip: IpAddress::V6(v & mask_v6(prefix_len)), prefix_len }
            },
        }
    }

    /// Reads a network from text of the form `address/prefix`.
    pub fn from_cidr(cidr: &str) -> (result: Result<IpNetwork, CidrError>)
        ensures
            result == cidr_of(cidr@),
    {
        let chars = chars_of(cidr);
        IpNetwork::from_cidr_chars(&chars)
    }

    /// Reads a network from the characters of `address/prefix`.
    pub fn from_cidr_chars(chars: &Vec<char>) -> (result: Result<IpNetwork, CidrError>)
        ensures
            result == cidr_of(chars@),
    {
        let parts = split(chars, '/');
        if parts.len() != 2 {
            return Err(CidrError::InvalidFormat);
        }
        proof {
            let f = split_on(chars@, '/');
            assert(f[0] == parts@[0]@ && f[1] == parts@[1]@);
        }
        let ip = match IpAddress::parse_chars(&parts[0]) {
            Some(ip) => ip,
            None => {
                return Err(CidrError::InvalidAddress);
            },
        };
        let prefix = match parse_prefix(&parts[1]) {
            Some(prefix) => prefix,
            None => {
                return Err(CidrError::InvalidPrefix);
            },
        };
        let max = ip.family_bits();
        if prefix > max {
            return Err(CidrError::PrefixTooLarge { prefix, max });
        }
        Ok(IpNetwork::new(ip, prefix))
    }

    /// Whether `ip` is a member of the network. Addresses of the other
    /// family never are.
    pub fn contains(&self, ip: &IpAddress) -> (member: bool)
        ensures
            member == self.covers(*ip),
    {
        match (self.ip, *ip) {
            (IpAddress::V4(n), IpAddress::V4(a)) => {
                let mask = mask_v4(self.prefix_len);
                proof {
                    lemma_mask_v4(n, self.prefix_len);
                    lemma_mask_v4(a, self.prefix_len);
                    lemma_same_block_by_base(n as nat, a as nat, 32, self.prefix_len as nat);
                }
                (n & mask) == (a & mask)
            },
            (IpAddress::V6(n), IpAddress::V6(a)) => {
                let mask = mask_v6(self.prefix_len);
                proof {
                    lemma_mask_v6(n, self.prefix_len);
                    lemma_mask_v6(a, self.prefix_len);
                    lemma_same_block_by_base(n as nat, a as nat, 128, self.prefix_len as nat);
                }
                (n & mask) == (a & mask)
            },
            _ => false,
        }
    }
}

/// What the address spec of a rule denotes.
#[derive(Clone, Copy, Debug, PartialEq, Eq, Structural)]
pub enum AddressSpec {
    /// One address, written as such.
    Single(IpAddress),
    /// A network, written in CIDR notation.
    Network(IpNetwork),
    /// Neither.
    Unreadable,
}

/// What `text` denotes as an address spec: an address if it reads as one,
/// else a network if it reads as one.
pub open spec fn address_spec_of(text: Seq<char>) -> AddressSpec {
    match ip_address_of(text) {
        Some(ip) => AddressSpec::Single(ip),
        None => match cidr_of(text) {
            Ok(network) => AddressSpec::Network(network),
            Err(_) => AddressSpec::Unreadable,
        },
    }
}

impl AddressSpec {
    /// Reads an address spec.
    pub fn parse(text: &str) -> (spec: AddressSpec)
        ensures
            spec == address_spec_of(text@),
    {
        let chars = chars_of(text);
        match IpAddress::parse_chars(&chars) {
            Some(ip) => AddressSpec::Single(ip),
            None => match IpNetwork::from_cidr_chars(&chars) {
                Ok(network) => AddressSpec::Network(network),
                Err(_) => AddressSpec::Unreadable,
            },
        }
    }
}

/// The network that `network_of` makes is well formed where the prefix
/// fits the family.
pub proof fn lemma_network_of_is_well_formed(ip: IpAddress, prefix_len: u8)
    requires
        prefix_len <= ip.bits(),
    ensures
        network_of(ip, prefix_len).well_formed(),
        network_of(ip, prefix_len).ip.bits() == ip.bits(),
{
    lemma_block_base(ip.value(), ip.bits(), prefix_len as nat);
    lemma2_to64();
    match ip {
        IpAddress::V4(v) => {},
        IpAddress::V6(v) => {
            crate::block::lemma_mask_v6(v, prefix_len);
        },
    }
}

/// A network read from CIDR notation is well formed.
pub proof fn lemma_cidr_is_well_formed(text: Seq<char>)
    ensures
        cidr_of(text) matches Ok(network) ==> network.well_formed(),
{
    if cidr_of(text) is Ok {
        let parts = split_on(text, '/');
        lemma_network_of_is_well_formed(ip_address_of(parts[0])->0, prefix_of(parts[1])->0);
    }
}

/// Text is refused as ill-formed unless it holds exactly one `/`, and no
/// network is read with a prefix longer than an address of its family:
/// 32 bits for IPv4, 128 for IPv6.
pub proof fn lemma_cidr_rejections(text: Seq<char>)
    ensures
        occurrences(text, '/') != 1 ==> cidr_of(text) == Err::<IpNetwork, CidrError>(
            CidrError::InvalidFormat,
        ),
        cidr_of(text) matches Ok(network) ==> occurrences(text, '/') == 1 && (network.ip is V4
            ==> network.prefix_len <= 32) && (network.ip is V6 ==> network.prefix_len <= 128),
        occurrences(text, '/') == 1 ==> (
        match (ip_address_of(split_on(text, '/')[0]), prefix_of(split_on(text, '/')[1])) {
            (Some(ip), Some(prefix)) => prefix > ip.bits() ==> cidr_of(text) == Err::<
                IpNetwork,
                CidrError,
            >(CidrError::PrefixTooLarge { prefix, max: ip.bits() as u8 }),
            _ => cidr_of(text) is Err,
        }),
{
    lemma_split_counts_separators(text, '/');
    if cidr_of(text) is Ok {
        let parts = split_on(text, '/');
        lemma_network_of_is_well_formed(ip_address_of(parts[0])->0, prefix_of(parts[1])->0);
    }
}

/// What CIDR text for IPv4 denotes. The network's address has its bits
/// behind the prefix cleared. Every address that agrees with the written
/// address on the leading bits is a member. Unless the prefix is empty,
/// some address differs in the leading bits, and it is no member.
pub proof fn lemma_cidr_v4_block(text: Seq<char>)
    requires
        cidr_of(text) is Ok,
        cidr_of(text)->Ok_0.ip is V4,
    ensures
        ({
            let network = cidr_of(text)->Ok_0;
            let written = ip_address_of(split_on(text, '/')[0])->0->V4_0;
            let free = (32 - network.prefix_len) as nat;
            &&& network.prefix_len <= 32
            &&& written == ip_address_of(split_on(text, '/')[0])->0.value()
            &&& network.ip->V4_0 as nat % pow2(free) == 0
            &&& forall|a: u32|
                a as nat / pow2(free) == written as nat / pow2(free) ==> #[trigger] network.covers(
                    IpAddress::V4(a),
                )
            &&& network.prefix_len > 0 ==> exists|a: u32|
                a as nat / pow2(free) != written as nat / pow2(free) && !#[trigger] network.covers(
                    IpAddress::V4(a),
                )
        }),
{
    let parts = split_on(text, '/');
    let ip = ip_address_of(parts[0])->0;
    let prefix = prefix_of(parts[1])->0;
    let network = cidr_of(text)->Ok_0;
    let written = ip->V4_0;
    let free = (32 - prefix) as nat;
    lemma_network_of_is_well_formed(ip, prefix);
    lemma_block_base(written as nat, 32, prefix as nat);
    lemma2_to64();
    assert(block_size(32, prefix as nat) == pow2(free));
    if prefix > 0 {
        let size = pow2(free) as int;
        if free < 31 {
            vstd::arithmetic::power2::lemma_pow2_strictly_increases(free, 31);
        }
        let other: u32 = if written as int / size > 0 {
            0u32
        } else {
            u32::MAX
        };
        if other == 0 {
            vstd::arithmetic::div_mod::lemma_basic_div(0, size);
        } else {
            vstd::arithmetic::div_mod::lemma_div_non_zero(u32::MAX as int, size);
        }
        assert(other as nat / pow2(free) != written as nat / pow2(free));
        assert(!network.covers(IpAddress::V4(other)));
    }
}

/// A readable address spec holds a colon exactly when what it denotes is
/// of the IPv6 family.
pub proof fn lemma_spec_family(text: Seq<char>)
    ensures
        match address_spec_of(text) {
            AddressSpec::Single(ip) => text.contains(':') == (ip is V6),
            AddressSpec::Network(network) => text.contains(':') == (network.ip is V6),
            AddressSpec::Unreadable => true,
        },
{
    lemma_address_family(text);
    if ip_address_of(text) is None && cidr_of(text) is Ok {
        let parts = split_on(text, '/');
        lemma_address_family(parts[0]);
        lemma_split_keeps_chars(text, '/', ':');
        let digits = if parts[1].len() > 0 && parts[1][0] == '+' {
            parts[1].drop_first()
        } else {
            parts[1]
        };
        if parts[1].contains(':') {
            let j = choose|j: int| 0 <= j < parts[1].len() && parts[1][j] == ':';
            if digits.len() == parts[1].len() {
                assert(is_digit(digits[j]));
            } else {
                assert(j > 0);
                assert(digits[j - 1] == parts[1][j]);
                assert(is_digit(digits[j - 1]));
            }
        }
        if some_field_holds(parts, ':') {
            let k = choose|k: int| 0 <= k < parts.len() && (#[trigger] parts[k]).contains(':');
            assert(k == 0);
        }
        if parts[0].contains(':') {
            assert(some_field_holds(parts, ':'));
        }
    }
}

} // verus!
