//! Bluetooth device addresses.

use crate::bytes::{
    array_from_slice, be_range, be_value, lemma_be_range_monotone, lemma_be_value_bound,
    lemma_be_value_injective, lemma_take_one_more,
};
use macaddr::MacAddr6;
use std::collections::HashSet;
use vstd::prelude::*;

verus! {

/// A Bluetooth device address, six octets in the order in which they are written.
#[derive(Debug, Clone, Copy, PartialEq, Eq, Hash)]
pub struct MacAddress {
    pub octets: [u8; 6],
}

/// The upper case hexadecimal digit of a value below 16.
pub open spec fn hex_digit(value: int) -> char {
    if value < 10 {
        (48 + value) as char
    } else {
        (55 + value) as char
    }
}

/// Two hexadecimal digits per octet, high digit first, with a colon between octets.
pub open spec fn colon_hex(octets: Seq<u8>) -> Seq<char> {
    Seq::new(
        (octets.len() * 3 - 1) as nat,
        |i: int|
            if i % 3 == 0 {
                hex_digit(octets[i / 3] as int / 16)
            } else if i % 3 == 1 {
                hex_digit(octets[i / 3] as int % 16)
            } else {
                ':'
            },
    )
}

/// The text of an address has, for each octet, its high and its low hexadecimal digit in upper
/// case, in the order of the octets, and a colon before each octet but the first.
pub proof fn law_mac_text_is_colon_separated_hex(octets: Seq<u8>, i: int)
    requires
        octets.len() == 6,
        0 <= i < 6,
    ensures
        colon_hex(octets).len() == 17,
        i < 5 ==> colon_hex(octets)[3 * i + 2] == ':',
        colon_hex(octets)[3 * i] as int == if octets[i] / 16 < 10 {
            '0' as int + octets[i] / 16
        } else {
            'A' as int + octets[i] / 16 - 10
        },
        colon_hex(octets)[3 * i + 1] as int == if octets[i] % 16 < 10 {
            '0' as int + octets[i] % 16
        } else {
            'A' as int + octets[i] % 16 - 10
        },
{
}

/// Two addresses are written alike only if they are the same.
pub proof fn law_mac_text_identifies(a: Seq<u8>, b: Seq<u8>)
    requires
        a.len() == 6,
        b.len() == 6,
        colon_hex(a) == colon_hex(b),
    ensures
        a == b,
{
    assert forall|i: int| 0 <= i < 6 implies a[i] == b[i] by {
        assert(colon_hex(a)[3 * i] == hex_digit(a[i] as int / 16));
        assert(colon_hex(b)[3 * i] == hex_digit(b[i] as int / 16));
        assert(colon_hex(a)[3 * i + 1] == hex_digit(a[i] as int % 16));
        assert(colon_hex(b)[3 * i + 1] == hex_digit(b[i] as int % 16));
    }
    assert(a =~= b);
}

/// Writes an address with `Display` of `macaddr::MacAddr6`, which gives the octets as pairs of
/// upper case hexadecimal digits, separated by colons.
#[verifier::external_body]
fn display_mac(octets: [u8; 6]) -> (text: String)
    ensures
        text@ == colon_hex(octets@),
{
    MacAddr6::from(octets).to_string()
}

impl MacAddress {
    /// The address whose octets are the six bytes of `bytes`.
    pub fn from_bytes(bytes: &[u8]) -> (address: MacAddress)
        requires
            bytes@.len() == 6,
        ensures
            address.octets@ == bytes@,
    {
        MacAddress { octets: array_from_slice(bytes) }
    }

    /// The address in the form `AB:0D:EF:12:34:56`.
    pub fn to_string(&self) -> (text: String)
        ensures
            text@ == colon_hex(self.octets@),
    {
        display_mac(self.octets)
    }

    /// The octets as one number, most significant octet first.
    pub fn key(&self) -> (key: u64)
        ensures
            key == be_value(self.octets@),
    {
        let mut key: u64 = 0;
        let mut i: usize = 0;
        proof {
            reveal_with_fuel(be_range, 7);
        }
        while i < 6
            invariant
                i <= 6,
                be_range(6) == 0x1_0000_0000_0000,
                key == be_value(self.octets@.take(i as int)),
            decreases 6 - i,
        {
            proof {
                let prefix = self.octets@.take(i as int + 1);
                assert(prefix.drop_last() =~= self.octets@.take(i as int));
                lemma_be_value_bound(prefix);
                lemma_be_range_monotone(i as nat + 1, 6);
            }
            key = key * 256 + self.octets[i] as u64;
            i = i + 1;
        }
        assert(self.octets@.take(6) =~= self.octets@);
        key
    }
}

/// A set of device addresses.
#[derive(Debug)]
pub struct MacSet {
    keys: HashSet<u64>,
}

impl View for MacSet {
    type V = Set<Seq<u8>>;

    /// The octets of the addresses in the set.
    closed spec fn view(&self) -> Set<Seq<u8>> {
        Set::new(
            |octets: Seq<u8>| octets.len() == 6 && self.keys@.contains(be_value(octets) as u64),
        )
    }
}

impl MacSet {
    /// The empty set.
    pub fn new() -> (set: MacSet)
        ensures
            set@ == Set::<Seq<u8>>::empty(),
    {
        let set = MacSet { keys: HashSet::new() };
        assert(set@ =~= Set::<Seq<u8>>::empty());
        set
    }

    /// Puts `address` into the set.
    pub fn insert(&mut self, address: MacAddress)
        ensures
            final(self)@ == old(self)@.insert(address.octets@),
    {
        broadcast use vstd::std_specs::hash::group_hash_axioms;

        self.keys.insert(address.key());
        proof {
            lemma_mac_key_fits(address.octets@);
            assert forall|octets: Seq<u8>| #[trigger]
                self@.contains(octets) == old(self)@.insert(address.octets@).contains(octets) by {
                if octets.len() == 6 {
                    lemma_mac_key_fits(octets);
                    if be_value(octets) == be_value(address.octets@) {
                        lemma_be_value_injective(octets, address.octets@);
                    }
                }
            }
            assert(self@ =~= old(self)@.insert(address.octets@));
        }
    }

    /// Whether `address` is in the set.
    pub fn contains(&self, address: &MacAddress) -> (found: bool)
        ensures
            found == self@.contains(address.octets@),
    {
        broadcast use vstd::std_specs::hash::group_hash_axioms;

        proof {
            lemma_mac_key_fits(address.octets@);
        }
        self.keys.contains(&address.key())
    }
}

impl Clone for MacSet {
    fn clone(&self) -> (set: MacSet)
        ensures
            set@ == self@,
    {
        broadcast use vstd::std_specs::hash::group_hash_axioms;

        let mut keys: HashSet<u64> = HashSet::new();
        for key in iter: self.keys.iter()
            invariant
                keys@ == iter.seq().unref().take(iter.index()).to_set(),
                iter.seq().unref().take(iter.seq().len() as int) == iter.seq().unref(),
                iter.seq().unref().to_set() == self.keys@,
        {
            keys.insert(*key);
            proof {
                lemma_take_one_more(iter.seq().unref(), iter.index());
            }
        }
        MacSet { keys }
    }
}

/// The number of six octets fits in 64 bits.
proof fn lemma_mac_key_fits(octets: Seq<u8>)
    requires
        octets.len() == 6,
    ensures
        be_value(octets) <= u64::MAX,
{
    lemma_be_value_bound(octets);
    reveal_with_fuel(be_range, 7);
}

} // verus!
