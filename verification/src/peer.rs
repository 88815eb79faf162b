//! Peer identities and the synthetic addresses derived from them.

use vstd::prelude::*;

verus! {

/// A Bluetooth LE device address of six octets.
#[derive(Clone, Copy, Debug, Eq, Hash)]
pub struct BleAddress {
    pub octets: [u8; 6],
}

impl PartialEq for BleAddress {
    fn eq(&self, other: &Self) -> (r: bool) {
        let mut i: usize = 0;
        while i < 6
            invariant
                0 <= i <= 6,
                forall|j: int| 0 <= j < i ==> self.octets@[j] == other.octets@[j],
            decreases 6 - i,
        {
            if self.octets[i] != other.octets[i] {
                return false;
            }
            i += 1;
        }
        assert(self.octets =~= other.octets);
        true
    }
}

impl vstd::std_specs::cmp::PartialEqSpecImpl for BleAddress {
    open spec fn obeys_eq_spec() -> bool {
        true
    }

    open spec fn eq_spec(&self, other: &Self) -> bool {
        *self == *other
    }
}

impl BleAddress {
    /// The address made of the given octets.
    pub fn new(octets: [u8; 6]) -> (r: Self)
        ensures
            r.octets == octets,
    {
        BleAddress { octets }
    }

    /// The octets of the address, most significant first.
    pub fn octets(&self) -> (r: &[u8; 6])
        ensures
            *r == self.octets,
    {
        &self.octets
    }
}

/// The sixteen bytes by which CoreBluetooth names one remote peer on this host.
#[derive(Clone, Copy, Debug, Eq, Hash)]
pub struct CoreBluetoothPeerId(pub [u8; 16]);

impl PartialEq for CoreBluetoothPeerId {
    fn eq(&self, other: &Self) -> (r: bool) {
        let mut i: usize = 0;
        while i < 16
            invariant
                0 <= i <= 16,
                forall|j: int| 0 <= j < i ==> self.0@[j] == other.0@[j],
            decreases 16 - i,
        {
            if self.0[i] != other.0[i] {
                return false;
            }
            i += 1;
        }
        assert(self.0 =~= other.0);
        true
    }
}

impl vstd::std_specs::cmp::PartialEqSpecImpl for CoreBluetoothPeerId {
    open spec fn obeys_eq_spec() -> bool {
        true
    }

    open spec fn eq_spec(&self, other: &Self) -> bool {
        *self == *other
    }
}

impl CoreBluetoothPeerId {
    /// The synthetic address of the peer: the leading six bytes of its identity.
    pub open spec fn spec_address(self) -> BleAddress {
        BleAddress { octets: [self.0[0], self.0[1], self.0[2], self.0[3], self.0[4], self.0[5]] }
    }

    /// The synthetic address of the peer. Distinct peers may share one.
    #[verifier::when_used_as_spec(spec_address)]
    pub fn address(self) -> (r: BleAddress)
        ensures
            r == self.spec_address(),
            r.octets@ == self.0@.take(6),
    {
        let bytes = [self.0[0], self.0[1], self.0[2], self.0[3], self.0[4], self.0[5]];
        assert(bytes@ =~= self.0@.take(6));
        BleAddress::new(bytes)
    }
}

/// The sixteen bytes by which a peer names itself.
#[derive(Clone, Copy, Debug, Eq, Hash)]
pub struct BleIdentity(pub [u8; 16]);

impl PartialEq for BleIdentity {
    fn eq(&self, other: &Self) -> (r: bool) {
        CoreBluetoothPeerId(self.0) == CoreBluetoothPeerId(other.0)
    }
}

impl vstd::std_specs::cmp::PartialEqSpecImpl for BleIdentity {
    open spec fn obeys_eq_spec() -> bool {
        true
    }

    open spec fn eq_spec(&self, other: &Self) -> bool {
        *self == *other
    }
}

impl BleIdentity {
    /// The identity made of the given bytes.
    pub fn new(bytes: [u8; 16]) -> (r: Self)
        ensures
            r.0 == bytes,
    {
        BleIdentity(bytes)
    }

    /// The identity that the bytes spell, where there are exactly sixteen of them.
    pub fn from_slice(bytes: &[u8]) -> (r: Option<Self>)
        ensures
            match r {
                Some(identity) => identity.0@ == bytes@,
                None => bytes@.len() != 16,
            },
    {
        if bytes.len() != 16 {
            return None;
        }
        let octets = [
            bytes[0],
            bytes[1],
            bytes[2],
            bytes[3],
            bytes[4],
            bytes[5],
            bytes[6],
            bytes[7],
            bytes[8],
            bytes[9],
            bytes[10],
            bytes[11],
            bytes[12],
            bytes[13],
            bytes[14],
            bytes[15],
        ];
        assert(octets@ =~= bytes@);
        Some(BleIdentity(octets))
    }
}

/// The protocol that a peer speaks over GATT.
#[derive(Clone, Copy, Debug, PartialEq, Eq, Structural)]
pub enum PeerProtocol {
    Native,
    Columba,
}

/// A peer seen on the air.
#[derive(Clone, Copy, Debug, PartialEq, Eq)]
pub struct Sighting {
    pub address: BleAddress,
    pub rssi: Option<i8>,
}

} // verus!
