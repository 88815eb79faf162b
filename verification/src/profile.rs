//! The characteristics by which peers speak to each other over GATT.

use vstd::prelude::*;

verus! {

/// A UUID in its long or its short form.
#[derive(Clone, Copy, Debug)]
pub enum BleUuid {
    Bit128([u8; 16]),
    Bit16(u16),
}

impl BleUuid {
    /// The bytes of the UUID, most significant first.
    pub open spec fn bytes(self) -> Seq<u8> {
        match self {
            BleUuid::Bit128(bytes) => bytes@,
            BleUuid::Bit16(short) => seq![(short / 256) as u8, (short % 256) as u8],
        }
    }

    /// The bytes of the UUID, most significant first.
    pub fn to_bytes(&self) -> (r: Vec<u8>)
        ensures
            r@ == self.bytes(),
    {
        let mut r: Vec<u8> = Vec::new();
        match self {
            BleUuid::Bit128(bytes) => {
                let mut i: usize = 0;
                while i < 16
                    invariant
                        0 <= i <= 16,
                        r@ == bytes@.take(i as int),
                    decreases 16 - i,
                {
                    r.push(bytes[i]);
                    i += 1;
                    assert(r@ =~= bytes@.take(i as int));
                }
                assert(bytes@.take(16) =~= bytes@);
            },
            BleUuid::Bit16(short) => {
                r.push((*short / 256) as u8);
                r.push((*short % 256) as u8);
                assert(r@ =~= self.bytes());
            },
        }
        r
    }
}

/// The two UUIDs have the same bytes.
pub fn uuid_eq(a: &Vec<u8>, b: &Vec<u8>) -> (r: bool)
    ensures
        r == (a@ == b@),
{
    if a.len() != b.len() {
        return false;
    }
    let mut i: usize = 0;
    while i < a.len()
        invariant
            0 <= i <= a@.len(),
            a@.len() == b@.len(),
            forall|j: int| 0 <= j < i ==> a@[j] == b@[j],
        decreases a@.len() - i,
    {
        if a[i] != b[i] {
            return false;
        }
        i += 1;
    }
    assert(a@ =~= b@);
    true
}

/// What a characteristic is for.
#[derive(Clone, Copy, Debug, PartialEq, Eq, Structural)]
pub enum CharacteristicRole {
    Control,
    Data,
    ColumbaRx,
    ColumbaTx,
    ColumbaIdentity,
}

/// The UUIDs of the characteristics.
pub struct ProfileUuids {
    pub control: Vec<u8>,
    pub data: Vec<u8>,
    pub columba_rx: Vec<u8>,
    pub columba_tx: Vec<u8>,
    pub columba_identity: Vec<u8>,
}

impl ProfileUuids {
    /// What a characteristic with the UUID is for.
    pub open spec fn role_of(&self, uuid: Seq<u8>) -> Option<CharacteristicRole> {
        if uuid == self.control@ {
            Some(CharacteristicRole::Control)
        } else if uuid == self.data@ {
            Some(CharacteristicRole::Data)
        } else if uuid == self.columba_rx@ {
            Some(CharacteristicRole::ColumbaRx)
        } else if uuid == self.columba_tx@ {
            Some(CharacteristicRole::ColumbaTx)
        } else if uuid == self.columba_identity@ {
            Some(CharacteristicRole::ColumbaIdentity)
        } else {
            None
        }
    }

    /// What a characteristic with the UUID is for.
    pub fn role(&self, uuid: &Vec<u8>) -> (r: Option<CharacteristicRole>)
        ensures
            r == self.role_of(uuid@),
    {
        if uuid_eq(uuid, &self.control) {
            Some(CharacteristicRole::Control)
        } else if uuid_eq(uuid, &self.data) {
            Some(CharacteristicRole::Data)
        } else if uuid_eq(uuid, &self.columba_rx) {
            Some(CharacteristicRole::ColumbaRx)
        } else if uuid_eq(uuid, &self.columba_tx) {
            Some(CharacteristicRole::ColumbaTx)
        } else if uuid_eq(uuid, &self.columba_identity) {
            Some(CharacteristicRole::ColumbaIdentity)
        } else {
            None
        }
    }
}

/// A characteristic that was found on a service.
pub struct FoundCharacteristic<K> {
    pub uuid: Vec<u8>,
    pub characteristic: K,
}

/// The last characteristic of the service that is for the role.
pub open spec fn last_for<K>(
    uuids: &ProfileUuids,
    found: Seq<FoundCharacteristic<K>>,
    role: CharacteristicRole,
) -> Option<K>
    decreases found.len(),
{
    if found.len() == 0 {
        None
    } else if uuids.role_of(found.last().uuid@) == Some(role) {
        Some(found.last().characteristic)
    } else {
        last_for(uuids, found.drop_last(), role)
    }
}

/// The characteristics of a service, by what they are for.
pub struct DiscoveredProfile<K> {
    pub control: Option<K>,
    pub data: Option<K>,
    pub columba_rx: Option<K>,
    pub columba_tx: Option<K>,
    pub columba_identity: Option<K>,
}

impl<K> DiscoveredProfile<K> {
    /// The characteristic for the role.
    pub open spec fn get(self, role: CharacteristicRole) -> Option<K> {
        match role {
            CharacteristicRole::Control => self.control,
            CharacteristicRole::Data => self.data,
            CharacteristicRole::ColumbaRx => self.columba_rx,
            CharacteristicRole::ColumbaTx => self.columba_tx,
            CharacteristicRole::ColumbaIdentity => self.columba_identity,
        }
    }

    fn note(&mut self, role: CharacteristicRole, characteristic: K)
        ensures
            final(self).get(role) == match old(self).get(role) {
                Some(known) => Some(known),
                None => Some(characteristic),
            },
            forall|other: CharacteristicRole|
                other != role ==> #[trigger] final(self).get(other) == old(self).get(other),
    {
        match role {
            CharacteristicRole::Control => {
                if self.control.is_none() {
                    self.control = Some(characteristic);
                }
            },
            CharacteristicRole::Data => {
                if self.data.is_none() {
                    self.data = Some(characteristic);
                }
            },
            CharacteristicRole::ColumbaRx => {
                if self.columba_rx.is_none() {
                    self.columba_rx = Some(characteristic);
                }
            },
            CharacteristicRole::ColumbaTx => {
                if self.columba_tx.is_none() {
                    self.columba_tx = Some(characteristic);
                }
            },
            CharacteristicRole::ColumbaIdentity => {
                if self.columba_identity.is_none() {
                    self.columba_identity = Some(characteristic);
                }
            },
        }
    }

    /// Sorts the characteristics of a service by what they are for. Of several for one role, the
    /// last one counts.
    pub fn from_service(uuids: &ProfileUuids, found: Vec<FoundCharacteristic<K>>) -> (r: Self)
        ensures
            forall|role: CharacteristicRole| #[trigger]
                r.get(role) == last_for(uuids, found@, role),
    {
        let ghost all = found@;
        let mut rest = found;
        let mut profile = DiscoveredProfile {
            control: None,
            data: None,
            columba_rx: None,
            columba_tx: None,
            columba_identity: None,
        };
        while rest.len() > 0
            invariant
                forall|role: CharacteristicRole|
                    last_for(uuids, all, role) == match #[trigger] profile.get(role) {
                        Some(known) => Some(known),
                        None => last_for(uuids, rest@, role),
                    },
            decreases rest@.len(),
        {
            let ghost before = rest@;
            if let Some(next) = rest.pop() {
                assert(rest@ =~= before.drop_last());
                if let Some(role) = uuids.role(&next.uuid) {
                    let ghost earlier = profile;
                    profile.note(role, next.characteristic);
                    assert(forall|other: CharacteristicRole|
                        other != role ==> #[trigger] profile.get(other) == earlier.get(other));
                }
            }
        }
        profile
    }
}

/// How a characteristic of this host is published.
#[derive(Clone, Copy, Debug, PartialEq, Eq, Structural)]
pub struct CharacteristicPlan {
    pub read: bool,
    pub write: bool,
    pub write_without_response: bool,
    pub notify: bool,
    /// Peers may read the value; otherwise they may write it.
    pub readable: bool,
    /// The value is this host's identity and never changes.
    pub holds_identity: bool,
}

/// How the characteristic for a role is published: peers write where they speak and are notified
/// where they listen, and they read this host's identity.
pub fn characteristic_plan(role: CharacteristicRole) -> (r: CharacteristicPlan)
    ensures
        r.write == (role is Control || role is Data || role is ColumbaRx),
        r.write_without_response == r.write,
        r.notify == (role is Control || role is Data || role is ColumbaTx),
        r.read == (role is ColumbaTx || role is ColumbaIdentity),
        r.readable == r.read,
        r.holds_identity == (role is ColumbaIdentity),
{
    match role {
        CharacteristicRole::Control | CharacteristicRole::Data => CharacteristicPlan {
            read: false,
            write: true,
            write_without_response: true,
            notify: true,
            readable: false,
            holds_identity: false,
        },
        CharacteristicRole::ColumbaRx => CharacteristicPlan {
            read: false,
            write: true,
            write_without_response: true,
            notify: false,
            readable: false,
            holds_identity: false,
        },
        CharacteristicRole::ColumbaTx => CharacteristicPlan {
            read: true,
            write: false,
            write_without_response: false,
            notify: true,
            readable: true,
            holds_identity: false,
        },
        CharacteristicRole::ColumbaIdentity => CharacteristicPlan {
            read: true,
            write: false,
            write_without_response: false,
            notify: false,
            readable: true,
            holds_identity: true,
        },
    }
}

} // verus!
