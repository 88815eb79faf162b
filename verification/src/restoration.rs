//! Identifiers under which CoreBluetooth preserves and restores its managers.

use vstd::prelude::*;

verus! {

/// Identifier of the central manager where the application names none.
pub const CENTRAL_RESTORE_IDENTIFIER: &'static str = "com.personal.prns.ble.central";

/// Identifier of the peripheral manager where the application names none.
pub const PERIPHERAL_RESTORE_IDENTIFIER: &'static str = "com.personal.prns.ble.peripheral";

/// Why two strings are not a pair of restoration identifiers.
#[derive(Clone, Copy, Debug, PartialEq, Eq, Structural)]
pub enum CoreBluetoothRestorationIdentifiersError {
    EmptyCentral,
    EmptyPeripheral,
    Duplicate,
}

impl CoreBluetoothRestorationIdentifiersError {
    /// What the error says to a reader.
    pub open spec fn spec_message(self) -> Seq<char> {
        match self {
            CoreBluetoothRestorationIdentifiersError::EmptyCentral => "the CoreBluetooth central restoration identifier must not be empty"@,
            CoreBluetoothRestorationIdentifiersError::EmptyPeripheral => "the CoreBluetooth peripheral restoration identifier must not be empty"@,
            CoreBluetoothRestorationIdentifiersError::Duplicate => "the CoreBluetooth central and peripheral restoration identifiers must differ"@,
        }
    }

    /// What the error says to a reader.
    pub fn message(&self) -> (r: String)
        ensures
            r@ == self.spec_message(),
    {
        match self {
            CoreBluetoothRestorationIdentifiersError::EmptyCentral => "the CoreBluetooth central restoration identifier must not be empty".to_owned(),
            CoreBluetoothRestorationIdentifiersError::EmptyPeripheral => "the CoreBluetooth peripheral restoration identifier must not be empty".to_owned(),
            CoreBluetoothRestorationIdentifiersError::Duplicate => "the CoreBluetooth central and peripheral restoration identifiers must differ".to_owned(),
        }
    }
}

/// Stable, application-owned identifiers for the two CoreBluetooth managers.
///
/// Passing these identifiers opts the caller into CoreBluetooth state preservation and
/// restoration. The containing application is responsible for declaring the matching central and
/// peripheral background modes and reinstantiating the managers with the same identifiers when
/// iOS relaunches it.
#[derive(Debug, PartialEq, Eq)]
pub struct CoreBluetoothRestorationIdentifiers {
    central: String,
    peripheral: String,
}

/// What [`CoreBluetoothRestorationIdentifiers`] hold.
pub struct IdentifiersModel {
    pub central: Seq<char>,
    pub peripheral: Seq<char>,
}

impl IdentifiersModel {
    /// Both identifiers say something, and not the same.
    pub open spec fn wf(self) -> bool {
        &&& self.central.len() > 0
        &&& self.peripheral.len() > 0
        &&& self.central != self.peripheral
    }
}

impl View for CoreBluetoothRestorationIdentifiers {
    type V = IdentifiersModel;

    closed spec fn view(&self) -> IdentifiersModel {
        IdentifiersModel { central: self.central@, peripheral: self.peripheral@ }
    }
}

impl Clone for CoreBluetoothRestorationIdentifiers {
    fn clone(&self) -> (r: Self)
        ensures
            r == *self,
    {
        proof {
            use_type_invariant(self);
        }
        CoreBluetoothRestorationIdentifiers {
            central: self.central.clone(),
            peripheral: self.peripheral.clone(),
        }
    }
}

impl CoreBluetoothRestorationIdentifiers {
    #[verifier::type_invariant]
    spec fn type_wf(self) -> bool {
        IdentifiersModel { central: self.central@, peripheral: self.peripheral@ }.wf()
    }

    /// A pair of identifiers, which must be non-empty and distinct.
    pub fn new(central: &str, peripheral: &str) -> (r: Result<
        Self,
        CoreBluetoothRestorationIdentifiersError,
    >)
        ensures
            match r {
                Ok(identifiers) => identifiers@ == (IdentifiersModel {
                    central: central@,
                    peripheral: peripheral@,
                }) && identifiers@.wf(),
                Err(CoreBluetoothRestorationIdentifiersError::EmptyCentral) => central@.len() == 0,
                Err(CoreBluetoothRestorationIdentifiersError::EmptyPeripheral) => central@.len() > 0
                    && peripheral@.len() == 0,
                Err(CoreBluetoothRestorationIdentifiersError::Duplicate) => central@.len() > 0
                    && central@ == peripheral@,
            },
    {
        if central.is_empty() {
            return Err(CoreBluetoothRestorationIdentifiersError::EmptyCentral);
        }
        if peripheral.is_empty() {
            return Err(CoreBluetoothRestorationIdentifiersError::EmptyPeripheral);
        }
        let central = central.to_owned();
        let peripheral = peripheral.to_owned();
        if central == peripheral {
            return Err(CoreBluetoothRestorationIdentifiersError::Duplicate);
        }
        Ok(CoreBluetoothRestorationIdentifiers { central, peripheral })
    }

    /// The identifier of the central manager.
    #[must_use]
    pub fn central(&self) -> (r: &str)
        ensures
            r@ == self@.central,
            self@.wf(),
    {
        proof {
            use_type_invariant(self);
        }
        self.central.as_str()
    }

    /// The identifier of the peripheral manager.
    #[must_use]
    pub fn peripheral(&self) -> (r: &str)
        ensures
            r@ == self@.peripheral,
            self@.wf(),
    {
        proof {
            use_type_invariant(self);
        }
        self.peripheral.as_str()
    }
}

/// What the identifiers of an application that names none hold.
pub open spec fn unnamed_model() -> IdentifiersModel {
    IdentifiersModel {
        central: CENTRAL_RESTORE_IDENTIFIER@,
        peripheral: PERIPHERAL_RESTORE_IDENTIFIER@,
    }
}

/// The identifiers of an application that names none.
pub fn legacy_restoration_identifiers() -> (r: CoreBluetoothRestorationIdentifiers)
    ensures
        r@ == unnamed_model(),
        r@.wf(),
{
    proof {
        reveal_strlit("com.personal.prns.ble.central");
        reveal_strlit("com.personal.prns.ble.peripheral");
    }
    CoreBluetoothRestorationIdentifiers {
        central: CENTRAL_RESTORE_IDENTIFIER.to_owned(),
        peripheral: PERIPHERAL_RESTORE_IDENTIFIER.to_owned(),
    }
}

} // verus!
