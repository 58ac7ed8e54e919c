//! Data-slot allocation: which QMI endpoint carries IMS and which carries
//! ordinary mobile data.
//!
//! The allocation is fixed: IMS registers through the port that ModemManager
//! owns (qmi0), and DATA6 carries user data. A data session that is already
//! active on qmi0 is a misplaced bearer to release, never a reason to move IMS.

use vstd::prelude::*;

use crate::errors::{code, failure, VolteError};

verus! {

/// Which endpoint carries IMS and what the other one is reserved for.
#[derive(Debug, Clone, Copy, PartialEq, Eq, Structural)]
pub enum DataSlotMode {
    /// IMS uses primary qmi0 and ordinary data uses DATA6.
    PrimaryImsSecondaryData,
    /// VoLTE-only line: no separate data exit is reserved.
    PrimaryImsOnly,
    /// IMS driven over a native QMI session on DATA6. No allocation selects it.
    SecondaryImsPrimaryData,
}

impl DataSlotMode {
    pub open spec fn message(self) -> Seq<char> {
        match self {
            DataSlotMode::SecondaryImsPrimaryData =>
                "IMS allocated to DATA6; primary qmi0 is reserved for data"@,
            _ => "IMS allocated to primary qmi0; DATA6 is reserved for data"@,
        }
    }

    pub open spec fn token(self) -> Seq<char> {
        match self {
            DataSlotMode::PrimaryImsOnly => "independent_wwan1"@,
            DataSlotMode::PrimaryImsSecondaryData => "secondary_qmi_data"@,
            DataSlotMode::SecondaryImsPrimaryData => "primary_qmi_data"@,
        }
    }

    pub open spec fn spec_ims_on_primary(self) -> bool {
        self != DataSlotMode::SecondaryImsPrimaryData
    }

    pub open spec fn spec_reserves_data_slot(self) -> bool {
        self == DataSlotMode::PrimaryImsSecondaryData
    }

    /// The allocation message logged for this mode.
    pub fn allocation_message(self) -> (r: &'static str)
        ensures
            r@ == self.message(),
    {
        match self {
            DataSlotMode::SecondaryImsPrimaryData =>
                "IMS allocated to DATA6; primary qmi0 is reserved for data",
            _ => "IMS allocated to primary qmi0; DATA6 is reserved for data",
        }
    }

    /// The data-path token reported for this allocation.
    pub fn as_str(self) -> (r: &'static str)
        ensures
            r@ == self.token(),
    {
        match self {
            DataSlotMode::PrimaryImsOnly => "independent_wwan1",
            DataSlotMode::PrimaryImsSecondaryData => "secondary_qmi_data",
            DataSlotMode::SecondaryImsPrimaryData => "primary_qmi_data",
        }
    }

    /// Whether IMS is established through ModemManager on primary qmi0.
    #[verifier::when_used_as_spec(spec_ims_on_primary)]
    pub fn ims_on_primary(self) -> (r: bool)
        ensures
            r == self.ims_on_primary(),
    {
        !matches!(self, DataSlotMode::SecondaryImsPrimaryData)
    }

    /// Whether a distinct data slot (DATA6) is reserved alongside IMS.
    #[verifier::when_used_as_spec(spec_reserves_data_slot)]
    pub fn reserves_data_slot(self) -> (r: bool)
        ensures
            r == self.reserves_data_slot(),
    {
        matches!(self, DataSlotMode::PrimaryImsSecondaryData)
    }

    /// Whether user data has to be released from qmi0 before this allocation holds.
    pub fn requires_primary_data_release(self, primary_data_active: bool) -> (r: bool)
        ensures
            r == (primary_data_active && self.reserves_data_slot()),
    {
        primary_data_active && self.reserves_data_slot()
    }
}

/// What the slot decision reads.
#[derive(Debug, Clone, Copy, PartialEq, Eq, Structural)]
pub struct DataSlotInputs {
    /// The line wants a mobile-data exit in addition to VoLTE.
    pub data_requested: bool,
    /// A data session is already active on the primary port.
    pub primary_data_active: bool,
    /// A data session is already active on the secondary (DATA6) endpoint.
    pub secondary_data_active: bool,
    /// A usable secondary QMI endpoint (DATA6) exists for this baseband.
    pub secondary_endpoint_available: bool,
}

impl Default for DataSlotInputs {
    fn default() -> (r: Self)
        ensures
            r == (DataSlotInputs {
                data_requested: false,
                primary_data_active: false,
                secondary_data_active: false,
                secondary_endpoint_available: false,
            }),
    {
        DataSlotInputs {
            data_requested: false,
            primary_data_active: false,
            secondary_data_active: false,
            secondary_endpoint_available: false,
        }
    }
}

/// The allocation that inputs select; none where data is requested without a
/// secondary endpoint to carry it.
pub open spec fn allocation(inputs: DataSlotInputs) -> Option<DataSlotMode> {
    if !inputs.data_requested {
        Some(DataSlotMode::PrimaryImsOnly)
    } else if inputs.secondary_endpoint_available {
        Some(DataSlotMode::PrimaryImsSecondaryData)
    } else {
        None
    }
}

/// Selects the data-slot allocation.
pub fn select_data_slot_mode(inputs: DataSlotInputs) -> (r: Result<DataSlotMode, VolteError>)
    ensures
        match r {
            Ok(mode) => allocation(inputs) == Some(mode),
            Err(error) => allocation(inputs) is None && error@ == failure(
                code::DATA_SLOT_MODE_MISSING@,
            ),
        },
{
    if !inputs.data_requested {
        return Ok(DataSlotMode::PrimaryImsOnly);
    }
    if !inputs.secondary_endpoint_available {
        return Err(VolteError::new(code::DATA_SLOT_MODE_MISSING));
    }
    Ok(DataSlotMode::PrimaryImsSecondaryData)
}

/// Every allocation keeps IMS on the port that ModemManager owns, and reports it so.
pub proof fn allocation_keeps_ims_on_primary(inputs: DataSlotInputs)
    requires
        allocation(inputs) is Some,
    ensures
        allocation(inputs)->0.ims_on_primary(),
        allocation(inputs)->0.message()
            == "IMS allocated to primary qmi0; DATA6 is reserved for data"@,
{
}

/// Which endpoint is busy never changes the allocation.
pub proof fn allocation_ignores_busy_endpoints(a: DataSlotInputs, b: DataSlotInputs)
    requires
        a.data_requested == b.data_requested,
        a.secondary_endpoint_available == b.secondary_endpoint_available,
    ensures
        allocation(a) == allocation(b),
{
}

} // verus!
