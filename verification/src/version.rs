//! The registry of supported wire protocol versions.

use vstd::prelude::*;
use crate::error::SplinterError;

verus! {

/// A supported wire protocol version.
#[derive(Copy, Clone, PartialEq, Eq, Debug, Structural)]
pub enum ProtocolVersion {
    V753,
    V754,
    V755,
}

/// The packet schema (the set of packet variants) that a connection speaks.
#[derive(Copy, Clone, PartialEq, Eq, Debug, Structural)]
pub enum PacketSchema {
    S753,
    S755,
}

/// The number that each version carries on the wire.
pub open spec fn version_number(v: ProtocolVersion) -> int {
    match v {
        ProtocolVersion::V753 => 753,
        ProtocolVersion::V754 => 754,
        ProtocolVersion::V755 => 755,
    }
}

/// The version with a wire number, if the registry holds one.
pub open spec fn version_with_number(number: int) -> Option<ProtocolVersion> {
    if number == 753 {
        Some(ProtocolVersion::V753)
    } else if number == 754 {
        Some(ProtocolVersion::V754)
    } else if number == 755 {
        Some(ProtocolVersion::V755)
    } else {
        None
    }
}

/// Whether the registry holds a version with this wire number.
pub open spec fn is_supported(number: int) -> bool {
    version_with_number(number) is Some
}

/// The schema bound to each version. 754 speaks the schema of 753.
pub open spec fn schema_of(v: ProtocolVersion) -> PacketSchema {
    match v {
        ProtocolVersion::V753 => PacketSchema::S753,
        ProtocolVersion::V754 => PacketSchema::S753,
        ProtocolVersion::V755 => PacketSchema::S755,
    }
}

impl ProtocolVersion {
    /// Resolves a wire number in the registry. Any number outside the
    /// supported set fails with `UnsupportedVersion`, which carries the number.
    pub fn from_number(version: i32) -> (res: Result<ProtocolVersion, SplinterError>)
        ensures
            res == match version_with_number(version as int) {
                Some(v) => Ok::<ProtocolVersion, SplinterError>(v),
                None => Err::<ProtocolVersion, SplinterError>(SplinterError::UnsupportedVersion(version)),
            },
    {
        if version == 753 {
            Ok(ProtocolVersion::V753)
        } else if version == 754 {
            Ok(ProtocolVersion::V754)
        } else if version == 755 {
            Ok(ProtocolVersion::V755)
        } else {
            Err(SplinterError::UnsupportedVersion(version))
        }
    }

    /// The number of this version on the wire.
    pub fn to_number(&self) -> (n: i32)
        ensures
            n == version_number(*self),
            is_supported(n as int),
    {
        match self {
            ProtocolVersion::V753 => 753,
            ProtocolVersion::V754 => 754,
            ProtocolVersion::V755 => 755,
        }
    }

    /// The packet schema that a connection of this version speaks.
    pub fn schema(&self) -> (s: PacketSchema)
        ensures
            s == schema_of(*self),
    {
        match self {
            ProtocolVersion::V753 => PacketSchema::S753,
            ProtocolVersion::V754 => PacketSchema::S753,
            ProtocolVersion::V755 => PacketSchema::S755,
        }
    }
}

/// Binds a marker type to the packet schema that connections of that type speak.
pub trait ConnectionVersion {
    /// The schema of this marker.
    spec fn protocol_spec() -> PacketSchema;

    /// The schema of this marker, as a value.
    fn protocol() -> (s: PacketSchema)
        ensures
            s == Self::protocol_spec(),
    ;
}

/// Marker for connections that speak the 753 schema.
pub struct V753;

/// Marker for connections that speak the 755 schema.
pub struct V755;

impl ConnectionVersion for V753 {
    open spec fn protocol_spec() -> PacketSchema {
        PacketSchema::S753
    }

    fn protocol() -> (s: PacketSchema) {
        PacketSchema::S753
    }
}

impl ConnectionVersion for V755 {
    open spec fn protocol_spec() -> PacketSchema {
        PacketSchema::S755
    }

    fn protocol() -> (s: PacketSchema) {
        PacketSchema::S755
    }
}

/// `from_number` and `to_number` are inverse on the supported set: the number
/// of a version resolves to that version, and a number that resolves is the
/// number of the version it resolves to.
pub proof fn lemma_version_number_round_trip(v: ProtocolVersion, number: int)
    ensures
        version_with_number(version_number(v)) == Some(v),
        version_with_number(number) is Some ==> version_number(version_with_number(number)->0) == number,
{
}

} // verus!
