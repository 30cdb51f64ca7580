//! The values that cross the bridge, on both sides of it.

use vstd::prelude::*;

verus! {

/// A host-owned value as the bridge models it: the primitives the
/// marshalling service can carry as text, plus opaque host objects, which
/// reach the guest only by handle, never by structure.
#[derive(Debug, PartialEq)]
pub enum HostValue {
    /// The host's nil / false value.
    Nil,
    /// The host's canonical true value.
    True,
    /// A host integer.
    Int(i64),
    /// A host string.
    Text(String),
    /// An opaque, non-primitive host object, named by its immutable identity.
    Obj(u64),
}

/// The mathematical model of a `HostValue`.
pub enum ValueModel {
    Nil,
    True,
    Int(int),
    Text(Seq<char>),
    Obj(u64),
}

impl View for HostValue {
    type V = ValueModel;

    open spec fn view(&self) -> ValueModel {
        match self {
            HostValue::Nil => ValueModel::Nil,
            HostValue::True => ValueModel::True,
            HostValue::Int(i) => ValueModel::Int(*i as int),
            HostValue::Text(s) => ValueModel::Text(s@),
            HostValue::Obj(id) => ValueModel::Obj(*id),
        }
    }
}

impl ValueModel {
    /// Primitive values have a textual encoding; opaque objects do not.
    pub open spec fn is_primitive(self) -> bool {
        !(self is Obj)
    }
}

impl Clone for HostValue {
    fn clone(&self) -> (r: HostValue)
        ensures
            r@ == self@,
    {
        match self {
            HostValue::Nil => HostValue::Nil,
            HostValue::True => HostValue::True,
            HostValue::Int(i) => HostValue::Int(*i),
            HostValue::Text(s) => HostValue::Text(s.clone()),
            HostValue::Obj(id) => HostValue::Obj(*id),
        }
    }
}

/// The guest-visible stand-in for a non-primitive host value: one opaque
/// field holding the identity of the host value it refers to.
#[derive(Debug, PartialEq)]
pub struct ProxyHandle {
    pub id: u64,
}

impl Clone for ProxyHandle {
    fn clone(&self) -> (r: ProxyHandle)
        ensures
            r.id == self.id,
    {
        ProxyHandle { id: self.id }
    }
}

/// A guest value as it arrives at the bridge: either text bearing an encoded
/// primitive, a proxy handle previously handed out by the bridge, or some
/// other guest shape, which the installer is meant to keep away from
/// dispatch altogether.
#[derive(Debug)]
pub enum GuestValue {
    Text(String),
    Proxy(ProxyHandle),
    Other,
}

/// The mathematical model of a `GuestValue`.
pub enum GuestModel {
    Text(Seq<char>),
    Proxy(u64),
    Other,
}

impl View for GuestValue {
    type V = GuestModel;

    open spec fn view(&self) -> GuestModel {
        match self {
            GuestValue::Text(s) => GuestModel::Text(s@),
            GuestValue::Proxy(h) => GuestModel::Proxy(h.id),
            GuestValue::Other => GuestModel::Other,
        }
    }
}

/// The failures the bridge itself can report.
#[derive(Clone, Copy, Debug, PartialEq, Eq, Structural)]
pub enum BridgeError {
    /// A guest value of a shape dispatch never accepts, or a handle that no
    /// longer resolves: a broken installer or dispatch invariant.
    ContractViolation,
    /// A malformed capability configuration.
    Configuration,
}

impl BridgeError {
    /// The fixed descriptive message reported for this error.
    pub fn message(&self) -> (r: String)
        ensures
            *self is Configuration ==> r@
                == "Valid options are: :allow-net nil :allow-read nil :allow-write nil :allow-run nil"@,
            *self is ContractViolation ==> r@ == "Wrong Argument"@,
    {
        match self {
            BridgeError::Configuration => String::from_str(
                "Valid options are: :allow-net nil :allow-read nil :allow-write nil :allow-run nil",
            ),
            BridgeError::ContractViolation => String::from_str("Wrong Argument"),
        }
    }
}

} // verus!
