//! The failures that an attribute or a registration reports.

use vstd::prelude::*;

verus! {

/// A failure, named as the bus names it, with the detail that goes on the wire.
#[derive(Debug)]
pub enum GattError {
    /// A request carried an argument that the attribute cannot serve.
    InvalidArgs(String),
    /// The operation failed for a reason outside the request.
    Failed(String),
    /// The property was never given a value.
    UnknownProperty(String),
    /// The method exists on the interface but does nothing here.
    NotSupported(String),
    /// A text names no variant of the type it was read as.
    IOError(String),
    /// A text is not an object path.
    InvalidObjectPath,
}

/// A failure by its kind and the characters of its detail.
pub enum GattErrorView {
    InvalidArgs(Seq<char>),
    Failed(Seq<char>),
    UnknownProperty(Seq<char>),
    NotSupported(Seq<char>),
    IOError(Seq<char>),
    InvalidObjectPath,
}

impl View for GattError {
    type V = GattErrorView;

    open spec fn view(&self) -> GattErrorView {
        match self {
            GattError::InvalidArgs(s) => GattErrorView::InvalidArgs(s@),
            GattError::Failed(s) => GattErrorView::Failed(s@),
            GattError::UnknownProperty(s) => GattErrorView::UnknownProperty(s@),
            GattError::NotSupported(s) => GattErrorView::NotSupported(s@),
            GattError::IOError(s) => GattErrorView::IOError(s@),
            GattError::InvalidObjectPath => GattErrorView::InvalidObjectPath,
        }
    }
}

/// The detail of the failure that turns down an offset.
pub open spec fn invalid_offset_detail() -> Seq<char> {
    "InvalidOffset"@
}

/// The detail of the failure that turns down a text `m` as the token of a variant.
pub open spec fn invalid_variant_detail(m: Seq<char>) -> Seq<char> {
    m + " is an invalid variant"@
}

/// The failure that turns down a text as the token of a variant.
pub fn invalid_variant(m: &str) -> (e: GattError)
    ensures
        e@ == GattErrorView::IOError(invalid_variant_detail(m@)),
{
    let mut detail = m.to_string();
    detail.append(" is an invalid variant");
    GattError::IOError(detail)
}

/// The detail of the failure that reports that the lock on a value could
/// not be taken, for the reason given.
pub open spec fn lock_failure_detail(reason: Seq<char>) -> Seq<char> {
    "Could not lock data: "@ + reason
}

/// The failure that reports that the lock on a value could not be taken.
pub fn lock_failure(reason: &str) -> (e: GattError)
    ensures
        e@ == GattErrorView::Failed(lock_failure_detail(reason@)),
{
    let mut detail = "Could not lock data: ".to_string();
    detail.append(reason);
    GattError::Failed(detail)
}

/// The detail of the failure that reports the property `prop` of the
/// interface `iface` as never given a value.
pub open spec fn unused_property_detail(prop: Seq<char>, iface: Seq<char>) -> Seq<char> {
    iface + ": unused property '"@ + prop + "'"@
}

/// The failure that reports a property as unknown because it was never
/// given a value.
pub fn unused_property(prop: &str, iface: &str) -> (e: GattError)
    ensures
        e@ == GattErrorView::UnknownProperty(unused_property_detail(prop@, iface@)),
{
    let mut detail = iface.to_string();
    detail.append(": unused property '");
    detail.append(prop);
    detail.append("'");
    GattError::UnknownProperty(detail)
}

/// The detail of the failure that reports the property `prop` of the
/// interface `iface` as one that is switched off.
pub open spec fn experimental_property_detail(prop: Seq<char>, iface: Seq<char>) -> Seq<char> {
    iface + ": experimental property '"@ + prop + "' disabled"@
}

/// The failure that reports a property as unknown because it is switched
/// off.
pub fn experimental_property(prop: &str, iface: &str) -> (e: GattError)
    ensures
        e@ == GattErrorView::UnknownProperty(experimental_property_detail(prop@, iface@)),
{
    let mut detail = iface.to_string();
    detail.append(": experimental property '");
    detail.append(prop);
    detail.append("' disabled");
    GattError::UnknownProperty(detail)
}

/// The detail of the failure that reports the method `method` of the
/// interface `iface` as doing nothing here.
pub open spec fn not_supported_detail(method: Seq<char>, iface: Seq<char>) -> Seq<char> {
    method + " not supported on "@ + iface
}

/// The failure that reports a method as not supported.
pub fn not_supported(method: &str, iface: &str) -> (e: GattError)
    ensures
        e@ == GattErrorView::NotSupported(not_supported_detail(method@, iface@)),
{
    let mut detail = method.to_string();
    detail.append(" not supported on ");
    detail.append(iface);
    GattError::NotSupported(detail)
}

impl GattError {
    /// The failure that turns down an offset beyond the stored value.
    pub fn invalid_offset() -> (e: GattError)
        ensures
            e@ == GattErrorView::InvalidArgs(invalid_offset_detail()),
    {
        GattError::InvalidArgs("InvalidOffset".to_string())
    }

    /// The detail that goes on the wire; empty for a path that is none.
    pub fn detail(&self) -> (text: String)
        ensures
            text@ == match self@ {
                GattErrorView::InvalidArgs(s) => s,
                GattErrorView::Failed(s) => s,
                GattErrorView::UnknownProperty(s) => s,
                GattErrorView::NotSupported(s) => s,
                GattErrorView::IOError(s) => s,
                GattErrorView::InvalidObjectPath => Seq::<char>::empty(),
            },
    {
        match self {
            GattError::InvalidArgs(s) => s.clone(),
            GattError::Failed(s) => s.clone(),
            GattError::UnknownProperty(s) => s.clone(),
            GattError::NotSupported(s) => s.clone(),
            GattError::IOError(s) => s.clone(),
            GattError::InvalidObjectPath => String::new(),
        }
    }
}

} // verus!
