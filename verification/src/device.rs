use vstd::prelude::*;

verus! {

/// A remote device, as supplied by the device inventory. Identity is the
/// `name`, which is unique within the connection pool; the remaining fields
/// are the parameters used to establish an authenticated session. A device
/// record is immutable once a connection has been built from it.
#[derive(Clone)]
pub struct Device {
    pub name: String,
    pub address: String,
    pub credentials: String,
}

} // verus!
