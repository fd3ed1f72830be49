//! Connection configuration.
//!
//! The shared client/database handle itself is created once per
//! process by the driver layer outside this crate; what the library
//! owns is the configuration it is created from: the documented local
//! fallback used when the environment supplies no connection string,
//! carrying the connect-timeout and pool-size bounds that apply to
//! every operation drawing from the handle.

use vstd::prelude::*;

verus! {

/// The connection string used when the environment supplies none.
pub fn default_connection_uri() -> (r: String)
    ensures
        r@ == "mongodb://localhost:27017/mongoose-rs-local?connectTimeoutMS=10000&maxPoolSize=500"@,
{
    "mongodb://localhost:27017/mongoose-rs-local?connectTimeoutMS=10000&maxPoolSize=500".to_owned()
}

} // verus!
