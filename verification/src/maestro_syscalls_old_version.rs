use vstd::prelude::*;

verus! {

/// The version of the gRPC service that wrote files through raw system
/// calls.
#[derive(Debug)]
pub struct MaestroVault {
    pub fake_item: String,
}

impl Default for MaestroVault {
    fn default() -> (v: MaestroVault)
        ensures
            v.fake_item@ == Seq::<char>::empty(),
    {
        MaestroVault { fake_item: String::new() }
    }
}

} // verus!
