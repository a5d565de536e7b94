use vstd::prelude::*;

verus! {

/// A value that can hand out the service which renders frames.
pub trait HavePixbufService {
    type SERVICE;

    fn pixbuf_service(&self) -> Self::SERVICE;
}

} // verus!
