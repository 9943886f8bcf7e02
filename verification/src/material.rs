use vstd::prelude::*;

verus! {

/// The material that neither scatters nor emits light; a hit record that has
/// not been filled in yet carries it.
pub struct DefaultMaterial {}

impl DefaultMaterial {
    /// Creates the default material.
    pub fn new() -> (m: Self)
        ensures
            m == (DefaultMaterial {}),
    {
        DefaultMaterial {  }
    }

    /// The default material never scatters an incoming ray.
    pub fn scatters(&self) -> (r: bool)
        ensures
            !r,
    {
        false
    }
}

} // verus!
