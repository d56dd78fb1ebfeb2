use vstd::prelude::*;

verus! {

/// The name of a percussion sound as it appears in a trigger message's
/// `s` property; scenes are bound to these names in the registry.
#[derive(Clone, Debug)]
pub struct DirtSound {
    name: String,
}

impl View for DirtSound {
    type V = Seq<char>;

    closed spec fn view(&self) -> Seq<char> {
        self.name@
    }
}

impl DirtSound {
    pub fn new(name: &str) -> (r: DirtSound)
        ensures
            r@ == name@,
    {
        DirtSound { name: name.to_owned() }
    }

    pub fn name(&self) -> (r: &str)
        ensures
            r@ == self@,
    {
        self.name.as_str()
    }
}

impl PartialEq for DirtSound {
    /// Two sounds are the same exactly when their names are.
    fn eq(&self, other: &DirtSound) -> (r: bool)
        ensures
            r == (self@ == other@),
    {
        self.name == other.name
    }
}

impl vstd::std_specs::cmp::PartialEqSpecImpl for DirtSound {
    open spec fn obeys_eq_spec() -> bool {
        true
    }

    open spec fn eq_spec(&self, other: &DirtSound) -> bool {
        self@ == other@
    }
}

} // verus!
