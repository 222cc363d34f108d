use vstd::prelude::*;

verus! {

/// What an object method or a direct call may learn of the evaluation that
/// invokes it: the name of what is being evaluated. Objects receive it by
/// shared reference and cannot change it.
pub struct State {
    name: String,
}

impl State {
    pub closed spec fn spec_name(&self) -> Seq<char> {
        self.name@
    }

    pub fn new(name: &str) -> (r: State)
        ensures
            r.spec_name() == name@,
    {
        State { name: name.to_owned() }
    }

    pub fn name(&self) -> (r: &str)
        ensures
            r@ == self.spec_name(),
    {
        self.name.as_str()
    }
}

} // verus!
