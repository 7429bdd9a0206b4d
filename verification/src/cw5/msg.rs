use vstd::prelude::*;

verus! {

#[derive(Clone, Debug, PartialEq)]
pub enum Cw5ExecuteMsg {
    Register { addr: String, name: String },
    Update { addr: String, name: String },
}

} // verus!
