//! The administrators: who may open and close a bidding period.

use vstd::prelude::*;

use crate::error::ContractError;
use crate::host::Addr;
use crate::state::{State, StateView};

verus! {

/// The identities allowed to open and close a bidding period.
#[derive(Debug, PartialEq, Eq)]
pub struct AdminList {
    pub admins: Vec<Addr>,
}

impl View for AdminList {
    type V = Seq<Seq<char>>;

    open spec fn view(&self) -> Seq<Seq<char>> {
        self.admins.deep_view()
    }
}

impl AdminList {
    /// returns true if the address is a registered admin
    pub fn is_admin(&self, addr: &str) -> (r: bool)
        ensures
            r == self@.contains(addr@),
    {
        let mut i: usize = 0;
        while i < self.admins.len()
            invariant
                i <= self.admins.len(),
                forall|j: int| 0 <= j < i ==> self@[j] != addr@,
            decreases self.admins.len() - i,
        {
            if rank_same(self.admins[i].as_str(), addr) {
                assert(self@[i as int] == addr@);
                return true;
            }
            i += 1;
        }
        false
    }
}

/// Whether the two texts have the same characters.
fn rank_same(a: &str, b: &str) -> (r: bool)
    ensures
        r == (a@ == b@),
{
    crate::text::rank_of(a, b) == crate::text::Rank::Same
}

/// Whether `sender` may run an administrator's command in this state: `None`
/// where the administrators were never set.
pub open spec fn authorized(state: StateView, sender: Seq<char>) -> Option<bool> {
    match state.admins {
        Some(admins) => Some(admins.contains(sender)),
        None => None,
    }
}

/// Verify that an address is authorized to execute a privileged operation
pub fn can_execute(state: &State, sender: &str) -> (r: Result<bool, ContractError>)
    ensures
        match r {
            Ok(can) => authorized(state@, sender@) == Some(can),
            Err(e) => authorized(state@, sender@).is_none() && e
                == ContractError::ConfigurationMissing {},
        },
{
    match &state.admins {
        Some(cfg) => Ok(cfg.is_admin(sender)),
        None => Err(ContractError::ConfigurationMissing {}),
    }
}

} // verus!
