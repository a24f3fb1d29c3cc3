//! The environment permission: a toggle without resources.

use vstd::prelude::*;
use crate::permissions::PermissionTypeKey;

verus! {

/// The number of the environment kind in a permission's key.
pub const ENV_TYPE_ID: u32 = 2;

/// The access levels of the environment permission.
#[derive(Clone, Copy, Debug, PartialEq, Eq, Structural)]
pub enum Env {
    Read,
}

impl Env {
    /// The key of this level: the kind's number and the level's place.
    pub open spec fn spec_key(self) -> PermissionTypeKey {
        PermissionTypeKey { type_id: ENV_TYPE_ID, variant: 0 }
    }

    /// The key under which this level is registered.
    pub fn get_key(&self) -> (key: PermissionTypeKey)
        ensures
            key == self.spec_key(),
    {
        PermissionTypeKey { type_id: ENV_TYPE_ID, variant: 0 }
    }
}

} // verus!
