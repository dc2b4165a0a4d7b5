use vstd::prelude::*;

use crate::host_object::{HostObjectTable, MemberKind};
use crate::runtime::RuntimeHandle;

verus! {

/// A small host object that an application installs into the global scope.
pub struct ExampleHostObject;

impl ExampleHostObject {
    /// The handler slot of `time`.
    pub const TIME_SLOT: u64 = 0;

    /// A fixed time value.
    pub fn time(&self, rt: &mut RuntimeHandle) -> (r: Result<i64, String>)
        ensures
            r matches Ok(t) && t == 3200,
            *final(rt) == *old(rt),
    {
        Ok(3200)
    }

    /// The registration table of this host object for the type tag `type_tag`:
    /// one synchronous method, `time`, with no parameters.
    pub fn table(type_tag: u64) -> (r: HostObjectTable)
        ensures
            r.type_tag() == type_tag,
            r.members().len() == 1,
            r.members()[0].name@ == crate::names::camel_case_of("time"@),
            r.members()[0].slot == Self::TIME_SLOT,
            r.members()[0].kind matches MemberKind::Method { params, is_async } && params@.len() == 0
                && !is_async,
            r.delegates().len() == 0,
    {
        let mut t = HostObjectTable::new(type_tag);
        t.add_method("time", Vec::new(), false, Self::TIME_SLOT);
        t
    }
}

} // verus!
