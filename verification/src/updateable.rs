use vstd::prelude::*;

use crate::entity::Entity;
use crate::meta::Timestamp;

verus! {

/// The view of a record that keeps the time of its last update.
#[derive(Debug)]
pub struct UpdateableView<'a> {
    pub updated_at: &'a Option<Timestamp>,
}

/// The view through which the time of the last update is set.
#[derive(Debug)]
pub struct UpdateableViewMut<'a> {
    pub updated_at: &'a mut Option<Timestamp>,
}

/// A kind of record that keeps the time of its last update in its payload.
pub trait Updateable: Entity {
    /// When the record was last updated, if it ever was.
    open spec fn updated_at(&self) -> Option<Timestamp> {
        arbitrary()
    }

    fn as_updateable(&self) -> (r: UpdateableView)
        ensures
            *r.updated_at == self.updated_at(),
    ;

    fn as_updateable_mut(&mut self) -> (r: UpdateableViewMut)
        ensures
            *r.updated_at == old(self).updated_at(),
            final(self).updated_at() == *final(r.updated_at),
    ;

    /// Records an update at the time `at`. The application then saves the record.
    fn update(&mut self, at: Timestamp)
        ensures
            final(self).updated_at() == Some(at),
    {
        let view = self.as_updateable_mut();
        *view.updated_at = Some(at);
    }
}

} // verus!
