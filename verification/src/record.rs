//! The capability that every record type offers: it carries one identifier,
//! assigned by the remote store.

use vstd::prelude::*;

verus! {

/// A row of a table. The identifier is empty until the record has been
/// fetched or created remotely.
pub trait Record: Sized {
    /// The identifier that the record carries. A type that is verified
    /// states it; for any other type it is some function of the record.
    open spec fn id_view(&self) -> Seq<char> {
        arbitrary::<spec_fn(Self) -> Seq<char>>()(*self)
    }

    /// The record with the identifier `id` and every other field as it is.
    /// A type that is verified states it; for any other type it is some
    /// function of the record and the identifier.
    open spec fn with_id(self, id: String) -> Self {
        arbitrary::<spec_fn(Self, String) -> Self>()(self, id)
    }

    /// Gives the record the identifier `id` and leaves its other fields alone.
    fn set_id(&mut self, id: String)
        ensures
            *final(self) == old(self).with_id(id),
            final(self).id_view() == id@,
    ;

    /// The identifier that the record carries.
    fn id(&self) -> (r: &str)
        ensures
            r@ == self.id_view(),
    ;
}

} // verus!
