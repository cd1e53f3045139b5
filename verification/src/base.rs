//! The handle on one remote table, and the requests that write a record.

use crate::query::QueryBuilder;
use crate::record::Record;
use crate::write::{Method, WriteRequest};
use std::marker::PhantomData;
use vstd::prelude::*;
use vstd::string::StringExecFns;

verus! {

/// The root of the API, under which every table lives.
pub open spec fn api_root() -> Seq<char> {
    "https://api.airtable.com/v0"@
}

/// The address of a table: the root, the key of the base and the table's name.
pub open spec fn table_path(app_key: Seq<char>, table: Seq<char>) -> Seq<char> {
    api_root() + "/"@ + app_key + "/"@ + table
}

/// Whether a header value may hold `c`: a tab, or any character that is no
/// control character.
pub open spec fn header_char(c: char) -> bool {
    (c as u32 >= 32 && c as u32 != 127) || c as u32 == 9
}

/// Whether `text` can be sent as the value of a header.
pub open spec fn header_text(text: Seq<char>) -> bool {
    forall|i: int| 0 <= i < text.len() ==> header_char(#[trigger] text[i])
}

/// Calls `HeaderValue::from_str` of the `http` crate, as `reqwest` hands it
/// on, and says whether it accepted `value`. Not proved: that it accepts a
/// text exactly where each of its bytes is a tab or at least 32 and not 127,
/// which in characters is `header_text`, since every byte of a character
/// beyond ASCII is above 127.
#[verifier::external_body]
fn header_value_accepts(value: &str) -> (ok: bool)
    ensures
        ok == header_text(value@),
{
    reqwest::header::HeaderValue::from_str(value).is_ok()
}

/// Whether `api_key` can be a credential: whether the authorization header
/// made of it can be sent.
pub fn valid_credential(api_key: &str) -> (ok: bool)
    ensures
        ok == header_text(api_key@),
{
    let mut value = String::from_str("Bearer ");
    value.append(api_key);
    let ok = header_value_accepts(value.as_str());
    proof {
        reveal_strlit("Bearer ");
        let scheme = "Bearer "@;
        if header_text(value@) {
            assert forall|i: int| 0 <= i < api_key@.len() implies header_char(
                #[trigger] api_key@[i],
            ) by {
                assert(api_key@[i] == value@[scheme.len() + i]);
            }
        }
        if header_text(api_key@) {
            assert forall|i: int| 0 <= i < value@.len() implies header_char(
                #[trigger] value@[i],
            ) by {
                if i >= scheme.len() {
                    assert(value@[i] == api_key@[i - scheme.len()]);
                } else {
                    assert(value@[i] == scheme[i]);
                }
            }
        }
    }
    ok
}

/// The coordinates of one remote table whose rows are of type `T`.
pub struct Base<T: Record> {
    table: String,
    api_key: String,
    app_key: String,
    phantom: PhantomData<T>,
}

/// The handle on the table `table` of the base `app_key`, with the credential
/// `api_key`, which has to be one that a header can carry.
pub fn new<T: Record>(api_key: &str, app_key: &str, table: &str) -> (base: Base<T>)
    requires
        header_text(api_key@),
    ensures
        base.api_key_view() == api_key@,
        base.app_key_view() == app_key@,
        base.table_view() == table@,
{
    Base {
        table: table.to_owned(),
        api_key: api_key.to_owned(),
        app_key: app_key.to_owned(),
        phantom: PhantomData,
    }
}

impl<T: Record> Base<T> {
    /// The credential.
    pub closed spec fn api_key_view(&self) -> Seq<char> {
        self.api_key@
    }

    /// The key of the base.
    pub closed spec fn app_key_view(&self) -> Seq<char> {
        self.app_key@
    }

    /// The table's name.
    pub closed spec fn table_view(&self) -> Seq<char> {
        self.table@
    }

    /// The address of the table.
    pub open spec fn path_view(&self) -> Seq<char> {
        table_path(self.app_key_view(), self.table_view())
    }

    /// The address of the table: every request goes to it or below it.
    pub fn path(&self) -> (r: String)
        ensures
            r@ == self.path_view(),
    {
        let mut url = String::from_str("https://api.airtable.com/v0");
        url.append("/");
        url.append(self.app_key.as_str());
        url.append("/");
        url.append(self.table.as_str());
        url
    }

    /// The value of the authorization header that every request carries.
    pub fn authorization(&self) -> (r: String)
        ensures
            r@ == "Bearer "@ + self.api_key_view(),
    {
        let mut value = String::from_str("Bearer ");
        value.append(self.api_key.as_str());
        value
    }

    /// A query on the table with no view, no formula and no sort clause.
    pub fn query(&self) -> (q: QueryBuilder<'_, T>)
        ensures
            q.origin() == self,
            q.model().view.is_none(),
            q.model().formula.is_none(),
            q.model().sort.len() == 0,
    {
        QueryBuilder::fresh(self)
    }

    /// The request that creates `record`: a POST to the table, whose
    /// envelope carries no identifier, whatever the record holds.
    pub fn create(&self, record: &T) -> (request: WriteRequest)
        ensures
            request.method == Method::Post,
            request.url@ == self.path_view(),
            request.id@.len() == 0,
    {
        WriteRequest { method: Method::Post, url: self.path(), id: String::new() }
    }

    /// The request that updates `record`: a PATCH to the record's own
    /// address, whose envelope carries the record's identifier.
    pub fn update(&self, record: &T) -> (request: WriteRequest)
        ensures
            request.method == Method::Patch,
            request.url@ == self.path_view() + "/"@ + record.id_view(),
            request.id@ == record.id_view(),
    {
        let id = record.id();
        let mut url = self.path();
        url.append("/");
        url.append(id);
        WriteRequest { method: Method::Patch, url, id: id.to_owned() }
    }
}

} // verus!
