//! The stored record type: a position-derived id plus three text fields.

use vstd::prelude::*;
use vstd::string::StringExecFns;
use crate::text::{dec_digits, u32_to_string};

verus! {

/// The mathematical content of a [`Password`] record.
pub ghost struct EntryV {
    pub id: u32,
    pub service: Seq<char>,
    pub login: Seq<char>,
    pub password: Seq<char>,
}

/// One stored service/login/password record. The id is a display index derived
/// from the record's position in the collection, not a stable identity.
#[derive(Clone, Debug, Default)]
pub struct Password {
    pub id: u32,
    pub service: String,
    pub login: String,
    pub password: String,
}

impl View for Password {
    type V = EntryV;

    open spec fn view(&self) -> EntryV {
        EntryV {
            id: self.id,
            service: self.service@,
            login: self.login@,
            password: self.password@,
        }
    }
}

/// The shared accessor capability of anything that carries the three text
/// fields: a stored record or the live form buffer.
pub trait Data {
    /// The login text as a sequence of characters.
    spec fn login_view(&self) -> Seq<char>;

    /// The password text as a sequence of characters.
    spec fn password_view(&self) -> Seq<char>;

    /// The service text as a sequence of characters.
    spec fn service_view(&self) -> Seq<char>;

    fn login(&self) -> (r: String)
        ensures
            r@ == self.login_view(),
    ;

    fn password(&self) -> (r: String)
        ensures
            r@ == self.password_view(),
    ;

    fn service(&self) -> (r: String)
        ensures
            r@ == self.service_view(),
    ;
}

impl Password {
    pub fn new(id: u32, service: &str, login: &str, password: &str) -> (p: Password)
        ensures
            p@ == (EntryV { id, service: service@, login: login@, password: password@ }),
    {
        Password {
            id,
            service: String::from_str(service),
            login: String::from_str(login),
            password: String::from_str(password),
        }
    }

    /// The id rendered in decimal, as it is shown and as it is written to disk.
    pub fn id(&self) -> (r: String)
        ensures
            r@ == dec_digits(self.id as nat),
    {
        u32_to_string(self.id)
    }

    /// The four columns of this record in display order.
    pub fn ref_array(&self) -> (r: [String; 4])
        ensures
            r@.len() == 4,
            r@[0]@ == dec_digits(self.id as nat),
            r@[1]@ == self@.service,
            r@[2]@ == self@.login,
            r@[3]@ == self@.password,
    {
        [self.id(), self.service(), self.login(), self.password()]
    }

    /// The one-line text form of this record, used for the whole-row clipboard
    /// export: the three text fields separated by three spaces.
    pub fn to_text(&self) -> (r: String)
        ensures
            r@ == self@.service + "   "@ + self@.login + "   "@ + self@.password,
    {
        let mut out = self.service();
        out.append("   ");
        out.append(self.login.as_str());
        out.append("   ");
        out.append(self.password.as_str());
        out
    }
}

impl Data for Password {
    open spec fn login_view(&self) -> Seq<char> {
        self.login@
    }

    open spec fn password_view(&self) -> Seq<char> {
        self.password@
    }

    open spec fn service_view(&self) -> Seq<char> {
        self.service@
    }

    fn login(&self) -> (r: String) {
        self.login.clone()
    }

    fn password(&self) -> (r: String) {
        self.password.clone()
    }

    fn service(&self) -> (r: String) {
        self.service.clone()
    }
}

} // verus!
