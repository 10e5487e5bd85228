//! The user record that an authenticated request acts for.
use vstd::prelude::*;

verus! {

/// A registered user. `birthdate` counts days from 1 January of year 1 of the proleptic
/// Gregorian calendar, that day being day 1.
#[derive(Debug, Clone)]
pub struct User {
    pub id: i64,
    pub name: String,
    pub surname: String,
    pub phone: Option<String>,
    pub country: Option<String>,
    pub address: Option<String>,
    pub birthdate: Option<i32>,
    pub note: Option<String>,
}

/// A user record as plain values.
pub struct UserView {
    pub id: i64,
    pub name: Seq<char>,
    pub surname: Seq<char>,
    pub phone: Option<Seq<char>>,
    pub country: Option<Seq<char>>,
    pub address: Option<Seq<char>>,
    pub birthdate: Option<i32>,
    pub note: Option<Seq<char>>,
}

pub open spec fn opt_text(s: Option<String>) -> Option<Seq<char>> {
    match s {
        Some(x) => Some(x@),
        None => None,
    }
}

fn copy_text(s: &Option<String>) -> (r: Option<String>)
    ensures
        opt_text(r) == opt_text(*s),
{
    match s {
        Some(x) => Some(x.clone()),
        None => None,
    }
}

impl View for User {
    type V = UserView;

    open spec fn view(&self) -> UserView {
        UserView {
            id: self.id,
            name: self.name@,
            surname: self.surname@,
            phone: opt_text(self.phone),
            country: opt_text(self.country),
            address: opt_text(self.address),
            birthdate: self.birthdate,
            note: opt_text(self.note),
        }
    }
}

impl User {
    /// A copy of the record.
    pub fn copy_record(&self) -> (r: User)
        ensures
            r@ == self@,
    {
        User {
            id: self.id,
            name: self.name.clone(),
            surname: self.surname.clone(),
            phone: copy_text(&self.phone),
            country: copy_text(&self.country),
            address: copy_text(&self.address),
            birthdate: self.birthdate,
            note: copy_text(&self.note),
        }
    }
}

} // verus!
