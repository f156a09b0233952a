//! The Fox Theater adapter: registered but without a listing parser yet,
//! so it always reports nothing scheduled.

use vstd::prelude::*;
use crate::models::Event;

verus! {

pub struct FoxTheater;

impl FoxTheater {
    pub fn venue_id(&self) -> (r: &'static str)
        ensures
            r@ == "fox_theater"@,
    {
        "fox_theater"
    }

    pub fn venue_name(&self) -> (r: &'static str)
        ensures
            r@ == "Fox Theater"@,
    {
        "Fox Theater"
    }

    pub fn venue_url(&self) -> (r: &'static str)
        ensures
            r@ == "https://www.foxtheatre.org/"@,
    {
        "https://www.foxtheatre.org/"
    }

    /// No listings are parsed for this venue yet.
    pub fn fetch(&self) -> (r: Vec<Event>)
        ensures
            r@.len() == 0,
    {
        Vec::new()
    }
}

} // verus!
