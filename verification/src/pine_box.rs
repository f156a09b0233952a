//! The Pine Box Rock Shop adapter: registered but without a listing
//! parser yet, so it always reports nothing scheduled.

use vstd::prelude::*;
use crate::models::Event;

verus! {

pub struct PineBox;

impl PineBox {
    pub fn venue_id(&self) -> (r: &'static str)
        ensures
            r@ == "pine_box"@,
    {
        "pine_box"
    }

    pub fn venue_name(&self) -> (r: &'static str)
        ensures
            r@ == "Pine Box Rock Shop"@,
    {
        "Pine Box Rock Shop"
    }

    pub fn venue_url(&self) -> (r: &'static str)
        ensures
            r@ == "https://pineboxrockshop.com/"@,
    {
        "https://pineboxrockshop.com/"
    }

    /// No listings are parsed for this venue yet.
    pub fn fetch(&self) -> (r: Vec<Event>)
        ensures
            r@.len() == 0,
    {
        Vec::new()
    }
}

} // verus!
