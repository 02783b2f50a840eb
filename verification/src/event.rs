//! The request event that a proxy sends.
use vstd::prelude::*;

use crate::string_map::StringMap;
#[allow(unused_imports)]
use crate::text::texts;

verus! {

/// The head of a request.
#[derive(Debug)]
pub struct RequestHeadersEvent {
    /// The address of the client.
    pub client_ip: String,
    /// The request method.
    pub method: String,
    /// The request URI.
    pub uri: String,
    /// The values of each header, in order.
    pub headers: StringMap<Vec<String>>,
}

/// The content of a [`RequestHeadersEvent`].
pub struct EventModel {
    pub client_ip: Seq<char>,
    pub method: Seq<char>,
    pub uri: Seq<char>,
    pub headers: Map<Seq<char>, Seq<Seq<char>>>,
}

impl View for RequestHeadersEvent {
    type V = EventModel;

    open spec fn view(&self) -> EventModel {
        EventModel {
            client_ip: self.client_ip@,
            method: self.method@,
            uri: self.uri@,
            headers: self.headers@.map_values(|values: Vec<String>| texts(values@)),
        }
    }
}

} // verus!
