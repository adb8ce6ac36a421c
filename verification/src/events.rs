//! The flat event stream that a document is tokenized into, and the
//! mathematical view of that stream.
//!
//! Decoders consume a sequence of these events; encoders produce one.
//! Tokenizing wire bytes into events and serializing events back into
//! wire bytes are the trusted edges of the library (see `xmlio`).

use vstd::prelude::*;

verus! {

/// One attribute as it appears on an opening tag.
#[derive(Debug, Clone, PartialEq)]
pub struct Attr {
    pub name: String,
    pub value: String,
}

/// View of an attribute: name and value as character sequences.
#[verifier::ext_equal]
pub struct AttrV {
    pub name: Seq<char>,
    pub value: Seq<char>,
}

impl DeepView for Attr {
    type V = AttrV;

    open spec fn deep_view(&self) -> AttrV {
        AttrV { name: self.name@, value: self.value@ }
    }
}

/// One event of the stream: an opening tag with its attributes, a closing
/// tag, or a run of character data.
#[derive(Debug, Clone, PartialEq)]
pub enum Event {
    Start { name: String, attrs: Vec<Attr> },
    End { name: String },
    Text { text: String },
}

/// View of an event over character sequences.
#[verifier::ext_equal]
pub enum EventV {
    Start { name: Seq<char>, attrs: Seq<AttrV> },
    End { name: Seq<char> },
    Text { text: Seq<char> },
}

impl DeepView for Event {
    type V = EventV;

    open spec fn deep_view(&self) -> EventV {
        match self {
            Event::Start { name, attrs } => EventV::Start {
                name: name@,
                attrs: attrs.deep_view(),
            },
            Event::End { name } => EventV::End { name: name@ },
            Event::Text { text } => EventV::Text { text: text@ },
        }
    }
}

/// Relies on `str`'s `==` (its `PartialEq` impl): true exactly when the
/// two strings hold the same characters.
#[verifier::external_body]
pub(crate) fn str_eq(a: &str, b: &str) -> (r: bool)
    ensures
        r == (a@ == b@),
{
    a == b
}

/// Value of the first attribute with the given name, if any.
pub open spec fn spec_find_attr(attrs: Seq<AttrV>, name: Seq<char>) -> Option<Seq<char>>
    decreases attrs.len(),
{
    if attrs.len() == 0 {
        None
    } else if attrs[0].name == name {
        Some(attrs[0].value)
    } else {
        spec_find_attr(attrs.drop_first(), name)
    }
}

/// Reads an optional attribute from an already-consumed opening tag:
/// the value of the first attribute with the given name, or `None`.
/// Never an error.
pub fn find_attr(attrs: &Vec<Attr>, name: &str) -> (r: Option<String>)
    ensures
        r.deep_view() == spec_find_attr(attrs.deep_view(), name@),
{
    let mut i: usize = 0;
    proof {
        assert(attrs.deep_view().skip(0) =~= attrs.deep_view());
    }
    while i < attrs.len()
        invariant
            0 <= i <= attrs.len(),
            spec_find_attr(attrs.deep_view(), name@) == spec_find_attr(
                attrs.deep_view().skip(i as int),
                name@,
            ),
        decreases attrs.len() - i,
    {
        if str_eq(attrs[i].name.as_str(), name) {
            proof {
                assert(attrs.deep_view().skip(i as int)[0] == attrs[i as int].deep_view());
            }
            return Some(attrs[i].value.clone());
        }
        proof {
            assert(attrs.deep_view().skip(i as int)[0] == attrs[i as int].deep_view());
            assert(attrs.deep_view().skip(i as int).drop_first() =~= attrs.deep_view().skip(
                i as int + 1,
            ));
        }
        i = i + 1;
    }
    proof {
        assert(attrs.deep_view().skip(i as int).len() == 0);
    }
    None
}

} // verus!
