//! XML documents as sequences of events.

use vstd::prelude::*;
use quick_xml::events::Event;
use quick_xml::events::Event::{
    CData, Comment, Decl, DocType, Empty, End, Eof, GeneralRef, Start, Text, PI,
};
use std::borrow::Cow;
use crate::views::{each, each_empty, each_push, seen};

verus! {

/// A step through an XML document. Text is none where it cannot be decoded.
pub enum XmlEvent {
    Start(Vec<u8>),
    End(Vec<u8>),
    Text(Option<String>),
    CData(Option<String>),
    Decl,
    Comment,
    /// A processing instruction.
    Instruction,
    /// An element without content.
    Empty,
    DocType,
    /// A reference to an entity.
    Reference,
    /// The document is not well formed here.
    Broken,
}

/// An event over characters and bytes.
pub enum XmlEventView {
    Start(Seq<u8>),
    End(Seq<u8>),
    Text(Option<Seq<char>>),
    CData(Option<Seq<char>>),
    Decl,
    Comment,
    Instruction,
    Empty,
    DocType,
    Reference,
    Broken,
}

impl View for XmlEvent {
    type V = XmlEventView;

    open spec fn view(&self) -> XmlEventView {
        match self {
            XmlEvent::Start(name) => XmlEventView::Start(name@),
            XmlEvent::End(name) => XmlEventView::End(name@),
            XmlEvent::Text(text) => XmlEventView::Text(seen(*text)),
            XmlEvent::CData(text) => XmlEventView::CData(seen(*text)),
            XmlEvent::Decl => XmlEventView::Decl,
            XmlEvent::Comment => XmlEventView::Comment,
            XmlEvent::Instruction => XmlEventView::Instruction,
            XmlEvent::Empty => XmlEventView::Empty,
            XmlEvent::DocType => XmlEventView::DocType,
            XmlEvent::Reference => XmlEventView::Reference,
            XmlEvent::Broken => XmlEventView::Broken,
        }
    }
}

/// `quick_xml::Reader`, which hands out the events of a document one by one.
#[verifier::external_type_specification]
#[verifier::external_body]
#[verifier::reject_recursive_types(R)]
pub struct ExReader<R>(quick_xml::Reader<R>);

/// The events of a document up to its end, or up to and with the first place at which it is
/// not well formed. White space at the ends of texts is left out.
pub uninterp spec fn xml_events(text: Seq<char>) -> Seq<XmlEventView>;

/// The events that a reader has still to hand out, up to the same place.
pub uninterp spec fn xml_left(reader: quick_xml::Reader<&[u8]>) -> Seq<XmlEventView>;

/// `quick_xml::Reader::from_str`, set to trim texts: all events of the document are left.
#[verifier::external_body]
fn open_xml<'a>(text: &'a str) -> (r: quick_xml::Reader<&'a [u8]>)
    ensures
        xml_left(r) == xml_events(text@),
{
    let mut reader = quick_xml::Reader::from_str(text);
    reader.config_mut().trim_text(true);
    reader
}

/// `quick_xml::Reader::read_event_into`: the next event, or none at the end of the document.
/// What a reader does after an error is left unsaid.
#[verifier::external_body]
fn next_xml<'a>(reader: &mut quick_xml::Reader<&'a [u8]>) -> (r: Option<XmlEvent>)
    ensures
        xml_left(*old(reader)).len() == 0 ==> r is None,
        xml_left(*old(reader)).len() > 0 ==> seen(r) == Some(xml_left(*old(reader))[0]),
        xml_left(*old(reader)).len() > 0 && xml_left(*old(reader))[0] != XmlEventView::Broken
            ==> xml_left(*final(reader)) == xml_left(*old(reader)).skip(1),
        r matches Some(XmlEvent::Broken) ==> xml_left(*old(reader)).len() == 1,
{
    reader.read_event_into(&mut Vec::new()).map_or(Some(XmlEvent::Broken), xml_event)
}

/// `quick_xml::events::Event`.
#[verifier::external_type_specification]
#[verifier::external_body]
pub struct ExEvent<'a>(Event<'a>);

/// A `quick_xml::events::Event`, taken over one for one; none at the end of the document.
#[verifier::external_body]
fn xml_event<'a>(event: Event<'a>) -> (r: Option<XmlEvent>) {
    Some(match event {
        Start(element) => XmlEvent::Start(element.name().0.to_vec()),
        End(element) => XmlEvent::End(element.name().0.to_vec()),
        Text(text) => XmlEvent::Text(text.decode().ok().map(Cow::into_owned)),
        CData(text) => XmlEvent::CData(text.decode().ok().map(Cow::into_owned)),
        Decl(_) => XmlEvent::Decl,
        Comment(_) => XmlEvent::Comment,
        PI(_) => XmlEvent::Instruction,
        Empty(_) => XmlEvent::Empty,
        DocType(_) => XmlEvent::DocType,
        GeneralRef(_) => XmlEvent::Reference,
        Eof => return None,
    })
}

/// The events of a document.
pub fn read_xml(text: &str) -> (r: Vec<XmlEvent>)
    ensures
        each(r@) == xml_events(text@),
{
    let mut reader = open_xml(text);
    let mut out: Vec<XmlEvent> = Vec::new();
    proof {
        each_empty::<XmlEvent>();
        assert(each(out@) + xml_left(reader) =~= xml_events(text@));
    }
    loop
        invariant
            each(out@) + xml_left(reader) == xml_events(text@),
        decreases xml_left(reader).len(),
    {
        let ghost left = xml_left(reader);
        match next_xml(&mut reader) {
            None => {
                assert(each(out@) + left =~= each(out@));
                return out;
            },
            Some(event) => {
                proof {
                    each_push(out@, event);
                    assert(each(out@) + left =~= each(out@).push(event@) + left.skip(1));
                }
                let broken = match &event {
                    XmlEvent::Broken => true,
                    _ => false,
                };
                out.push(event);
                if broken {
                    assert(each(out@) + left.skip(1) =~= each(out@));
                    return out;
                }
            },
        }
    }
}

/// A text with its references to predefined entities and characters resolved, where all of
/// them can be.
pub uninterp spec fn xml_unescaped(text: Seq<char>) -> Option<Seq<char>>;

/// `quick_xml::escape::unescape`.
#[verifier::external_body]
pub(crate) fn unescape_xml(text: &str) -> (r: Option<String>)
    ensures
        seen(r) == xml_unescaped(text@),
{
    quick_xml::escape::unescape(text).ok().map(std::borrow::Cow::into_owned)
}

} // verus!
