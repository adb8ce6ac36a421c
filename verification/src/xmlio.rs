//! The trusted edge of the library: tokenizing wire text into the event
//! stream and serializing the event stream back into wire text.
//!
//! Under its fixed configuration the outside tokenizer is deterministic,
//! so what its k-th pull yields is a function of the text alone; that
//! result is given the name `raw_event_at`, and `spec_tokenize` — the
//! collected stream — is defined from it.  Likewise the outside emitter
//! is deterministic, so whether it accepts one more event and what text
//! it has produced are functions of the events accepted so far, named
//! `write_ok` and `xml_text_of`; `spec_serialize` is defined from them.
//! Every public function of this module carries an exact contract over
//! those names: all decisions — which events make an entity, which bytes
//! the emitter is handed — are made by the verified decoders and
//! encoders, and the trusted wrappers only move single events across the
//! boundary.

use vstd::prelude::*;
use vstd::string::StringSliceAdditionalSpecFns;

use crate::decode::{
    decode_approach, decode_attachment, decode_confidence_interval, decode_contact,
    decode_dataset, decode_datasets, decode_governance, decode_graphic, decode_graphics,
    decode_metric, decode_ml_parameter, decode_model_card, decode_model_parameters,
    decode_organization, decode_parameter_list, decode_properties, decode_quantitative,
    sdec_approach, sdec_attachment, sdec_confidence_interval, sdec_contact, sdec_dataset,
    sdec_datasets, sdec_governance, sdec_graphic, sdec_graphics, sdec_metric, sdec_ml_parameter,
    sdec_model_card, sdec_model_parameters, sdec_organization, sdec_parameter_list,
    sdec_properties, sdec_quantitative,
};
use crate::encode::{
    emit_attachment, emit_confidence_interval, emit_contact, emit_dataset, emit_datasets,
    emit_governance, emit_graphic, emit_graphics, emit_metric, emit_model_card,
    emit_model_parameters, emit_organization, emit_parameter_list, emit_properties,
    emit_quantitative, senc_attachment, senc_confidence_interval, senc_contact, senc_dataset,
    senc_datasets, senc_governance, senc_graphic, senc_graphics, senc_metric, senc_model_card,
    senc_model_parameters, senc_organization, senc_parameter_list, senc_properties,
    senc_quantitative,
};
use crate::errors::{DecodeError, DecodeErrorV, EncodeError};
use crate::events::{str_eq, Attr, AttrV, Event, EventV};
use crate::model::{
    Attachment, AttachmentV, ConfidenceInterval, ConfidenceIntervalV, Dataset, DatasetV,
    DataGovernance, DataGovernanceV, Datasets, Graphic, GraphicV, Graphics, GraphicsV, Inputs,
    MLParameter, MLParameterV, ModelCard, ModelCardV, ModelParameters, ModelParametersApproach,
    ModelParametersApproachV, ModelParametersV, OrganizationalContact, OrganizationalContactV,
    OrganizationalEntity, OrganizationalEntityV, Outputs, PerformanceMetric, PerformanceMetricV,
    Properties, PropertyV, QuantitativeAnalysis, QuantitativeAnalysisV,
};

verus! {

/// The executable result `r` of a whole-document operation is exactly the
/// specification-level result `s`.
pub open spec fn doc_agrees<T: DeepView>(
    r: Result<T, DecodeError>,
    s: Result<T::V, DecodeErrorV>,
) -> bool {
    match r {
        Ok(v) => s == Ok::<T::V, DecodeErrorV>(v.deep_view()),
        Err(e) => s == Err::<T::V, DecodeErrorV>(e.deep_view()),
    }
}

/// The executable result `r` of a serialization is exactly the
/// specification-level result `s`: the produced text, or the name of the
/// element whose write was refused.
pub open spec fn text_agrees(r: Result<String, EncodeError>, s: Result<Seq<char>, Seq<char>>) -> bool {
    match r {
        Ok(t) => s == Ok::<Seq<char>, Seq<char>>(t@),
        Err(e) => match e {
            EncodeError::SinkWriteFailure { element } => s == Err::<Seq<char>, Seq<char>>(element@),
        },
    }
}

// ---------------------------------------------------------------------
// Reading: the tokenizer behind a cursor with a ghost model
// ---------------------------------------------------------------------

/// The pull tokenizer, held opaquely: Verus refuses the declaration of
/// the outside reader type because of the trait bound its source carries.
#[verifier::external_body]
struct EventSource<'a> {
    inner: xml::reader::EventReader<&'a [u8]>,
}

/// What one pull from the tokenizer produced, reduced to what the
/// decoders consume.  Standalone whitespace is dropped by the tokenizer's
/// configuration; anything else the decoders have no use for — comments,
/// processing instructions, the document start marker — comes back as
/// `Skip`.
pub enum RawEvent {
    Start { name: String, attrs: Vec<Attr> },
    End { name: String },
    Text { text: String },
    DocEnd,
    Skip,
    Fail,
}

/// View of one pull's outcome.
#[verifier::ext_equal]
pub enum RawEventV {
    Start { name: Seq<char>, attrs: Seq<AttrV> },
    End { name: Seq<char> },
    Text { text: Seq<char> },
    DocEnd,
    Skip,
    Fail,
}

impl DeepView for RawEvent {
    type V = RawEventV;

    open spec fn deep_view(&self) -> RawEventV {
        match self {
            RawEvent::Start { name, attrs } => RawEventV::Start {
                name: name@,
                attrs: attrs.deep_view(),
            },
            RawEvent::End { name } => RawEventV::End { name: name@ },
            RawEvent::Text { text } => RawEventV::Text { text: text@ },
            RawEvent::DocEnd => RawEventV::DocEnd,
            RawEvent::Skip => RawEventV::Skip,
            RawEvent::Fail => RawEventV::Fail,
        }
    }
}

/// What the tokenizer's k-th pull on a text yields.  Under the fixed
/// configuration the outside tokenizer is deterministic — no randomness,
/// no environment, the same text gives the same pulls on every run — so
/// the outcome is a function of the text and the pull count alone; this
/// name stands for it.
pub uninterp spec fn raw_event_at(text: Seq<char>, k: int) -> RawEventV;

/// Relies on `xml::ParserConfig::create_reader`: a pull tokenizer over
/// the text, configured to trim and drop standalone whitespace and to
/// deliver CDATA as ordinary character data.
#[verifier::external_body]
fn reader_new<'a>(text: &'a str) -> (r: EventSource<'a>) {
    let inner = xml::ParserConfig::new()
        .trim_whitespace(true)
        .whitespace_to_characters(true)
        .cdata_to_characters(true)
        .create_reader(text.as_bytes());
    EventSource { inner }
}

/// The tokenizer together with the text it reads and the number of pulls
/// taken so far, carried as ghost state so that contracts can name the
/// next pull's outcome.
struct EventCursor<'a> {
    src: EventSource<'a>,
    text: Ghost<Seq<char>>,
    taken: Ghost<int>,
}

/// Opens a cursor at the start of the text.
fn cursor_new<'a>(text: &'a str) -> (c: EventCursor<'a>)
    ensures
        c.text@ == text@,
        c.taken@ == 0,
{
    EventCursor { src: reader_new(text), text: Ghost(text@), taken: Ghost(0int) }
}

/// Relies on `xml::reader::EventReader::next`: the next event of the
/// document, `EndDocument` forever once the document is done, and an
/// error forever once the text failed to tokenize.  The tokenizer is
/// deterministic, so the outcome of the k-th pull is the named function
/// `raw_event_at` of the text and k.
#[verifier::external_body]
fn cursor_next(c: &mut EventCursor) -> (e: RawEvent)
    ensures
        final(c).text@ == old(c).text@,
        final(c).taken@ == old(c).taken@ + 1,
        e.deep_view() == raw_event_at(old(c).text@, old(c).taken@),
{
    match c.src.inner.next() {
        Ok(xml::reader::XmlEvent::StartElement { name, attributes, .. }) => RawEvent::Start {
            name: name.local_name,
            attrs: attributes
                .into_iter()
                .map(|a| Attr { name: a.name.local_name, value: a.value })
                .collect(),
        },
        Ok(xml::reader::XmlEvent::EndElement { name }) => RawEvent::End { name: name.local_name },
        Ok(xml::reader::XmlEvent::Characters(t)) => RawEvent::Text { text: t },
        Ok(xml::reader::XmlEvent::EndDocument) => RawEvent::DocEnd,
        Ok(_) => RawEvent::Skip,
        Err(_) => RawEvent::Fail,
    }
}

/// The byte length of a text, as the machine reports it.
pub open spec fn byte_len(text: &str) -> int {
    text.spec_bytes().len() as usize as int
}

/// How many pulls tokenization is given before the stream counts as
/// malformed.  A document of n bytes cannot produce more than 2 * n
/// events plus a small margin, so the bound cuts nothing real off.
pub open spec fn tokenize_limit(text: &str) -> int {
    if 2 * byte_len(text) + 64 <= usize::MAX {
        2 * byte_len(text) + 64
    } else {
        usize::MAX as int
    }
}

pub open spec fn spec_tokenize_loop(
    text: Seq<char>,
    k: int,
    limit: int,
    acc: Seq<EventV>,
) -> Result<Seq<EventV>, DecodeErrorV>
    decreases limit - k,
{
    if k >= limit {
        Err(DecodeErrorV::MalformedDocument)
    } else {
        match raw_event_at(text, k) {
            RawEventV::Start { name, attrs } => spec_tokenize_loop(
                text,
                k + 1,
                limit,
                acc.push(EventV::Start { name, attrs }),
            ),
            RawEventV::End { name } => spec_tokenize_loop(
                text,
                k + 1,
                limit,
                acc.push(EventV::End { name }),
            ),
            RawEventV::Text { text: t } => spec_tokenize_loop(
                text,
                k + 1,
                limit,
                acc.push(EventV::Text { text: t }),
            ),
            RawEventV::DocEnd => Ok(acc),
            RawEventV::Skip => spec_tokenize_loop(text, k + 1, limit, acc),
            RawEventV::Fail => Err(DecodeErrorV::MalformedDocument),
        }
    }
}

/// What tokenizing a whole document yields: the collected events, or
/// `MalformedDocument` when the tokenizer fails or never finishes within
/// the pull bound.
pub open spec fn spec_tokenize(text: &str) -> Result<Seq<EventV>, DecodeErrorV> {
    spec_tokenize_loop(text@, 0, tokenize_limit(text), Seq::empty())
}

/// Tokenizes a whole document into the flat event stream the decoders
/// consume.
pub fn parse_events(text: &str) -> (r: Result<Vec<Event>, DecodeError>)
    ensures
        doc_agrees(r, spec_tokenize(text)),
{
    let mut cursor = cursor_new(text);
    let mut events: Vec<Event> = Vec::new();
    let limit: usize = match text.len().checked_mul(2) {
        Some(x) => match x.checked_add(64) {
            Some(y) => y,
            None => usize::MAX,
        },
        None => usize::MAX,
    };
    proof {
        assert(limit as int == tokenize_limit(text));
        assert(events.deep_view() =~= Seq::<EventV>::empty());
    }
    let mut steps: usize = 0;
    loop
        invariant
            steps <= limit,
            limit as int == tokenize_limit(text),
            cursor.text@ == text@,
            cursor.taken@ == steps as int,
            spec_tokenize(text) == spec_tokenize_loop(
                text@,
                steps as int,
                limit as int,
                events.deep_view(),
            ),
        decreases limit - steps,
    {
        if steps >= limit {
            return Err(DecodeError::MalformedDocument);
        }
        let e = cursor_next(&mut cursor);
        match e {
            RawEvent::Start { name, attrs } => {
                let ghost pre = events.deep_view();
                let ghost ev = EventV::Start { name: name@, attrs: attrs.deep_view() };
                events.push(Event::Start { name, attrs });
                proof {
                    assert(events.deep_view() =~= pre.push(ev));
                }
            },
            RawEvent::End { name } => {
                let ghost pre = events.deep_view();
                let ghost ev = EventV::End { name: name@ };
                events.push(Event::End { name });
                proof {
                    assert(events.deep_view() =~= pre.push(ev));
                }
            },
            RawEvent::Text { text: t } => {
                let ghost pre = events.deep_view();
                let ghost ev = EventV::Text { text: t@ };
                events.push(Event::Text { text: t });
                proof {
                    assert(events.deep_view() =~= pre.push(ev));
                }
            },
            RawEvent::DocEnd => {
                return Ok(events);
            },
            RawEvent::Skip => {},
            RawEvent::Fail => {
                return Err(DecodeError::MalformedDocument);
            },
        }
        steps = steps + 1;
    }
}

// ---------------------------------------------------------------------
// Writing: the emitter behind a cursor with a ghost model
// ---------------------------------------------------------------------

#[verifier::external_type_specification]
#[verifier::external_body]
#[verifier::reject_recursive_types(W)]
pub struct ExEventWriter<W>(xml::writer::EventWriter<W>);

/// Whether the emitter accepts one more event after having accepted the
/// given ones.  The outside emitter is deterministic — its state is a
/// function of the events it has accepted — so acceptance is a function
/// of that prefix and the event alone; this name stands for it.
pub uninterp spec fn write_ok(written: Seq<EventV>, next: EventV) -> bool;

/// The text the emitter's sink holds after it has accepted the given
/// events and nothing else.  Deterministic for the same reason; this name
/// stands for it.
pub uninterp spec fn xml_text_of(written: Seq<EventV>) -> Seq<char>;

/// Relies on `xml::EmitterConfig::create_writer`: an event emitter over a
/// fresh byte sink, configured to write no document declaration and to
/// keep empty elements as an open/close pair.
#[verifier::external_body]
fn writer_new() -> (w: xml::writer::EventWriter<Vec<u8>>) {
    xml::EmitterConfig::new()
        .write_document_declaration(false)
        .normalize_empty_elements(false)
        .create_writer(Vec::new())
}

/// The emitter together with the events it has accepted so far, carried
/// as ghost state; `clean` records that no write was ever refused, the
/// state in which the model speaks for the sink.
struct WriterCursor {
    sink: xml::writer::EventWriter<Vec<u8>>,
    written: Ghost<Seq<EventV>>,
    clean: Ghost<bool>,
}

/// Opens a cursor over a fresh sink.
fn writer_cursor_new() -> (w: WriterCursor)
    ensures
        w.written@ == Seq::<EventV>::empty(),
        w.clean@ == true,
{
    WriterCursor { sink: writer_new(), written: Ghost(Seq::empty()), clean: Ghost(true) }
}

/// Relies on `xml::writer::EventWriter::write` with a start-element
/// event: writes the opening tag with the given attributes.  Acceptance
/// is the named function of the accepted prefix and the event.
#[verifier::external_body]
fn cursor_start(w: &mut WriterCursor, name: &str, attrs: &Vec<Attr>) -> (ok: bool)
    ensures
        old(w).clean@ ==> ok == write_ok(
            old(w).written@,
            EventV::Start { name: name@, attrs: attrs.deep_view() },
        ),
        final(w).written@ == if old(w).clean@ && ok {
            old(w).written@.push(EventV::Start { name: name@, attrs: attrs.deep_view() })
        } else {
            old(w).written@
        },
        final(w).clean@ == (old(w).clean@ && ok),
{
    let ev = attrs.iter().fold(
        xml::writer::XmlEvent::start_element(name),
        |b, a| b.attr(a.name.as_str(), a.value.as_str()),
    );
    w.sink.write(ev).is_ok()
}

/// Relies on `xml::writer::EventWriter::write` with an end-element event:
/// writes the close tag of the innermost open element.  The emitter
/// infers the tag name itself; the name passed here only keeps the ghost
/// model aligned with the event being written.
#[verifier::external_body]
fn cursor_end(w: &mut WriterCursor, name: &str) -> (ok: bool)
    ensures
        old(w).clean@ ==> ok == write_ok(old(w).written@, EventV::End { name: name@ }),
        final(w).written@ == if old(w).clean@ && ok {
            old(w).written@.push(EventV::End { name: name@ })
        } else {
            old(w).written@
        },
        final(w).clean@ == (old(w).clean@ && ok),
{
    w.sink.write(xml::writer::XmlEvent::end_element()).is_ok()
}

/// Relies on `xml::writer::EventWriter::write` with a characters event:
/// writes the text, escaping what XML reserves.
#[verifier::external_body]
fn cursor_text(w: &mut WriterCursor, t: &str) -> (ok: bool)
    ensures
        old(w).clean@ ==> ok == write_ok(old(w).written@, EventV::Text { text: t@ }),
        final(w).written@ == if old(w).clean@ && ok {
            old(w).written@.push(EventV::Text { text: t@ })
        } else {
            old(w).written@
        },
        final(w).clean@ == (old(w).clean@ && ok),
{
    w.sink.write(xml::writer::XmlEvent::characters(t)).is_ok()
}

/// Relies on `xml::writer::EventWriter::into_inner`: hands back the bytes
/// written so far, read as text.  When every write was accepted that text
/// is the named function of the accepted events.
#[verifier::external_body]
fn cursor_finish(w: WriterCursor) -> (r: String)
    ensures
        w.clean@ ==> r@ == xml_text_of(w.written@),
{
    String::from_utf8_lossy(&w.sink.into_inner()).into_owned()
}

/// The element name an event answers for in a write failure: its tag, or
/// nothing for character data.
pub open spec fn event_element_name(e: EventV) -> Seq<char> {
    match e {
        EventV::Start { name, attrs } => name,
        EventV::End { name } => name,
        EventV::Text { text } => Seq::empty(),
    }
}

pub open spec fn spec_serialize_loop(events: Seq<EventV>, k: int) -> Result<(), Seq<char>>
    decreases events.len() - k,
{
    if k < 0 || k >= events.len() {
        Ok(())
    } else if write_ok(events.take(k), events[k]) {
        spec_serialize_loop(events, k + 1)
    } else {
        Err(event_element_name(events[k]))
    }
}

/// What serializing an event stream yields: the emitter's text when it
/// accepts every event in turn, else the name of the element whose write
/// was first refused.
pub open spec fn spec_serialize(events: Seq<EventV>) -> Result<Seq<char>, Seq<char>> {
    match spec_serialize_loop(events, 0) {
        Ok(u) => Ok(xml_text_of(events)),
        Err(n) => Err(n),
    }
}

/// Serializes an event stream into wire text.  The emitter never refuses
/// the streams the encoders produce; where it does refuse a write, the
/// name of the element being written comes back in the error.
pub fn events_to_xml(events: &Vec<Event>) -> (r: Result<String, EncodeError>)
    ensures
        text_agrees(r, spec_serialize(events.deep_view())),
{
    let ghost ev = events.deep_view();
    let mut w = writer_cursor_new();
    let mut i: usize = 0;
    proof {
        assert(ev.take(0) =~= Seq::<EventV>::empty());
        assert(ev.len() == events@.len());
    }
    while i < events.len()
        invariant
            i <= events@.len(),
            ev == events.deep_view(),
            ev.len() == events@.len(),
            w.written@ == ev.take(i as int),
            w.clean@ == true,
            spec_serialize_loop(ev, 0) == spec_serialize_loop(ev, i as int),
        decreases events@.len() - i,
    {
        proof {
            assert(ev[i as int] == events@[i as int].deep_view());
        }
        let ok = match &events[i] {
            Event::Start { name, attrs } => cursor_start(&mut w, name.as_str(), attrs),
            Event::End { name } => cursor_end(&mut w, name.as_str()),
            Event::Text { text } => cursor_text(&mut w, text.as_str()),
        };
        if !ok {
            let element = match &events[i] {
                Event::Start { name, attrs: _ } => name.clone(),
                Event::End { name } => name.clone(),
                Event::Text { text: _ } => String::new(),
            };
            return Err(EncodeError::SinkWriteFailure { element });
        }
        proof {
            assert(ev.take(i as int).push(ev[i as int]) =~= ev.take(i as int + 1));
        }
        i = i + 1;
    }
    proof {
        assert(ev.take(ev.len() as int) =~= ev);
    }
    Ok(cursor_finish(w))
}

// ---------------------------------------------------------------------
// Whole-document entry points
// ---------------------------------------------------------------------

/// What decoding a whole `modelCard` document yields, as a function of the
/// tokenization outcome.
pub open spec fn sdoc_model_card(tr: Result<Seq<EventV>, DecodeErrorV>) -> Result<ModelCardV, DecodeErrorV> {
    match tr {
        Err(e) => Err(e),
        Ok(events) => {
            if events.len() == 0 {
                Err(DecodeErrorV::UnexpectedEndOfStream)
            } else {
                match events[0] {
                    EventV::Start { name, attrs } => {
                        if name == "modelCard"@ {
                            sdec_model_card(events, 1, attrs).0
                        } else {
                            Err(
                                DecodeErrorV::UnexpectedElement {
                                    expected: "modelCard"@,
                                    found: name,
                                },
                            )
                        }
                    },
                    EventV::End { name } => Err(
                        DecodeErrorV::UnexpectedElement { expected: "modelCard"@, found: name },
                    ),
                    EventV::Text { text } => Err(
                        DecodeErrorV::UnexpectedElement { expected: "modelCard"@, found: text },
                    ),
                }
            }
        },
    }
}

/// Decodes a whole document whose root element is `modelCard`.
pub fn model_card_from_xml(text: &str) -> (r: Result<ModelCard, DecodeError>)
    ensures
        doc_agrees(r, sdoc_model_card(spec_tokenize(text))),
{
    let events = match parse_events(text) {
        Ok(e) => e,
        Err(e) => {
            return Err(e);
        },
    };
    proof {
        assert(events.deep_view().len() == events@.len());
    }
    if events.len() == 0 {
        return Err(DecodeError::UnexpectedEndOfStream);
    }
    proof {
        assert(events.deep_view()[0] == events@[0].deep_view());
    }
    match &events[0] {
        Event::Start { name, attrs } => {
            if str_eq(name.as_str(), "modelCard") {
                let (dr, _) = decode_model_card(&events, 1, attrs);
                dr
            } else {
                Err(
                    DecodeError::UnexpectedElement {
                        expected: "modelCard".to_owned(),
                        found: name.clone(),
                    },
                )
            }
        },
        Event::End { name } => Err(
            DecodeError::UnexpectedElement { expected: "modelCard".to_owned(), found: name.clone() },
        ),
        Event::Text { text: t } => Err(
            DecodeError::UnexpectedElement { expected: "modelCard".to_owned(), found: t.clone() },
        ),
    }
}

/// Encodes one `modelCard` element as a whole document.
pub fn model_card_to_xml(x: &ModelCard) -> (r: Result<String, EncodeError>)
    ensures
        text_agrees(r, spec_serialize(senc_model_card(x.deep_view()))),
{
    let mut events: Vec<Event> = Vec::new();
    emit_model_card(&mut events, x);
    proof {
        assert(events.deep_view() =~= senc_model_card(x.deep_view()));
    }
    events_to_xml(&events)
}

/// What decoding a whole `modelParameters` document yields, as a function of the
/// tokenization outcome.
pub open spec fn sdoc_model_parameters(tr: Result<Seq<EventV>, DecodeErrorV>) -> Result<ModelParametersV, DecodeErrorV> {
    match tr {
        Err(e) => Err(e),
        Ok(events) => {
            if events.len() == 0 {
                Err(DecodeErrorV::UnexpectedEndOfStream)
            } else {
                match events[0] {
                    EventV::Start { name, attrs: _ } => {
                        if name == "modelParameters"@ {
                            sdec_model_parameters(events, 1).0
                        } else {
                            Err(
                                DecodeErrorV::UnexpectedElement {
                                    expected: "modelParameters"@,
                                    found: name,
                                },
                            )
                        }
                    },
                    EventV::End { name } => Err(
                        DecodeErrorV::UnexpectedElement { expected: "modelParameters"@, found: name },
                    ),
                    EventV::Text { text } => Err(
                        DecodeErrorV::UnexpectedElement { expected: "modelParameters"@, found: text },
                    ),
                }
            }
        },
    }
}

/// Decodes a whole document whose root element is `modelParameters`.
pub fn model_parameters_from_xml(text: &str) -> (r: Result<ModelParameters, DecodeError>)
    ensures
        doc_agrees(r, sdoc_model_parameters(spec_tokenize(text))),
{
    let events = match parse_events(text) {
        Ok(e) => e,
        Err(e) => {
            return Err(e);
        },
    };
    proof {
        assert(events.deep_view().len() == events@.len());
    }
    if events.len() == 0 {
        return Err(DecodeError::UnexpectedEndOfStream);
    }
    proof {
        assert(events.deep_view()[0] == events@[0].deep_view());
    }
    match &events[0] {
        Event::Start { name, attrs: _ } => {
            if str_eq(name.as_str(), "modelParameters") {
                let (dr, _) = decode_model_parameters(&events, 1);
                dr
            } else {
                Err(
                    DecodeError::UnexpectedElement {
                        expected: "modelParameters".to_owned(),
                        found: name.clone(),
                    },
                )
            }
        },
        Event::End { name } => Err(
            DecodeError::UnexpectedElement { expected: "modelParameters".to_owned(), found: name.clone() },
        ),
        Event::Text { text: t } => Err(
            DecodeError::UnexpectedElement { expected: "modelParameters".to_owned(), found: t.clone() },
        ),
    }
}

/// Encodes one `modelParameters` element as a whole document.
pub fn model_parameters_to_xml(x: &ModelParameters) -> (r: Result<String, EncodeError>)
    ensures
        text_agrees(r, spec_serialize(senc_model_parameters(x.deep_view()))),
{
    let mut events: Vec<Event> = Vec::new();
    emit_model_parameters(&mut events, x);
    proof {
        assert(events.deep_view() =~= senc_model_parameters(x.deep_view()));
    }
    events_to_xml(&events)
}

/// What decoding a whole `approach` document yields, as a function of the
/// tokenization outcome.
pub open spec fn sdoc_approach(tr: Result<Seq<EventV>, DecodeErrorV>) -> Result<ModelParametersApproachV, DecodeErrorV> {
    match tr {
        Err(e) => Err(e),
        Ok(events) => {
            if events.len() == 0 {
                Err(DecodeErrorV::UnexpectedEndOfStream)
            } else {
                match events[0] {
                    EventV::Start { name, attrs: _ } => {
                        if name == "approach"@ {
                            sdec_approach(events, 1).0
                        } else {
                            Err(
                                DecodeErrorV::UnexpectedElement {
                                    expected: "approach"@,
                                    found: name,
                                },
                            )
                        }
                    },
                    EventV::End { name } => Err(
                        DecodeErrorV::UnexpectedElement { expected: "approach"@, found: name },
                    ),
                    EventV::Text { text } => Err(
                        DecodeErrorV::UnexpectedElement { expected: "approach"@, found: text },
                    ),
                }
            }
        },
    }
}

/// Decodes a whole document whose root element is `approach`.
pub fn approach_from_xml(text: &str) -> (r: Result<ModelParametersApproach, DecodeError>)
    ensures
        doc_agrees(r, sdoc_approach(spec_tokenize(text))),
{
    let events = match parse_events(text) {
        Ok(e) => e,
        Err(e) => {
            return Err(e);
        },
    };
    proof {
        assert(events.deep_view().len() == events@.len());
    }
    if events.len() == 0 {
        return Err(DecodeError::UnexpectedEndOfStream);
    }
    proof {
        assert(events.deep_view()[0] == events@[0].deep_view());
    }
    match &events[0] {
        Event::Start { name, attrs: _ } => {
            if str_eq(name.as_str(), "approach") {
                let (dr, _) = decode_approach(&events, 1);
                dr
            } else {
                Err(
                    DecodeError::UnexpectedElement {
                        expected: "approach".to_owned(),
                        found: name.clone(),
                    },
                )
            }
        },
        Event::End { name } => Err(
            DecodeError::UnexpectedElement { expected: "approach".to_owned(), found: name.clone() },
        ),
        Event::Text { text: t } => Err(
            DecodeError::UnexpectedElement { expected: "approach".to_owned(), found: t.clone() },
        ),
    }
}

/// What decoding a whole `quantitativeAnalysis` document yields, as a function of the
/// tokenization outcome.
pub open spec fn sdoc_quantitative_analysis(tr: Result<Seq<EventV>, DecodeErrorV>) -> Result<QuantitativeAnalysisV, DecodeErrorV> {
    match tr {
        Err(e) => Err(e),
        Ok(events) => {
            if events.len() == 0 {
                Err(DecodeErrorV::UnexpectedEndOfStream)
            } else {
                match events[0] {
                    EventV::Start { name, attrs: _ } => {
                        if name == "quantitativeAnalysis"@ {
                            sdec_quantitative(events, 1).0
                        } else {
                            Err(
                                DecodeErrorV::UnexpectedElement {
                                    expected: "quantitativeAnalysis"@,
                                    found: name,
                                },
                            )
                        }
                    },
                    EventV::End { name } => Err(
                        DecodeErrorV::UnexpectedElement { expected: "quantitativeAnalysis"@, found: name },
                    ),
                    EventV::Text { text } => Err(
                        DecodeErrorV::UnexpectedElement { expected: "quantitativeAnalysis"@, found: text },
                    ),
                }
            }
        },
    }
}

/// Decodes a whole document whose root element is `quantitativeAnalysis`.
pub fn quantitative_analysis_from_xml(text: &str) -> (r: Result<QuantitativeAnalysis, DecodeError>)
    ensures
        doc_agrees(r, sdoc_quantitative_analysis(spec_tokenize(text))),
{
    let events = match parse_events(text) {
        Ok(e) => e,
        Err(e) => {
            return Err(e);
        },
    };
    proof {
        assert(events.deep_view().len() == events@.len());
    }
    if events.len() == 0 {
        return Err(DecodeError::UnexpectedEndOfStream);
    }
    proof {
        assert(events.deep_view()[0] == events@[0].deep_view());
    }
    match &events[0] {
        Event::Start { name, attrs: _ } => {
            if str_eq(name.as_str(), "quantitativeAnalysis") {
                let (dr, _) = decode_quantitative(&events, 1);
                dr
            } else {
                Err(
                    DecodeError::UnexpectedElement {
                        expected: "quantitativeAnalysis".to_owned(),
                        found: name.clone(),
                    },
                )
            }
        },
        Event::End { name } => Err(
            DecodeError::UnexpectedElement { expected: "quantitativeAnalysis".to_owned(), found: name.clone() },
        ),
        Event::Text { text: t } => Err(
            DecodeError::UnexpectedElement { expected: "quantitativeAnalysis".to_owned(), found: t.clone() },
        ),
    }
}

/// Encodes one `quantitativeAnalysis` element as a whole document.
pub fn quantitative_analysis_to_xml(x: &QuantitativeAnalysis) -> (r: Result<String, EncodeError>)
    ensures
        text_agrees(r, spec_serialize(senc_quantitative(x.deep_view()))),
{
    let mut events: Vec<Event> = Vec::new();
    emit_quantitative(&mut events, x);
    proof {
        assert(events.deep_view() =~= senc_quantitative(x.deep_view()));
    }
    events_to_xml(&events)
}

/// What decoding a whole `confidenceInterval` document yields, as a function of the
/// tokenization outcome.
pub open spec fn sdoc_confidence_interval(tr: Result<Seq<EventV>, DecodeErrorV>) -> Result<ConfidenceIntervalV, DecodeErrorV> {
    match tr {
        Err(e) => Err(e),
        Ok(events) => {
            if events.len() == 0 {
                Err(DecodeErrorV::UnexpectedEndOfStream)
            } else {
                match events[0] {
                    EventV::Start { name, attrs: _ } => {
                        if name == "confidenceInterval"@ {
                            sdec_confidence_interval(events, 1).0
                        } else {
                            Err(
                                DecodeErrorV::UnexpectedElement {
                                    expected: "confidenceInterval"@,
                                    found: name,
                                },
                            )
                        }
                    },
                    EventV::End { name } => Err(
                        DecodeErrorV::UnexpectedElement { expected: "confidenceInterval"@, found: name },
                    ),
                    EventV::Text { text } => Err(
                        DecodeErrorV::UnexpectedElement { expected: "confidenceInterval"@, found: text },
                    ),
                }
            }
        },
    }
}

/// Decodes a whole document whose root element is `confidenceInterval`.
pub fn confidence_interval_from_xml(text: &str) -> (r: Result<ConfidenceInterval, DecodeError>)
    ensures
        doc_agrees(r, sdoc_confidence_interval(spec_tokenize(text))),
{
    let events = match parse_events(text) {
        Ok(e) => e,
        Err(e) => {
            return Err(e);
        },
    };
    proof {
        assert(events.deep_view().len() == events@.len());
    }
    if events.len() == 0 {
        return Err(DecodeError::UnexpectedEndOfStream);
    }
    proof {
        assert(events.deep_view()[0] == events@[0].deep_view());
    }
    match &events[0] {
        Event::Start { name, attrs: _ } => {
            if str_eq(name.as_str(), "confidenceInterval") {
                let (dr, _) = decode_confidence_interval(&events, 1);
                dr
            } else {
                Err(
                    DecodeError::UnexpectedElement {
                        expected: "confidenceInterval".to_owned(),
                        found: name.clone(),
                    },
                )
            }
        },
        Event::End { name } => Err(
            DecodeError::UnexpectedElement { expected: "confidenceInterval".to_owned(), found: name.clone() },
        ),
        Event::Text { text: t } => Err(
            DecodeError::UnexpectedElement { expected: "confidenceInterval".to_owned(), found: t.clone() },
        ),
    }
}

/// Encodes one `confidenceInterval` element as a whole document.
pub fn confidence_interval_to_xml(x: &ConfidenceInterval) -> (r: Result<String, EncodeError>)
    ensures
        text_agrees(r, spec_serialize(senc_confidence_interval(x.deep_view()))),
{
    let mut events: Vec<Event> = Vec::new();
    emit_confidence_interval(&mut events, x);
    proof {
        assert(events.deep_view() =~= senc_confidence_interval(x.deep_view()));
    }
    events_to_xml(&events)
}

/// What decoding a whole `performanceMetric` document yields, as a function of the
/// tokenization outcome.
pub open spec fn sdoc_performance_metric(tr: Result<Seq<EventV>, DecodeErrorV>) -> Result<PerformanceMetricV, DecodeErrorV> {
    match tr {
        Err(e) => Err(e),
        Ok(events) => {
            if events.len() == 0 {
                Err(DecodeErrorV::UnexpectedEndOfStream)
            } else {
                match events[0] {
                    EventV::Start { name, attrs: _ } => {
                        if name == "performanceMetric"@ {
                            sdec_metric(events, 1).0
                        } else {
                            Err(
                                DecodeErrorV::UnexpectedElement {
                                    expected: "performanceMetric"@,
                                    found: name,
                                },
                            )
                        }
                    },
                    EventV::End { name } => Err(
                        DecodeErrorV::UnexpectedElement { expected: "performanceMetric"@, found: name },
                    ),
                    EventV::Text { text } => Err(
                        DecodeErrorV::UnexpectedElement { expected: "performanceMetric"@, found: text },
                    ),
                }
            }
        },
    }
}

/// Decodes a whole document whose root element is `performanceMetric`.
pub fn performance_metric_from_xml(text: &str) -> (r: Result<PerformanceMetric, DecodeError>)
    ensures
        doc_agrees(r, sdoc_performance_metric(spec_tokenize(text))),
{
    let events = match parse_events(text) {
        Ok(e) => e,
        Err(e) => {
            return Err(e);
        },
    };
    proof {
        assert(events.deep_view().len() == events@.len());
    }
    if events.len() == 0 {
        return Err(DecodeError::UnexpectedEndOfStream);
    }
    proof {
        assert(events.deep_view()[0] == events@[0].deep_view());
    }
    match &events[0] {
        Event::Start { name, attrs: _ } => {
            if str_eq(name.as_str(), "performanceMetric") {
                let (dr, _) = decode_metric(&events, 1);
                dr
            } else {
                Err(
                    DecodeError::UnexpectedElement {
                        expected: "performanceMetric".to_owned(),
                        found: name.clone(),
                    },
                )
            }
        },
        Event::End { name } => Err(
            DecodeError::UnexpectedElement { expected: "performanceMetric".to_owned(), found: name.clone() },
        ),
        Event::Text { text: t } => Err(
            DecodeError::UnexpectedElement { expected: "performanceMetric".to_owned(), found: t.clone() },
        ),
    }
}

/// Encodes one `performanceMetric` element as a whole document.
pub fn performance_metric_to_xml(x: &PerformanceMetric) -> (r: Result<String, EncodeError>)
    ensures
        text_agrees(r, spec_serialize(senc_metric(x.deep_view()))),
{
    let mut events: Vec<Event> = Vec::new();
    emit_metric(&mut events, x);
    proof {
        assert(events.deep_view() =~= senc_metric(x.deep_view()));
    }
    events_to_xml(&events)
}

/// What decoding a whole `dataset` document yields, as a function of the
/// tokenization outcome.
pub open spec fn sdoc_dataset(tr: Result<Seq<EventV>, DecodeErrorV>) -> Result<DatasetV, DecodeErrorV> {
    match tr {
        Err(e) => Err(e),
        Ok(events) => {
            if events.len() == 0 {
                Err(DecodeErrorV::UnexpectedEndOfStream)
            } else {
                match events[0] {
                    EventV::Start { name, attrs } => {
                        if name == "dataset"@ {
                            sdec_dataset(events, 1, attrs).0
                        } else {
                            Err(
                                DecodeErrorV::UnexpectedElement {
                                    expected: "dataset"@,
                                    found: name,
                                },
                            )
                        }
                    },
                    EventV::End { name } => Err(
                        DecodeErrorV::UnexpectedElement { expected: "dataset"@, found: name },
                    ),
                    EventV::Text { text } => Err(
                        DecodeErrorV::UnexpectedElement { expected: "dataset"@, found: text },
                    ),
                }
            }
        },
    }
}

/// Decodes a whole document whose root element is `dataset`.
pub fn dataset_from_xml(text: &str) -> (r: Result<Dataset, DecodeError>)
    ensures
        doc_agrees(r, sdoc_dataset(spec_tokenize(text))),
{
    let events = match parse_events(text) {
        Ok(e) => e,
        Err(e) => {
            return Err(e);
        },
    };
    proof {
        assert(events.deep_view().len() == events@.len());
    }
    if events.len() == 0 {
        return Err(DecodeError::UnexpectedEndOfStream);
    }
    proof {
        assert(events.deep_view()[0] == events@[0].deep_view());
    }
    match &events[0] {
        Event::Start { name, attrs } => {
            if str_eq(name.as_str(), "dataset") {
                let (dr, _) = decode_dataset(&events, 1, attrs);
                dr
            } else {
                Err(
                    DecodeError::UnexpectedElement {
                        expected: "dataset".to_owned(),
                        found: name.clone(),
                    },
                )
            }
        },
        Event::End { name } => Err(
            DecodeError::UnexpectedElement { expected: "dataset".to_owned(), found: name.clone() },
        ),
        Event::Text { text: t } => Err(
            DecodeError::UnexpectedElement { expected: "dataset".to_owned(), found: t.clone() },
        ),
    }
}

/// Encodes one `dataset` element as a whole document.
pub fn dataset_to_xml(x: &Dataset) -> (r: Result<String, EncodeError>)
    ensures
        text_agrees(r, spec_serialize(senc_dataset(x.deep_view()))),
{
    let mut events: Vec<Event> = Vec::new();
    emit_dataset(&mut events, x);
    proof {
        assert(events.deep_view() =~= senc_dataset(x.deep_view()));
    }
    events_to_xml(&events)
}

/// What decoding a whole `datasets` document yields, as a function of the
/// tokenization outcome.
pub open spec fn sdoc_datasets(tr: Result<Seq<EventV>, DecodeErrorV>) -> Result<Seq<DatasetV>, DecodeErrorV> {
    match tr {
        Err(e) => Err(e),
        Ok(events) => {
            if events.len() == 0 {
                Err(DecodeErrorV::UnexpectedEndOfStream)
            } else {
                match events[0] {
                    EventV::Start { name, attrs: _ } => {
                        if name == "datasets"@ {
                            sdec_datasets(events, 1).0
                        } else {
                            Err(
                                DecodeErrorV::UnexpectedElement {
                                    expected: "datasets"@,
                                    found: name,
                                },
                            )
                        }
                    },
                    EventV::End { name } => Err(
                        DecodeErrorV::UnexpectedElement { expected: "datasets"@, found: name },
                    ),
                    EventV::Text { text } => Err(
                        DecodeErrorV::UnexpectedElement { expected: "datasets"@, found: text },
                    ),
                }
            }
        },
    }
}

/// Decodes a whole document whose root element is `datasets`.
pub fn datasets_from_xml(text: &str) -> (r: Result<Datasets, DecodeError>)
    ensures
        doc_agrees(r, sdoc_datasets(spec_tokenize(text))),
{
    let events = match parse_events(text) {
        Ok(e) => e,
        Err(e) => {
            return Err(e);
        },
    };
    proof {
        assert(events.deep_view().len() == events@.len());
    }
    if events.len() == 0 {
        return Err(DecodeError::UnexpectedEndOfStream);
    }
    proof {
        assert(events.deep_view()[0] == events@[0].deep_view());
    }
    match &events[0] {
        Event::Start { name, attrs: _ } => {
            if str_eq(name.as_str(), "datasets") {
                let (dr, _) = decode_datasets(&events, 1);
                dr
            } else {
                Err(
                    DecodeError::UnexpectedElement {
                        expected: "datasets".to_owned(),
                        found: name.clone(),
                    },
                )
            }
        },
        Event::End { name } => Err(
            DecodeError::UnexpectedElement { expected: "datasets".to_owned(), found: name.clone() },
        ),
        Event::Text { text: t } => Err(
            DecodeError::UnexpectedElement { expected: "datasets".to_owned(), found: t.clone() },
        ),
    }
}

/// Encodes one `datasets` element as a whole document.
pub fn datasets_to_xml(x: &Datasets) -> (r: Result<String, EncodeError>)
    ensures
        text_agrees(r, spec_serialize(senc_datasets(x.deep_view()))),
{
    let mut events: Vec<Event> = Vec::new();
    emit_datasets(&mut events, x);
    proof {
        assert(events.deep_view() =~= senc_datasets(x.deep_view()));
    }
    events_to_xml(&events)
}

/// What decoding a whole `governance` document yields, as a function of the
/// tokenization outcome.
pub open spec fn sdoc_governance(tr: Result<Seq<EventV>, DecodeErrorV>) -> Result<DataGovernanceV, DecodeErrorV> {
    match tr {
        Err(e) => Err(e),
        Ok(events) => {
            if events.len() == 0 {
                Err(DecodeErrorV::UnexpectedEndOfStream)
            } else {
                match events[0] {
                    EventV::Start { name, attrs: _ } => {
                        if name == "governance"@ {
                            sdec_governance(events, 1).0
                        } else {
                            Err(
                                DecodeErrorV::UnexpectedElement {
                                    expected: "governance"@,
                                    found: name,
                                },
                            )
                        }
                    },
                    EventV::End { name } => Err(
                        DecodeErrorV::UnexpectedElement { expected: "governance"@, found: name },
                    ),
                    EventV::Text { text } => Err(
                        DecodeErrorV::UnexpectedElement { expected: "governance"@, found: text },
                    ),
                }
            }
        },
    }
}

/// Decodes a whole document whose root element is `governance`.
pub fn governance_from_xml(text: &str) -> (r: Result<DataGovernance, DecodeError>)
    ensures
        doc_agrees(r, sdoc_governance(spec_tokenize(text))),
{
    let events = match parse_events(text) {
        Ok(e) => e,
        Err(e) => {
            return Err(e);
        },
    };
    proof {
        assert(events.deep_view().len() == events@.len());
    }
    if events.len() == 0 {
        return Err(DecodeError::UnexpectedEndOfStream);
    }
    proof {
        assert(events.deep_view()[0] == events@[0].deep_view());
    }
    match &events[0] {
        Event::Start { name, attrs: _ } => {
            if str_eq(name.as_str(), "governance") {
                let (dr, _) = decode_governance(&events, 1);
                dr
            } else {
                Err(
                    DecodeError::UnexpectedElement {
                        expected: "governance".to_owned(),
                        found: name.clone(),
                    },
                )
            }
        },
        Event::End { name } => Err(
            DecodeError::UnexpectedElement { expected: "governance".to_owned(), found: name.clone() },
        ),
        Event::Text { text: t } => Err(
            DecodeError::UnexpectedElement { expected: "governance".to_owned(), found: t.clone() },
        ),
    }
}

/// Encodes one `governance` element as a whole document.
pub fn governance_to_xml(x: &DataGovernance) -> (r: Result<String, EncodeError>)
    ensures
        text_agrees(r, spec_serialize(senc_governance(x.deep_view()))),
{
    let mut events: Vec<Event> = Vec::new();
    emit_governance(&mut events, x);
    proof {
        assert(events.deep_view() =~= senc_governance(x.deep_view()));
    }
    events_to_xml(&events)
}

/// What decoding a whole `graphic` document yields, as a function of the
/// tokenization outcome.
pub open spec fn sdoc_graphic(tr: Result<Seq<EventV>, DecodeErrorV>) -> Result<GraphicV, DecodeErrorV> {
    match tr {
        Err(e) => Err(e),
        Ok(events) => {
            if events.len() == 0 {
                Err(DecodeErrorV::UnexpectedEndOfStream)
            } else {
                match events[0] {
                    EventV::Start { name, attrs: _ } => {
                        if name == "graphic"@ {
                            sdec_graphic(events, 1).0
                        } else {
                            Err(
                                DecodeErrorV::UnexpectedElement {
                                    expected: "graphic"@,
                                    found: name,
                                },
                            )
                        }
                    },
                    EventV::End { name } => Err(
                        DecodeErrorV::UnexpectedElement { expected: "graphic"@, found: name },
                    ),
                    EventV::Text { text } => Err(
                        DecodeErrorV::UnexpectedElement { expected: "graphic"@, found: text },
                    ),
                }
            }
        },
    }
}

/// Decodes a whole document whose root element is `graphic`.
pub fn graphic_from_xml(text: &str) -> (r: Result<Graphic, DecodeError>)
    ensures
        doc_agrees(r, sdoc_graphic(spec_tokenize(text))),
{
    let events = match parse_events(text) {
        Ok(e) => e,
        Err(e) => {
            return Err(e);
        },
    };
    proof {
        assert(events.deep_view().len() == events@.len());
    }
    if events.len() == 0 {
        return Err(DecodeError::UnexpectedEndOfStream);
    }
    proof {
        assert(events.deep_view()[0] == events@[0].deep_view());
    }
    match &events[0] {
        Event::Start { name, attrs: _ } => {
            if str_eq(name.as_str(), "graphic") {
                let (dr, _) = decode_graphic(&events, 1);
                dr
            } else {
                Err(
                    DecodeError::UnexpectedElement {
                        expected: "graphic".to_owned(),
                        found: name.clone(),
                    },
                )
            }
        },
        Event::End { name } => Err(
            DecodeError::UnexpectedElement { expected: "graphic".to_owned(), found: name.clone() },
        ),
        Event::Text { text: t } => Err(
            DecodeError::UnexpectedElement { expected: "graphic".to_owned(), found: t.clone() },
        ),
    }
}

/// Encodes one `graphic` element as a whole document.
pub fn graphic_to_xml(x: &Graphic) -> (r: Result<String, EncodeError>)
    ensures
        text_agrees(r, spec_serialize(senc_graphic(x.deep_view()))),
{
    let mut events: Vec<Event> = Vec::new();
    emit_graphic(&mut events, x);
    proof {
        assert(events.deep_view() =~= senc_graphic(x.deep_view()));
    }
    events_to_xml(&events)
}

/// What decoding a whole `graphics` document yields, as a function of the
/// tokenization outcome.
pub open spec fn sdoc_graphics(tr: Result<Seq<EventV>, DecodeErrorV>) -> Result<GraphicsV, DecodeErrorV> {
    match tr {
        Err(e) => Err(e),
        Ok(events) => {
            if events.len() == 0 {
                Err(DecodeErrorV::UnexpectedEndOfStream)
            } else {
                match events[0] {
                    EventV::Start { name, attrs: _ } => {
                        if name == "graphics"@ {
                            sdec_graphics(events, 1).0
                        } else {
                            Err(
                                DecodeErrorV::UnexpectedElement {
                                    expected: "graphics"@,
                                    found: name,
                                },
                            )
                        }
                    },
                    EventV::End { name } => Err(
                        DecodeErrorV::UnexpectedElement { expected: "graphics"@, found: name },
                    ),
                    EventV::Text { text } => Err(
                        DecodeErrorV::UnexpectedElement { expected: "graphics"@, found: text },
                    ),
                }
            }
        },
    }
}

/// Decodes a whole document whose root element is `graphics`.
pub fn graphics_from_xml(text: &str) -> (r: Result<Graphics, DecodeError>)
    ensures
        doc_agrees(r, sdoc_graphics(spec_tokenize(text))),
{
    let events = match parse_events(text) {
        Ok(e) => e,
        Err(e) => {
            return Err(e);
        },
    };
    proof {
        assert(events.deep_view().len() == events@.len());
    }
    if events.len() == 0 {
        return Err(DecodeError::UnexpectedEndOfStream);
    }
    proof {
        assert(events.deep_view()[0] == events@[0].deep_view());
    }
    match &events[0] {
        Event::Start { name, attrs: _ } => {
            if str_eq(name.as_str(), "graphics") {
                let (dr, _) = decode_graphics(&events, 1);
                dr
            } else {
                Err(
                    DecodeError::UnexpectedElement {
                        expected: "graphics".to_owned(),
                        found: name.clone(),
                    },
                )
            }
        },
        Event::End { name } => Err(
            DecodeError::UnexpectedElement { expected: "graphics".to_owned(), found: name.clone() },
        ),
        Event::Text { text: t } => Err(
            DecodeError::UnexpectedElement { expected: "graphics".to_owned(), found: t.clone() },
        ),
    }
}

/// Encodes one `graphics` element as a whole document.
pub fn graphics_to_xml(x: &Graphics) -> (r: Result<String, EncodeError>)
    ensures
        text_agrees(r, spec_serialize(senc_graphics(x.deep_view()))),
{
    let mut events: Vec<Event> = Vec::new();
    emit_graphics(&mut events, x);
    proof {
        assert(events.deep_view() =~= senc_graphics(x.deep_view()));
    }
    events_to_xml(&events)
}

/// What decoding a whole `properties` document yields, as a function of the
/// tokenization outcome.
pub open spec fn sdoc_properties(tr: Result<Seq<EventV>, DecodeErrorV>) -> Result<Seq<PropertyV>, DecodeErrorV> {
    match tr {
        Err(e) => Err(e),
        Ok(events) => {
            if events.len() == 0 {
                Err(DecodeErrorV::UnexpectedEndOfStream)
            } else {
                match events[0] {
                    EventV::Start { name, attrs: _ } => {
                        if name == "properties"@ {
                            sdec_properties(events, 1).0
                        } else {
                            Err(
                                DecodeErrorV::UnexpectedElement {
                                    expected: "properties"@,
                                    found: name,
                                },
                            )
                        }
                    },
                    EventV::End { name } => Err(
                        DecodeErrorV::UnexpectedElement { expected: "properties"@, found: name },
                    ),
                    EventV::Text { text } => Err(
                        DecodeErrorV::UnexpectedElement { expected: "properties"@, found: text },
                    ),
                }
            }
        },
    }
}

/// Decodes a whole document whose root element is `properties`.
pub fn properties_from_xml(text: &str) -> (r: Result<Properties, DecodeError>)
    ensures
        doc_agrees(r, sdoc_properties(spec_tokenize(text))),
{
    let events = match parse_events(text) {
        Ok(e) => e,
        Err(e) => {
            return Err(e);
        },
    };
    proof {
        assert(events.deep_view().len() == events@.len());
    }
    if events.len() == 0 {
        return Err(DecodeError::UnexpectedEndOfStream);
    }
    proof {
        assert(events.deep_view()[0] == events@[0].deep_view());
    }
    match &events[0] {
        Event::Start { name, attrs: _ } => {
            if str_eq(name.as_str(), "properties") {
                let (dr, _) = decode_properties(&events, 1);
                dr
            } else {
                Err(
                    DecodeError::UnexpectedElement {
                        expected: "properties".to_owned(),
                        found: name.clone(),
                    },
                )
            }
        },
        Event::End { name } => Err(
            DecodeError::UnexpectedElement { expected: "properties".to_owned(), found: name.clone() },
        ),
        Event::Text { text: t } => Err(
            DecodeError::UnexpectedElement { expected: "properties".to_owned(), found: t.clone() },
        ),
    }
}

/// Encodes one `properties` element as a whole document.
pub fn properties_to_xml(x: &Properties) -> (r: Result<String, EncodeError>)
    ensures
        text_agrees(r, spec_serialize(senc_properties(x.deep_view()))),
{
    let mut events: Vec<Event> = Vec::new();
    emit_properties(&mut events, x);
    proof {
        assert(events.deep_view() =~= senc_properties(x.deep_view()));
    }
    events_to_xml(&events)
}

/// What decoding a whole `contact` document yields, as a function of the
/// tokenization outcome.
pub open spec fn sdoc_contact(tr: Result<Seq<EventV>, DecodeErrorV>) -> Result<OrganizationalContactV, DecodeErrorV> {
    match tr {
        Err(e) => Err(e),
        Ok(events) => {
            if events.len() == 0 {
                Err(DecodeErrorV::UnexpectedEndOfStream)
            } else {
                match events[0] {
                    EventV::Start { name, attrs } => {
                        if name == "contact"@ {
                            sdec_contact(events, 1, attrs).0
                        } else {
                            Err(
                                DecodeErrorV::UnexpectedElement {
                                    expected: "contact"@,
                                    found: name,
                                },
                            )
                        }
                    },
                    EventV::End { name } => Err(
                        DecodeErrorV::UnexpectedElement { expected: "contact"@, found: name },
                    ),
                    EventV::Text { text } => Err(
                        DecodeErrorV::UnexpectedElement { expected: "contact"@, found: text },
                    ),
                }
            }
        },
    }
}

/// Decodes a whole document whose root element is `contact`.
pub fn contact_from_xml(text: &str) -> (r: Result<OrganizationalContact, DecodeError>)
    ensures
        doc_agrees(r, sdoc_contact(spec_tokenize(text))),
{
    let events = match parse_events(text) {
        Ok(e) => e,
        Err(e) => {
            return Err(e);
        },
    };
    proof {
        assert(events.deep_view().len() == events@.len());
    }
    if events.len() == 0 {
        return Err(DecodeError::UnexpectedEndOfStream);
    }
    proof {
        assert(events.deep_view()[0] == events@[0].deep_view());
    }
    match &events[0] {
        Event::Start { name, attrs } => {
            if str_eq(name.as_str(), "contact") {
                let (dr, _) = decode_contact(&events, 1, attrs);
                dr
            } else {
                Err(
                    DecodeError::UnexpectedElement {
                        expected: "contact".to_owned(),
                        found: name.clone(),
                    },
                )
            }
        },
        Event::End { name } => Err(
            DecodeError::UnexpectedElement { expected: "contact".to_owned(), found: name.clone() },
        ),
        Event::Text { text: t } => Err(
            DecodeError::UnexpectedElement { expected: "contact".to_owned(), found: t.clone() },
        ),
    }
}

/// Encodes one `contact` element as a whole document.
pub fn contact_to_xml(x: &OrganizationalContact) -> (r: Result<String, EncodeError>)
    ensures
        text_agrees(r, spec_serialize(senc_contact(x.deep_view()))),
{
    let mut events: Vec<Event> = Vec::new();
    emit_contact(&mut events, x);
    proof {
        assert(events.deep_view() =~= senc_contact(x.deep_view()));
    }
    events_to_xml(&events)
}

/// What decoding a whole `organization` document yields, as a function of the
/// tokenization outcome.
pub open spec fn sdoc_organization(tr: Result<Seq<EventV>, DecodeErrorV>) -> Result<OrganizationalEntityV, DecodeErrorV> {
    match tr {
        Err(e) => Err(e),
        Ok(events) => {
            if events.len() == 0 {
                Err(DecodeErrorV::UnexpectedEndOfStream)
            } else {
                match events[0] {
                    EventV::Start { name, attrs } => {
                        if name == "organization"@ {
                            sdec_organization(events, 1, attrs).0
                        } else {
                            Err(
                                DecodeErrorV::UnexpectedElement {
                                    expected: "organization"@,
                                    found: name,
                                },
                            )
                        }
                    },
                    EventV::End { name } => Err(
                        DecodeErrorV::UnexpectedElement { expected: "organization"@, found: name },
                    ),
                    EventV::Text { text } => Err(
                        DecodeErrorV::UnexpectedElement { expected: "organization"@, found: text },
                    ),
                }
            }
        },
    }
}

/// Decodes a whole document whose root element is `organization`.
pub fn organization_from_xml(text: &str) -> (r: Result<OrganizationalEntity, DecodeError>)
    ensures
        doc_agrees(r, sdoc_organization(spec_tokenize(text))),
{
    let events = match parse_events(text) {
        Ok(e) => e,
        Err(e) => {
            return Err(e);
        },
    };
    proof {
        assert(events.deep_view().len() == events@.len());
    }
    if events.len() == 0 {
        return Err(DecodeError::UnexpectedEndOfStream);
    }
    proof {
        assert(events.deep_view()[0] == events@[0].deep_view());
    }
    match &events[0] {
        Event::Start { name, attrs } => {
            if str_eq(name.as_str(), "organization") {
                let (dr, _) = decode_organization(&events, 1, attrs);
                dr
            } else {
                Err(
                    DecodeError::UnexpectedElement {
                        expected: "organization".to_owned(),
                        found: name.clone(),
                    },
                )
            }
        },
        Event::End { name } => Err(
            DecodeError::UnexpectedElement { expected: "organization".to_owned(), found: name.clone() },
        ),
        Event::Text { text: t } => Err(
            DecodeError::UnexpectedElement { expected: "organization".to_owned(), found: t.clone() },
        ),
    }
}

/// Encodes one `organization` element as a whole document.
pub fn organization_to_xml(x: &OrganizationalEntity) -> (r: Result<String, EncodeError>)
    ensures
        text_agrees(r, spec_serialize(senc_organization(x.deep_view()))),
{
    let mut events: Vec<Event> = Vec::new();
    emit_organization(&mut events, x);
    proof {
        assert(events.deep_view() =~= senc_organization(x.deep_view()));
    }
    events_to_xml(&events)
}

/// What decoding a whole attachment document under the given element
/// name yields, as a function of the tokenization outcome.
pub open spec fn sdoc_attachment(tr: Result<Seq<EventV>, DecodeErrorV>, tag: Seq<char>) -> Result<
    AttachmentV,
    DecodeErrorV,
> {
    match tr {
        Err(e) => Err(e),
        Ok(events) => {
            if events.len() == 0 {
                Err(DecodeErrorV::UnexpectedEndOfStream)
            } else {
                match events[0] {
                    EventV::Start { name, attrs } => {
                        if name == tag {
                            sdec_attachment(events, 1, attrs, tag).0
                        } else {
                            Err(DecodeErrorV::UnexpectedElement { expected: tag, found: name })
                        }
                    },
                    EventV::End { name } => Err(
                        DecodeErrorV::UnexpectedElement { expected: tag, found: name },
                    ),
                    EventV::Text { text } => Err(
                        DecodeErrorV::UnexpectedElement { expected: tag, found: text },
                    ),
                }
            }
        },
    }
}

/// Decodes a whole document whose root element is an attachment under
/// the given element name (an `image`, for one).
pub fn attachment_from_xml(text: &str, tag: &str) -> (r: Result<Attachment, DecodeError>)
    ensures
        doc_agrees(r, sdoc_attachment(spec_tokenize(text), tag@)),
{
    let events = match parse_events(text) {
        Ok(e) => e,
        Err(e) => {
            return Err(e);
        },
    };
    proof {
        assert(events.deep_view().len() == events@.len());
    }
    if events.len() == 0 {
        return Err(DecodeError::UnexpectedEndOfStream);
    }
    proof {
        assert(events.deep_view()[0] == events@[0].deep_view());
    }
    match &events[0] {
        Event::Start { name, attrs } => {
            if str_eq(name.as_str(), tag) {
                let (dr, _) = decode_attachment(&events, 1, attrs, tag);
                dr
            } else {
                Err(
                    DecodeError::UnexpectedElement {
                        expected: tag.to_owned(),
                        found: name.clone(),
                    },
                )
            }
        },
        Event::End { name } => Err(
            DecodeError::UnexpectedElement { expected: tag.to_owned(), found: name.clone() },
        ),
        Event::Text { text: t } => Err(
            DecodeError::UnexpectedElement { expected: tag.to_owned(), found: t.clone() },
        ),
    }
}

/// Encodes one attachment as a whole document under the given element
/// name.
pub fn attachment_to_xml(x: &Attachment, tag: &str) -> (r: Result<String, EncodeError>)
    ensures
        text_agrees(r, spec_serialize(senc_attachment(tag@, x.deep_view()))),
{
    let mut events: Vec<Event> = Vec::new();
    emit_attachment(&mut events, tag, x);
    proof {
        assert(events.deep_view() =~= senc_attachment(tag@, x.deep_view()));
    }
    events_to_xml(&events)
}

/// What decoding a whole parameter document under the given element name
/// yields, as a function of the tokenization outcome.
pub open spec fn sdoc_ml_parameter(tr: Result<Seq<EventV>, DecodeErrorV>, tag: Seq<char>) -> Result<
    MLParameterV,
    DecodeErrorV,
> {
    match tr {
        Err(e) => Err(e),
        Ok(events) => {
            if events.len() == 0 {
                Err(DecodeErrorV::UnexpectedEndOfStream)
            } else {
                match events[0] {
                    EventV::Start { name, attrs } => {
                        if name == tag {
                            sdec_ml_parameter(events, 1, tag).0
                        } else {
                            Err(DecodeErrorV::UnexpectedElement { expected: tag, found: name })
                        }
                    },
                    EventV::End { name } => Err(
                        DecodeErrorV::UnexpectedElement { expected: tag, found: name },
                    ),
                    EventV::Text { text } => Err(
                        DecodeErrorV::UnexpectedElement { expected: tag, found: text },
                    ),
                }
            }
        },
    }
}

/// Decodes a whole document whose root element is one parameter under the
/// given element name (an `input` or an `output`).
pub fn ml_parameter_from_xml(text: &str, tag: &str) -> (r: Result<MLParameter, DecodeError>)
    ensures
        doc_agrees(r, sdoc_ml_parameter(spec_tokenize(text), tag@)),
{
    let events = match parse_events(text) {
        Ok(e) => e,
        Err(e) => {
            return Err(e);
        },
    };
    proof {
        assert(events.deep_view().len() == events@.len());
    }
    if events.len() == 0 {
        return Err(DecodeError::UnexpectedEndOfStream);
    }
    proof {
        assert(events.deep_view()[0] == events@[0].deep_view());
    }
    match &events[0] {
        Event::Start { name, attrs: _ } => {
            if str_eq(name.as_str(), tag) {
                let (dr, _) = decode_ml_parameter(&events, 1, tag);
                dr
            } else {
                Err(
                    DecodeError::UnexpectedElement {
                        expected: tag.to_owned(),
                        found: name.clone(),
                    },
                )
            }
        },
        Event::End { name } => Err(
            DecodeError::UnexpectedElement { expected: tag.to_owned(), found: name.clone() },
        ),
        Event::Text { text: t } => Err(
            DecodeError::UnexpectedElement { expected: tag.to_owned(), found: t.clone() },
        ),
    }
}

/// What decoding a whole `inputs` document yields, as a function of the
/// tokenization outcome.
pub open spec fn sdoc_inputs(tr: Result<Seq<EventV>, DecodeErrorV>) -> Result<
    Seq<MLParameterV>,
    DecodeErrorV,
> {
    match tr {
        Err(e) => Err(e),
        Ok(events) => {
            if events.len() == 0 {
                Err(DecodeErrorV::UnexpectedEndOfStream)
            } else {
                match events[0] {
                    EventV::Start { name, attrs: _ } => {
                        if name == "inputs"@ {
                            sdec_parameter_list(events, 1, "inputs"@, "input"@).0
                        } else {
                            Err(
                                DecodeErrorV::UnexpectedElement {
                                    expected: "inputs"@,
                                    found: name,
                                },
                            )
                        }
                    },
                    EventV::End { name } => Err(
                        DecodeErrorV::UnexpectedElement { expected: "inputs"@, found: name },
                    ),
                    EventV::Text { text } => Err(
                        DecodeErrorV::UnexpectedElement { expected: "inputs"@, found: text },
                    ),
                }
            }
        },
    }
}

/// Decodes a whole document whose root element is `inputs`.
pub fn inputs_from_xml(text: &str) -> (r: Result<Inputs, DecodeError>)
    ensures
        doc_agrees(r, sdoc_inputs(spec_tokenize(text))),
{
    let events = match parse_events(text) {
        Ok(e) => e,
        Err(e) => {
            return Err(e);
        },
    };
    proof {
        assert(events.deep_view().len() == events@.len());
    }
    if events.len() == 0 {
        return Err(DecodeError::UnexpectedEndOfStream);
    }
    proof {
        assert(events.deep_view()[0] == events@[0].deep_view());
    }
    match &events[0] {
        Event::Start { name, attrs: _ } => {
            if str_eq(name.as_str(), "inputs") {
                let (dr, _) = decode_parameter_list(&events, 1, "inputs", "input");
                match dr {
                    Ok(ps) => Ok(Inputs(ps)),
                    Err(e) => Err(e),
                }
            } else {
                Err(
                    DecodeError::UnexpectedElement {
                        expected: "inputs".to_owned(),
                        found: name.clone(),
                    },
                )
            }
        },
        Event::End { name } => Err(
            DecodeError::UnexpectedElement { expected: "inputs".to_owned(), found: name.clone() },
        ),
        Event::Text { text: t } => Err(
            DecodeError::UnexpectedElement { expected: "inputs".to_owned(), found: t.clone() },
        ),
    }
}

/// What decoding a whole `outputs` document yields, as a function of the
/// tokenization outcome.
pub open spec fn sdoc_outputs(tr: Result<Seq<EventV>, DecodeErrorV>) -> Result<
    Seq<MLParameterV>,
    DecodeErrorV,
> {
    match tr {
        Err(e) => Err(e),
        Ok(events) => {
            if events.len() == 0 {
                Err(DecodeErrorV::UnexpectedEndOfStream)
            } else {
                match events[0] {
                    EventV::Start { name, attrs: _ } => {
                        if name == "outputs"@ {
                            sdec_parameter_list(events, 1, "outputs"@, "output"@).0
                        } else {
                            Err(
                                DecodeErrorV::UnexpectedElement {
                                    expected: "outputs"@,
                                    found: name,
                                },
                            )
                        }
                    },
                    EventV::End { name } => Err(
                        DecodeErrorV::UnexpectedElement { expected: "outputs"@, found: name },
                    ),
                    EventV::Text { text } => Err(
                        DecodeErrorV::UnexpectedElement { expected: "outputs"@, found: text },
                    ),
                }
            }
        },
    }
}

/// Decodes a whole document whose root element is `outputs`.
pub fn outputs_from_xml(text: &str) -> (r: Result<Outputs, DecodeError>)
    ensures
        doc_agrees(r, sdoc_outputs(spec_tokenize(text))),
{
    let events = match parse_events(text) {
        Ok(e) => e,
        Err(e) => {
            return Err(e);
        },
    };
    proof {
        assert(events.deep_view().len() == events@.len());
    }
    if events.len() == 0 {
        return Err(DecodeError::UnexpectedEndOfStream);
    }
    proof {
        assert(events.deep_view()[0] == events@[0].deep_view());
    }
    match &events[0] {
        Event::Start { name, attrs: _ } => {
            if str_eq(name.as_str(), "outputs") {
                let (dr, _) = decode_parameter_list(&events, 1, "outputs", "output");
                match dr {
                    Ok(ps) => Ok(Outputs(ps)),
                    Err(e) => Err(e),
                }
            } else {
                Err(
                    DecodeError::UnexpectedElement {
                        expected: "outputs".to_owned(),
                        found: name.clone(),
                    },
                )
            }
        },
        Event::End { name } => Err(
            DecodeError::UnexpectedElement { expected: "outputs".to_owned(), found: name.clone() },
        ),
        Event::Text { text: t } => Err(
            DecodeError::UnexpectedElement { expected: "outputs".to_owned(), found: t.clone() },
        ),
    }
}

/// Encodes one `inputs` element as a whole document.
pub fn inputs_to_xml(x: &Inputs) -> (r: Result<String, EncodeError>)
    ensures
        text_agrees(r, spec_serialize(senc_parameter_list("inputs"@, "input"@, x.deep_view()))),
{
    let mut events: Vec<Event> = Vec::new();
    emit_parameter_list(&mut events, "inputs", "input", &x.0);
    proof {
        assert(events.deep_view() =~= senc_parameter_list("inputs"@, "input"@, x.deep_view()));
    }
    events_to_xml(&events)
}

/// Encodes one `outputs` element as a whole document.
pub fn outputs_to_xml(x: &Outputs) -> (r: Result<String, EncodeError>)
    ensures
        text_agrees(r, spec_serialize(senc_parameter_list("outputs"@, "output"@, x.deep_view()))),
{
    let mut events: Vec<Event> = Vec::new();
    emit_parameter_list(&mut events, "outputs", "output", &x.0);
    proof {
        assert(events.deep_view() =~= senc_parameter_list("outputs"@, "output"@, x.deep_view()));
    }
    events_to_xml(&events)
}

} // verus!
