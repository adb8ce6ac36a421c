//! Per-entity decoders over the event stream.
//!
//! Every decoder is a loop over the events: an opening tag whose name is
//! one of the entity's known child names dispatches to that child's own
//! decoder and stores the result, overwriting any previous value if the
//! same tag repeats (last write wins); the close tag of the entity's own
//! element ends the loop; any other event is skipped when the entity is
//! permissive and is a hard error when it is strict.  Running off the end
//! of the stream before the close tag is `UnexpectedEndOfStream`.  After
//! the loop, required-field validation runs.
//!
//! Each executable decoder returns exactly what its specification-level
//! twin (`sdec_*`) computes on the view of the stream, together with the
//! position just past the events it consumed.

use vstd::prelude::*;

use crate::errors::{DecodeError, DecodeErrorV};
use crate::events::{str_eq, Attr, AttrV, Event, EventV};
use crate::model::{
    Attachment, AttachmentV, Collection, ComponentData, ComponentDataV, ConfidenceInterval,
    ConfidenceIntervalV, Considerations, ConsiderationsV, DataContents, DataContentsV,
    DataGovernance, DataGovernanceResponsibleParty, DataGovernanceResponsiblePartyV,
    DataGovernanceV, Dataset, DatasetV, Datasets, Graphic, GraphicV, Graphics, GraphicsV, Inputs,
    MLParameter, MLParameterV, ModelCard, ModelCardV, ModelParameters, ModelParametersApproach,
    ModelParametersApproachV, ModelParametersV, OrganizationalContact, OrganizationalContactV,
    OrganizationalEntity, OrganizationalEntityV, Outputs, PerformanceMetric, PerformanceMetricV,
    PerformanceMetrics, Properties, Property, PropertyV, QuantitativeAnalysis,
    QuantitativeAnalysisV,
};

verus! {

/// The executable result `r` (value and new cursor) is exactly the
/// specification-level result `s`.
pub open spec fn agrees<T: DeepView>(
    r: (Result<T, DecodeError>, usize),
    s: (Result<T::V, DecodeErrorV>, int),
) -> bool {
    &&& r.1 as int == s.1
    &&& match r.0 {
        Ok(v) => s.0 == Ok::<T::V, DecodeErrorV>(v.deep_view()),
        Err(e) => s.0 == Err::<T::V, DecodeErrorV>(e.deep_view()),
    }
}

// ---------------------------------------------------------------------
// Text-only elements
// ---------------------------------------------------------------------

/// One step per event: character data replaces the accumulator, the
/// matching close tag returns it, and a tag where only text is expected
/// is `UnexpectedElement`.
pub open spec fn sdec_text_loop(s: Seq<EventV>, i: int, tag: Seq<char>, acc: Seq<char>) -> (Result<
    Seq<char>,
    DecodeErrorV,
>, int)
    decreases s.len() - i,
{
    if i < 0 || i >= s.len() {
        (Err(DecodeErrorV::UnexpectedEndOfStream), i)
    } else {
        match s[i] {
            EventV::Text { text } => sdec_text_loop(s, i + 1, tag, text),
            EventV::End { name } => {
                if name == tag {
                    (Ok(acc), i + 1)
                } else {
                    (Err(DecodeErrorV::UnexpectedElement { expected: tag, found: name }), i)
                }
            },
            EventV::Start { name, attrs } => {
                (Err(DecodeErrorV::UnexpectedElement { expected: tag, found: name }), i)
            },
        }
    }
}

/// Text content of an element whose opening tag was already consumed:
/// the accumulated character data, empty if there is none.
pub open spec fn sdec_text(s: Seq<EventV>, i: int, tag: Seq<char>) -> (Result<
    Seq<char>,
    DecodeErrorV,
>, int) {
    sdec_text_loop(s, i, tag, Seq::empty())
}

pub proof fn lemma_text_advance(s: Seq<EventV>, i: int, tag: Seq<char>, acc: Seq<char>)
    requires
        0 <= i <= s.len(),
    ensures
        ({
            let (r, j) = sdec_text_loop(s, i, tag, acc);
            &&& i <= j <= s.len()
            &&& (r is Ok ==> j >= i + 1)
        }),
    decreases s.len() - i,
{
    if i < s.len() {
        match s[i] {
            EventV::Text { text } => lemma_text_advance(s, i + 1, tag, text),
            _ => {},
        }
    }
}

/// Reads a text-only element whose opening tag was already consumed,
/// up to its matching close tag.
pub fn read_simple_tag(events: &Vec<Event>, pos: usize, tag: &str) -> (r: (Result<
    String,
    DecodeError,
>, usize))
    requires
        pos <= events@.len(),
    ensures
        agrees(r, sdec_text(events.deep_view(), pos as int, tag@)),
        pos <= r.1 <= events@.len(),
{
    let ghost s = events.deep_view();
    proof {
        assert(s.len() == events@.len());
    }
    let mut acc: String = String::new();
    let mut i: usize = pos;
    loop
        invariant
            pos <= i <= events@.len(),
            s == events.deep_view(),
            s.len() == events@.len(),
            sdec_text_loop(s, pos as int, tag@, Seq::empty()) == sdec_text_loop(
                s,
                i as int,
                tag@,
                acc@,
            ),
        decreases events@.len() - i,
    {
        if i >= events.len() {
            return (Err(DecodeError::UnexpectedEndOfStream), i);
        }
        proof {
            assert(s[i as int] == events@[i as int].deep_view());
        }
        match &events[i] {
            Event::Text { text } => {
                acc = text.clone();
                i = i + 1;
            },
            Event::End { name } => {
                if str_eq(name.as_str(), tag) {
                    return (Ok(acc), i + 1);
                } else {
                    return (
                        (
                            Err(
                                DecodeError::UnexpectedElement {
                                    expected: tag.to_owned(),
                                    found: name.clone(),
                                },
                            ),
                            i,
                        )
                    );
                }
            },
            Event::Start { name, attrs } => {
                return (
                    (
                        Err(
                            DecodeError::UnexpectedElement {
                                expected: tag.to_owned(),
                                found: name.clone(),
                            },
                        ),
                        i,
                    )
                );
            },
        }
    }
}

// ---------------------------------------------------------------------
// Confidence interval
// ---------------------------------------------------------------------

pub open spec fn ci_init() -> ConfidenceIntervalV {
    ConfidenceIntervalV { lower_bound: None, upper_bound: None }
}

pub open spec fn sdec_confidence_interval_loop(
    s: Seq<EventV>,
    i: int,
    st: ConfidenceIntervalV,
) -> (Result<ConfidenceIntervalV, DecodeErrorV>, int)
    decreases s.len() - i,
{
    if i < 0 || i >= s.len() {
        (Err(DecodeErrorV::UnexpectedEndOfStream), i)
    } else {
        match s[i] {
            EventV::Start { name, attrs } => {
                if name == "lowerBound"@ {
                    let (r, j) = sdec_text(s, i + 1, name);
                    match r {
                        Ok(t) => {
                            if i + 1 <= j <= s.len() {
                                sdec_confidence_interval_loop(
                                    s,
                                    j,
                                    ConfidenceIntervalV { lower_bound: Some(t), ..st },
                                )
                            } else {
                                (Err(DecodeErrorV::UnexpectedEndOfStream), j)
                            }
                        },
                        Err(e) => (Err(e), j),
                    }
                } else if name == "upperBound"@ {
                    let (r, j) = sdec_text(s, i + 1, name);
                    match r {
                        Ok(t) => {
                            if i + 1 <= j <= s.len() {
                                sdec_confidence_interval_loop(
                                    s,
                                    j,
                                    ConfidenceIntervalV { upper_bound: Some(t), ..st },
                                )
                            } else {
                                (Err(DecodeErrorV::UnexpectedEndOfStream), j)
                            }
                        },
                        Err(e) => (Err(e), j),
                    }
                } else {
                    sdec_confidence_interval_loop(s, i + 1, st)
                }
            },
            EventV::End { name } => {
                if name == "confidenceInterval"@ {
                    (Ok(st), i + 1)
                } else {
                    sdec_confidence_interval_loop(s, i + 1, st)
                }
            },
            EventV::Text { text } => sdec_confidence_interval_loop(s, i + 1, st),
        }
    }
}

/// A `confidenceInterval` element whose opening tag was already consumed.
pub open spec fn sdec_confidence_interval(s: Seq<EventV>, i: int) -> (Result<
    ConfidenceIntervalV,
    DecodeErrorV,
>, int) {
    sdec_confidence_interval_loop(s, i, ci_init())
}

pub proof fn lemma_confidence_interval_advance(s: Seq<EventV>, i: int, st: ConfidenceIntervalV)
    requires
        0 <= i <= s.len(),
    ensures
        ({
            let (r, j) = sdec_confidence_interval_loop(s, i, st);
            &&& i <= j <= s.len()
            &&& (r is Ok ==> j >= i + 1)
        }),
    decreases s.len() - i,
{
    if 0 <= i < s.len() {
        match s[i] {
            EventV::Start { name, attrs } => {
                if name == "lowerBound"@ || name == "upperBound"@ {
                    lemma_text_advance(s, i + 1, name, Seq::empty());
                    let (r, j) = sdec_text(s, i + 1, name);
                    if r is Ok && i + 1 <= j <= s.len() {
                        if name == "lowerBound"@ {
                            lemma_confidence_interval_advance(
                                s,
                                j,
                                ConfidenceIntervalV {
                                    lower_bound: Some(r->Ok_0),
                                    ..st
                                },
                            );
                        } else {
                            lemma_confidence_interval_advance(
                                s,
                                j,
                                ConfidenceIntervalV {
                                    upper_bound: Some(r->Ok_0),
                                    ..st
                                },
                            );
                        }
                    }
                } else {
                    lemma_confidence_interval_advance(s, i + 1, st);
                }
            },
            EventV::End { name } => {
                if name != "confidenceInterval"@ {
                    lemma_confidence_interval_advance(s, i + 1, st);
                }
            },
            EventV::Text { text } => {
                lemma_confidence_interval_advance(s, i + 1, st);
            },
        }
    }
}

/// Decodes a `confidenceInterval` element whose opening tag was already
/// consumed: both bounds are optional text children.
pub fn decode_confidence_interval(events: &Vec<Event>, pos: usize) -> (r: (Result<
    ConfidenceInterval,
    DecodeError,
>, usize))
    requires
        pos <= events@.len(),
    ensures
        agrees(r, sdec_confidence_interval(events.deep_view(), pos as int)),
        pos <= r.1 <= events@.len(),
{
    let ghost s = events.deep_view();
    proof {
        assert(s.len() == events@.len());
    }
    let mut lower: Option<String> = None;
    let mut upper: Option<String> = None;
    let mut i: usize = pos;
    loop
        invariant
            pos <= i <= events@.len(),
            s == events.deep_view(),
            s.len() == events@.len(),
            sdec_confidence_interval_loop(s, pos as int, ci_init())
                == sdec_confidence_interval_loop(
                s,
                i as int,
                ConfidenceIntervalV {
                    lower_bound: lower.deep_view(),
                    upper_bound: upper.deep_view(),
                },
            ),
        decreases events@.len() - i,
    {
        if i >= events.len() {
            return (Err(DecodeError::UnexpectedEndOfStream), i);
        }
        proof {
            assert(s[i as int] == events@[i as int].deep_view());
        }
        match &events[i] {
            Event::Start { name, attrs } => {
                if str_eq(name.as_str(), "lowerBound") {
                    let (tr, j) = read_simple_tag(events, i + 1, "lowerBound");
                    match tr {
                        Ok(t) => {
                            lower = Some(t);
                            i = j;
                        },
                        Err(e) => {
                            return (Err(e), j);
                        },
                    }
                } else if str_eq(name.as_str(), "upperBound") {
                    let (tr, j) = read_simple_tag(events, i + 1, "upperBound");
                    match tr {
                        Ok(t) => {
                            upper = Some(t);
                            i = j;
                        },
                        Err(e) => {
                            return (Err(e), j);
                        },
                    }
                } else {
                    i = i + 1;
                }
            },
            Event::End { name } => {
                if str_eq(name.as_str(), "confidenceInterval") {
                    return (Ok(ConfidenceInterval { lower_bound: lower, upper_bound: upper }), i + 1);
                } else {
                    i = i + 1;
                }
            },
            Event::Text { text } => {
                i = i + 1;
            },
        }
    }
}

// ---------------------------------------------------------------------
// Attachment
// ---------------------------------------------------------------------

pub open spec fn sdec_attachment_loop(
    s: Seq<EventV>,
    i: int,
    tag: Seq<char>,
    ct: Option<Seq<char>>,
    enc: Option<Seq<char>>,
    acc: Seq<char>,
) -> (Result<AttachmentV, DecodeErrorV>, int)
    decreases s.len() - i,
{
    if i < 0 || i >= s.len() {
        (Err(DecodeErrorV::UnexpectedEndOfStream), i)
    } else {
        match s[i] {
            EventV::Text { text } => sdec_attachment_loop(s, i + 1, tag, ct, enc, text),
            EventV::End { name } => {
                if name == tag {
                    (Ok(AttachmentV { content: acc, content_type: ct, encoding: enc }), i + 1)
                } else {
                    (Err(DecodeErrorV::UnexpectedElement { expected: tag, found: name }), i)
                }
            },
            EventV::Start { name, attrs } => {
                (Err(DecodeErrorV::UnexpectedElement { expected: tag, found: name }), i)
            },
        }
    }
}

/// An attachment element whose opening tag was already consumed: the two
/// metadata attributes come from that tag, the content is the text body.
pub open spec fn sdec_attachment(s: Seq<EventV>, i: int, attrs: Seq<AttrV>, tag: Seq<char>) -> (
    Result<AttachmentV, DecodeErrorV>,
    int,
) {
    sdec_attachment_loop(
        s,
        i,
        tag,
        crate::events::spec_find_attr(attrs, "content-type"@),
        crate::events::spec_find_attr(attrs, "encoding"@),
        Seq::empty(),
    )
}

pub proof fn lemma_attachment_advance(
    s: Seq<EventV>,
    i: int,
    tag: Seq<char>,
    ct: Option<Seq<char>>,
    enc: Option<Seq<char>>,
    acc: Seq<char>,
)
    requires
        0 <= i <= s.len(),
    ensures
        ({
            let (r, j) = sdec_attachment_loop(s, i, tag, ct, enc, acc);
            &&& i <= j <= s.len()
            &&& (r is Ok ==> j >= i + 1)
        }),
    decreases s.len() - i,
{
    if i < s.len() {
        match s[i] {
            EventV::Text { text } => lemma_attachment_advance(s, i + 1, tag, ct, enc, text),
            _ => {},
        }
    }
}

/// Decodes an attachment element whose opening tag was already consumed.
/// The `content-type` and `encoding` attributes live on the opening tag;
/// the content is the accumulated text body, empty if there is none.
pub fn decode_attachment(events: &Vec<Event>, pos: usize, attrs: &Vec<Attr>, tag: &str) -> (r: (
    Result<Attachment, DecodeError>,
    usize,
))
    requires
        pos <= events@.len(),
    ensures
        agrees(r, sdec_attachment(events.deep_view(), pos as int, attrs.deep_view(), tag@)),
        pos <= r.1 <= events@.len(),
{
    let ghost s = events.deep_view();
    proof {
        assert(s.len() == events@.len());
    }
    let content_type = crate::events::find_attr(attrs, "content-type");
    let encoding = crate::events::find_attr(attrs, "encoding");
    let mut acc: String = String::new();
    let mut i: usize = pos;
    loop
        invariant
            pos <= i <= events@.len(),
            s == events.deep_view(),
            s.len() == events@.len(),
            content_type.deep_view() == crate::events::spec_find_attr(
                attrs.deep_view(),
                "content-type"@,
            ),
            encoding.deep_view() == crate::events::spec_find_attr(attrs.deep_view(), "encoding"@),
            sdec_attachment_loop(
                s,
                pos as int,
                tag@,
                content_type.deep_view(),
                encoding.deep_view(),
                Seq::empty(),
            ) == sdec_attachment_loop(
                s,
                i as int,
                tag@,
                content_type.deep_view(),
                encoding.deep_view(),
                acc@,
            ),
        decreases events@.len() - i,
    {
        if i >= events.len() {
            return (Err(DecodeError::UnexpectedEndOfStream), i);
        }
        proof {
            assert(s[i as int] == events@[i as int].deep_view());
        }
        match &events[i] {
            Event::Text { text } => {
                acc = text.clone();
                i = i + 1;
            },
            Event::End { name } => {
                if str_eq(name.as_str(), tag) {
                    return (
                        (
                            Ok(
                                Attachment {
                                    content: acc,
                                    content_type: content_type,
                                    encoding: encoding,
                                },
                            ),
                            i + 1,
                        )
                    );
                } else {
                    return (
                        (
                            Err(
                                DecodeError::UnexpectedElement {
                                    expected: tag.to_owned(),
                                    found: name.clone(),
                                },
                            ),
                            i,
                        )
                    );
                }
            },
            Event::Start { name, attrs: _ } => {
                return (
                    (
                        Err(
                            DecodeError::UnexpectedElement {
                                expected: tag.to_owned(),
                                found: name.clone(),
                            },
                        ),
                        i,
                    )
                );
            },
        }
    }
}

// ---------------------------------------------------------------------
// Property
// ---------------------------------------------------------------------

/// A `property` element: its mandatory `name` attribute plus a text body.
pub open spec fn sdec_property(s: Seq<EventV>, i: int, attrs: Seq<AttrV>) -> (Result<
    PropertyV,
    DecodeErrorV,
>, int) {
    match crate::events::spec_find_attr(attrs, "name"@) {
        None => (
            Err(
                DecodeErrorV::RequiredDataMissing {
                    required_field: "name"@,
                    element: "property"@,
                },
            ),
            i,
        ),
        Some(n) => {
            let (r, j) = sdec_text(s, i, "property"@);
            match r {
                Ok(t) => (Ok(PropertyV { name: n, value: t }), j),
                Err(e) => (Err(e), j),
            }
        },
    }
}

/// Decodes a `property` element whose opening tag was already consumed:
/// the mandatory `name` attribute plus a text body.
pub fn decode_property(events: &Vec<Event>, pos: usize, attrs: &Vec<Attr>) -> (r: (Result<
    Property,
    DecodeError,
>, usize))
    requires
        pos <= events@.len(),
    ensures
        agrees(r, sdec_property(events.deep_view(), pos as int, attrs.deep_view())),
        pos <= r.1 <= events@.len(),
{
    match crate::events::find_attr(attrs, "name") {
        None => {
            return (
                (
                    Err(
                        DecodeError::RequiredDataMissing {
                            required_field: "name".to_owned(),
                            element: "property".to_owned(),
                        },
                    ),
                    pos,
                )
            );
        },
        Some(n) => {
            let (r, j) = read_simple_tag(events, pos, "property");
            match r {
                Ok(t) => (Ok(Property { name: n, value: t }), j),
                Err(e) => (Err(e), j),
            }
        },
    }
}

// ---------------------------------------------------------------------
// Machine-learning parameter
// ---------------------------------------------------------------------

pub open spec fn ml_init() -> MLParameterV {
    MLParameterV { format: None }
}

pub open spec fn sdec_ml_parameter_loop(s: Seq<EventV>, i: int, tag: Seq<char>, st: MLParameterV) -> (
    Result<MLParameterV, DecodeErrorV>,
    int,
)
    decreases s.len() - i,
{
    if i < 0 || i >= s.len() {
        (Err(DecodeErrorV::UnexpectedEndOfStream), i)
    } else {
        match s[i] {
            EventV::Start { name, attrs } => {
                if name == "format"@ {
                    let (r, j) = sdec_text(s, i + 1, name);
                    match r {
                        Ok(t) => {
                            if i + 1 <= j <= s.len() {
                                sdec_ml_parameter_loop(s, j, tag, MLParameterV { format: Some(t) })
                            } else {
                                (Err(DecodeErrorV::UnexpectedEndOfStream), j)
                            }
                        },
                        Err(e) => (Err(e), j),
                    }
                } else {
                    sdec_ml_parameter_loop(s, i + 1, tag, st)
                }
            },
            EventV::End { name } => {
                if name == tag {
                    (Ok(st), i + 1)
                } else {
                    sdec_ml_parameter_loop(s, i + 1, tag, st)
                }
            },
            EventV::Text { text } => sdec_ml_parameter_loop(s, i + 1, tag, st),
        }
    }
}

/// An `input` or `output` element whose opening tag was already consumed:
/// an optional `format` text child.
pub open spec fn sdec_ml_parameter(s: Seq<EventV>, i: int, tag: Seq<char>) -> (Result<
    MLParameterV,
    DecodeErrorV,
>, int) {
    sdec_ml_parameter_loop(s, i, tag, ml_init())
}

pub proof fn lemma_ml_parameter_advance(s: Seq<EventV>, i: int, tag: Seq<char>, st: MLParameterV)
    requires
        0 <= i <= s.len(),
    ensures
        ({
            let (r, j) = sdec_ml_parameter_loop(s, i, tag, st);
            &&& i <= j <= s.len()
            &&& (r is Ok ==> j >= i + 1)
        }),
    decreases s.len() - i,
{
    if 0 <= i < s.len() {
        match s[i] {
            EventV::Start { name, attrs } => {
                if name == "format"@ {
                    lemma_text_advance(s, i + 1, name, Seq::empty());
                    let (r, j) = sdec_text(s, i + 1, name);
                    if r is Ok && i + 1 <= j <= s.len() {
                        lemma_ml_parameter_advance(s, j, tag, MLParameterV { format: Some(r->Ok_0) });
                    }
                } else {
                    lemma_ml_parameter_advance(s, i + 1, tag, st);
                }
            },
            EventV::End { name } => {
                if name != tag {
                    lemma_ml_parameter_advance(s, i + 1, tag, st);
                }
            },
            EventV::Text { text } => {
                lemma_ml_parameter_advance(s, i + 1, tag, st);
            },
        }
    }
}

/// Decodes an `input` or `output` element whose opening tag was already
/// consumed: an optional `format` text child.
pub fn decode_ml_parameter(events: &Vec<Event>, pos: usize, tag: &str) -> (r: (Result<
    MLParameter,
    DecodeError,
>, usize))
    requires
        pos <= events@.len(),
    ensures
        agrees(r, sdec_ml_parameter(events.deep_view(), pos as int, tag@)),
        pos <= r.1 <= events@.len(),
{
    let ghost s = events.deep_view();
    proof {
        assert(s.len() == events@.len());
    }
    let mut format: Option<String> = None;
    let mut i: usize = pos;
    loop
        invariant
            pos <= i <= events@.len(),
            s == events.deep_view(),
            s.len() == events@.len(),
            sdec_ml_parameter_loop(s, pos as int, tag@, ml_init()) == sdec_ml_parameter_loop(
                s,
                i as int,
                tag@,
                MLParameterV { format: format.deep_view() },
            ),
        decreases events@.len() - i,
    {
        if i >= events.len() {
            return (Err(DecodeError::UnexpectedEndOfStream), i);
        }
        proof {
            assert(s[i as int] == events@[i as int].deep_view());
        }
        match &events[i] {
            Event::Start { name, attrs: _ } => {
                if str_eq(name.as_str(), "format") {
                    let (tr, j) = read_simple_tag(events, i + 1, "format");
                    match tr {
                        Ok(t) => {
                            format = Some(t);
                            i = j;
                        },
                        Err(e) => {
                            return (Err(e), j);
                        },
                    }
                } else {
                    i = i + 1;
                }
            },
            Event::End { name } => {
                if str_eq(name.as_str(), tag) {
                    return (Ok(MLParameter { format }), i + 1);
                } else {
                    i = i + 1;
                }
            },
            Event::Text { text: _ } => {
                i = i + 1;
            },
        }
    }
}

// ---------------------------------------------------------------------
// Model-parameters approach
// ---------------------------------------------------------------------

pub open spec fn approach_init() -> ModelParametersApproachV {
    ModelParametersApproachV { approach_type: None }
}

pub open spec fn sdec_approach_loop(s: Seq<EventV>, i: int, st: ModelParametersApproachV) -> (
    Result<ModelParametersApproachV, DecodeErrorV>,
    int,
)
    decreases s.len() - i,
{
    if i < 0 || i >= s.len() {
        (Err(DecodeErrorV::UnexpectedEndOfStream), i)
    } else {
        match s[i] {
            EventV::Start { name, attrs } => {
                if name == "type"@ {
                    let (r, j) = sdec_text(s, i + 1, name);
                    match r {
                        Ok(t) => {
                            if i + 1 <= j <= s.len() {
                                sdec_approach_loop(
                                    s,
                                    j,
                                    ModelParametersApproachV { approach_type: Some(t) },
                                )
                            } else {
                                (Err(DecodeErrorV::UnexpectedEndOfStream), j)
                            }
                        },
                        Err(e) => (Err(e), j),
                    }
                } else {
                    sdec_approach_loop(s, i + 1, st)
                }
            },
            EventV::End { name } => {
                if name == "approach"@ {
                    (Ok(st), i + 1)
                } else {
                    sdec_approach_loop(s, i + 1, st)
                }
            },
            EventV::Text { text } => sdec_approach_loop(s, i + 1, st),
        }
    }
}

/// An `approach` element whose opening tag was already consumed: an
/// optional `type` text child.
pub open spec fn sdec_approach(s: Seq<EventV>, i: int) -> (Result<
    ModelParametersApproachV,
    DecodeErrorV,
>, int) {
    sdec_approach_loop(s, i, approach_init())
}

pub proof fn lemma_approach_advance(s: Seq<EventV>, i: int, st: ModelParametersApproachV)
    requires
        0 <= i <= s.len(),
    ensures
        ({
            let (r, j) = sdec_approach_loop(s, i, st);
            &&& i <= j <= s.len()
            &&& (r is Ok ==> j >= i + 1)
        }),
    decreases s.len() - i,
{
    if 0 <= i < s.len() {
        match s[i] {
            EventV::Start { name, attrs } => {
                if name == "type"@ {
                    lemma_text_advance(s, i + 1, name, Seq::empty());
                    let (r, j) = sdec_text(s, i + 1, name);
                    if r is Ok && i + 1 <= j <= s.len() {
                        lemma_approach_advance(
                            s,
                            j,
                            ModelParametersApproachV { approach_type: Some(r->Ok_0) },
                        );
                    }
                } else {
                    lemma_approach_advance(s, i + 1, st);
                }
            },
            EventV::End { name } => {
                if name != "approach"@ {
                    lemma_approach_advance(s, i + 1, st);
                }
            },
            EventV::Text { text } => {
                lemma_approach_advance(s, i + 1, st);
            },
        }
    }
}

/// Decodes an `approach` element whose opening tag was already consumed.
pub fn decode_approach(events: &Vec<Event>, pos: usize) -> (r: (Result<
    ModelParametersApproach,
    DecodeError,
>, usize))
    requires
        pos <= events@.len(),
    ensures
        agrees(r, sdec_approach(events.deep_view(), pos as int)),
        pos <= r.1 <= events@.len(),
{
    let ghost s = events.deep_view();
    proof {
        assert(s.len() == events@.len());
    }
    let mut approach_type: Option<String> = None;
    let mut i: usize = pos;
    loop
        invariant
            pos <= i <= events@.len(),
            s == events.deep_view(),
            s.len() == events@.len(),
            sdec_approach_loop(s, pos as int, approach_init()) == sdec_approach_loop(
                s,
                i as int,
                ModelParametersApproachV { approach_type: approach_type.deep_view() },
            ),
        decreases events@.len() - i,
    {
        if i >= events.len() {
            return (Err(DecodeError::UnexpectedEndOfStream), i);
        }
        proof {
            assert(s[i as int] == events@[i as int].deep_view());
        }
        match &events[i] {
            Event::Start { name, attrs: _ } => {
                if str_eq(name.as_str(), "type") {
                    let (tr, j) = read_simple_tag(events, i + 1, "type");
                    match tr {
                        Ok(t) => {
                            approach_type = Some(t);
                            i = j;
                        },
                        Err(e) => {
                            return (Err(e), j);
                        },
                    }
                } else {
                    i = i + 1;
                }
            },
            Event::End { name } => {
                if str_eq(name.as_str(), "approach") {
                    return (Ok(ModelParametersApproach { approach_type }), i + 1);
                } else {
                    i = i + 1;
                }
            },
            Event::Text { text: _ } => {
                i = i + 1;
            },
        }
    }
}

// ---------------------------------------------------------------------
// Considerations
// ---------------------------------------------------------------------

pub open spec fn sdec_considerations(s: Seq<EventV>, i: int) -> (Result<
    ConsiderationsV,
    DecodeErrorV,
>, int)
    decreases s.len() - i,
{
    if i < 0 || i >= s.len() {
        (Err(DecodeErrorV::UnexpectedEndOfStream), i)
    } else {
        match s[i] {
            EventV::End { name } => {
                if name == "considerations"@ {
                    (Ok(ConsiderationsV {}), i + 1)
                } else {
                    sdec_considerations(s, i + 1)
                }
            },
            _ => sdec_considerations(s, i + 1),
        }
    }
}

pub proof fn lemma_considerations_advance(s: Seq<EventV>, i: int)
    requires
        0 <= i <= s.len(),
    ensures
        ({
            let (r, j) = sdec_considerations(s, i);
            &&& i <= j <= s.len()
            &&& (r is Ok ==> j >= i + 1)
        }),
    decreases s.len() - i,
{
    if 0 <= i < s.len() {
        match s[i] {
            EventV::End { name } => {
                if name != "considerations"@ {
                    lemma_considerations_advance(s, i + 1);
                }
            },
            _ => {
                lemma_considerations_advance(s, i + 1);
            },
        }
    }
}

/// Decodes a `considerations` element whose opening tag was already
/// consumed.  The schema version at hand defines no children here, so
/// everything up to the close tag is skipped.
pub fn decode_considerations(events: &Vec<Event>, pos: usize) -> (r: (Result<
    Considerations,
    DecodeError,
>, usize))
    requires
        pos <= events@.len(),
    ensures
        agrees(r, sdec_considerations(events.deep_view(), pos as int)),
        pos <= r.1 <= events@.len(),
{
    let ghost s = events.deep_view();
    proof {
        assert(s.len() == events@.len());
    }
    let mut i: usize = pos;
    loop
        invariant
            pos <= i <= events@.len(),
            s == events.deep_view(),
            s.len() == events@.len(),
            sdec_considerations(s, pos as int) == sdec_considerations(s, i as int),
        decreases events@.len() - i,
    {
        if i >= events.len() {
            return (Err(DecodeError::UnexpectedEndOfStream), i);
        }
        proof {
            assert(s[i as int] == events@[i as int].deep_view());
        }
        match &events[i] {
            Event::End { name } => {
                if str_eq(name.as_str(), "considerations") {
                    return (Ok(Considerations {}), i + 1);
                } else {
                    i = i + 1;
                }
            },
            _ => {
                i = i + 1;
            },
        }
    }
}

// ---------------------------------------------------------------------
// Organizational contact
// ---------------------------------------------------------------------

pub open spec fn contact_init(attrs: Seq<AttrV>) -> OrganizationalContactV {
    OrganizationalContactV {
        bom_ref: crate::events::spec_find_attr(attrs, "bom-ref"@),
        name: None,
        email: None,
        phone: None,
    }
}

pub open spec fn sdec_contact_loop(s: Seq<EventV>, i: int, st: OrganizationalContactV) -> (Result<
    OrganizationalContactV,
    DecodeErrorV,
>, int)
    decreases s.len() - i,
{
    if i < 0 || i >= s.len() {
        (Err(DecodeErrorV::UnexpectedEndOfStream), i)
    } else {
        match s[i] {
            EventV::Start { name, attrs } => {
                if name == "name"@ {
                    let (r, j) = sdec_text(s, i + 1, name);
                    match r {
                        Ok(t) => {
                            if i + 1 <= j <= s.len() {
                                sdec_contact_loop(s, j, OrganizationalContactV { name: Some(t), ..st })
                            } else {
                                (Err(DecodeErrorV::UnexpectedEndOfStream), j)
                            }
                        },
                        Err(e) => (Err(e), j),
                    }
                } else if name == "email"@ {
                    let (r, j) = sdec_text(s, i + 1, name);
                    match r {
                        Ok(t) => {
                            if i + 1 <= j <= s.len() {
                                sdec_contact_loop(
                                    s,
                                    j,
                                    OrganizationalContactV { email: Some(t), ..st },
                                )
                            } else {
                                (Err(DecodeErrorV::UnexpectedEndOfStream), j)
                            }
                        },
                        Err(e) => (Err(e), j),
                    }
                } else if name == "phone"@ {
                    let (r, j) = sdec_text(s, i + 1, name);
                    match r {
                        Ok(t) => {
                            if i + 1 <= j <= s.len() {
                                sdec_contact_loop(
                                    s,
                                    j,
                                    OrganizationalContactV { phone: Some(t), ..st },
                                )
                            } else {
                                (Err(DecodeErrorV::UnexpectedEndOfStream), j)
                            }
                        },
                        Err(e) => (Err(e), j),
                    }
                } else {
                    sdec_contact_loop(s, i + 1, st)
                }
            },
            EventV::End { name } => {
                if name == "contact"@ {
                    (Ok(st), i + 1)
                } else {
                    sdec_contact_loop(s, i + 1, st)
                }
            },
            EventV::Text { text } => sdec_contact_loop(s, i + 1, st),
        }
    }
}

/// A `contact` element whose opening tag was already consumed: an optional
/// `bom-ref` attribute plus optional `name`, `email` and `phone` children.
pub open spec fn sdec_contact(s: Seq<EventV>, i: int, attrs: Seq<AttrV>) -> (Result<
    OrganizationalContactV,
    DecodeErrorV,
>, int) {
    sdec_contact_loop(s, i, contact_init(attrs))
}

pub proof fn lemma_contact_advance(s: Seq<EventV>, i: int, st: OrganizationalContactV)
    requires
        0 <= i <= s.len(),
    ensures
        ({
            let (r, j) = sdec_contact_loop(s, i, st);
            &&& i <= j <= s.len()
            &&& (r is Ok ==> j >= i + 1)
        }),
    decreases s.len() - i,
{
    if 0 <= i < s.len() {
        match s[i] {
            EventV::Start { name, attrs } => {
                if name == "name"@ || name == "email"@ || name == "phone"@ {
                    lemma_text_advance(s, i + 1, name, Seq::empty());
                    let (r, j) = sdec_text(s, i + 1, name);
                    if r is Ok && i + 1 <= j <= s.len() {
                        if name == "name"@ {
                            lemma_contact_advance(
                                s,
                                j,
                                OrganizationalContactV { name: Some(r->Ok_0), ..st },
                            );
                        } else if name == "email"@ {
                            lemma_contact_advance(
                                s,
                                j,
                                OrganizationalContactV { email: Some(r->Ok_0), ..st },
                            );
                        } else {
                            lemma_contact_advance(
                                s,
                                j,
                                OrganizationalContactV { phone: Some(r->Ok_0), ..st },
                            );
                        }
                    }
                } else {
                    lemma_contact_advance(s, i + 1, st);
                }
            },
            EventV::End { name } => {
                if name != "contact"@ {
                    lemma_contact_advance(s, i + 1, st);
                }
            },
            EventV::Text { text } => {
                lemma_contact_advance(s, i + 1, st);
            },
        }
    }
}

/// Decodes a `contact` element whose opening tag was already consumed.
pub fn decode_contact(events: &Vec<Event>, pos: usize, attrs: &Vec<Attr>) -> (r: (Result<
    OrganizationalContact,
    DecodeError,
>, usize))
    requires
        pos <= events@.len(),
    ensures
        agrees(r, sdec_contact(events.deep_view(), pos as int, attrs.deep_view())),
        pos <= r.1 <= events@.len(),
{
    let ghost s = events.deep_view();
    proof {
        assert(s.len() == events@.len());
    }
    let bom_ref = crate::events::find_attr(attrs, "bom-ref");
    let mut cname: Option<String> = None;
    let mut email: Option<String> = None;
    let mut phone: Option<String> = None;
    let mut i: usize = pos;
    loop
        invariant
            pos <= i <= events@.len(),
            s == events.deep_view(),
            s.len() == events@.len(),
            bom_ref.deep_view() == crate::events::spec_find_attr(attrs.deep_view(), "bom-ref"@),
            sdec_contact_loop(s, pos as int, contact_init(attrs.deep_view())) == sdec_contact_loop(
                s,
                i as int,
                OrganizationalContactV {
                    bom_ref: bom_ref.deep_view(),
                    name: cname.deep_view(),
                    email: email.deep_view(),
                    phone: phone.deep_view(),
                },
            ),
        decreases events@.len() - i,
    {
        if i >= events.len() {
            return (Err(DecodeError::UnexpectedEndOfStream), i);
        }
        proof {
            assert(s[i as int] == events@[i as int].deep_view());
        }
        match &events[i] {
            Event::Start { name, attrs: _ } => {
                if str_eq(name.as_str(), "name") {
                    let (tr, j) = read_simple_tag(events, i + 1, "name");
                    match tr {
                        Ok(t) => {
                            cname = Some(t);
                            i = j;
                        },
                        Err(e) => {
                            return (Err(e), j);
                        },
                    }
                } else if str_eq(name.as_str(), "email") {
                    let (tr, j) = read_simple_tag(events, i + 1, "email");
                    match tr {
                        Ok(t) => {
                            email = Some(t);
                            i = j;
                        },
                        Err(e) => {
                            return (Err(e), j);
                        },
                    }
                } else if str_eq(name.as_str(), "phone") {
                    let (tr, j) = read_simple_tag(events, i + 1, "phone");
                    match tr {
                        Ok(t) => {
                            phone = Some(t);
                            i = j;
                        },
                        Err(e) => {
                            return (Err(e), j);
                        },
                    }
                } else {
                    i = i + 1;
                }
            },
            Event::End { name } => {
                if str_eq(name.as_str(), "contact") {
                    return (
                        (
                            Ok(
                                OrganizationalContact {
                                    bom_ref,
                                    name: cname,
                                    email,
                                    phone,
                                },
                            ),
                            i + 1,
                        )
                    );
                } else {
                    i = i + 1;
                }
            },
            Event::Text { text: _ } => {
                i = i + 1;
            },
        }
    }
}

// ---------------------------------------------------------------------
// Organizational entity
// ---------------------------------------------------------------------

/// Appends to an optional sequence, creating it on first use: a repeated
/// child accumulates, it does not overwrite.
pub open spec fn push_opt<T>(o: Option<Seq<T>>, x: T) -> Option<Seq<T>> {
    match o {
        None => Some(seq![x]),
        Some(u) => Some(u.push(x)),
    }
}

pub open spec fn organization_init(attrs: Seq<AttrV>) -> OrganizationalEntityV {
    OrganizationalEntityV {
        bom_ref: crate::events::spec_find_attr(attrs, "bom-ref"@),
        name: None,
        url: None,
        contact: None,
    }
}

pub open spec fn sdec_organization_loop(s: Seq<EventV>, i: int, st: OrganizationalEntityV) -> (
    Result<OrganizationalEntityV, DecodeErrorV>,
    int,
)
    decreases s.len() - i,
{
    if i < 0 || i >= s.len() {
        (Err(DecodeErrorV::UnexpectedEndOfStream), i)
    } else {
        match s[i] {
            EventV::Start { name, attrs } => {
                if name == "name"@ {
                    let (r, j) = sdec_text(s, i + 1, name);
                    match r {
                        Ok(t) => {
                            if i + 1 <= j <= s.len() {
                                sdec_organization_loop(
                                    s,
                                    j,
                                    OrganizationalEntityV { name: Some(t), ..st },
                                )
                            } else {
                                (Err(DecodeErrorV::UnexpectedEndOfStream), j)
                            }
                        },
                        Err(e) => (Err(e), j),
                    }
                } else if name == "url"@ {
                    let (r, j) = sdec_text(s, i + 1, name);
                    match r {
                        Ok(t) => {
                            if i + 1 <= j <= s.len() {
                                sdec_organization_loop(
                                    s,
                                    j,
                                    OrganizationalEntityV { url: push_opt(st.url, t), ..st },
                                )
                            } else {
                                (Err(DecodeErrorV::UnexpectedEndOfStream), j)
                            }
                        },
                        Err(e) => (Err(e), j),
                    }
                } else if name == "contact"@ {
                    let (r, j) = sdec_contact(s, i + 1, attrs);
                    match r {
                        Ok(c) => {
                            if i + 1 <= j <= s.len() {
                                sdec_organization_loop(
                                    s,
                                    j,
                                    OrganizationalEntityV {
                                        contact: push_opt(st.contact, c),
                                        ..st
                                    },
                                )
                            } else {
                                (Err(DecodeErrorV::UnexpectedEndOfStream), j)
                            }
                        },
                        Err(e) => (Err(e), j),
                    }
                } else {
                    sdec_organization_loop(s, i + 1, st)
                }
            },
            EventV::End { name } => {
                if name == "organization"@ {
                    (Ok(st), i + 1)
                } else {
                    sdec_organization_loop(s, i + 1, st)
                }
            },
            EventV::Text { text } => sdec_organization_loop(s, i + 1, st),
        }
    }
}

/// An `organization` element whose opening tag was already consumed: an
/// optional `bom-ref` attribute, an optional `name` text child, and
/// repeatable `url` and `contact` children that accumulate in order.
pub open spec fn sdec_organization(s: Seq<EventV>, i: int, attrs: Seq<AttrV>) -> (Result<
    OrganizationalEntityV,
    DecodeErrorV,
>, int) {
    sdec_organization_loop(s, i, organization_init(attrs))
}

pub proof fn lemma_organization_advance(s: Seq<EventV>, i: int, st: OrganizationalEntityV)
    requires
        0 <= i <= s.len(),
    ensures
        ({
            let (r, j) = sdec_organization_loop(s, i, st);
            &&& i <= j <= s.len()
            &&& (r is Ok ==> j >= i + 1)
        }),
    decreases s.len() - i,
{
    if 0 <= i < s.len() {
        match s[i] {
            EventV::Start { name, attrs } => {
                if name == "name"@ || name == "url"@ {
                    lemma_text_advance(s, i + 1, name, Seq::empty());
                    let (r, j) = sdec_text(s, i + 1, name);
                    if r is Ok && i + 1 <= j <= s.len() {
                        if name == "name"@ {
                            lemma_organization_advance(
                                s,
                                j,
                                OrganizationalEntityV { name: Some(r->Ok_0), ..st },
                            );
                        } else {
                            lemma_organization_advance(
                                s,
                                j,
                                OrganizationalEntityV { url: push_opt(st.url, r->Ok_0), ..st },
                            );
                        }
                    }
                } else if name == "contact"@ {
                    lemma_contact_advance(s, i + 1, contact_init(attrs));
                    let (r, j) = sdec_contact(s, i + 1, attrs);
                    if r is Ok && i + 1 <= j <= s.len() {
                        lemma_organization_advance(
                            s,
                            j,
                            OrganizationalEntityV { contact: push_opt(st.contact, r->Ok_0), ..st },
                        );
                    }
                } else {
                    lemma_organization_advance(s, i + 1, st);
                }
            },
            EventV::End { name } => {
                if name != "organization"@ {
                    lemma_organization_advance(s, i + 1, st);
                }
            },
            EventV::Text { text } => {
                lemma_organization_advance(s, i + 1, st);
            },
        }
    }
}

/// Decodes an `organization` element whose opening tag was already
/// consumed.
pub fn decode_organization(events: &Vec<Event>, pos: usize, attrs: &Vec<Attr>) -> (r: (Result<
    OrganizationalEntity,
    DecodeError,
>, usize))
    requires
        pos <= events@.len(),
    ensures
        agrees(r, sdec_organization(events.deep_view(), pos as int, attrs.deep_view())),
        pos <= r.1 <= events@.len(),
{
    let ghost s = events.deep_view();
    proof {
        assert(s.len() == events@.len());
    }
    let bom_ref = crate::events::find_attr(attrs, "bom-ref");
    let mut oname: Option<String> = None;
    let mut url: Option<Vec<String>> = None;
    let mut contact: Option<Vec<OrganizationalContact>> = None;
    let mut i: usize = pos;
    loop
        invariant
            pos <= i <= events@.len(),
            s == events.deep_view(),
            s.len() == events@.len(),
            bom_ref.deep_view() == crate::events::spec_find_attr(attrs.deep_view(), "bom-ref"@),
            sdec_organization_loop(s, pos as int, organization_init(attrs.deep_view()))
                == sdec_organization_loop(
                s,
                i as int,
                OrganizationalEntityV {
                    bom_ref: bom_ref.deep_view(),
                    name: oname.deep_view(),
                    url: url.deep_view(),
                    contact: contact.deep_view(),
                },
            ),
        decreases events@.len() - i,
    {
        if i >= events.len() {
            return (Err(DecodeError::UnexpectedEndOfStream), i);
        }
        proof {
            assert(s[i as int] == events@[i as int].deep_view());
        }
        match &events[i] {
            Event::Start { name, attrs: child_attrs } => {
                if str_eq(name.as_str(), "name") {
                    let (tr, j) = read_simple_tag(events, i + 1, "name");
                    match tr {
                        Ok(t) => {
                            oname = Some(t);
                            i = j;
                        },
                        Err(e) => {
                            return (Err(e), j);
                        },
                    }
                } else if str_eq(name.as_str(), "url") {
                    let (tr, j) = read_simple_tag(events, i + 1, "url");
                    match tr {
                        Ok(t) => {
                            let ghost old_url = url.deep_view();
                            let ghost tv = t@;
                            url = match url {
                                None => Some(vec![t]),
                                Some(mut v) => {
                                    v.push(t);
                                    Some(v)
                                },
                            };
                            proof {
                                assert(url.deep_view()->Some_0 =~= push_opt(old_url, tv)->Some_0);
                            }
                            i = j;
                        },
                        Err(e) => {
                            return (Err(e), j);
                        },
                    }
                } else if str_eq(name.as_str(), "contact") {
                    let (cr, j) = decode_contact(events, i + 1, child_attrs);
                    match cr {
                        Ok(c) => {
                            let ghost old_contact = contact.deep_view();
                            let ghost cv = c.deep_view();
                            contact = match contact {
                                None => Some(vec![c]),
                                Some(mut v) => {
                                    v.push(c);
                                    Some(v)
                                },
                            };
                            proof {
                                assert(contact.deep_view()->Some_0 =~= push_opt(
                                    old_contact,
                                    cv,
                                )->Some_0);
                            }
                            i = j;
                        },
                        Err(e) => {
                            return (Err(e), j);
                        },
                    }
                } else {
                    i = i + 1;
                }
            },
            Event::End { name } => {
                if str_eq(name.as_str(), "organization") {
                    return (
                        (
                            Ok(
                                OrganizationalEntity {
                                    bom_ref,
                                    name: oname,
                                    url,
                                    contact,
                                },
                            ),
                            i + 1,
                        )
                    );
                } else {
                    i = i + 1;
                }
            },
            Event::Text { text: _ } => {
                i = i + 1;
            },
        }
    }
}

// ---------------------------------------------------------------------
// Properties
// ---------------------------------------------------------------------

pub open spec fn sdec_properties_loop(s: Seq<EventV>, i: int, acc: Seq<PropertyV>) -> (Result<
    Seq<PropertyV>,
    DecodeErrorV,
>, int)
    decreases s.len() - i,
{
    if i < 0 || i >= s.len() {
        (Err(DecodeErrorV::UnexpectedEndOfStream), i)
    } else {
        match s[i] {
            EventV::Start { name, attrs } => {
                if name == "property"@ {
                    let (r, j) = sdec_property(s, i + 1, attrs);
                    match r {
                        Ok(p) => {
                            if i + 1 <= j <= s.len() {
                                sdec_properties_loop(s, j, acc.push(p))
                            } else {
                                (Err(DecodeErrorV::UnexpectedEndOfStream), j)
                            }
                        },
                        Err(e) => (Err(e), j),
                    }
                } else {
                    (Err(DecodeErrorV::UnexpectedElement { expected: "properties"@, found: name }), i)
                }
            },
            EventV::End { name } => {
                if name == "properties"@ {
                    (Ok(acc), i + 1)
                } else {
                    (Err(DecodeErrorV::UnexpectedElement { expected: "properties"@, found: name }), i)
                }
            },
            EventV::Text { text } => {
                (Err(DecodeErrorV::UnexpectedElement { expected: "properties"@, found: text }), i)
            },
        }
    }
}

/// A `properties` element whose opening tag was already consumed: zero or
/// more `property` children in order, and nothing else — the wrapper is
/// closed, so any other event is a hard error.
pub open spec fn sdec_properties(s: Seq<EventV>, i: int) -> (Result<Seq<PropertyV>, DecodeErrorV>, int) {
    sdec_properties_loop(s, i, Seq::empty())
}

pub proof fn lemma_properties_advance(s: Seq<EventV>, i: int, acc: Seq<PropertyV>)
    requires
        0 <= i <= s.len(),
    ensures
        ({
            let (r, j) = sdec_properties_loop(s, i, acc);
            &&& i <= j <= s.len()
            &&& (r is Ok ==> j >= i + 1)
        }),
    decreases s.len() - i,
{
    if 0 <= i < s.len() {
        match s[i] {
            EventV::Start { name, attrs } => {
                if name == "property"@ {
                    lemma_text_advance(s, i + 1, "property"@, Seq::empty());
                    let (r, j) = sdec_property(s, i + 1, attrs);
                    if r is Ok && i + 1 <= j <= s.len() {
                        lemma_properties_advance(s, j, acc.push(r->Ok_0));
                    }
                }
            },
            _ => {},
        }
    }
}

/// Decodes a `properties` element whose opening tag was already consumed.
pub fn decode_properties(events: &Vec<Event>, pos: usize) -> (r: (Result<
    Properties,
    DecodeError,
>, usize))
    requires
        pos <= events@.len(),
    ensures
        agrees(r, sdec_properties(events.deep_view(), pos as int)),
        pos <= r.1 <= events@.len(),
{
    let ghost s = events.deep_view();
    proof {
        assert(s.len() == events@.len());
    }
    let mut acc: Vec<Property> = Vec::new();
    proof {
        assert(acc.deep_view() =~= Seq::<PropertyV>::empty());
    }
    let mut i: usize = pos;
    loop
        invariant
            pos <= i <= events@.len(),
            s == events.deep_view(),
            s.len() == events@.len(),
            sdec_properties_loop(s, pos as int, Seq::empty()) == sdec_properties_loop(
                s,
                i as int,
                acc.deep_view(),
            ),
        decreases events@.len() - i,
    {
        if i >= events.len() {
            return (Err(DecodeError::UnexpectedEndOfStream), i);
        }
        proof {
            assert(s[i as int] == events@[i as int].deep_view());
        }
        match &events[i] {
            Event::Start { name, attrs: child_attrs } => {
                if str_eq(name.as_str(), "property") {
                    let (pr, j) = decode_property(events, i + 1, child_attrs);
                    match pr {
                        Ok(p) => {
                            let ghost old_acc = acc.deep_view();
                            let ghost pv = p.deep_view();
                            acc.push(p);
                            proof {
                                assert(acc.deep_view() =~= old_acc.push(pv));
                            }
                            i = j;
                        },
                        Err(e) => {
                            return (Err(e), j);
                        },
                    }
                } else {
                    return (
                        (
                            Err(
                                DecodeError::UnexpectedElement {
                                    expected: "properties".to_owned(),
                                    found: name.clone(),
                                },
                            ),
                            i,
                        )
                    );
                }
            },
            Event::End { name } => {
                if str_eq(name.as_str(), "properties") {
                    return (Ok(Properties(acc)), i + 1);
                } else {
                    return (
                        (
                            Err(
                                DecodeError::UnexpectedElement {
                                    expected: "properties".to_owned(),
                                    found: name.clone(),
                                },
                            ),
                            i,
                        )
                    );
                }
            },
            Event::Text { text } => {
                return (
                    (
                        Err(
                            DecodeError::UnexpectedElement {
                                expected: "properties".to_owned(),
                                found: text.clone(),
                            },
                        ),
                        i,
                    )
                );
            },
        }
    }
}

// ---------------------------------------------------------------------
// Data-governance responsible party
// ---------------------------------------------------------------------

pub open spec fn sdec_party_loop(
    s: Seq<EventV>,
    i: int,
    item: Seq<char>,
    st: Option<DataGovernanceResponsiblePartyV>,
) -> (Result<DataGovernanceResponsiblePartyV, DecodeErrorV>, int)
    decreases s.len() - i,
{
    if i < 0 || i >= s.len() {
        (Err(DecodeErrorV::UnexpectedEndOfStream), i)
    } else {
        match s[i] {
            EventV::Start { name, attrs } => {
                if name == "organization"@ {
                    let (r, j) = sdec_organization(s, i + 1, attrs);
                    match r {
                        Ok(o) => {
                            if i + 1 <= j <= s.len() {
                                sdec_party_loop(
                                    s,
                                    j,
                                    item,
                                    Some(DataGovernanceResponsiblePartyV::Organization(o)),
                                )
                            } else {
                                (Err(DecodeErrorV::UnexpectedEndOfStream), j)
                            }
                        },
                        Err(e) => (Err(e), j),
                    }
                } else if name == "contact"@ {
                    let (r, j) = sdec_contact(s, i + 1, attrs);
                    match r {
                        Ok(c) => {
                            if i + 1 <= j <= s.len() {
                                sdec_party_loop(
                                    s,
                                    j,
                                    item,
                                    Some(DataGovernanceResponsiblePartyV::Contact(c)),
                                )
                            } else {
                                (Err(DecodeErrorV::UnexpectedEndOfStream), j)
                            }
                        },
                        Err(e) => (Err(e), j),
                    }
                } else {
                    (Err(DecodeErrorV::UnexpectedElement { expected: item, found: name }), i)
                }
            },
            EventV::End { name } => {
                if name == item {
                    match st {
                        Some(p) => (Ok(p), i + 1),
                        None => (
                            Err(
                                DecodeErrorV::RequiredDataMissing {
                                    required_field: "organization or contact"@,
                                    element: item,
                                },
                            ),
                            i + 1,
                        ),
                    }
                } else {
                    (Err(DecodeErrorV::UnexpectedElement { expected: item, found: name }), i)
                }
            },
            EventV::Text { text } => {
                (Err(DecodeErrorV::UnexpectedElement { expected: item, found: text }), i)
            },
        }
    }
}

/// A responsible-party element (a `custodian`, `steward` or `owner`) whose
/// opening tag was already consumed.  The union has no discriminator tag:
/// the variant is chosen by which child element is actually present, an
/// `organization` or a `contact`, last write wins if both occur; the
/// wrapper is otherwise closed, so any other event is a hard error, and a
/// wrapper with neither child is missing required data.
pub open spec fn sdec_party(s: Seq<EventV>, i: int, item: Seq<char>) -> (Result<
    DataGovernanceResponsiblePartyV,
    DecodeErrorV,
>, int) {
    sdec_party_loop(s, i, item, None)
}

pub proof fn lemma_party_advance(
    s: Seq<EventV>,
    i: int,
    item: Seq<char>,
    st: Option<DataGovernanceResponsiblePartyV>,
)
    requires
        0 <= i <= s.len(),
    ensures
        ({
            let (r, j) = sdec_party_loop(s, i, item, st);
            &&& i <= j <= s.len()
            &&& (r is Ok ==> j >= i + 1)
        }),
    decreases s.len() - i,
{
    if 0 <= i < s.len() {
        match s[i] {
            EventV::Start { name, attrs } => {
                if name == "organization"@ {
                    lemma_organization_advance(s, i + 1, organization_init(attrs));
                    let (r, j) = sdec_organization(s, i + 1, attrs);
                    if r is Ok && i + 1 <= j <= s.len() {
                        lemma_party_advance(
                            s,
                            j,
                            item,
                            Some(DataGovernanceResponsiblePartyV::Organization(r->Ok_0)),
                        );
                    }
                } else if name == "contact"@ {
                    lemma_contact_advance(s, i + 1, contact_init(attrs));
                    let (r, j) = sdec_contact(s, i + 1, attrs);
                    if r is Ok && i + 1 <= j <= s.len() {
                        lemma_party_advance(
                            s,
                            j,
                            item,
                            Some(DataGovernanceResponsiblePartyV::Contact(r->Ok_0)),
                        );
                    }
                }
            },
            _ => {},
        }
    }
}

/// Decodes a responsible-party element whose opening tag was already
/// consumed; `item` is the name of that tag.
pub fn decode_party(events: &Vec<Event>, pos: usize, item: &str) -> (r: (Result<
    DataGovernanceResponsibleParty,
    DecodeError,
>, usize))
    requires
        pos <= events@.len(),
    ensures
        agrees(r, sdec_party(events.deep_view(), pos as int, item@)),
        pos <= r.1 <= events@.len(),
{
    let ghost s = events.deep_view();
    proof {
        assert(s.len() == events@.len());
    }
    let mut party: Option<DataGovernanceResponsibleParty> = None;
    let mut i: usize = pos;
    loop
        invariant
            pos <= i <= events@.len(),
            s == events.deep_view(),
            s.len() == events@.len(),
            sdec_party_loop(s, pos as int, item@, None) == sdec_party_loop(
                s,
                i as int,
                item@,
                party.deep_view(),
            ),
        decreases events@.len() - i,
    {
        if i >= events.len() {
            return (Err(DecodeError::UnexpectedEndOfStream), i);
        }
        proof {
            assert(s[i as int] == events@[i as int].deep_view());
        }
        match &events[i] {
            Event::Start { name, attrs: child_attrs } => {
                if str_eq(name.as_str(), "organization") {
                    let (or, j) = decode_organization(events, i + 1, child_attrs);
                    match or {
                        Ok(o) => {
                            party = Some(DataGovernanceResponsibleParty::Organization(o));
                            i = j;
                        },
                        Err(e) => {
                            return (Err(e), j);
                        },
                    }
                } else if str_eq(name.as_str(), "contact") {
                    let (cr, j) = decode_contact(events, i + 1, child_attrs);
                    match cr {
                        Ok(c) => {
                            party = Some(DataGovernanceResponsibleParty::Contact(c));
                            i = j;
                        },
                        Err(e) => {
                            return (Err(e), j);
                        },
                    }
                } else {
                    return (
                        (
                            Err(
                                DecodeError::UnexpectedElement {
                                    expected: item.to_owned(),
                                    found: name.clone(),
                                },
                            ),
                            i,
                        )
                    );
                }
            },
            Event::End { name } => {
                if str_eq(name.as_str(), item) {
                    match party {
                        Some(p) => {
                            return (Ok(p), i + 1);
                        },
                        None => {
                            return (
                                (
                                    Err(
                                        DecodeError::RequiredDataMissing {
                                            required_field: "organization or contact".to_owned(),
                                            element: item.to_owned(),
                                        },
                                    ),
                                    i + 1,
                                )
                            );
                        },
                    }
                } else {
                    return (
                        (
                            Err(
                                DecodeError::UnexpectedElement {
                                    expected: item.to_owned(),
                                    found: name.clone(),
                                },
                            ),
                            i,
                        )
                    );
                }
            },
            Event::Text { text } => {
                return (
                    (
                        Err(
                            DecodeError::UnexpectedElement {
                                expected: item.to_owned(),
                                found: text.clone(),
                            },
                        ),
                        i,
                    )
                );
            },
        }
    }
}

// ---------------------------------------------------------------------
// Responsible-party lists
// ---------------------------------------------------------------------

pub open spec fn sdec_party_list_loop(
    s: Seq<EventV>,
    i: int,
    wrapper: Seq<char>,
    item: Seq<char>,
    acc: Seq<DataGovernanceResponsiblePartyV>,
) -> (Result<Seq<DataGovernanceResponsiblePartyV>, DecodeErrorV>, int)
    decreases s.len() - i,
{
    if i < 0 || i >= s.len() {
        (Err(DecodeErrorV::UnexpectedEndOfStream), i)
    } else {
        match s[i] {
            EventV::Start { name, attrs } => {
                if name == item {
                    let (r, j) = sdec_party(s, i + 1, item);
                    match r {
                        Ok(p) => {
                            if i + 1 <= j <= s.len() {
                                sdec_party_list_loop(s, j, wrapper, item, acc.push(p))
                            } else {
                                (Err(DecodeErrorV::UnexpectedEndOfStream), j)
                            }
                        },
                        Err(e) => (Err(e), j),
                    }
                } else {
                    (Err(DecodeErrorV::UnexpectedElement { expected: wrapper, found: name }), i)
                }
            },
            EventV::End { name } => {
                if name == wrapper {
                    (Ok(acc), i + 1)
                } else {
                    (Err(DecodeErrorV::UnexpectedElement { expected: wrapper, found: name }), i)
                }
            },
            EventV::Text { text } => {
                (Err(DecodeErrorV::UnexpectedElement { expected: wrapper, found: text }), i)
            },
        }
    }
}

/// A list wrapper (`custodians`, `stewards` or `owners`) whose opening tag
/// was already consumed: zero or more children named `item` in order, and
/// nothing else — the wrapper is closed, so any other event is a hard
/// error.
pub open spec fn sdec_party_list(s: Seq<EventV>, i: int, wrapper: Seq<char>, item: Seq<char>) -> (
    Result<Seq<DataGovernanceResponsiblePartyV>, DecodeErrorV>,
    int,
) {
    sdec_party_list_loop(s, i, wrapper, item, Seq::empty())
}

pub proof fn lemma_party_list_advance(
    s: Seq<EventV>,
    i: int,
    wrapper: Seq<char>,
    item: Seq<char>,
    acc: Seq<DataGovernanceResponsiblePartyV>,
)
    requires
        0 <= i <= s.len(),
    ensures
        ({
            let (r, j) = sdec_party_list_loop(s, i, wrapper, item, acc);
            &&& i <= j <= s.len()
            &&& (r is Ok ==> j >= i + 1)
        }),
    decreases s.len() - i,
{
    if 0 <= i < s.len() {
        match s[i] {
            EventV::Start { name, attrs } => {
                if name == item {
                    lemma_party_advance(s, i + 1, item, None);
                    let (r, j) = sdec_party(s, i + 1, item);
                    if r is Ok && i + 1 <= j <= s.len() {
                        lemma_party_list_advance(s, j, wrapper, item, acc.push(r->Ok_0));
                    }
                }
            },
            _ => {},
        }
    }
}

/// Decodes a responsible-party list wrapper whose opening tag was already
/// consumed; `wrapper` is the name of that tag and `item` the name its
/// children must carry.
pub fn decode_party_list(events: &Vec<Event>, pos: usize, wrapper: &str, item: &str) -> (r: (
    Result<Vec<DataGovernanceResponsibleParty>, DecodeError>,
    usize,
))
    requires
        pos <= events@.len(),
    ensures
        agrees(r, sdec_party_list(events.deep_view(), pos as int, wrapper@, item@)),
        pos <= r.1 <= events@.len(),
{
    let ghost s = events.deep_view();
    proof {
        assert(s.len() == events@.len());
    }
    let mut acc: Vec<DataGovernanceResponsibleParty> = Vec::new();
    proof {
        assert(acc.deep_view() =~= Seq::<DataGovernanceResponsiblePartyV>::empty());
    }
    let mut i: usize = pos;
    loop
        invariant
            pos <= i <= events@.len(),
            s == events.deep_view(),
            s.len() == events@.len(),
            sdec_party_list_loop(s, pos as int, wrapper@, item@, Seq::empty())
                == sdec_party_list_loop(s, i as int, wrapper@, item@, acc.deep_view()),
        decreases events@.len() - i,
    {
        if i >= events.len() {
            return (Err(DecodeError::UnexpectedEndOfStream), i);
        }
        proof {
            assert(s[i as int] == events@[i as int].deep_view());
        }
        match &events[i] {
            Event::Start { name, attrs: _ } => {
                if str_eq(name.as_str(), item) {
                    let (pr, j) = decode_party(events, i + 1, item);
                    match pr {
                        Ok(p) => {
                            let ghost old_acc = acc.deep_view();
                            let ghost pv = p.deep_view();
                            acc.push(p);
                            proof {
                                assert(acc.deep_view() =~= old_acc.push(pv));
                            }
                            i = j;
                        },
                        Err(e) => {
                            return (Err(e), j);
                        },
                    }
                } else {
                    return (
                        (
                            Err(
                                DecodeError::UnexpectedElement {
                                    expected: wrapper.to_owned(),
                                    found: name.clone(),
                                },
                            ),
                            i,
                        )
                    );
                }
            },
            Event::End { name } => {
                if str_eq(name.as_str(), wrapper) {
                    return (Ok(acc), i + 1);
                } else {
                    return (
                        (
                            Err(
                                DecodeError::UnexpectedElement {
                                    expected: wrapper.to_owned(),
                                    found: name.clone(),
                                },
                            ),
                            i,
                        )
                    );
                }
            },
            Event::Text { text } => {
                return (
                    (
                        Err(
                            DecodeError::UnexpectedElement {
                                expected: wrapper.to_owned(),
                                found: text.clone(),
                            },
                        ),
                        i,
                    )
                );
            },
        }
    }
}

// ---------------------------------------------------------------------
// Data governance
// ---------------------------------------------------------------------

pub open spec fn governance_init() -> DataGovernanceV {
    DataGovernanceV { custodians: None, stewards: None, owners: None }
}

pub open spec fn sdec_governance_loop(s: Seq<EventV>, i: int, st: DataGovernanceV) -> (Result<
    DataGovernanceV,
    DecodeErrorV,
>, int)
    decreases s.len() - i,
{
    if i < 0 || i >= s.len() {
        (Err(DecodeErrorV::UnexpectedEndOfStream), i)
    } else {
        match s[i] {
            EventV::Start { name, attrs } => {
                if name == "custodians"@ {
                    let (r, j) = sdec_party_list(s, i + 1, name, "custodian"@);
                    match r {
                        Ok(ps) => {
                            if i + 1 <= j <= s.len() {
                                sdec_governance_loop(
                                    s,
                                    j,
                                    DataGovernanceV { custodians: Some(ps), ..st },
                                )
                            } else {
                                (Err(DecodeErrorV::UnexpectedEndOfStream), j)
                            }
                        },
                        Err(e) => (Err(e), j),
                    }
                } else if name == "stewards"@ {
                    let (r, j) = sdec_party_list(s, i + 1, name, "steward"@);
                    match r {
                        Ok(ps) => {
                            if i + 1 <= j <= s.len() {
                                sdec_governance_loop(s, j, DataGovernanceV { stewards: Some(ps), ..st })
                            } else {
                                (Err(DecodeErrorV::UnexpectedEndOfStream), j)
                            }
                        },
                        Err(e) => (Err(e), j),
                    }
                } else if name == "owners"@ {
                    let (r, j) = sdec_party_list(s, i + 1, name, "owner"@);
                    match r {
                        Ok(ps) => {
                            if i + 1 <= j <= s.len() {
                                sdec_governance_loop(s, j, DataGovernanceV { owners: Some(ps), ..st })
                            } else {
                                (Err(DecodeErrorV::UnexpectedEndOfStream), j)
                            }
                        },
                        Err(e) => (Err(e), j),
                    }
                } else {
                    sdec_governance_loop(s, i + 1, st)
                }
            },
            EventV::End { name } => {
                if name == "governance"@ {
                    (Ok(st), i + 1)
                } else {
                    sdec_governance_loop(s, i + 1, st)
                }
            },
            EventV::Text { text } => sdec_governance_loop(s, i + 1, st),
        }
    }
}

/// A `governance` element whose opening tag was already consumed: optional
/// `custodians`, `stewards` and `owners` list children.
pub open spec fn sdec_governance(s: Seq<EventV>, i: int) -> (Result<DataGovernanceV, DecodeErrorV>, int) {
    sdec_governance_loop(s, i, governance_init())
}

pub proof fn lemma_governance_advance(s: Seq<EventV>, i: int, st: DataGovernanceV)
    requires
        0 <= i <= s.len(),
    ensures
        ({
            let (r, j) = sdec_governance_loop(s, i, st);
            &&& i <= j <= s.len()
            &&& (r is Ok ==> j >= i + 1)
        }),
    decreases s.len() - i,
{
    if 0 <= i < s.len() {
        match s[i] {
            EventV::Start { name, attrs } => {
                if name == "custodians"@ {
                    lemma_party_list_advance(s, i + 1, name, "custodian"@, Seq::empty());
                    let (r, j) = sdec_party_list(s, i + 1, name, "custodian"@);
                    if r is Ok && i + 1 <= j <= s.len() {
                        lemma_governance_advance(
                            s,
                            j,
                            DataGovernanceV { custodians: Some(r->Ok_0), ..st },
                        );
                    }
                } else if name == "stewards"@ {
                    lemma_party_list_advance(s, i + 1, name, "steward"@, Seq::empty());
                    let (r, j) = sdec_party_list(s, i + 1, name, "steward"@);
                    if r is Ok && i + 1 <= j <= s.len() {
                        lemma_governance_advance(s, j, DataGovernanceV { stewards: Some(r->Ok_0), ..st });
                    }
                } else if name == "owners"@ {
                    lemma_party_list_advance(s, i + 1, name, "owner"@, Seq::empty());
                    let (r, j) = sdec_party_list(s, i + 1, name, "owner"@);
                    if r is Ok && i + 1 <= j <= s.len() {
                        lemma_governance_advance(s, j, DataGovernanceV { owners: Some(r->Ok_0), ..st });
                    }
                } else {
                    lemma_governance_advance(s, i + 1, st);
                }
            },
            EventV::End { name } => {
                if name != "governance"@ {
                    lemma_governance_advance(s, i + 1, st);
                }
            },
            EventV::Text { text } => {
                lemma_governance_advance(s, i + 1, st);
            },
        }
    }
}

/// Decodes a `governance` element whose opening tag was already consumed.
pub fn decode_governance(events: &Vec<Event>, pos: usize) -> (r: (Result<
    DataGovernance,
    DecodeError,
>, usize))
    requires
        pos <= events@.len(),
    ensures
        agrees(r, sdec_governance(events.deep_view(), pos as int)),
        pos <= r.1 <= events@.len(),
{
    let ghost s = events.deep_view();
    proof {
        assert(s.len() == events@.len());
    }
    let mut custodians: Option<Vec<DataGovernanceResponsibleParty>> = None;
    let mut stewards: Option<Vec<DataGovernanceResponsibleParty>> = None;
    let mut owners: Option<Vec<DataGovernanceResponsibleParty>> = None;
    let mut i: usize = pos;
    loop
        invariant
            pos <= i <= events@.len(),
            s == events.deep_view(),
            s.len() == events@.len(),
            sdec_governance_loop(s, pos as int, governance_init()) == sdec_governance_loop(
                s,
                i as int,
                DataGovernanceV {
                    custodians: custodians.deep_view(),
                    stewards: stewards.deep_view(),
                    owners: owners.deep_view(),
                },
            ),
        decreases events@.len() - i,
    {
        if i >= events.len() {
            return (Err(DecodeError::UnexpectedEndOfStream), i);
        }
        proof {
            assert(s[i as int] == events@[i as int].deep_view());
        }
        match &events[i] {
            Event::Start { name, attrs: _ } => {
                if str_eq(name.as_str(), "custodians") {
                    let (lr, j) = decode_party_list(events, i + 1, "custodians", "custodian");
                    match lr {
                        Ok(ps) => {
                            custodians = Some(ps);
                            i = j;
                        },
                        Err(e) => {
                            return (Err(e), j);
                        },
                    }
                } else if str_eq(name.as_str(), "stewards") {
                    let (lr, j) = decode_party_list(events, i + 1, "stewards", "steward");
                    match lr {
                        Ok(ps) => {
                            stewards = Some(ps);
                            i = j;
                        },
                        Err(e) => {
                            return (Err(e), j);
                        },
                    }
                } else if str_eq(name.as_str(), "owners") {
                    let (lr, j) = decode_party_list(events, i + 1, "owners", "owner");
                    match lr {
                        Ok(ps) => {
                            owners = Some(ps);
                            i = j;
                        },
                        Err(e) => {
                            return (Err(e), j);
                        },
                    }
                } else {
                    i = i + 1;
                }
            },
            Event::End { name } => {
                if str_eq(name.as_str(), "governance") {
                    return (Ok(DataGovernance { custodians, stewards, owners }), i + 1);
                } else {
                    i = i + 1;
                }
            },
            Event::Text { text: _ } => {
                i = i + 1;
            },
        }
    }
}

// ---------------------------------------------------------------------
// Performance metric
// ---------------------------------------------------------------------

pub open spec fn metric_init() -> PerformanceMetricV {
    PerformanceMetricV { metric_type: None, value: None, slice: None, confidence_interval: None }
}

pub open spec fn sdec_metric_loop(s: Seq<EventV>, i: int, st: PerformanceMetricV) -> (Result<
    PerformanceMetricV,
    DecodeErrorV,
>, int)
    decreases s.len() - i,
{
    if i < 0 || i >= s.len() {
        (Err(DecodeErrorV::UnexpectedEndOfStream), i)
    } else {
        match s[i] {
            EventV::Start { name, attrs } => {
                if name == "type"@ {
                    let (r, j) = sdec_text(s, i + 1, name);
                    match r {
                        Ok(t) => {
                            if i + 1 <= j <= s.len() {
                                sdec_metric_loop(s, j, PerformanceMetricV { metric_type: Some(t), ..st })
                            } else {
                                (Err(DecodeErrorV::UnexpectedEndOfStream), j)
                            }
                        },
                        Err(e) => (Err(e), j),
                    }
                } else if name == "value"@ {
                    let (r, j) = sdec_text(s, i + 1, name);
                    match r {
                        Ok(t) => {
                            if i + 1 <= j <= s.len() {
                                sdec_metric_loop(s, j, PerformanceMetricV { value: Some(t), ..st })
                            } else {
                                (Err(DecodeErrorV::UnexpectedEndOfStream), j)
                            }
                        },
                        Err(e) => (Err(e), j),
                    }
                } else if name == "slice"@ {
                    let (r, j) = sdec_text(s, i + 1, name);
                    match r {
                        Ok(t) => {
                            if i + 1 <= j <= s.len() {
                                sdec_metric_loop(s, j, PerformanceMetricV { slice: Some(t), ..st })
                            } else {
                                (Err(DecodeErrorV::UnexpectedEndOfStream), j)
                            }
                        },
                        Err(e) => (Err(e), j),
                    }
                } else if name == "confidenceInterval"@ {
                    let (r, j) = sdec_confidence_interval(s, i + 1);
                    match r {
                        Ok(ci) => {
                            if i + 1 <= j <= s.len() {
                                sdec_metric_loop(
                                    s,
                                    j,
                                    PerformanceMetricV { confidence_interval: Some(ci), ..st },
                                )
                            } else {
                                (Err(DecodeErrorV::UnexpectedEndOfStream), j)
                            }
                        },
                        Err(e) => (Err(e), j),
                    }
                } else {
                    sdec_metric_loop(s, i + 1, st)
                }
            },
            EventV::End { name } => {
                if name == "performanceMetric"@ {
                    (Ok(st), i + 1)
                } else {
                    sdec_metric_loop(s, i + 1, st)
                }
            },
            EventV::Text { text } => sdec_metric_loop(s, i + 1, st),
        }
    }
}

/// A `performanceMetric` element whose opening tag was already consumed.
pub open spec fn sdec_metric(s: Seq<EventV>, i: int) -> (Result<PerformanceMetricV, DecodeErrorV>, int) {
    sdec_metric_loop(s, i, metric_init())
}

pub proof fn lemma_metric_advance(s: Seq<EventV>, i: int, st: PerformanceMetricV)
    requires
        0 <= i <= s.len(),
    ensures
        ({
            let (r, j) = sdec_metric_loop(s, i, st);
            &&& i <= j <= s.len()
            &&& (r is Ok ==> j >= i + 1)
        }),
    decreases s.len() - i,
{
    if 0 <= i < s.len() {
        match s[i] {
            EventV::Start { name, attrs } => {
                if name == "type"@ || name == "value"@ || name == "slice"@ {
                    lemma_text_advance(s, i + 1, name, Seq::empty());
                    let (r, j) = sdec_text(s, i + 1, name);
                    if r is Ok && i + 1 <= j <= s.len() {
                        if name == "type"@ {
                            lemma_metric_advance(
                                s,
                                j,
                                PerformanceMetricV { metric_type: Some(r->Ok_0), ..st },
                            );
                        } else if name == "value"@ {
                            lemma_metric_advance(s, j, PerformanceMetricV { value: Some(r->Ok_0), ..st });
                        } else {
                            lemma_metric_advance(s, j, PerformanceMetricV { slice: Some(r->Ok_0), ..st });
                        }
                    }
                } else if name == "confidenceInterval"@ {
                    lemma_confidence_interval_advance(s, i + 1, ci_init());
                    let (r, j) = sdec_confidence_interval(s, i + 1);
                    if r is Ok && i + 1 <= j <= s.len() {
                        lemma_metric_advance(
                            s,
                            j,
                            PerformanceMetricV { confidence_interval: Some(r->Ok_0), ..st },
                        );
                    }
                } else {
                    lemma_metric_advance(s, i + 1, st);
                }
            },
            EventV::End { name } => {
                if name != "performanceMetric"@ {
                    lemma_metric_advance(s, i + 1, st);
                }
            },
            EventV::Text { text } => {
                lemma_metric_advance(s, i + 1, st);
            },
        }
    }
}

/// Decodes a `performanceMetric` element whose opening tag was already
/// consumed.
pub fn decode_metric(events: &Vec<Event>, pos: usize) -> (r: (Result<
    PerformanceMetric,
    DecodeError,
>, usize))
    requires
        pos <= events@.len(),
    ensures
        agrees(r, sdec_metric(events.deep_view(), pos as int)),
        pos <= r.1 <= events@.len(),
{
    let ghost s = events.deep_view();
    proof {
        assert(s.len() == events@.len());
    }
    let mut metric_type: Option<String> = None;
    let mut value: Option<String> = None;
    let mut slice: Option<String> = None;
    let mut confidence_interval: Option<ConfidenceInterval> = None;
    let mut i: usize = pos;
    loop
        invariant
            pos <= i <= events@.len(),
            s == events.deep_view(),
            s.len() == events@.len(),
            sdec_metric_loop(s, pos as int, metric_init()) == sdec_metric_loop(
                s,
                i as int,
                PerformanceMetricV {
                    metric_type: metric_type.deep_view(),
                    value: value.deep_view(),
                    slice: slice.deep_view(),
                    confidence_interval: confidence_interval.deep_view(),
                },
            ),
        decreases events@.len() - i,
    {
        if i >= events.len() {
            return (Err(DecodeError::UnexpectedEndOfStream), i);
        }
        proof {
            assert(s[i as int] == events@[i as int].deep_view());
        }
        match &events[i] {
            Event::Start { name, attrs: _ } => {
                if str_eq(name.as_str(), "type") {
                    let (tr, j) = read_simple_tag(events, i + 1, "type");
                    match tr {
                        Ok(t) => {
                            metric_type = Some(t);
                            i = j;
                        },
                        Err(e) => {
                            return (Err(e), j);
                        },
                    }
                } else if str_eq(name.as_str(), "value") {
                    let (tr, j) = read_simple_tag(events, i + 1, "value");
                    match tr {
                        Ok(t) => {
                            value = Some(t);
                            i = j;
                        },
                        Err(e) => {
                            return (Err(e), j);
                        },
                    }
                } else if str_eq(name.as_str(), "slice") {
                    let (tr, j) = read_simple_tag(events, i + 1, "slice");
                    match tr {
                        Ok(t) => {
                            slice = Some(t);
                            i = j;
                        },
                        Err(e) => {
                            return (Err(e), j);
                        },
                    }
                } else if str_eq(name.as_str(), "confidenceInterval") {
                    let (cr, j) = decode_confidence_interval(events, i + 1);
                    match cr {
                        Ok(ci) => {
                            confidence_interval = Some(ci);
                            i = j;
                        },
                        Err(e) => {
                            return (Err(e), j);
                        },
                    }
                } else {
                    i = i + 1;
                }
            },
            Event::End { name } => {
                if str_eq(name.as_str(), "performanceMetric") {
                    return (
                        (
                            Ok(
                                PerformanceMetric {
                                    metric_type,
                                    value,
                                    slice,
                                    confidence_interval,
                                },
                            ),
                            i + 1,
                        )
                    );
                } else {
                    i = i + 1;
                }
            },
            Event::Text { text: _ } => {
                i = i + 1;
            },
        }
    }
}

// ---------------------------------------------------------------------
// Graphic
// ---------------------------------------------------------------------

pub open spec fn graphic_init() -> GraphicV {
    GraphicV { name: None, image: None }
}

pub open spec fn sdec_graphic_loop(s: Seq<EventV>, i: int, st: GraphicV) -> (Result<
    GraphicV,
    DecodeErrorV,
>, int)
    decreases s.len() - i,
{
    if i < 0 || i >= s.len() {
        (Err(DecodeErrorV::UnexpectedEndOfStream), i)
    } else {
        match s[i] {
            EventV::Start { name, attrs } => {
                if name == "name"@ {
                    let (r, j) = sdec_text(s, i + 1, name);
                    match r {
                        Ok(t) => {
                            if i + 1 <= j <= s.len() {
                                sdec_graphic_loop(s, j, GraphicV { name: Some(t), ..st })
                            } else {
                                (Err(DecodeErrorV::UnexpectedEndOfStream), j)
                            }
                        },
                        Err(e) => (Err(e), j),
                    }
                } else if name == "image"@ {
                    let (r, j) = sdec_attachment(s, i + 1, attrs, name);
                    match r {
                        Ok(a) => {
                            if i + 1 <= j <= s.len() {
                                sdec_graphic_loop(s, j, GraphicV { image: Some(a), ..st })
                            } else {
                                (Err(DecodeErrorV::UnexpectedEndOfStream), j)
                            }
                        },
                        Err(e) => (Err(e), j),
                    }
                } else {
                    sdec_graphic_loop(s, i + 1, st)
                }
            },
            EventV::End { name } => {
                if name == "graphic"@ {
                    (Ok(st), i + 1)
                } else {
                    sdec_graphic_loop(s, i + 1, st)
                }
            },
            EventV::Text { text } => sdec_graphic_loop(s, i + 1, st),
        }
    }
}

/// A `graphic` element whose opening tag was already consumed: an optional
/// `name` text child and an optional `image` attachment child.
pub open spec fn sdec_graphic(s: Seq<EventV>, i: int) -> (Result<GraphicV, DecodeErrorV>, int) {
    sdec_graphic_loop(s, i, graphic_init())
}

pub proof fn lemma_graphic_advance(s: Seq<EventV>, i: int, st: GraphicV)
    requires
        0 <= i <= s.len(),
    ensures
        ({
            let (r, j) = sdec_graphic_loop(s, i, st);
            &&& i <= j <= s.len()
            &&& (r is Ok ==> j >= i + 1)
        }),
    decreases s.len() - i,
{
    if 0 <= i < s.len() {
        match s[i] {
            EventV::Start { name, attrs } => {
                if name == "name"@ {
                    lemma_text_advance(s, i + 1, name, Seq::empty());
                    let (r, j) = sdec_text(s, i + 1, name);
                    if r is Ok && i + 1 <= j <= s.len() {
                        lemma_graphic_advance(s, j, GraphicV { name: Some(r->Ok_0), ..st });
                    }
                } else if name == "image"@ {
                    lemma_attachment_advance(
                        s,
                        i + 1,
                        name,
                        crate::events::spec_find_attr(attrs, "content-type"@),
                        crate::events::spec_find_attr(attrs, "encoding"@),
                        Seq::empty(),
                    );
                    let (r, j) = sdec_attachment(s, i + 1, attrs, name);
                    if r is Ok && i + 1 <= j <= s.len() {
                        lemma_graphic_advance(s, j, GraphicV { image: Some(r->Ok_0), ..st });
                    }
                } else {
                    lemma_graphic_advance(s, i + 1, st);
                }
            },
            EventV::End { name } => {
                if name != "graphic"@ {
                    lemma_graphic_advance(s, i + 1, st);
                }
            },
            EventV::Text { text } => {
                lemma_graphic_advance(s, i + 1, st);
            },
        }
    }
}

/// Decodes a `graphic` element whose opening tag was already consumed.
pub fn decode_graphic(events: &Vec<Event>, pos: usize) -> (r: (Result<Graphic, DecodeError>, usize))
    requires
        pos <= events@.len(),
    ensures
        agrees(r, sdec_graphic(events.deep_view(), pos as int)),
        pos <= r.1 <= events@.len(),
{
    let ghost s = events.deep_view();
    proof {
        assert(s.len() == events@.len());
    }
    let mut gname: Option<String> = None;
    let mut image: Option<Attachment> = None;
    let mut i: usize = pos;
    loop
        invariant
            pos <= i <= events@.len(),
            s == events.deep_view(),
            s.len() == events@.len(),
            sdec_graphic_loop(s, pos as int, graphic_init()) == sdec_graphic_loop(
                s,
                i as int,
                GraphicV { name: gname.deep_view(), image: image.deep_view() },
            ),
        decreases events@.len() - i,
    {
        if i >= events.len() {
            return (Err(DecodeError::UnexpectedEndOfStream), i);
        }
        proof {
            assert(s[i as int] == events@[i as int].deep_view());
        }
        match &events[i] {
            Event::Start { name, attrs: child_attrs } => {
                if str_eq(name.as_str(), "name") {
                    let (tr, j) = read_simple_tag(events, i + 1, "name");
                    match tr {
                        Ok(t) => {
                            gname = Some(t);
                            i = j;
                        },
                        Err(e) => {
                            return (Err(e), j);
                        },
                    }
                } else if str_eq(name.as_str(), "image") {
                    let (ar, j) = decode_attachment(events, i + 1, child_attrs, "image");
                    match ar {
                        Ok(a) => {
                            image = Some(a);
                            i = j;
                        },
                        Err(e) => {
                            return (Err(e), j);
                        },
                    }
                } else {
                    i = i + 1;
                }
            },
            Event::End { name } => {
                if str_eq(name.as_str(), "graphic") {
                    return (Ok(Graphic { name: gname, image }), i + 1);
                } else {
                    i = i + 1;
                }
            },
            Event::Text { text: _ } => {
                i = i + 1;
            },
        }
    }
}

// ---------------------------------------------------------------------
// Collection of graphics
// ---------------------------------------------------------------------

pub open spec fn sdec_collection_loop(s: Seq<EventV>, i: int, acc: Seq<GraphicV>) -> (Result<
    Seq<GraphicV>,
    DecodeErrorV,
>, int)
    decreases s.len() - i,
{
    if i < 0 || i >= s.len() {
        (Err(DecodeErrorV::UnexpectedEndOfStream), i)
    } else {
        match s[i] {
            EventV::Start { name, attrs } => {
                if name == "graphic"@ {
                    let (r, j) = sdec_graphic(s, i + 1);
                    match r {
                        Ok(g) => {
                            if i + 1 <= j <= s.len() {
                                sdec_collection_loop(s, j, acc.push(g))
                            } else {
                                (Err(DecodeErrorV::UnexpectedEndOfStream), j)
                            }
                        },
                        Err(e) => (Err(e), j),
                    }
                } else {
                    sdec_collection_loop(s, i + 1, acc)
                }
            },
            EventV::End { name } => {
                if name == "collection"@ {
                    (Ok(acc), i + 1)
                } else {
                    sdec_collection_loop(s, i + 1, acc)
                }
            },
            EventV::Text { text } => sdec_collection_loop(s, i + 1, acc),
        }
    }
}

/// A `collection` element whose opening tag was already consumed: zero or
/// more `graphic` children in order; anything else is skipped.
pub open spec fn sdec_collection(s: Seq<EventV>, i: int) -> (Result<Seq<GraphicV>, DecodeErrorV>, int) {
    sdec_collection_loop(s, i, Seq::empty())
}

pub proof fn lemma_collection_advance(s: Seq<EventV>, i: int, acc: Seq<GraphicV>)
    requires
        0 <= i <= s.len(),
    ensures
        ({
            let (r, j) = sdec_collection_loop(s, i, acc);
            &&& i <= j <= s.len()
            &&& (r is Ok ==> j >= i + 1)
        }),
    decreases s.len() - i,
{
    if 0 <= i < s.len() {
        match s[i] {
            EventV::Start { name, attrs } => {
                if name == "graphic"@ {
                    lemma_graphic_advance(s, i + 1, graphic_init());
                    let (r, j) = sdec_graphic(s, i + 1);
                    if r is Ok && i + 1 <= j <= s.len() {
                        lemma_collection_advance(s, j, acc.push(r->Ok_0));
                    }
                } else {
                    lemma_collection_advance(s, i + 1, acc);
                }
            },
            EventV::End { name } => {
                if name != "collection"@ {
                    lemma_collection_advance(s, i + 1, acc);
                }
            },
            EventV::Text { text } => {
                lemma_collection_advance(s, i + 1, acc);
            },
        }
    }
}

/// Decodes a `collection` element whose opening tag was already consumed.
pub fn decode_collection(events: &Vec<Event>, pos: usize) -> (r: (Result<
    Collection,
    DecodeError,
>, usize))
    requires
        pos <= events@.len(),
    ensures
        agrees(r, sdec_collection(events.deep_view(), pos as int)),
        pos <= r.1 <= events@.len(),
{
    let ghost s = events.deep_view();
    proof {
        assert(s.len() == events@.len());
    }
    let mut acc: Vec<Graphic> = Vec::new();
    proof {
        assert(acc.deep_view() =~= Seq::<GraphicV>::empty());
    }
    let mut i: usize = pos;
    loop
        invariant
            pos <= i <= events@.len(),
            s == events.deep_view(),
            s.len() == events@.len(),
            sdec_collection_loop(s, pos as int, Seq::empty()) == sdec_collection_loop(
                s,
                i as int,
                acc.deep_view(),
            ),
        decreases events@.len() - i,
    {
        if i >= events.len() {
            return (Err(DecodeError::UnexpectedEndOfStream), i);
        }
        proof {
            assert(s[i as int] == events@[i as int].deep_view());
        }
        match &events[i] {
            Event::Start { name, attrs: _ } => {
                if str_eq(name.as_str(), "graphic") {
                    let (gr, j) = decode_graphic(events, i + 1);
                    match gr {
                        Ok(g) => {
                            let ghost old_acc = acc.deep_view();
                            let ghost gv = g.deep_view();
                            acc.push(g);
                            proof {
                                assert(acc.deep_view() =~= old_acc.push(gv));
                            }
                            i = j;
                        },
                        Err(e) => {
                            return (Err(e), j);
                        },
                    }
                } else {
                    i = i + 1;
                }
            },
            Event::End { name } => {
                if str_eq(name.as_str(), "collection") {
                    return (Ok(Collection(acc)), i + 1);
                } else {
                    i = i + 1;
                }
            },
            Event::Text { text: _ } => {
                i = i + 1;
            },
        }
    }
}

// ---------------------------------------------------------------------
// Graphics
// ---------------------------------------------------------------------

pub open spec fn graphics_init() -> GraphicsV {
    GraphicsV { description: None, collection: None }
}

pub open spec fn sdec_graphics_loop(s: Seq<EventV>, i: int, st: GraphicsV) -> (Result<
    GraphicsV,
    DecodeErrorV,
>, int)
    decreases s.len() - i,
{
    if i < 0 || i >= s.len() {
        (Err(DecodeErrorV::UnexpectedEndOfStream), i)
    } else {
        match s[i] {
            EventV::Start { name, attrs } => {
                if name == "description"@ {
                    let (r, j) = sdec_text(s, i + 1, name);
                    match r {
                        Ok(t) => {
                            if i + 1 <= j <= s.len() {
                                sdec_graphics_loop(s, j, GraphicsV { description: Some(t), ..st })
                            } else {
                                (Err(DecodeErrorV::UnexpectedEndOfStream), j)
                            }
                        },
                        Err(e) => (Err(e), j),
                    }
                } else if name == "collection"@ {
                    let (r, j) = sdec_collection(s, i + 1);
                    match r {
                        Ok(c) => {
                            if i + 1 <= j <= s.len() {
                                sdec_graphics_loop(s, j, GraphicsV { collection: Some(c), ..st })
                            } else {
                                (Err(DecodeErrorV::UnexpectedEndOfStream), j)
                            }
                        },
                        Err(e) => (Err(e), j),
                    }
                } else {
                    sdec_graphics_loop(s, i + 1, st)
                }
            },
            EventV::End { name } => {
                if name == "graphics"@ {
                    (Ok(st), i + 1)
                } else {
                    sdec_graphics_loop(s, i + 1, st)
                }
            },
            EventV::Text { text } => sdec_graphics_loop(s, i + 1, st),
        }
    }
}

/// A `graphics` element whose opening tag was already consumed: an
/// optional `description` text child and an optional `collection` child.
pub open spec fn sdec_graphics(s: Seq<EventV>, i: int) -> (Result<GraphicsV, DecodeErrorV>, int) {
    sdec_graphics_loop(s, i, graphics_init())
}

pub proof fn lemma_graphics_advance(s: Seq<EventV>, i: int, st: GraphicsV)
    requires
        0 <= i <= s.len(),
    ensures
        ({
            let (r, j) = sdec_graphics_loop(s, i, st);
            &&& i <= j <= s.len()
            &&& (r is Ok ==> j >= i + 1)
        }),
    decreases s.len() - i,
{
    if 0 <= i < s.len() {
        match s[i] {
            EventV::Start { name, attrs } => {
                if name == "description"@ {
                    lemma_text_advance(s, i + 1, name, Seq::empty());
                    let (r, j) = sdec_text(s, i + 1, name);
                    if r is Ok && i + 1 <= j <= s.len() {
                        lemma_graphics_advance(s, j, GraphicsV { description: Some(r->Ok_0), ..st });
                    }
                } else if name == "collection"@ {
                    lemma_collection_advance(s, i + 1, Seq::empty());
                    let (r, j) = sdec_collection(s, i + 1);
                    if r is Ok && i + 1 <= j <= s.len() {
                        lemma_graphics_advance(s, j, GraphicsV { collection: Some(r->Ok_0), ..st });
                    }
                } else {
                    lemma_graphics_advance(s, i + 1, st);
                }
            },
            EventV::End { name } => {
                if name != "graphics"@ {
                    lemma_graphics_advance(s, i + 1, st);
                }
            },
            EventV::Text { text } => {
                lemma_graphics_advance(s, i + 1, st);
            },
        }
    }
}

/// Decodes a `graphics` element whose opening tag was already consumed.
pub fn decode_graphics(events: &Vec<Event>, pos: usize) -> (r: (Result<Graphics, DecodeError>, usize))
    requires
        pos <= events@.len(),
    ensures
        agrees(r, sdec_graphics(events.deep_view(), pos as int)),
        pos <= r.1 <= events@.len(),
{
    let ghost s = events.deep_view();
    proof {
        assert(s.len() == events@.len());
    }
    let mut description: Option<String> = None;
    let mut collection: Option<Collection> = None;
    let mut i: usize = pos;
    loop
        invariant
            pos <= i <= events@.len(),
            s == events.deep_view(),
            s.len() == events@.len(),
            sdec_graphics_loop(s, pos as int, graphics_init()) == sdec_graphics_loop(
                s,
                i as int,
                GraphicsV {
                    description: description.deep_view(),
                    collection: collection.deep_view(),
                },
            ),
        decreases events@.len() - i,
    {
        if i >= events.len() {
            return (Err(DecodeError::UnexpectedEndOfStream), i);
        }
        proof {
            assert(s[i as int] == events@[i as int].deep_view());
        }
        match &events[i] {
            Event::Start { name, attrs: _ } => {
                if str_eq(name.as_str(), "description") {
                    let (tr, j) = read_simple_tag(events, i + 1, "description");
                    match tr {
                        Ok(t) => {
                            description = Some(t);
                            i = j;
                        },
                        Err(e) => {
                            return (Err(e), j);
                        },
                    }
                } else if str_eq(name.as_str(), "collection") {
                    let (cr, j) = decode_collection(events, i + 1);
                    match cr {
                        Ok(c) => {
                            collection = Some(c);
                            i = j;
                        },
                        Err(e) => {
                            return (Err(e), j);
                        },
                    }
                } else {
                    i = i + 1;
                }
            },
            Event::End { name } => {
                if str_eq(name.as_str(), "graphics") {
                    return (Ok(Graphics { description, collection }), i + 1);
                } else {
                    i = i + 1;
                }
            },
            Event::Text { text: _ } => {
                i = i + 1;
            },
        }
    }
}

// ---------------------------------------------------------------------
// Data contents
// ---------------------------------------------------------------------

pub open spec fn contents_init() -> DataContentsV {
    DataContentsV { attachment: None, url: None, properties: None }
}

pub open spec fn sdec_contents_loop(s: Seq<EventV>, i: int, st: DataContentsV) -> (Result<
    DataContentsV,
    DecodeErrorV,
>, int)
    decreases s.len() - i,
{
    if i < 0 || i >= s.len() {
        (Err(DecodeErrorV::UnexpectedEndOfStream), i)
    } else {
        match s[i] {
            EventV::Start { name, attrs } => {
                if name == "url"@ {
                    let (r, j) = sdec_text(s, i + 1, name);
                    match r {
                        Ok(t) => {
                            if i + 1 <= j <= s.len() {
                                sdec_contents_loop(s, j, DataContentsV { url: Some(t), ..st })
                            } else {
                                (Err(DecodeErrorV::UnexpectedEndOfStream), j)
                            }
                        },
                        Err(e) => (Err(e), j),
                    }
                } else if name == "attachment"@ {
                    let (r, j) = sdec_attachment(s, i + 1, attrs, name);
                    match r {
                        Ok(a) => {
                            if i + 1 <= j <= s.len() {
                                sdec_contents_loop(s, j, DataContentsV { attachment: Some(a), ..st })
                            } else {
                                (Err(DecodeErrorV::UnexpectedEndOfStream), j)
                            }
                        },
                        Err(e) => (Err(e), j),
                    }
                } else if name == "properties"@ {
                    let (r, j) = sdec_properties(s, i + 1);
                    match r {
                        Ok(ps) => {
                            if i + 1 <= j <= s.len() {
                                sdec_contents_loop(s, j, DataContentsV { properties: Some(ps), ..st })
                            } else {
                                (Err(DecodeErrorV::UnexpectedEndOfStream), j)
                            }
                        },
                        Err(e) => (Err(e), j),
                    }
                } else {
                    sdec_contents_loop(s, i + 1, st)
                }
            },
            EventV::End { name } => {
                if name == "contents"@ {
                    (Ok(st), i + 1)
                } else {
                    sdec_contents_loop(s, i + 1, st)
                }
            },
            EventV::Text { text } => sdec_contents_loop(s, i + 1, st),
        }
    }
}

/// A `contents` element whose opening tag was already consumed: an
/// optional `attachment` child, an optional `url` text child and an
/// optional `properties` child.
pub open spec fn sdec_contents(s: Seq<EventV>, i: int) -> (Result<DataContentsV, DecodeErrorV>, int) {
    sdec_contents_loop(s, i, contents_init())
}

pub proof fn lemma_contents_advance(s: Seq<EventV>, i: int, st: DataContentsV)
    requires
        0 <= i <= s.len(),
    ensures
        ({
            let (r, j) = sdec_contents_loop(s, i, st);
            &&& i <= j <= s.len()
            &&& (r is Ok ==> j >= i + 1)
        }),
    decreases s.len() - i,
{
    if 0 <= i < s.len() {
        match s[i] {
            EventV::Start { name, attrs } => {
                if name == "url"@ {
                    lemma_text_advance(s, i + 1, name, Seq::empty());
                    let (r, j) = sdec_text(s, i + 1, name);
                    if r is Ok && i + 1 <= j <= s.len() {
                        lemma_contents_advance(s, j, DataContentsV { url: Some(r->Ok_0), ..st });
                    }
                } else if name == "attachment"@ {
                    lemma_attachment_advance(
                        s,
                        i + 1,
                        name,
                        crate::events::spec_find_attr(attrs, "content-type"@),
                        crate::events::spec_find_attr(attrs, "encoding"@),
                        Seq::empty(),
                    );
                    let (r, j) = sdec_attachment(s, i + 1, attrs, name);
                    if r is Ok && i + 1 <= j <= s.len() {
                        lemma_contents_advance(s, j, DataContentsV { attachment: Some(r->Ok_0), ..st });
                    }
                } else if name == "properties"@ {
                    lemma_properties_advance(s, i + 1, Seq::empty());
                    let (r, j) = sdec_properties(s, i + 1);
                    if r is Ok && i + 1 <= j <= s.len() {
                        lemma_contents_advance(s, j, DataContentsV { properties: Some(r->Ok_0), ..st });
                    }
                } else {
                    lemma_contents_advance(s, i + 1, st);
                }
            },
            EventV::End { name } => {
                if name != "contents"@ {
                    lemma_contents_advance(s, i + 1, st);
                }
            },
            EventV::Text { text } => {
                lemma_contents_advance(s, i + 1, st);
            },
        }
    }
}

/// Decodes a `contents` element whose opening tag was already consumed.
pub fn decode_contents(events: &Vec<Event>, pos: usize) -> (r: (Result<DataContents, DecodeError>, usize))
    requires
        pos <= events@.len(),
    ensures
        agrees(r, sdec_contents(events.deep_view(), pos as int)),
        pos <= r.1 <= events@.len(),
{
    let ghost s = events.deep_view();
    proof {
        assert(s.len() == events@.len());
    }
    let mut attachment: Option<Attachment> = None;
    let mut url: Option<String> = None;
    let mut properties: Option<Properties> = None;
    let mut i: usize = pos;
    loop
        invariant
            pos <= i <= events@.len(),
            s == events.deep_view(),
            s.len() == events@.len(),
            sdec_contents_loop(s, pos as int, contents_init()) == sdec_contents_loop(
                s,
                i as int,
                DataContentsV {
                    attachment: attachment.deep_view(),
                    url: url.deep_view(),
                    properties: properties.deep_view(),
                },
            ),
        decreases events@.len() - i,
    {
        if i >= events.len() {
            return (Err(DecodeError::UnexpectedEndOfStream), i);
        }
        proof {
            assert(s[i as int] == events@[i as int].deep_view());
        }
        match &events[i] {
            Event::Start { name, attrs: child_attrs } => {
                if str_eq(name.as_str(), "url") {
                    let (tr, j) = read_simple_tag(events, i + 1, "url");
                    match tr {
                        Ok(t) => {
                            url = Some(t);
                            i = j;
                        },
                        Err(e) => {
                            return (Err(e), j);
                        },
                    }
                } else if str_eq(name.as_str(), "attachment") {
                    let (ar, j) = decode_attachment(events, i + 1, child_attrs, "attachment");
                    match ar {
                        Ok(a) => {
                            attachment = Some(a);
                            i = j;
                        },
                        Err(e) => {
                            return (Err(e), j);
                        },
                    }
                } else if str_eq(name.as_str(), "properties") {
                    let (pr, j) = decode_properties(events, i + 1);
                    match pr {
                        Ok(ps) => {
                            properties = Some(ps);
                            i = j;
                        },
                        Err(e) => {
                            return (Err(e), j);
                        },
                    }
                } else {
                    i = i + 1;
                }
            },
            Event::End { name } => {
                if str_eq(name.as_str(), "contents") {
                    return (Ok(DataContents { attachment, url, properties }), i + 1);
                } else {
                    i = i + 1;
                }
            },
            Event::Text { text: _ } => {
                i = i + 1;
            },
        }
    }
}

// ---------------------------------------------------------------------
// Dataset
// ---------------------------------------------------------------------

/// The fields a `dataset` decoder may have accumulated when its close tag
/// arrives: every object-shaped field plus the `ref` child.
#[verifier::ext_equal]
pub struct DatasetSt {
    pub bom_ref: Option<Seq<char>>,
    pub data_type: Option<Seq<char>>,
    pub name: Option<Seq<char>>,
    pub contents: Option<DataContentsV>,
    pub classification: Option<Seq<char>>,
    pub sensitive_data: Option<Seq<char>>,
    pub graphics: Option<GraphicsV>,
    pub description: Option<Seq<char>>,
    pub governance: Option<DataGovernanceV>,
    pub reference: Option<Seq<char>>,
}

pub open spec fn dataset_init(attrs: Seq<AttrV>) -> DatasetSt {
    DatasetSt {
        bom_ref: crate::events::spec_find_attr(attrs, "bom-ref"@),
        data_type: None,
        name: None,
        contents: None,
        classification: None,
        sensitive_data: None,
        graphics: None,
        description: None,
        governance: None,
        reference: None,
    }
}

/// Whether any object-shaped child was present.
pub open spec fn dataset_has_object_field(st: DatasetSt) -> bool {
    ||| st.data_type is Some
    ||| st.name is Some
    ||| st.contents is Some
    ||| st.classification is Some
    ||| st.sensitive_data is Some
    ||| st.graphics is Some
    ||| st.description is Some
    ||| st.governance is Some
}

/// Disambiguation of the tagged union once the close tag has arrived.
/// The wire form carries no discriminator, so the variant is chosen from
/// the set of children actually present: any object-shaped field makes
/// the dataset an inline object, and the object shape wins the tie even
/// if a `ref` child is also present; the object's `type` child is then
/// mandatory.  A `ref` child alone makes it a plain reference.  Neither
/// shape present is missing required data, named after both alternatives.
pub open spec fn dataset_finish(st: DatasetSt) -> Result<DatasetV, DecodeErrorV> {
    if dataset_has_object_field(st) {
        match st.data_type {
            Some(dt) => Ok(
                DatasetV::Component(
                    ComponentDataV {
                        bom_ref: st.bom_ref,
                        data_type: dt,
                        name: st.name,
                        contents: st.contents,
                        classification: st.classification,
                        sensitive_data: st.sensitive_data,
                        graphics: st.graphics,
                        description: st.description,
                        governance: st.governance,
                    },
                ),
            ),
            None => Err(
                DecodeErrorV::RequiredDataMissing { required_field: "type"@, element: "dataset"@ },
            ),
        }
    } else {
        match st.reference {
            Some(r) => Ok(DatasetV::Reference(r)),
            None => Err(
                DecodeErrorV::RequiredDataMissing {
                    required_field: "type or ref"@,
                    element: "dataset"@,
                },
            ),
        }
    }
}

pub open spec fn sdec_dataset_loop(s: Seq<EventV>, i: int, st: DatasetSt) -> (Result<
    DatasetV,
    DecodeErrorV,
>, int)
    decreases s.len() - i,
{
    if i < 0 || i >= s.len() {
        (Err(DecodeErrorV::UnexpectedEndOfStream), i)
    } else {
        match s[i] {
            EventV::Start { name, attrs } => {
                if name == "type"@ {
                    let (r, j) = sdec_text(s, i + 1, name);
                    match r {
                        Ok(t) => {
                            if i + 1 <= j <= s.len() {
                                sdec_dataset_loop(s, j, DatasetSt { data_type: Some(t), ..st })
                            } else {
                                (Err(DecodeErrorV::UnexpectedEndOfStream), j)
                            }
                        },
                        Err(e) => (Err(e), j),
                    }
                } else if name == "name"@ {
                    let (r, j) = sdec_text(s, i + 1, name);
                    match r {
                        Ok(t) => {
                            if i + 1 <= j <= s.len() {
                                sdec_dataset_loop(s, j, DatasetSt { name: Some(t), ..st })
                            } else {
                                (Err(DecodeErrorV::UnexpectedEndOfStream), j)
                            }
                        },
                        Err(e) => (Err(e), j),
                    }
                } else if name == "contents"@ {
                    let (r, j) = sdec_contents(s, i + 1);
                    match r {
                        Ok(c) => {
                            if i + 1 <= j <= s.len() {
                                sdec_dataset_loop(s, j, DatasetSt { contents: Some(c), ..st })
                            } else {
                                (Err(DecodeErrorV::UnexpectedEndOfStream), j)
                            }
                        },
                        Err(e) => (Err(e), j),
                    }
                } else if name == "classification"@ {
                    let (r, j) = sdec_text(s, i + 1, name);
                    match r {
                        Ok(t) => {
                            if i + 1 <= j <= s.len() {
                                sdec_dataset_loop(s, j, DatasetSt { classification: Some(t), ..st })
                            } else {
                                (Err(DecodeErrorV::UnexpectedEndOfStream), j)
                            }
                        },
                        Err(e) => (Err(e), j),
                    }
                } else if name == "sensitiveData"@ {
                    let (r, j) = sdec_text(s, i + 1, name);
                    match r {
                        Ok(t) => {
                            if i + 1 <= j <= s.len() {
                                sdec_dataset_loop(s, j, DatasetSt { sensitive_data: Some(t), ..st })
                            } else {
                                (Err(DecodeErrorV::UnexpectedEndOfStream), j)
                            }
                        },
                        Err(e) => (Err(e), j),
                    }
                } else if name == "graphics"@ {
                    let (r, j) = sdec_graphics(s, i + 1);
                    match r {
                        Ok(g) => {
                            if i + 1 <= j <= s.len() {
                                sdec_dataset_loop(s, j, DatasetSt { graphics: Some(g), ..st })
                            } else {
                                (Err(DecodeErrorV::UnexpectedEndOfStream), j)
                            }
                        },
                        Err(e) => (Err(e), j),
                    }
                } else if name == "description"@ {
                    let (r, j) = sdec_text(s, i + 1, name);
                    match r {
                        Ok(t) => {
                            if i + 1 <= j <= s.len() {
                                sdec_dataset_loop(s, j, DatasetSt { description: Some(t), ..st })
                            } else {
                                (Err(DecodeErrorV::UnexpectedEndOfStream), j)
                            }
                        },
                        Err(e) => (Err(e), j),
                    }
                } else if name == "governance"@ {
                    let (r, j) = sdec_governance(s, i + 1);
                    match r {
                        Ok(g) => {
                            if i + 1 <= j <= s.len() {
                                sdec_dataset_loop(s, j, DatasetSt { governance: Some(g), ..st })
                            } else {
                                (Err(DecodeErrorV::UnexpectedEndOfStream), j)
                            }
                        },
                        Err(e) => (Err(e), j),
                    }
                } else if name == "ref"@ {
                    let (r, j) = sdec_text(s, i + 1, name);
                    match r {
                        Ok(t) => {
                            if i + 1 <= j <= s.len() {
                                sdec_dataset_loop(s, j, DatasetSt { reference: Some(t), ..st })
                            } else {
                                (Err(DecodeErrorV::UnexpectedEndOfStream), j)
                            }
                        },
                        Err(e) => (Err(e), j),
                    }
                } else {
                    sdec_dataset_loop(s, i + 1, st)
                }
            },
            EventV::End { name } => {
                if name == "dataset"@ {
                    (dataset_finish(st), i + 1)
                } else {
                    sdec_dataset_loop(s, i + 1, st)
                }
            },
            EventV::Text { text } => sdec_dataset_loop(s, i + 1, st),
        }
    }
}

/// A `dataset` element whose opening tag was already consumed.
pub open spec fn sdec_dataset(s: Seq<EventV>, i: int, attrs: Seq<AttrV>) -> (Result<
    DatasetV,
    DecodeErrorV,
>, int) {
    sdec_dataset_loop(s, i, dataset_init(attrs))
}

#[verifier::rlimit(100)]
#[verifier::spinoff_prover]
pub proof fn lemma_dataset_advance(s: Seq<EventV>, i: int, st: DatasetSt)
    requires
        0 <= i <= s.len(),
    ensures
        ({
            let (r, j) = sdec_dataset_loop(s, i, st);
            &&& i <= j <= s.len()
            &&& (r is Ok ==> j >= i + 1)
        }),
    decreases s.len() - i,
{
    if 0 <= i < s.len() {
        match s[i] {
            EventV::Start { name, attrs } => {
                if name == "type"@ {
                    lemma_text_advance(s, i + 1, name, Seq::empty());
                    let (r, j) = sdec_text(s, i + 1, name);
                    if r is Ok && i + 1 <= j <= s.len() {
                        lemma_dataset_advance(s, j, DatasetSt { data_type: Some(r->Ok_0), ..st });
                    }
                } else if name == "name"@ {
                    lemma_text_advance(s, i + 1, name, Seq::empty());
                    let (r, j) = sdec_text(s, i + 1, name);
                    if r is Ok && i + 1 <= j <= s.len() {
                        lemma_dataset_advance(s, j, DatasetSt { name: Some(r->Ok_0), ..st });
                    }
                } else if name == "contents"@ {
                    lemma_contents_advance(s, i + 1, contents_init());
                    let (r, j) = sdec_contents(s, i + 1);
                    if r is Ok && i + 1 <= j <= s.len() {
                        lemma_dataset_advance(s, j, DatasetSt { contents: Some(r->Ok_0), ..st });
                    }
                } else if name == "classification"@ {
                    lemma_text_advance(s, i + 1, name, Seq::empty());
                    let (r, j) = sdec_text(s, i + 1, name);
                    if r is Ok && i + 1 <= j <= s.len() {
                        lemma_dataset_advance(s, j, DatasetSt { classification: Some(r->Ok_0), ..st });
                    }
                } else if name == "sensitiveData"@ {
                    lemma_text_advance(s, i + 1, name, Seq::empty());
                    let (r, j) = sdec_text(s, i + 1, name);
                    if r is Ok && i + 1 <= j <= s.len() {
                        lemma_dataset_advance(s, j, DatasetSt { sensitive_data: Some(r->Ok_0), ..st });
                    }
                } else if name == "graphics"@ {
                    lemma_graphics_advance(s, i + 1, graphics_init());
                    let (r, j) = sdec_graphics(s, i + 1);
                    if r is Ok && i + 1 <= j <= s.len() {
                        lemma_dataset_advance(s, j, DatasetSt { graphics: Some(r->Ok_0), ..st });
                    }
                } else if name == "description"@ {
                    lemma_text_advance(s, i + 1, name, Seq::empty());
                    let (r, j) = sdec_text(s, i + 1, name);
                    if r is Ok && i + 1 <= j <= s.len() {
                        lemma_dataset_advance(s, j, DatasetSt { description: Some(r->Ok_0), ..st });
                    }
                } else if name == "governance"@ {
                    lemma_governance_advance(s, i + 1, governance_init());
                    let (r, j) = sdec_governance(s, i + 1);
                    if r is Ok && i + 1 <= j <= s.len() {
                        lemma_dataset_advance(s, j, DatasetSt { governance: Some(r->Ok_0), ..st });
                    }
                } else if name == "ref"@ {
                    lemma_text_advance(s, i + 1, name, Seq::empty());
                    let (r, j) = sdec_text(s, i + 1, name);
                    if r is Ok && i + 1 <= j <= s.len() {
                        lemma_dataset_advance(s, j, DatasetSt { reference: Some(r->Ok_0), ..st });
                    }
                } else {
                    lemma_dataset_advance(s, i + 1, st);
                }
            },
            EventV::End { name } => {
                if name != "dataset"@ {
                    lemma_dataset_advance(s, i + 1, st);
                }
            },
            EventV::Text { text } => {
                lemma_dataset_advance(s, i + 1, st);
            },
        }
    }
}

/// Decodes a `dataset` element whose opening tag was already consumed,
/// disambiguating the reference-or-object union from the children that
/// are actually present (see `dataset_finish`).
pub fn decode_dataset(events: &Vec<Event>, pos: usize, attrs: &Vec<Attr>) -> (r: (Result<
    Dataset,
    DecodeError,
>, usize))
    requires
        pos <= events@.len(),
    ensures
        agrees(r, sdec_dataset(events.deep_view(), pos as int, attrs.deep_view())),
        pos <= r.1 <= events@.len(),
{
    let ghost s = events.deep_view();
    proof {
        assert(s.len() == events@.len());
    }
    let bom_ref = crate::events::find_attr(attrs, "bom-ref");
    let mut data_type: Option<String> = None;
    let mut dname: Option<String> = None;
    let mut contents: Option<DataContents> = None;
    let mut classification: Option<String> = None;
    let mut sensitive_data: Option<String> = None;
    let mut graphics: Option<Graphics> = None;
    let mut description: Option<String> = None;
    let mut governance: Option<DataGovernance> = None;
    let mut reference: Option<String> = None;
    let mut i: usize = pos;
    loop
        invariant
            pos <= i <= events@.len(),
            s == events.deep_view(),
            s.len() == events@.len(),
            bom_ref.deep_view() == crate::events::spec_find_attr(attrs.deep_view(), "bom-ref"@),
            sdec_dataset_loop(s, pos as int, dataset_init(attrs.deep_view())) == sdec_dataset_loop(
                s,
                i as int,
                DatasetSt {
                    bom_ref: bom_ref.deep_view(),
                    data_type: data_type.deep_view(),
                    name: dname.deep_view(),
                    contents: contents.deep_view(),
                    classification: classification.deep_view(),
                    sensitive_data: sensitive_data.deep_view(),
                    graphics: graphics.deep_view(),
                    description: description.deep_view(),
                    governance: governance.deep_view(),
                    reference: reference.deep_view(),
                },
            ),
        decreases events@.len() - i,
    {
        if i >= events.len() {
            return (Err(DecodeError::UnexpectedEndOfStream), i);
        }
        proof {
            assert(s[i as int] == events@[i as int].deep_view());
        }
        match &events[i] {
            Event::Start { name, attrs: _ } => {
                if str_eq(name.as_str(), "type") {
                    let (tr, j) = read_simple_tag(events, i + 1, "type");
                    match tr {
                        Ok(t) => {
                            data_type = Some(t);
                            i = j;
                        },
                        Err(e) => {
                            return (Err(e), j);
                        },
                    }
                } else if str_eq(name.as_str(), "name") {
                    let (tr, j) = read_simple_tag(events, i + 1, "name");
                    match tr {
                        Ok(t) => {
                            dname = Some(t);
                            i = j;
                        },
                        Err(e) => {
                            return (Err(e), j);
                        },
                    }
                } else if str_eq(name.as_str(), "contents") {
                    let (cr, j) = decode_contents(events, i + 1);
                    match cr {
                        Ok(c) => {
                            contents = Some(c);
                            i = j;
                        },
                        Err(e) => {
                            return (Err(e), j);
                        },
                    }
                } else if str_eq(name.as_str(), "classification") {
                    let (tr, j) = read_simple_tag(events, i + 1, "classification");
                    match tr {
                        Ok(t) => {
                            classification = Some(t);
                            i = j;
                        },
                        Err(e) => {
                            return (Err(e), j);
                        },
                    }
                } else if str_eq(name.as_str(), "sensitiveData") {
                    let (tr, j) = read_simple_tag(events, i + 1, "sensitiveData");
                    match tr {
                        Ok(t) => {
                            sensitive_data = Some(t);
                            i = j;
                        },
                        Err(e) => {
                            return (Err(e), j);
                        },
                    }
                } else if str_eq(name.as_str(), "graphics") {
                    let (gr, j) = decode_graphics(events, i + 1);
                    match gr {
                        Ok(g) => {
                            graphics = Some(g);
                            i = j;
                        },
                        Err(e) => {
                            return (Err(e), j);
                        },
                    }
                } else if str_eq(name.as_str(), "description") {
                    let (tr, j) = read_simple_tag(events, i + 1, "description");
                    match tr {
                        Ok(t) => {
                            description = Some(t);
                            i = j;
                        },
                        Err(e) => {
                            return (Err(e), j);
                        },
                    }
                } else if str_eq(name.as_str(), "governance") {
                    let (gr, j) = decode_governance(events, i + 1);
                    match gr {
                        Ok(g) => {
                            governance = Some(g);
                            i = j;
                        },
                        Err(e) => {
                            return (Err(e), j);
                        },
                    }
                } else if str_eq(name.as_str(), "ref") {
                    let (tr, j) = read_simple_tag(events, i + 1, "ref");
                    match tr {
                        Ok(t) => {
                            reference = Some(t);
                            i = j;
                        },
                        Err(e) => {
                            return (Err(e), j);
                        },
                    }
                } else {
                    i = i + 1;
                }
            },
            Event::End { name } => {
                if str_eq(name.as_str(), "dataset") {
                    let has_object = data_type.is_some() || dname.is_some() || contents.is_some()
                        || classification.is_some() || sensitive_data.is_some()
                        || graphics.is_some() || description.is_some() || governance.is_some();
                    if has_object {
                        match data_type {
                            Some(dt) => {
                                return (
                                    (
                                        Ok(
                                            Dataset::Component(
                                                ComponentData {
                                                    bom_ref,
                                                    data_type: dt,
                                                    name: dname,
                                                    contents,
                                                    classification,
                                                    sensitive_data,
                                                    graphics,
                                                    description,
                                                    governance,
                                                },
                                            ),
                                        ),
                                        i + 1,
                                    )
                                );
                            },
                            None => {
                                return (
                                    (
                                        Err(
                                            DecodeError::RequiredDataMissing {
                                                required_field: "type".to_owned(),
                                                element: "dataset".to_owned(),
                                            },
                                        ),
                                        i + 1,
                                    )
                                );
                            },
                        }
                    } else {
                        match reference {
                            Some(t) => {
                                return (Ok(Dataset::Reference(t)), i + 1);
                            },
                            None => {
                                return (
                                    (
                                        Err(
                                            DecodeError::RequiredDataMissing {
                                                required_field: "type or ref".to_owned(),
                                                element: "dataset".to_owned(),
                                            },
                                        ),
                                        i + 1,
                                    )
                                );
                            },
                        }
                    }
                } else {
                    i = i + 1;
                }
            },
            Event::Text { text: _ } => {
                i = i + 1;
            },
        }
    }
}

// ---------------------------------------------------------------------
// Datasets
// ---------------------------------------------------------------------

pub open spec fn sdec_datasets_loop(s: Seq<EventV>, i: int, acc: Seq<DatasetV>) -> (Result<
    Seq<DatasetV>,
    DecodeErrorV,
>, int)
    decreases s.len() - i,
{
    if i < 0 || i >= s.len() {
        (Err(DecodeErrorV::UnexpectedEndOfStream), i)
    } else {
        match s[i] {
            EventV::Start { name, attrs } => {
                if name == "dataset"@ {
                    let (r, j) = sdec_dataset(s, i + 1, attrs);
                    match r {
                        Ok(d) => {
                            if i + 1 <= j <= s.len() {
                                sdec_datasets_loop(s, j, acc.push(d))
                            } else {
                                (Err(DecodeErrorV::UnexpectedEndOfStream), j)
                            }
                        },
                        Err(e) => (Err(e), j),
                    }
                } else {
                    (Err(DecodeErrorV::UnexpectedElement { expected: "datasets"@, found: name }), i)
                }
            },
            EventV::End { name } => {
                if name == "datasets"@ {
                    (Ok(acc), i + 1)
                } else {
                    (Err(DecodeErrorV::UnexpectedElement { expected: "datasets"@, found: name }), i)
                }
            },
            EventV::Text { text } => {
                (Err(DecodeErrorV::UnexpectedElement { expected: "datasets"@, found: text }), i)
            },
        }
    }
}

/// A `datasets` element whose opening tag was already consumed: zero or
/// more `dataset` children in order, and nothing else — the wrapper is
/// closed, so any other event is a hard error.  A wrapper with no
/// children is an empty sequence, distinct from the field being absent
/// from the parent.
pub open spec fn sdec_datasets(s: Seq<EventV>, i: int) -> (Result<Seq<DatasetV>, DecodeErrorV>, int) {
    sdec_datasets_loop(s, i, Seq::empty())
}

pub proof fn lemma_datasets_advance(s: Seq<EventV>, i: int, acc: Seq<DatasetV>)
    requires
        0 <= i <= s.len(),
    ensures
        ({
            let (r, j) = sdec_datasets_loop(s, i, acc);
            &&& i <= j <= s.len()
            &&& (r is Ok ==> j >= i + 1)
        }),
    decreases s.len() - i,
{
    if 0 <= i < s.len() {
        match s[i] {
            EventV::Start { name, attrs } => {
                if name == "dataset"@ {
                    lemma_dataset_advance(s, i + 1, dataset_init(attrs));
                    let (r, j) = sdec_dataset(s, i + 1, attrs);
                    if r is Ok && i + 1 <= j <= s.len() {
                        lemma_datasets_advance(s, j, acc.push(r->Ok_0));
                    }
                }
            },
            _ => {},
        }
    }
}

/// Decodes a `datasets` element whose opening tag was already consumed.
pub fn decode_datasets(events: &Vec<Event>, pos: usize) -> (r: (Result<Datasets, DecodeError>, usize))
    requires
        pos <= events@.len(),
    ensures
        agrees(r, sdec_datasets(events.deep_view(), pos as int)),
        pos <= r.1 <= events@.len(),
{
    let ghost s = events.deep_view();
    proof {
        assert(s.len() == events@.len());
    }
    let mut acc: Vec<Dataset> = Vec::new();
    proof {
        assert(acc.deep_view() =~= Seq::<DatasetV>::empty());
    }
    let mut i: usize = pos;
    loop
        invariant
            pos <= i <= events@.len(),
            s == events.deep_view(),
            s.len() == events@.len(),
            sdec_datasets_loop(s, pos as int, Seq::empty()) == sdec_datasets_loop(
                s,
                i as int,
                acc.deep_view(),
            ),
        decreases events@.len() - i,
    {
        if i >= events.len() {
            return (Err(DecodeError::UnexpectedEndOfStream), i);
        }
        proof {
            assert(s[i as int] == events@[i as int].deep_view());
        }
        match &events[i] {
            Event::Start { name, attrs: child_attrs } => {
                if str_eq(name.as_str(), "dataset") {
                    let (dr, j) = decode_dataset(events, i + 1, child_attrs);
                    match dr {
                        Ok(d) => {
                            let ghost old_acc = acc.deep_view();
                            let ghost dv = d.deep_view();
                            acc.push(d);
                            proof {
                                assert(acc.deep_view() =~= old_acc.push(dv));
                            }
                            i = j;
                        },
                        Err(e) => {
                            return (Err(e), j);
                        },
                    }
                } else {
                    return (
                        (
                            Err(
                                DecodeError::UnexpectedElement {
                                    expected: "datasets".to_owned(),
                                    found: name.clone(),
                                },
                            ),
                            i,
                        )
                    );
                }
            },
            Event::End { name } => {
                if str_eq(name.as_str(), "datasets") {
                    return (Ok(Datasets(acc)), i + 1);
                } else {
                    return (
                        (
                            Err(
                                DecodeError::UnexpectedElement {
                                    expected: "datasets".to_owned(),
                                    found: name.clone(),
                                },
                            ),
                            i,
                        )
                    );
                }
            },
            Event::Text { text } => {
                return (
                    (
                        Err(
                            DecodeError::UnexpectedElement {
                                expected: "datasets".to_owned(),
                                found: text.clone(),
                            },
                        ),
                        i,
                    )
                );
            },
        }
    }
}

// ---------------------------------------------------------------------
// Performance metrics
// ---------------------------------------------------------------------

pub open spec fn sdec_metrics_loop(s: Seq<EventV>, i: int, acc: Seq<PerformanceMetricV>) -> (Result<
    Seq<PerformanceMetricV>,
    DecodeErrorV,
>, int)
    decreases s.len() - i,
{
    if i < 0 || i >= s.len() {
        (Err(DecodeErrorV::UnexpectedEndOfStream), i)
    } else {
        match s[i] {
            EventV::Start { name, attrs } => {
                if name == "performanceMetric"@ {
                    let (r, j) = sdec_metric(s, i + 1);
                    match r {
                        Ok(m) => {
                            if i + 1 <= j <= s.len() {
                                sdec_metrics_loop(s, j, acc.push(m))
                            } else {
                                (Err(DecodeErrorV::UnexpectedEndOfStream), j)
                            }
                        },
                        Err(e) => (Err(e), j),
                    }
                } else {
                    sdec_metrics_loop(s, i + 1, acc)
                }
            },
            EventV::End { name } => {
                if name == "performanceMetrics"@ {
                    (Ok(acc), i + 1)
                } else {
                    sdec_metrics_loop(s, i + 1, acc)
                }
            },
            EventV::Text { text } => sdec_metrics_loop(s, i + 1, acc),
        }
    }
}

/// A `performanceMetrics` element whose opening tag was already consumed:
/// zero or more `performanceMetric` children in order; anything else is
/// skipped.
pub open spec fn sdec_metrics(s: Seq<EventV>, i: int) -> (Result<
    Seq<PerformanceMetricV>,
    DecodeErrorV,
>, int) {
    sdec_metrics_loop(s, i, Seq::empty())
}

pub proof fn lemma_metrics_advance(s: Seq<EventV>, i: int, acc: Seq<PerformanceMetricV>)
    requires
        0 <= i <= s.len(),
    ensures
        ({
            let (r, j) = sdec_metrics_loop(s, i, acc);
            &&& i <= j <= s.len()
            &&& (r is Ok ==> j >= i + 1)
        }),
    decreases s.len() - i,
{
    if 0 <= i < s.len() {
        match s[i] {
            EventV::Start { name, attrs } => {
                if name == "performanceMetric"@ {
                    lemma_metric_advance(s, i + 1, metric_init());
                    let (r, j) = sdec_metric(s, i + 1);
                    if r is Ok && i + 1 <= j <= s.len() {
                        lemma_metrics_advance(s, j, acc.push(r->Ok_0));
                    }
                } else {
                    lemma_metrics_advance(s, i + 1, acc);
                }
            },
            EventV::End { name } => {
                if name != "performanceMetrics"@ {
                    lemma_metrics_advance(s, i + 1, acc);
                }
            },
            EventV::Text { text } => {
                lemma_metrics_advance(s, i + 1, acc);
            },
        }
    }
}

/// Decodes a `performanceMetrics` element whose opening tag was already
/// consumed.
pub fn decode_metrics(events: &Vec<Event>, pos: usize) -> (r: (Result<
    PerformanceMetrics,
    DecodeError,
>, usize))
    requires
        pos <= events@.len(),
    ensures
        agrees(r, sdec_metrics(events.deep_view(), pos as int)),
        pos <= r.1 <= events@.len(),
{
    let ghost s = events.deep_view();
    proof {
        assert(s.len() == events@.len());
    }
    let mut acc: Vec<PerformanceMetric> = Vec::new();
    proof {
        assert(acc.deep_view() =~= Seq::<PerformanceMetricV>::empty());
    }
    let mut i: usize = pos;
    loop
        invariant
            pos <= i <= events@.len(),
            s == events.deep_view(),
            s.len() == events@.len(),
            sdec_metrics_loop(s, pos as int, Seq::empty()) == sdec_metrics_loop(
                s,
                i as int,
                acc.deep_view(),
            ),
        decreases events@.len() - i,
    {
        if i >= events.len() {
            return (Err(DecodeError::UnexpectedEndOfStream), i);
        }
        proof {
            assert(s[i as int] == events@[i as int].deep_view());
        }
        match &events[i] {
            Event::Start { name, attrs: _ } => {
                if str_eq(name.as_str(), "performanceMetric") {
                    let (mr, j) = decode_metric(events, i + 1);
                    match mr {
                        Ok(m) => {
                            let ghost old_acc = acc.deep_view();
                            let ghost mv = m.deep_view();
                            acc.push(m);
                            proof {
                                assert(acc.deep_view() =~= old_acc.push(mv));
                            }
                            i = j;
                        },
                        Err(e) => {
                            return (Err(e), j);
                        },
                    }
                } else {
                    i = i + 1;
                }
            },
            Event::End { name } => {
                if str_eq(name.as_str(), "performanceMetrics") {
                    return (Ok(PerformanceMetrics(acc)), i + 1);
                } else {
                    i = i + 1;
                }
            },
            Event::Text { text: _ } => {
                i = i + 1;
            },
        }
    }
}

// ---------------------------------------------------------------------
// Quantitative analysis
// ---------------------------------------------------------------------

pub open spec fn quantitative_init() -> QuantitativeAnalysisV {
    QuantitativeAnalysisV { performance_metrics: None, graphics: None }
}

pub open spec fn sdec_quantitative_loop(s: Seq<EventV>, i: int, st: QuantitativeAnalysisV) -> (
    Result<QuantitativeAnalysisV, DecodeErrorV>,
    int,
)
    decreases s.len() - i,
{
    if i < 0 || i >= s.len() {
        (Err(DecodeErrorV::UnexpectedEndOfStream), i)
    } else {
        match s[i] {
            EventV::Start { name, attrs } => {
                if name == "performanceMetrics"@ {
                    let (r, j) = sdec_metrics(s, i + 1);
                    match r {
                        Ok(ms) => {
                            if i + 1 <= j <= s.len() {
                                sdec_quantitative_loop(
                                    s,
                                    j,
                                    QuantitativeAnalysisV { performance_metrics: Some(ms), ..st },
                                )
                            } else {
                                (Err(DecodeErrorV::UnexpectedEndOfStream), j)
                            }
                        },
                        Err(e) => (Err(e), j),
                    }
                } else if name == "graphics"@ {
                    let (r, j) = sdec_graphics(s, i + 1);
                    match r {
                        Ok(g) => {
                            if i + 1 <= j <= s.len() {
                                sdec_quantitative_loop(
                                    s,
                                    j,
                                    QuantitativeAnalysisV { graphics: Some(g), ..st },
                                )
                            } else {
                                (Err(DecodeErrorV::UnexpectedEndOfStream), j)
                            }
                        },
                        Err(e) => (Err(e), j),
                    }
                } else {
                    sdec_quantitative_loop(s, i + 1, st)
                }
            },
            EventV::End { name } => {
                if name == "quantitativeAnalysis"@ {
                    (Ok(st), i + 1)
                } else {
                    sdec_quantitative_loop(s, i + 1, st)
                }
            },
            EventV::Text { text } => sdec_quantitative_loop(s, i + 1, st),
        }
    }
}

/// A `quantitativeAnalysis` element whose opening tag was already
/// consumed: optional `performanceMetrics` and `graphics` children.
pub open spec fn sdec_quantitative(s: Seq<EventV>, i: int) -> (Result<
    QuantitativeAnalysisV,
    DecodeErrorV,
>, int) {
    sdec_quantitative_loop(s, i, quantitative_init())
}

pub proof fn lemma_quantitative_advance(s: Seq<EventV>, i: int, st: QuantitativeAnalysisV)
    requires
        0 <= i <= s.len(),
    ensures
        ({
            let (r, j) = sdec_quantitative_loop(s, i, st);
            &&& i <= j <= s.len()
            &&& (r is Ok ==> j >= i + 1)
        }),
    decreases s.len() - i,
{
    if 0 <= i < s.len() {
        match s[i] {
            EventV::Start { name, attrs } => {
                if name == "performanceMetrics"@ {
                    lemma_metrics_advance(s, i + 1, Seq::empty());
                    let (r, j) = sdec_metrics(s, i + 1);
                    if r is Ok && i + 1 <= j <= s.len() {
                        lemma_quantitative_advance(
                            s,
                            j,
                            QuantitativeAnalysisV { performance_metrics: Some(r->Ok_0), ..st },
                        );
                    }
                } else if name == "graphics"@ {
                    lemma_graphics_advance(s, i + 1, graphics_init());
                    let (r, j) = sdec_graphics(s, i + 1);
                    if r is Ok && i + 1 <= j <= s.len() {
                        lemma_quantitative_advance(
                            s,
                            j,
                            QuantitativeAnalysisV { graphics: Some(r->Ok_0), ..st },
                        );
                    }
                } else {
                    lemma_quantitative_advance(s, i + 1, st);
                }
            },
            EventV::End { name } => {
                if name != "quantitativeAnalysis"@ {
                    lemma_quantitative_advance(s, i + 1, st);
                }
            },
            EventV::Text { text } => {
                lemma_quantitative_advance(s, i + 1, st);
            },
        }
    }
}

/// Decodes a `quantitativeAnalysis` element whose opening tag was already
/// consumed.
pub fn decode_quantitative(events: &Vec<Event>, pos: usize) -> (r: (Result<
    QuantitativeAnalysis,
    DecodeError,
>, usize))
    requires
        pos <= events@.len(),
    ensures
        agrees(r, sdec_quantitative(events.deep_view(), pos as int)),
        pos <= r.1 <= events@.len(),
{
    let ghost s = events.deep_view();
    proof {
        assert(s.len() == events@.len());
    }
    let mut performance_metrics: Option<PerformanceMetrics> = None;
    let mut graphics: Option<Graphics> = None;
    let mut i: usize = pos;
    loop
        invariant
            pos <= i <= events@.len(),
            s == events.deep_view(),
            s.len() == events@.len(),
            sdec_quantitative_loop(s, pos as int, quantitative_init()) == sdec_quantitative_loop(
                s,
                i as int,
                QuantitativeAnalysisV {
                    performance_metrics: performance_metrics.deep_view(),
                    graphics: graphics.deep_view(),
                },
            ),
        decreases events@.len() - i,
    {
        if i >= events.len() {
            return (Err(DecodeError::UnexpectedEndOfStream), i);
        }
        proof {
            assert(s[i as int] == events@[i as int].deep_view());
        }
        match &events[i] {
            Event::Start { name, attrs: _ } => {
                if str_eq(name.as_str(), "performanceMetrics") {
                    let (mr, j) = decode_metrics(events, i + 1);
                    match mr {
                        Ok(ms) => {
                            performance_metrics = Some(ms);
                            i = j;
                        },
                        Err(e) => {
                            return (Err(e), j);
                        },
                    }
                } else if str_eq(name.as_str(), "graphics") {
                    let (gr, j) = decode_graphics(events, i + 1);
                    match gr {
                        Ok(g) => {
                            graphics = Some(g);
                            i = j;
                        },
                        Err(e) => {
                            return (Err(e), j);
                        },
                    }
                } else {
                    i = i + 1;
                }
            },
            Event::End { name } => {
                if str_eq(name.as_str(), "quantitativeAnalysis") {
                    return (Ok(QuantitativeAnalysis { performance_metrics, graphics }), i + 1);
                } else {
                    i = i + 1;
                }
            },
            Event::Text { text: _ } => {
                i = i + 1;
            },
        }
    }
}

// ---------------------------------------------------------------------
// Inputs and outputs
// ---------------------------------------------------------------------

pub open spec fn sdec_parameter_list_loop(
    s: Seq<EventV>,
    i: int,
    wrapper: Seq<char>,
    item: Seq<char>,
    acc: Seq<MLParameterV>,
) -> (Result<Seq<MLParameterV>, DecodeErrorV>, int)
    decreases s.len() - i,
{
    if i < 0 || i >= s.len() {
        (Err(DecodeErrorV::UnexpectedEndOfStream), i)
    } else {
        match s[i] {
            EventV::Start { name, attrs } => {
                if name == item {
                    let (r, j) = sdec_ml_parameter(s, i + 1, item);
                    match r {
                        Ok(p) => {
                            if i + 1 <= j <= s.len() {
                                sdec_parameter_list_loop(s, j, wrapper, item, acc.push(p))
                            } else {
                                (Err(DecodeErrorV::UnexpectedEndOfStream), j)
                            }
                        },
                        Err(e) => (Err(e), j),
                    }
                } else {
                    sdec_parameter_list_loop(s, i + 1, wrapper, item, acc)
                }
            },
            EventV::End { name } => {
                if name == wrapper {
                    (Ok(acc), i + 1)
                } else {
                    sdec_parameter_list_loop(s, i + 1, wrapper, item, acc)
                }
            },
            EventV::Text { text } => sdec_parameter_list_loop(s, i + 1, wrapper, item, acc),
        }
    }
}

/// An `inputs` or `outputs` element whose opening tag was already
/// consumed: zero or more children named `item` in order; anything else
/// is skipped.
pub open spec fn sdec_parameter_list(s: Seq<EventV>, i: int, wrapper: Seq<char>, item: Seq<char>) -> (
    Result<Seq<MLParameterV>, DecodeErrorV>,
    int,
) {
    sdec_parameter_list_loop(s, i, wrapper, item, Seq::empty())
}

pub proof fn lemma_parameter_list_advance(
    s: Seq<EventV>,
    i: int,
    wrapper: Seq<char>,
    item: Seq<char>,
    acc: Seq<MLParameterV>,
)
    requires
        0 <= i <= s.len(),
    ensures
        ({
            let (r, j) = sdec_parameter_list_loop(s, i, wrapper, item, acc);
            &&& i <= j <= s.len()
            &&& (r is Ok ==> j >= i + 1)
        }),
    decreases s.len() - i,
{
    if 0 <= i < s.len() {
        match s[i] {
            EventV::Start { name, attrs } => {
                if name == item {
                    lemma_ml_parameter_advance(s, i + 1, item, ml_init());
                    let (r, j) = sdec_ml_parameter(s, i + 1, item);
                    if r is Ok && i + 1 <= j <= s.len() {
                        lemma_parameter_list_advance(s, j, wrapper, item, acc.push(r->Ok_0));
                    }
                } else {
                    lemma_parameter_list_advance(s, i + 1, wrapper, item, acc);
                }
            },
            EventV::End { name } => {
                if name != wrapper {
                    lemma_parameter_list_advance(s, i + 1, wrapper, item, acc);
                }
            },
            EventV::Text { text } => {
                lemma_parameter_list_advance(s, i + 1, wrapper, item, acc);
            },
        }
    }
}

/// Decodes an `inputs` or `outputs` element whose opening tag was already
/// consumed; `wrapper` is the name of that tag and `item` the name its
/// children carry.
pub fn decode_parameter_list(events: &Vec<Event>, pos: usize, wrapper: &str, item: &str) -> (r: (
    Result<Vec<MLParameter>, DecodeError>,
    usize,
))
    requires
        pos <= events@.len(),
    ensures
        agrees(r, sdec_parameter_list(events.deep_view(), pos as int, wrapper@, item@)),
        pos <= r.1 <= events@.len(),
{
    let ghost s = events.deep_view();
    proof {
        assert(s.len() == events@.len());
    }
    let mut acc: Vec<MLParameter> = Vec::new();
    proof {
        assert(acc.deep_view() =~= Seq::<MLParameterV>::empty());
    }
    let mut i: usize = pos;
    loop
        invariant
            pos <= i <= events@.len(),
            s == events.deep_view(),
            s.len() == events@.len(),
            sdec_parameter_list_loop(s, pos as int, wrapper@, item@, Seq::empty())
                == sdec_parameter_list_loop(s, i as int, wrapper@, item@, acc.deep_view()),
        decreases events@.len() - i,
    {
        if i >= events.len() {
            return (Err(DecodeError::UnexpectedEndOfStream), i);
        }
        proof {
            assert(s[i as int] == events@[i as int].deep_view());
        }
        match &events[i] {
            Event::Start { name, attrs: _ } => {
                if str_eq(name.as_str(), item) {
                    let (pr, j) = decode_ml_parameter(events, i + 1, item);
                    match pr {
                        Ok(p) => {
                            let ghost old_acc = acc.deep_view();
                            let ghost pv = p.deep_view();
                            acc.push(p);
                            proof {
                                assert(acc.deep_view() =~= old_acc.push(pv));
                            }
                            i = j;
                        },
                        Err(e) => {
                            return (Err(e), j);
                        },
                    }
                } else {
                    i = i + 1;
                }
            },
            Event::End { name } => {
                if str_eq(name.as_str(), wrapper) {
                    return (Ok(acc), i + 1);
                } else {
                    i = i + 1;
                }
            },
            Event::Text { text: _ } => {
                i = i + 1;
            },
        }
    }
}

// ---------------------------------------------------------------------
// Model parameters
// ---------------------------------------------------------------------

pub open spec fn model_parameters_init() -> ModelParametersV {
    ModelParametersV {
        approach: None,
        task: None,
        architecture_family: None,
        model_architecture: None,
        datasets: None,
        inputs: None,
        outputs: None,
    }
}

pub open spec fn sdec_model_parameters_loop(s: Seq<EventV>, i: int, st: ModelParametersV) -> (
    Result<ModelParametersV, DecodeErrorV>,
    int,
)
    decreases s.len() - i,
{
    if i < 0 || i >= s.len() {
        (Err(DecodeErrorV::UnexpectedEndOfStream), i)
    } else {
        match s[i] {
            EventV::Start { name, attrs } => {
                if name == "approach"@ {
                    let (r, j) = sdec_approach(s, i + 1);
                    match r {
                        Ok(a) => {
                            if i + 1 <= j <= s.len() {
                                sdec_model_parameters_loop(
                                    s,
                                    j,
                                    ModelParametersV { approach: Some(a), ..st },
                                )
                            } else {
                                (Err(DecodeErrorV::UnexpectedEndOfStream), j)
                            }
                        },
                        Err(e) => (Err(e), j),
                    }
                } else if name == "task"@ {
                    let (r, j) = sdec_text(s, i + 1, name);
                    match r {
                        Ok(t) => {
                            if i + 1 <= j <= s.len() {
                                sdec_model_parameters_loop(s, j, ModelParametersV { task: Some(t), ..st })
                            } else {
                                (Err(DecodeErrorV::UnexpectedEndOfStream), j)
                            }
                        },
                        Err(e) => (Err(e), j),
                    }
                } else if name == "architectureFamily"@ {
                    let (r, j) = sdec_text(s, i + 1, name);
                    match r {
                        Ok(t) => {
                            if i + 1 <= j <= s.len() {
                                sdec_model_parameters_loop(
                                    s,
                                    j,
                                    ModelParametersV { architecture_family: Some(t), ..st },
                                )
                            } else {
                                (Err(DecodeErrorV::UnexpectedEndOfStream), j)
                            }
                        },
                        Err(e) => (Err(e), j),
                    }
                } else if name == "modelArchitecture"@ {
                    let (r, j) = sdec_text(s, i + 1, name);
                    match r {
                        Ok(t) => {
                            if i + 1 <= j <= s.len() {
                                sdec_model_parameters_loop(
                                    s,
                                    j,
                                    ModelParametersV { model_architecture: Some(t), ..st },
                                )
                            } else {
                                (Err(DecodeErrorV::UnexpectedEndOfStream), j)
                            }
                        },
                        Err(e) => (Err(e), j),
                    }
                } else if name == "datasets"@ {
                    let (r, j) = sdec_datasets(s, i + 1);
                    match r {
                        Ok(ds) => {
                            if i + 1 <= j <= s.len() {
                                sdec_model_parameters_loop(
                                    s,
                                    j,
                                    ModelParametersV { datasets: Some(ds), ..st },
                                )
                            } else {
                                (Err(DecodeErrorV::UnexpectedEndOfStream), j)
                            }
                        },
                        Err(e) => (Err(e), j),
                    }
                } else if name == "inputs"@ {
                    let (r, j) = sdec_parameter_list(s, i + 1, name, "input"@);
                    match r {
                        Ok(ps) => {
                            if i + 1 <= j <= s.len() {
                                sdec_model_parameters_loop(
                                    s,
                                    j,
                                    ModelParametersV { inputs: Some(ps), ..st },
                                )
                            } else {
                                (Err(DecodeErrorV::UnexpectedEndOfStream), j)
                            }
                        },
                        Err(e) => (Err(e), j),
                    }
                } else if name == "outputs"@ {
                    let (r, j) = sdec_parameter_list(s, i + 1, name, "output"@);
                    match r {
                        Ok(ps) => {
                            if i + 1 <= j <= s.len() {
                                sdec_model_parameters_loop(
                                    s,
                                    j,
                                    ModelParametersV { outputs: Some(ps), ..st },
                                )
                            } else {
                                (Err(DecodeErrorV::UnexpectedEndOfStream), j)
                            }
                        },
                        Err(e) => (Err(e), j),
                    }
                } else {
                    sdec_model_parameters_loop(s, i + 1, st)
                }
            },
            EventV::End { name } => {
                if name == "modelParameters"@ {
                    (Ok(st), i + 1)
                } else {
                    sdec_model_parameters_loop(s, i + 1, st)
                }
            },
            EventV::Text { text } => sdec_model_parameters_loop(s, i + 1, st),
        }
    }
}

/// A `modelParameters` element whose opening tag was already consumed.
pub open spec fn sdec_model_parameters(s: Seq<EventV>, i: int) -> (Result<
    ModelParametersV,
    DecodeErrorV,
>, int) {
    sdec_model_parameters_loop(s, i, model_parameters_init())
}

#[verifier::rlimit(100)]
#[verifier::spinoff_prover]
pub proof fn lemma_model_parameters_advance(s: Seq<EventV>, i: int, st: ModelParametersV)
    requires
        0 <= i <= s.len(),
    ensures
        ({
            let (r, j) = sdec_model_parameters_loop(s, i, st);
            &&& i <= j <= s.len()
            &&& (r is Ok ==> j >= i + 1)
        }),
    decreases s.len() - i,
{
    if 0 <= i < s.len() {
        match s[i] {
            EventV::Start { name, attrs } => {
                if name == "approach"@ {
                    lemma_approach_advance(s, i + 1, approach_init());
                    let (r, j) = sdec_approach(s, i + 1);
                    if r is Ok && i + 1 <= j <= s.len() {
                        lemma_model_parameters_advance(
                            s,
                            j,
                            ModelParametersV { approach: Some(r->Ok_0), ..st },
                        );
                    }
                } else if name == "task"@ {
                    lemma_text_advance(s, i + 1, name, Seq::empty());
                    let (r, j) = sdec_text(s, i + 1, name);
                    if r is Ok && i + 1 <= j <= s.len() {
                        lemma_model_parameters_advance(s, j, ModelParametersV { task: Some(r->Ok_0), ..st });
                    }
                } else if name == "architectureFamily"@ {
                    lemma_text_advance(s, i + 1, name, Seq::empty());
                    let (r, j) = sdec_text(s, i + 1, name);
                    if r is Ok && i + 1 <= j <= s.len() {
                        lemma_model_parameters_advance(
                            s,
                            j,
                            ModelParametersV { architecture_family: Some(r->Ok_0), ..st },
                        );
                    }
                } else if name == "modelArchitecture"@ {
                    lemma_text_advance(s, i + 1, name, Seq::empty());
                    let (r, j) = sdec_text(s, i + 1, name);
                    if r is Ok && i + 1 <= j <= s.len() {
                        lemma_model_parameters_advance(
                            s,
                            j,
                            ModelParametersV { model_architecture: Some(r->Ok_0), ..st },
                        );
                    }
                } else if name == "datasets"@ {
                    lemma_datasets_advance(s, i + 1, Seq::empty());
                    let (r, j) = sdec_datasets(s, i + 1);
                    if r is Ok && i + 1 <= j <= s.len() {
                        lemma_model_parameters_advance(
                            s,
                            j,
                            ModelParametersV { datasets: Some(r->Ok_0), ..st },
                        );
                    }
                } else if name == "inputs"@ {
                    lemma_parameter_list_advance(s, i + 1, name, "input"@, Seq::empty());
                    let (r, j) = sdec_parameter_list(s, i + 1, name, "input"@);
                    if r is Ok && i + 1 <= j <= s.len() {
                        lemma_model_parameters_advance(
                            s,
                            j,
                            ModelParametersV { inputs: Some(r->Ok_0), ..st },
                        );
                    }
                } else if name == "outputs"@ {
                    lemma_parameter_list_advance(s, i + 1, name, "output"@, Seq::empty());
                    let (r, j) = sdec_parameter_list(s, i + 1, name, "output"@);
                    if r is Ok && i + 1 <= j <= s.len() {
                        lemma_model_parameters_advance(
                            s,
                            j,
                            ModelParametersV { outputs: Some(r->Ok_0), ..st },
                        );
                    }
                } else {
                    lemma_model_parameters_advance(s, i + 1, st);
                }
            },
            EventV::End { name } => {
                if name != "modelParameters"@ {
                    lemma_model_parameters_advance(s, i + 1, st);
                }
            },
            EventV::Text { text } => {
                lemma_model_parameters_advance(s, i + 1, st);
            },
        }
    }
}

/// Decodes a `modelParameters` element whose opening tag was already
/// consumed.
pub fn decode_model_parameters(events: &Vec<Event>, pos: usize) -> (r: (Result<
    ModelParameters,
    DecodeError,
>, usize))
    requires
        pos <= events@.len(),
    ensures
        agrees(r, sdec_model_parameters(events.deep_view(), pos as int)),
        pos <= r.1 <= events@.len(),
{
    let ghost s = events.deep_view();
    proof {
        assert(s.len() == events@.len());
    }
    let mut approach: Option<ModelParametersApproach> = None;
    let mut task: Option<String> = None;
    let mut architecture_family: Option<String> = None;
    let mut model_architecture: Option<String> = None;
    let mut datasets: Option<Datasets> = None;
    let mut inputs: Option<Inputs> = None;
    let mut outputs: Option<Outputs> = None;
    let mut i: usize = pos;
    loop
        invariant
            pos <= i <= events@.len(),
            s == events.deep_view(),
            s.len() == events@.len(),
            sdec_model_parameters_loop(s, pos as int, model_parameters_init())
                == sdec_model_parameters_loop(
                s,
                i as int,
                ModelParametersV {
                    approach: approach.deep_view(),
                    task: task.deep_view(),
                    architecture_family: architecture_family.deep_view(),
                    model_architecture: model_architecture.deep_view(),
                    datasets: datasets.deep_view(),
                    inputs: inputs.deep_view(),
                    outputs: outputs.deep_view(),
                },
            ),
        decreases events@.len() - i,
    {
        if i >= events.len() {
            return (Err(DecodeError::UnexpectedEndOfStream), i);
        }
        proof {
            assert(s[i as int] == events@[i as int].deep_view());
        }
        match &events[i] {
            Event::Start { name, attrs: _ } => {
                if str_eq(name.as_str(), "approach") {
                    let (ar, j) = decode_approach(events, i + 1);
                    match ar {
                        Ok(a) => {
                            approach = Some(a);
                            i = j;
                        },
                        Err(e) => {
                            return (Err(e), j);
                        },
                    }
                } else if str_eq(name.as_str(), "task") {
                    let (tr, j) = read_simple_tag(events, i + 1, "task");
                    match tr {
                        Ok(t) => {
                            task = Some(t);
                            i = j;
                        },
                        Err(e) => {
                            return (Err(e), j);
                        },
                    }
                } else if str_eq(name.as_str(), "architectureFamily") {
                    let (tr, j) = read_simple_tag(events, i + 1, "architectureFamily");
                    match tr {
                        Ok(t) => {
                            architecture_family = Some(t);
                            i = j;
                        },
                        Err(e) => {
                            return (Err(e), j);
                        },
                    }
                } else if str_eq(name.as_str(), "modelArchitecture") {
                    let (tr, j) = read_simple_tag(events, i + 1, "modelArchitecture");
                    match tr {
                        Ok(t) => {
                            model_architecture = Some(t);
                            i = j;
                        },
                        Err(e) => {
                            return (Err(e), j);
                        },
                    }
                } else if str_eq(name.as_str(), "datasets") {
                    let (dr, j) = decode_datasets(events, i + 1);
                    match dr {
                        Ok(ds) => {
                            datasets = Some(ds);
                            i = j;
                        },
                        Err(e) => {
                            return (Err(e), j);
                        },
                    }
                } else if str_eq(name.as_str(), "inputs") {
                    let (pr, j) = decode_parameter_list(events, i + 1, "inputs", "input");
                    match pr {
                        Ok(ps) => {
                            inputs = Some(Inputs(ps));
                            i = j;
                        },
                        Err(e) => {
                            return (Err(e), j);
                        },
                    }
                } else if str_eq(name.as_str(), "outputs") {
                    let (pr, j) = decode_parameter_list(events, i + 1, "outputs", "output");
                    match pr {
                        Ok(ps) => {
                            outputs = Some(Outputs(ps));
                            i = j;
                        },
                        Err(e) => {
                            return (Err(e), j);
                        },
                    }
                } else {
                    i = i + 1;
                }
            },
            Event::End { name } => {
                if str_eq(name.as_str(), "modelParameters") {
                    return (
                        (
                            Ok(
                                ModelParameters {
                                    approach,
                                    task,
                                    architecture_family,
                                    model_architecture,
                                    datasets,
                                    inputs,
                                    outputs,
                                },
                            ),
                            i + 1,
                        )
                    );
                } else {
                    i = i + 1;
                }
            },
            Event::Text { text: _ } => {
                i = i + 1;
            },
        }
    }
}

// ---------------------------------------------------------------------
// Model card
// ---------------------------------------------------------------------

pub open spec fn model_card_init(attrs: Seq<AttrV>) -> ModelCardV {
    ModelCardV {
        bom_ref: crate::events::spec_find_attr(attrs, "bom-ref"@),
        model_parameters: None,
        quantitative_analysis: None,
        considerations: None,
        properties: None,
    }
}

pub open spec fn sdec_model_card_loop(s: Seq<EventV>, i: int, st: ModelCardV) -> (Result<
    ModelCardV,
    DecodeErrorV,
>, int)
    decreases s.len() - i,
{
    if i < 0 || i >= s.len() {
        (Err(DecodeErrorV::UnexpectedEndOfStream), i)
    } else {
        match s[i] {
            EventV::Start { name, attrs } => {
                if name == "modelParameters"@ {
                    let (r, j) = sdec_model_parameters(s, i + 1);
                    match r {
                        Ok(mp) => {
                            if i + 1 <= j <= s.len() {
                                sdec_model_card_loop(
                                    s,
                                    j,
                                    ModelCardV { model_parameters: Some(mp), ..st },
                                )
                            } else {
                                (Err(DecodeErrorV::UnexpectedEndOfStream), j)
                            }
                        },
                        Err(e) => (Err(e), j),
                    }
                } else if name == "quantitativeAnalysis"@ {
                    let (r, j) = sdec_quantitative(s, i + 1);
                    match r {
                        Ok(q) => {
                            if i + 1 <= j <= s.len() {
                                sdec_model_card_loop(
                                    s,
                                    j,
                                    ModelCardV { quantitative_analysis: Some(q), ..st },
                                )
                            } else {
                                (Err(DecodeErrorV::UnexpectedEndOfStream), j)
                            }
                        },
                        Err(e) => (Err(e), j),
                    }
                } else if name == "considerations"@ {
                    let (r, j) = sdec_considerations(s, i + 1);
                    match r {
                        Ok(c) => {
                            if i + 1 <= j <= s.len() {
                                sdec_model_card_loop(s, j, ModelCardV { considerations: Some(c), ..st })
                            } else {
                                (Err(DecodeErrorV::UnexpectedEndOfStream), j)
                            }
                        },
                        Err(e) => (Err(e), j),
                    }
                } else if name == "properties"@ {
                    let (r, j) = sdec_properties(s, i + 1);
                    match r {
                        Ok(ps) => {
                            if i + 1 <= j <= s.len() {
                                sdec_model_card_loop(s, j, ModelCardV { properties: Some(ps), ..st })
                            } else {
                                (Err(DecodeErrorV::UnexpectedEndOfStream), j)
                            }
                        },
                        Err(e) => (Err(e), j),
                    }
                } else {
                    sdec_model_card_loop(s, i + 1, st)
                }
            },
            EventV::End { name } => {
                if name == "modelCard"@ {
                    (Ok(st), i + 1)
                } else {
                    sdec_model_card_loop(s, i + 1, st)
                }
            },
            EventV::Text { text } => sdec_model_card_loop(s, i + 1, st),
        }
    }
}

/// A `modelCard` element whose opening tag was already consumed: an
/// optional `bom-ref` attribute plus optional `modelParameters`,
/// `quantitativeAnalysis`, `considerations` and `properties` children.
pub open spec fn sdec_model_card(s: Seq<EventV>, i: int, attrs: Seq<AttrV>) -> (Result<
    ModelCardV,
    DecodeErrorV,
>, int) {
    sdec_model_card_loop(s, i, model_card_init(attrs))
}

pub proof fn lemma_model_card_advance(s: Seq<EventV>, i: int, st: ModelCardV)
    requires
        0 <= i <= s.len(),
    ensures
        ({
            let (r, j) = sdec_model_card_loop(s, i, st);
            &&& i <= j <= s.len()
            &&& (r is Ok ==> j >= i + 1)
        }),
    decreases s.len() - i,
{
    if 0 <= i < s.len() {
        match s[i] {
            EventV::Start { name, attrs } => {
                if name == "modelParameters"@ {
                    lemma_model_parameters_advance(s, i + 1, model_parameters_init());
                    let (r, j) = sdec_model_parameters(s, i + 1);
                    if r is Ok && i + 1 <= j <= s.len() {
                        lemma_model_card_advance(
                            s,
                            j,
                            ModelCardV { model_parameters: Some(r->Ok_0), ..st },
                        );
                    }
                } else if name == "quantitativeAnalysis"@ {
                    lemma_quantitative_advance(s, i + 1, quantitative_init());
                    let (r, j) = sdec_quantitative(s, i + 1);
                    if r is Ok && i + 1 <= j <= s.len() {
                        lemma_model_card_advance(
                            s,
                            j,
                            ModelCardV { quantitative_analysis: Some(r->Ok_0), ..st },
                        );
                    }
                } else if name == "considerations"@ {
                    lemma_considerations_advance(s, i + 1);
                    let (r, j) = sdec_considerations(s, i + 1);
                    if r is Ok && i + 1 <= j <= s.len() {
                        lemma_model_card_advance(s, j, ModelCardV { considerations: Some(r->Ok_0), ..st });
                    }
                } else if name == "properties"@ {
                    lemma_properties_advance(s, i + 1, Seq::empty());
                    let (r, j) = sdec_properties(s, i + 1);
                    if r is Ok && i + 1 <= j <= s.len() {
                        lemma_model_card_advance(s, j, ModelCardV { properties: Some(r->Ok_0), ..st });
                    }
                } else {
                    lemma_model_card_advance(s, i + 1, st);
                }
            },
            EventV::End { name } => {
                if name != "modelCard"@ {
                    lemma_model_card_advance(s, i + 1, st);
                }
            },
            EventV::Text { text } => {
                lemma_model_card_advance(s, i + 1, st);
            },
        }
    }
}

/// Decodes a `modelCard` element whose opening tag was already consumed.
pub fn decode_model_card(events: &Vec<Event>, pos: usize, attrs: &Vec<Attr>) -> (r: (Result<
    ModelCard,
    DecodeError,
>, usize))
    requires
        pos <= events@.len(),
    ensures
        agrees(r, sdec_model_card(events.deep_view(), pos as int, attrs.deep_view())),
        pos <= r.1 <= events@.len(),
{
    let ghost s = events.deep_view();
    proof {
        assert(s.len() == events@.len());
    }
    let bom_ref = crate::events::find_attr(attrs, "bom-ref");
    let mut model_parameters: Option<ModelParameters> = None;
    let mut quantitative_analysis: Option<QuantitativeAnalysis> = None;
    let mut considerations: Option<Considerations> = None;
    let mut properties: Option<Properties> = None;
    let mut i: usize = pos;
    loop
        invariant
            pos <= i <= events@.len(),
            s == events.deep_view(),
            s.len() == events@.len(),
            bom_ref.deep_view() == crate::events::spec_find_attr(attrs.deep_view(), "bom-ref"@),
            sdec_model_card_loop(s, pos as int, model_card_init(attrs.deep_view()))
                == sdec_model_card_loop(
                s,
                i as int,
                ModelCardV {
                    bom_ref: bom_ref.deep_view(),
                    model_parameters: model_parameters.deep_view(),
                    quantitative_analysis: quantitative_analysis.deep_view(),
                    considerations: considerations.deep_view(),
                    properties: properties.deep_view(),
                },
            ),
        decreases events@.len() - i,
    {
        if i >= events.len() {
            return (Err(DecodeError::UnexpectedEndOfStream), i);
        }
        proof {
            assert(s[i as int] == events@[i as int].deep_view());
        }
        match &events[i] {
            Event::Start { name, attrs: _ } => {
                if str_eq(name.as_str(), "modelParameters") {
                    let (mr, j) = decode_model_parameters(events, i + 1);
                    match mr {
                        Ok(mp) => {
                            model_parameters = Some(mp);
                            i = j;
                        },
                        Err(e) => {
                            return (Err(e), j);
                        },
                    }
                } else if str_eq(name.as_str(), "quantitativeAnalysis") {
                    let (qr, j) = decode_quantitative(events, i + 1);
                    match qr {
                        Ok(q) => {
                            quantitative_analysis = Some(q);
                            i = j;
                        },
                        Err(e) => {
                            return (Err(e), j);
                        },
                    }
                } else if str_eq(name.as_str(), "considerations") {
                    let (cr, j) = decode_considerations(events, i + 1);
                    match cr {
                        Ok(c) => {
                            considerations = Some(c);
                            i = j;
                        },
                        Err(e) => {
                            return (Err(e), j);
                        },
                    }
                } else if str_eq(name.as_str(), "properties") {
                    let (pr, j) = decode_properties(events, i + 1);
                    match pr {
                        Ok(ps) => {
                            properties = Some(ps);
                            i = j;
                        },
                        Err(e) => {
                            return (Err(e), j);
                        },
                    }
                } else {
                    i = i + 1;
                }
            },
            Event::End { name } => {
                if str_eq(name.as_str(), "modelCard") {
                    return (
                        (
                            Ok(
                                ModelCard {
                                    bom_ref,
                                    model_parameters,
                                    quantitative_analysis,
                                    considerations,
                                    properties,
                                },
                            ),
                            i + 1,
                        )
                    );
                } else {
                    i = i + 1;
                }
            },
            Event::Text { text: _ } => {
                i = i + 1;
            },
        }
    }
}

} // verus!
