//! Per-entity encoders: the pre-order tree walk from an entity to the
//! event stream.
//!
//! Each entity writes its opening tag (with its attributes, if it carries
//! any), then each present field in the schema's canonical order, then its
//! close tag; nothing at all is written for an absent optional field.  The
//! events every entity produces are pinned down exactly by the
//! specification-level `senc_*` functions.

use vstd::prelude::*;

use crate::events::{Attr, AttrV, Event, EventV};
use crate::model::{
    Attachment, AttachmentV, Collection, ComponentDataV, ConfidenceInterval,
    ConfidenceIntervalV, Considerations, ConsiderationsV, DataContents, DataContentsV,
    DataGovernance, DataGovernanceResponsibleParty, DataGovernanceResponsiblePartyV,
    DataGovernanceV, Dataset, DatasetV, Datasets, Graphic, GraphicV, Graphics, GraphicsV,
    MLParameter, MLParameterV, ModelCard, ModelCardV, ModelParameters, ModelParametersApproach,
    ModelParametersApproachV, ModelParametersV, OrganizationalContact, OrganizationalContactV,
    OrganizationalEntity, OrganizationalEntityV, PerformanceMetric, PerformanceMetricV,
    PerformanceMetrics, Properties, Property, PropertyV, QuantitativeAnalysis,
    QuantitativeAnalysisV,
};

verus! {

// ---------------------------------------------------------------------
// Specification-level building blocks
// ---------------------------------------------------------------------

/// A text-only element: open tag, character data, close tag.
pub open spec fn senc_text(tag: Seq<char>, t: Seq<char>) -> Seq<EventV> {
    seq![
        EventV::Start { name: tag, attrs: Seq::empty() },
        EventV::Text { text: t },
        EventV::End { name: tag },
    ]
}

/// An optional text-only element: nothing at all when the field is absent.
pub open spec fn senc_opt_text(tag: Seq<char>, v: Option<Seq<char>>) -> Seq<EventV> {
    match v {
        Some(t) => senc_text(tag, t),
        None => Seq::empty(),
    }
}

/// An optional attribute: nothing at all when the field is absent.
pub open spec fn opt_attr(name: Seq<char>, v: Option<Seq<char>>) -> Seq<AttrV> {
    match v {
        Some(x) => seq![AttrV { name: name, value: x }],
        None => Seq::empty(),
    }
}

// ---------------------------------------------------------------------
// Executable building blocks
// ---------------------------------------------------------------------

fn push_start(out: &mut Vec<Event>, tag: &str)
    ensures
        final(out).deep_view() == old(out).deep_view() + seq![
            EventV::Start { name: tag@, attrs: Seq::empty() },
        ],
{
    let ghost pre = out.deep_view();
    out.push(Event::Start { name: tag.to_owned(), attrs: Vec::new() });
    proof {
        assert(out.deep_view() =~~= pre + seq![
            EventV::Start { name: tag@, attrs: Seq::empty() },
        ]);
    }
}

fn push_start_attrs(out: &mut Vec<Event>, tag: &str, attrs: Vec<Attr>)
    ensures
        final(out).deep_view() == old(out).deep_view() + seq![
            EventV::Start { name: tag@, attrs: attrs.deep_view() },
        ],
{
    let ghost pre = out.deep_view();
    let ghost av = attrs.deep_view();
    out.push(Event::Start { name: tag.to_owned(), attrs });
    proof {
        assert(out.deep_view() =~~= pre + seq![EventV::Start { name: tag@, attrs: av }]);
    }
}

fn push_end(out: &mut Vec<Event>, tag: &str)
    ensures
        final(out).deep_view() == old(out).deep_view() + seq![EventV::End { name: tag@ }],
{
    let ghost pre = out.deep_view();
    out.push(Event::End { name: tag.to_owned() });
    proof {
        assert(out.deep_view() =~~= pre + seq![EventV::End { name: tag@ }]);
    }
}

fn push_text(out: &mut Vec<Event>, t: &String)
    ensures
        final(out).deep_view() == old(out).deep_view() + seq![EventV::Text { text: t@ }],
{
    let ghost pre = out.deep_view();
    out.push(Event::Text { text: t.clone() });
    proof {
        assert(out.deep_view() =~~= pre + seq![EventV::Text { text: t@ }]);
    }
}

/// Writes a text-only element: open tag, character data, close tag.
fn emit_text_tag(out: &mut Vec<Event>, tag: &str, t: &String)
    ensures
        final(out).deep_view() == old(out).deep_view() + senc_text(tag@, t@),
{
    push_start(out, tag);
    push_text(out, t);
    push_end(out, tag);
    proof {
        assert(out.deep_view() =~~= old(out).deep_view() + senc_text(tag@, t@));
    }
}

/// Writes a text-only element if the field is present, nothing otherwise.
fn emit_opt_text(out: &mut Vec<Event>, tag: &str, v: &Option<String>)
    ensures
        final(out).deep_view() == old(out).deep_view() + senc_opt_text(tag@, v.deep_view()),
{
    match v {
        Some(t) => {
            emit_text_tag(out, tag, t);
        },
        None => {
            proof {
                assert(out.deep_view() =~~= old(out).deep_view() + senc_opt_text(
                    tag@,
                    v.deep_view(),
                ));
            }
        },
    }
}

/// Builds an attribute list holding `bom-ref` when the field is present.
fn bom_ref_attrs(v: &Option<String>) -> (r: Vec<Attr>)
    ensures
        r.deep_view() == opt_attr("bom-ref"@, v.deep_view()),
{
    let mut a: Vec<Attr> = Vec::new();
    match v {
        Some(x) => {
            a.push(Attr { name: "bom-ref".to_owned(), value: x.clone() });
        },
        None => {},
    }
    proof {
        assert(a.deep_view() =~~= opt_attr("bom-ref"@, v.deep_view()));
    }
    a
}

// ---------------------------------------------------------------------
// Attachment
// ---------------------------------------------------------------------

/// The opening-tag attributes of an attachment, in canonical order.
pub open spec fn attachment_attrs(a: AttachmentV) -> Seq<AttrV> {
    opt_attr("content-type"@, a.content_type) + opt_attr("encoding"@, a.encoding)
}

/// An attachment element: both metadata attributes sit on the opening tag,
/// the content is the text body.
pub open spec fn senc_attachment(tag: Seq<char>, a: AttachmentV) -> Seq<EventV> {
    seq![EventV::Start { name: tag, attrs: attachment_attrs(a) }, EventV::Text { text: a.content }]
        + seq![EventV::End { name: tag }]
}

/// Writes an attachment under the given element name.
pub fn emit_attachment(out: &mut Vec<Event>, tag: &str, a: &Attachment)
    ensures
        final(out).deep_view() == old(out).deep_view() + senc_attachment(tag@, a.deep_view()),
{
    let mut attrs: Vec<Attr> = Vec::new();
    match &a.content_type {
        Some(ct) => {
            attrs.push(Attr { name: "content-type".to_owned(), value: ct.clone() });
        },
        None => {},
    }
    match &a.encoding {
        Some(e) => {
            attrs.push(Attr { name: "encoding".to_owned(), value: e.clone() });
        },
        None => {},
    }
    proof {
        assert(attrs.deep_view() =~~= attachment_attrs(a.deep_view()));
    }
    push_start_attrs(out, tag, attrs);
    push_text(out, &a.content);
    push_end(out, tag);
    proof {
        assert(out.deep_view() =~~= old(out).deep_view() + senc_attachment(tag@, a.deep_view()));
    }
}

// ---------------------------------------------------------------------
// Property and properties
// ---------------------------------------------------------------------

/// A `property` element: the name as an attribute, the value as text.
pub open spec fn senc_property(p: PropertyV) -> Seq<EventV> {
    seq![
        EventV::Start { name: "property"@, attrs: seq![AttrV { name: "name"@, value: p.name }] },
        EventV::Text { text: p.value },
    ] + seq![EventV::End { name: "property"@ }]
}

pub open spec fn senc_property_items(items: Seq<PropertyV>) -> Seq<EventV>
    decreases items.len(),
{
    if items.len() == 0 {
        Seq::empty()
    } else {
        senc_property(items[0]) + senc_property_items(items.drop_first())
    }
}

/// A `properties` element and its `property` children in order.
pub open spec fn senc_properties(items: Seq<PropertyV>) -> Seq<EventV> {
    seq![EventV::Start { name: "properties"@, attrs: Seq::empty() }] + senc_property_items(items)
        + seq![EventV::End { name: "properties"@ }]
}

pub proof fn lemma_senc_property_items_snoc(items: Seq<PropertyV>, x: PropertyV)
    ensures
        senc_property_items(items.push(x)) == senc_property_items(items) + senc_property(x),
    decreases items.len(),
{
    let p = items.push(x);
    if items.len() == 0 {
        assert(p[0] == x);
        assert(p.drop_first() =~= Seq::<PropertyV>::empty());
        assert(senc_property_items(p.drop_first()) =~= Seq::<EventV>::empty());
        assert(senc_property_items(p) =~= senc_property(x) + Seq::<EventV>::empty());
        assert(senc_property_items(p) =~= senc_property_items(items) + senc_property(x));
    } else {
        assert(p[0] == items[0]);
        assert(p.drop_first() =~= items.drop_first().push(x));
        lemma_senc_property_items_snoc(items.drop_first(), x);
        assert(senc_property_items(p) == senc_property(items[0]) + senc_property_items(
            p.drop_first(),
        ));
        assert(senc_property_items(items) == senc_property(items[0]) + senc_property_items(
            items.drop_first(),
        ));
        assert(senc_property_items(p) =~= senc_property_items(items) + senc_property(x));
    }
}

/// Writes one `property` element.
pub fn emit_property(out: &mut Vec<Event>, p: &Property)
    ensures
        final(out).deep_view() == old(out).deep_view() + senc_property(p.deep_view()),
{
    let mut attrs: Vec<Attr> = Vec::new();
    attrs.push(Attr { name: "name".to_owned(), value: p.name.clone() });
    proof {
        assert(attrs.deep_view() =~~= seq![AttrV { name: "name"@, value: p.deep_view().name }]);
    }
    push_start_attrs(out, "property", attrs);
    push_text(out, &p.value);
    push_end(out, "property");
    proof {
        assert(out.deep_view() =~~= old(out).deep_view() + senc_property(p.deep_view()));
    }
}

/// Writes a `properties` element and its children in order.
pub fn emit_properties(out: &mut Vec<Event>, ps: &Properties)
    ensures
        final(out).deep_view() == old(out).deep_view() + senc_properties(ps.deep_view()),
{
    push_start(out, "properties");
    let ghost head = out.deep_view();
    let mut k: usize = 0;
    proof {
        assert(senc_property_items(ps.deep_view().take(0)) =~= Seq::<EventV>::empty());
        assert(head + senc_property_items(ps.deep_view().take(0)) =~= head);
    }
    while k < ps.0.len()
        invariant
            k <= ps.0@.len(),
            ps.deep_view().len() == ps.0@.len(),
            out.deep_view() == head + senc_property_items(ps.deep_view().take(k as int)),
        decreases ps.0@.len() - k,
    {
        emit_property(out, &ps.0[k]);
        proof {
            assert(ps.0[k as int].deep_view() == ps.deep_view()[k as int]);
            assert(ps.deep_view().take(k as int + 1) =~= ps.deep_view().take(k as int).push(
                ps.deep_view()[k as int],
            ));
            lemma_senc_property_items_snoc(ps.deep_view().take(k as int), ps.deep_view()[k as int]);
            assert(out.deep_view() =~= head + senc_property_items(ps.deep_view().take(k as int + 1)));
        }
        k = k + 1;
    }
    proof {
        assert(ps.deep_view().take(ps.0@.len() as int) =~= ps.deep_view());
    }
    push_end(out, "properties");
    proof {
        assert(out.deep_view() =~~= old(out).deep_view() + senc_properties(ps.deep_view()));
    }
}

// ---------------------------------------------------------------------
// Confidence interval
// ---------------------------------------------------------------------

/// A `confidenceInterval` element: optional bounds, in order.
pub open spec fn senc_confidence_interval(m: ConfidenceIntervalV) -> Seq<EventV> {
    seq![EventV::Start { name: "confidenceInterval"@, attrs: Seq::empty() }] + senc_opt_text(
        "lowerBound"@,
        m.lower_bound,
    ) + senc_opt_text("upperBound"@, m.upper_bound) + seq![
        EventV::End { name: "confidenceInterval"@ },
    ]
}

/// Writes a `confidenceInterval` element.
pub fn emit_confidence_interval(out: &mut Vec<Event>, m: &ConfidenceInterval)
    ensures
        final(out).deep_view() == old(out).deep_view() + senc_confidence_interval(m.deep_view()),
{
    push_start(out, "confidenceInterval");
    emit_opt_text(out, "lowerBound", &m.lower_bound);
    emit_opt_text(out, "upperBound", &m.upper_bound);
    push_end(out, "confidenceInterval");
    proof {
        assert(out.deep_view() =~~= old(out).deep_view() + senc_confidence_interval(m.deep_view()));
    }
}

// ---------------------------------------------------------------------
// Machine-learning parameter
// ---------------------------------------------------------------------

/// The body of an `input` or `output` element: the optional `format`
/// child.  The surrounding wrapper tag belongs to the list that holds it.
pub open spec fn senc_ml_parameter(p: MLParameterV) -> Seq<EventV> {
    senc_opt_text("format"@, p.format)
}

/// Writes the body of an `input` or `output` element.
pub fn emit_ml_parameter(out: &mut Vec<Event>, p: &MLParameter)
    ensures
        final(out).deep_view() == old(out).deep_view() + senc_ml_parameter(p.deep_view()),
{
    emit_opt_text(out, "format", &p.format);
}

// ---------------------------------------------------------------------
// Model-parameters approach
// ---------------------------------------------------------------------

/// An `approach` element: the optional `type` child.
pub open spec fn senc_approach(a: ModelParametersApproachV) -> Seq<EventV> {
    seq![EventV::Start { name: "approach"@, attrs: Seq::empty() }] + senc_opt_text(
        "type"@,
        a.approach_type,
    ) + seq![EventV::End { name: "approach"@ }]
}

/// Writes an `approach` element.
pub fn emit_approach(out: &mut Vec<Event>, a: &ModelParametersApproach)
    ensures
        final(out).deep_view() == old(out).deep_view() + senc_approach(a.deep_view()),
{
    push_start(out, "approach");
    emit_opt_text(out, "type", &a.approach_type);
    push_end(out, "approach");
    proof {
        assert(out.deep_view() =~~= old(out).deep_view() + senc_approach(a.deep_view()));
    }
}

// ---------------------------------------------------------------------
// Considerations
// ---------------------------------------------------------------------

/// A `considerations` element: a marker with no children in this schema
/// version.
pub open spec fn senc_considerations(c: ConsiderationsV) -> Seq<EventV> {
    seq![
        EventV::Start { name: "considerations"@, attrs: Seq::empty() },
        EventV::End { name: "considerations"@ },
    ]
}

/// Writes a `considerations` element.
pub fn emit_considerations(out: &mut Vec<Event>, c: &Considerations)
    ensures
        final(out).deep_view() == old(out).deep_view() + senc_considerations(c.deep_view()),
{
    push_start(out, "considerations");
    push_end(out, "considerations");
    proof {
        assert(out.deep_view() =~~= old(out).deep_view() + senc_considerations(c.deep_view()));
    }
}

// ---------------------------------------------------------------------
// Organizational contact
// ---------------------------------------------------------------------

/// A `contact` element: its optional `bom-ref` attribute plus optional
/// `name`, `email` and `phone` children, in order.
pub open spec fn senc_contact(c: OrganizationalContactV) -> Seq<EventV> {
    seq![EventV::Start { name: "contact"@, attrs: opt_attr("bom-ref"@, c.bom_ref) }] + senc_opt_text(
        "name"@,
        c.name,
    ) + senc_opt_text("email"@, c.email) + senc_opt_text("phone"@, c.phone) + seq![
        EventV::End { name: "contact"@ },
    ]
}

/// Writes a `contact` element.
pub fn emit_contact(out: &mut Vec<Event>, c: &OrganizationalContact)
    ensures
        final(out).deep_view() == old(out).deep_view() + senc_contact(c.deep_view()),
{
    let attrs = bom_ref_attrs(&c.bom_ref);
    push_start_attrs(out, "contact", attrs);
    emit_opt_text(out, "name", &c.name);
    emit_opt_text(out, "email", &c.email);
    emit_opt_text(out, "phone", &c.phone);
    push_end(out, "contact");
    proof {
        assert(out.deep_view() =~~= old(out).deep_view() + senc_contact(c.deep_view()));
    }
}

// ---------------------------------------------------------------------
// Organizational entity
// ---------------------------------------------------------------------

pub open spec fn senc_url_items(items: Seq<Seq<char>>) -> Seq<EventV>
    decreases items.len(),
{
    if items.len() == 0 {
        Seq::empty()
    } else {
        senc_text("url"@, items[0]) + senc_url_items(items.drop_first())
    }
}

pub open spec fn senc_contact_items(items: Seq<OrganizationalContactV>) -> Seq<EventV>
    decreases items.len(),
{
    if items.len() == 0 {
        Seq::empty()
    } else {
        senc_contact(items[0]) + senc_contact_items(items.drop_first())
    }
}

/// An `organization` element: its optional `bom-ref` attribute, then the
/// optional `name` child, then every `url`, then every `contact`.
pub open spec fn senc_organization(o: OrganizationalEntityV) -> Seq<EventV> {
    seq![EventV::Start { name: "organization"@, attrs: opt_attr("bom-ref"@, o.bom_ref) }]
        + senc_opt_text("name"@, o.name) + (match o.url {
        Some(us) => senc_url_items(us),
        None => Seq::empty(),
    }) + (match o.contact {
        Some(cs) => senc_contact_items(cs),
        None => Seq::empty(),
    }) + seq![EventV::End { name: "organization"@ }]
}

pub proof fn lemma_senc_url_items_snoc(items: Seq<Seq<char>>, x: Seq<char>)
    ensures
        senc_url_items(items.push(x)) == senc_url_items(items) + senc_text("url"@, x),
    decreases items.len(),
{
    let p = items.push(x);
    if items.len() == 0 {
        assert(p[0] == x);
        assert(p.drop_first() =~= Seq::<Seq<char>>::empty());
        assert(senc_url_items(p.drop_first()) =~= Seq::<EventV>::empty());
        assert(senc_url_items(p) =~= senc_url_items(items) + senc_text("url"@, x));
    } else {
        assert(p[0] == items[0]);
        assert(p.drop_first() =~= items.drop_first().push(x));
        lemma_senc_url_items_snoc(items.drop_first(), x);
        assert(senc_url_items(p) == senc_text("url"@, items[0]) + senc_url_items(p.drop_first()));
        assert(senc_url_items(items) == senc_text("url"@, items[0]) + senc_url_items(
            items.drop_first(),
        ));
        assert(senc_url_items(p) =~= senc_url_items(items) + senc_text("url"@, x));
    }
}

pub proof fn lemma_senc_contact_items_snoc(items: Seq<OrganizationalContactV>, x: OrganizationalContactV)
    ensures
        senc_contact_items(items.push(x)) == senc_contact_items(items) + senc_contact(x),
    decreases items.len(),
{
    let p = items.push(x);
    if items.len() == 0 {
        assert(p[0] == x);
        assert(p.drop_first() =~= Seq::<OrganizationalContactV>::empty());
        assert(senc_contact_items(p.drop_first()) =~= Seq::<EventV>::empty());
        assert(senc_contact_items(p) =~= senc_contact_items(items) + senc_contact(x));
    } else {
        assert(p[0] == items[0]);
        assert(p.drop_first() =~= items.drop_first().push(x));
        lemma_senc_contact_items_snoc(items.drop_first(), x);
        assert(senc_contact_items(p) == senc_contact(items[0]) + senc_contact_items(p.drop_first()));
        assert(senc_contact_items(items) == senc_contact(items[0]) + senc_contact_items(
            items.drop_first(),
        ));
        assert(senc_contact_items(p) =~= senc_contact_items(items) + senc_contact(x));
    }
}

/// Writes an `organization` element.
pub fn emit_organization(out: &mut Vec<Event>, o: &OrganizationalEntity)
    ensures
        final(out).deep_view() == old(out).deep_view() + senc_organization(o.deep_view()),
{
    let attrs = bom_ref_attrs(&o.bom_ref);
    push_start_attrs(out, "organization", attrs);
    emit_opt_text(out, "name", &o.name);
    match &o.url {
        Some(us) => {
            let ghost base = out.deep_view();
            let mut k: usize = 0;
            proof {
                assert(senc_url_items(us.deep_view().take(0)) =~= Seq::<EventV>::empty());
                assert(base + senc_url_items(us.deep_view().take(0)) =~= base);
            }
            while k < us.len()
                invariant
                    k <= us@.len(),
                    us.deep_view().len() == us@.len(),
                    out.deep_view() == base + senc_url_items(us.deep_view().take(k as int)),
                decreases us@.len() - k,
            {
                emit_text_tag(out, "url", &us[k]);
                proof {
                    assert(us[k as int]@ == us.deep_view()[k as int]);
                    assert(us.deep_view().take(k as int + 1) =~= us.deep_view().take(k as int).push(
                        us.deep_view()[k as int],
                    ));
                    lemma_senc_url_items_snoc(us.deep_view().take(k as int), us.deep_view()[k as int]);
                    assert(out.deep_view() =~= base + senc_url_items(
                        us.deep_view().take(k as int + 1),
                    ));
                }
                k = k + 1;
            }
            proof {
                assert(us.deep_view().take(us@.len() as int) =~= us.deep_view());
            }
        },
        None => {},
    }
    match &o.contact {
        Some(cs) => {
            let ghost base = out.deep_view();
            let mut k: usize = 0;
            proof {
                assert(senc_contact_items(cs.deep_view().take(0)) =~= Seq::<EventV>::empty());
                assert(base + senc_contact_items(cs.deep_view().take(0)) =~= base);
            }
            while k < cs.len()
                invariant
                    k <= cs@.len(),
                    cs.deep_view().len() == cs@.len(),
                    out.deep_view() == base + senc_contact_items(cs.deep_view().take(k as int)),
                decreases cs@.len() - k,
            {
                emit_contact(out, &cs[k]);
                proof {
                    assert(cs[k as int].deep_view() == cs.deep_view()[k as int]);
                    assert(cs.deep_view().take(k as int + 1) =~= cs.deep_view().take(k as int).push(
                        cs.deep_view()[k as int],
                    ));
                    lemma_senc_contact_items_snoc(
                        cs.deep_view().take(k as int),
                        cs.deep_view()[k as int],
                    );
                    assert(out.deep_view() =~= base + senc_contact_items(
                        cs.deep_view().take(k as int + 1),
                    ));
                }
                k = k + 1;
            }
            proof {
                assert(cs.deep_view().take(cs@.len() as int) =~= cs.deep_view());
            }
        },
        None => {},
    }
    push_end(out, "organization");
    proof {
        assert(out.deep_view() =~~= old(out).deep_view() + senc_organization(o.deep_view()));
    }
}

// ---------------------------------------------------------------------
// Responsible parties
// ---------------------------------------------------------------------

/// A responsible party dispatches to whichever variant it holds; no
/// ambiguity exists on the encode side.
pub open spec fn senc_party(p: DataGovernanceResponsiblePartyV) -> Seq<EventV> {
    match p {
        DataGovernanceResponsiblePartyV::Organization(o) => senc_organization(o),
        DataGovernanceResponsiblePartyV::Contact(c) => senc_contact(c),
    }
}

/// One list item: the wrapper's item tag around the party itself.
pub open spec fn senc_party_item(item: Seq<char>, p: DataGovernanceResponsiblePartyV) -> Seq<EventV> {
    seq![EventV::Start { name: item, attrs: Seq::empty() }] + senc_party(p) + seq![
        EventV::End { name: item },
    ]
}

pub open spec fn senc_party_items(item: Seq<char>, items: Seq<DataGovernanceResponsiblePartyV>) -> Seq<
    EventV,
>
    decreases items.len(),
{
    if items.len() == 0 {
        Seq::empty()
    } else {
        senc_party_item(item, items[0]) + senc_party_items(item, items.drop_first())
    }
}

/// A responsible-party list wrapper and its items in order.
pub open spec fn senc_party_list(
    wrapper: Seq<char>,
    item: Seq<char>,
    items: Seq<DataGovernanceResponsiblePartyV>,
) -> Seq<EventV> {
    seq![EventV::Start { name: wrapper, attrs: Seq::empty() }] + senc_party_items(item, items)
        + seq![EventV::End { name: wrapper }]
}

pub proof fn lemma_senc_party_items_snoc(
    item: Seq<char>,
    items: Seq<DataGovernanceResponsiblePartyV>,
    x: DataGovernanceResponsiblePartyV,
)
    ensures
        senc_party_items(item, items.push(x)) == senc_party_items(item, items) + senc_party_item(
            item,
            x,
        ),
    decreases items.len(),
{
    let p = items.push(x);
    if items.len() == 0 {
        assert(p[0] == x);
        assert(p.drop_first() =~= Seq::<DataGovernanceResponsiblePartyV>::empty());
        assert(senc_party_items(item, p.drop_first()) =~= Seq::<EventV>::empty());
        assert(senc_party_items(item, p) =~= senc_party_items(item, items) + senc_party_item(
            item,
            x,
        ));
    } else {
        assert(p[0] == items[0]);
        assert(p.drop_first() =~= items.drop_first().push(x));
        lemma_senc_party_items_snoc(item, items.drop_first(), x);
        assert(senc_party_items(item, p) == senc_party_item(item, items[0]) + senc_party_items(
            item,
            p.drop_first(),
        ));
        assert(senc_party_items(item, items) == senc_party_item(item, items[0]) + senc_party_items(
            item,
            items.drop_first(),
        ));
        assert(senc_party_items(item, p) =~= senc_party_items(item, items) + senc_party_item(
            item,
            x,
        ));
    }
}

/// Writes one responsible party under the given item tag.
pub fn emit_party_item(out: &mut Vec<Event>, item: &str, p: &DataGovernanceResponsibleParty)
    ensures
        final(out).deep_view() == old(out).deep_view() + senc_party_item(item@, p.deep_view()),
{
    push_start(out, item);
    match p {
        DataGovernanceResponsibleParty::Organization(o) => {
            emit_organization(out, o);
        },
        DataGovernanceResponsibleParty::Contact(c) => {
            emit_contact(out, c);
        },
    }
    push_end(out, item);
    proof {
        assert(out.deep_view() =~~= old(out).deep_view() + senc_party_item(item@, p.deep_view()));
    }
}

/// Writes a responsible-party list wrapper and its items in order.
pub fn emit_party_list(
    out: &mut Vec<Event>,
    wrapper: &str,
    item: &str,
    items: &Vec<DataGovernanceResponsibleParty>,
)
    ensures
        final(out).deep_view() == old(out).deep_view() + senc_party_list(
            wrapper@,
            item@,
            items.deep_view(),
        ),
{
    push_start(out, wrapper);
    let ghost base = out.deep_view();
    let mut k: usize = 0;
    proof {
        assert(senc_party_items(item@, items.deep_view().take(0)) =~= Seq::<EventV>::empty());
        assert(base + senc_party_items(item@, items.deep_view().take(0)) =~= base);
    }
    while k < items.len()
        invariant
            k <= items@.len(),
            items.deep_view().len() == items@.len(),
            out.deep_view() == base + senc_party_items(item@, items.deep_view().take(k as int)),
        decreases items@.len() - k,
    {
        emit_party_item(out, item, &items[k]);
        proof {
            assert(items[k as int].deep_view() == items.deep_view()[k as int]);
            assert(items.deep_view().take(k as int + 1) =~= items.deep_view().take(k as int).push(
                items.deep_view()[k as int],
            ));
            lemma_senc_party_items_snoc(
                item@,
                items.deep_view().take(k as int),
                items.deep_view()[k as int],
            );
            assert(out.deep_view() =~= base + senc_party_items(
                item@,
                items.deep_view().take(k as int + 1),
            ));
        }
        k = k + 1;
    }
    proof {
        assert(items.deep_view().take(items@.len() as int) =~= items.deep_view());
    }
    push_end(out, wrapper);
    proof {
        assert(out.deep_view() =~~= old(out).deep_view() + senc_party_list(
            wrapper@,
            item@,
            items.deep_view(),
        ));
    }
}

// ---------------------------------------------------------------------
// Data governance
// ---------------------------------------------------------------------

/// A `governance` element: owners first, then custodians, then stewards.
pub open spec fn senc_governance(g: DataGovernanceV) -> Seq<EventV> {
    seq![EventV::Start { name: "governance"@, attrs: Seq::empty() }] + (match g.owners {
        Some(ps) => senc_party_list("owners"@, "owner"@, ps),
        None => Seq::empty(),
    }) + (match g.custodians {
        Some(ps) => senc_party_list("custodians"@, "custodian"@, ps),
        None => Seq::empty(),
    }) + (match g.stewards {
        Some(ps) => senc_party_list("stewards"@, "steward"@, ps),
        None => Seq::empty(),
    }) + seq![EventV::End { name: "governance"@ }]
}

/// Writes a `governance` element.
pub fn emit_governance(out: &mut Vec<Event>, g: &DataGovernance)
    ensures
        final(out).deep_view() == old(out).deep_view() + senc_governance(g.deep_view()),
{
    push_start(out, "governance");
    match &g.owners {
        Some(ps) => {
            emit_party_list(out, "owners", "owner", ps);
        },
        None => {},
    }
    match &g.custodians {
        Some(ps) => {
            emit_party_list(out, "custodians", "custodian", ps);
        },
        None => {},
    }
    match &g.stewards {
        Some(ps) => {
            emit_party_list(out, "stewards", "steward", ps);
        },
        None => {},
    }
    push_end(out, "governance");
    proof {
        assert(out.deep_view() =~~= old(out).deep_view() + senc_governance(g.deep_view()));
    }
}

// ---------------------------------------------------------------------
// Performance metrics
// ---------------------------------------------------------------------

/// A `performanceMetric` element: type, value, slice, interval, in order.
pub open spec fn senc_metric(m: PerformanceMetricV) -> Seq<EventV> {
    seq![EventV::Start { name: "performanceMetric"@, attrs: Seq::empty() }] + senc_opt_text(
        "type"@,
        m.metric_type,
    ) + senc_opt_text("value"@, m.value) + senc_opt_text("slice"@, m.slice) + (match m
        .confidence_interval {
        Some(ci) => senc_confidence_interval(ci),
        None => Seq::empty(),
    }) + seq![EventV::End { name: "performanceMetric"@ }]
}

pub open spec fn senc_metric_items(items: Seq<PerformanceMetricV>) -> Seq<EventV>
    decreases items.len(),
{
    if items.len() == 0 {
        Seq::empty()
    } else {
        senc_metric(items[0]) + senc_metric_items(items.drop_first())
    }
}

/// A `performanceMetrics` element and its children in order.
pub open spec fn senc_metrics(items: Seq<PerformanceMetricV>) -> Seq<EventV> {
    seq![EventV::Start { name: "performanceMetrics"@, attrs: Seq::empty() }] + senc_metric_items(
        items,
    ) + seq![EventV::End { name: "performanceMetrics"@ }]
}

pub proof fn lemma_senc_metric_items_snoc(items: Seq<PerformanceMetricV>, x: PerformanceMetricV)
    ensures
        senc_metric_items(items.push(x)) == senc_metric_items(items) + senc_metric(x),
    decreases items.len(),
{
    let p = items.push(x);
    if items.len() == 0 {
        assert(p[0] == x);
        assert(p.drop_first() =~= Seq::<PerformanceMetricV>::empty());
        assert(senc_metric_items(p.drop_first()) =~= Seq::<EventV>::empty());
        assert(senc_metric_items(p) =~= senc_metric_items(items) + senc_metric(x));
    } else {
        assert(p[0] == items[0]);
        assert(p.drop_first() =~= items.drop_first().push(x));
        lemma_senc_metric_items_snoc(items.drop_first(), x);
        assert(senc_metric_items(p) == senc_metric(items[0]) + senc_metric_items(p.drop_first()));
        assert(senc_metric_items(items) == senc_metric(items[0]) + senc_metric_items(
            items.drop_first(),
        ));
        assert(senc_metric_items(p) =~= senc_metric_items(items) + senc_metric(x));
    }
}

/// Writes a `performanceMetric` element.
pub fn emit_metric(out: &mut Vec<Event>, m: &PerformanceMetric)
    ensures
        final(out).deep_view() == old(out).deep_view() + senc_metric(m.deep_view()),
{
    push_start(out, "performanceMetric");
    emit_opt_text(out, "type", &m.metric_type);
    emit_opt_text(out, "value", &m.value);
    emit_opt_text(out, "slice", &m.slice);
    match &m.confidence_interval {
        Some(ci) => {
            emit_confidence_interval(out, ci);
        },
        None => {},
    }
    push_end(out, "performanceMetric");
    proof {
        assert(out.deep_view() =~~= old(out).deep_view() + senc_metric(m.deep_view()));
    }
}

/// Writes a `performanceMetrics` element and its children in order.
pub fn emit_metrics(out: &mut Vec<Event>, ms: &PerformanceMetrics)
    ensures
        final(out).deep_view() == old(out).deep_view() + senc_metrics(ms.deep_view()),
{
    push_start(out, "performanceMetrics");
    let ghost base = out.deep_view();
    let mut k: usize = 0;
    proof {
        assert(senc_metric_items(ms.deep_view().take(0)) =~= Seq::<EventV>::empty());
        assert(base + senc_metric_items(ms.deep_view().take(0)) =~= base);
    }
    while k < ms.0.len()
        invariant
            k <= ms.0@.len(),
            ms.deep_view().len() == ms.0@.len(),
            out.deep_view() == base + senc_metric_items(ms.deep_view().take(k as int)),
        decreases ms.0@.len() - k,
    {
        emit_metric(out, &ms.0[k]);
        proof {
            assert(ms.0[k as int].deep_view() == ms.deep_view()[k as int]);
            assert(ms.deep_view().take(k as int + 1) =~= ms.deep_view().take(k as int).push(
                ms.deep_view()[k as int],
            ));
            lemma_senc_metric_items_snoc(ms.deep_view().take(k as int), ms.deep_view()[k as int]);
            assert(out.deep_view() =~= base + senc_metric_items(ms.deep_view().take(k as int + 1)));
        }
        k = k + 1;
    }
    proof {
        assert(ms.deep_view().take(ms.0@.len() as int) =~= ms.deep_view());
    }
    push_end(out, "performanceMetrics");
    proof {
        assert(out.deep_view() =~~= old(out).deep_view() + senc_metrics(ms.deep_view()));
    }
}

// ---------------------------------------------------------------------
// Graphics
// ---------------------------------------------------------------------

/// A `graphic` element: the optional name, then the optional image.
pub open spec fn senc_graphic(g: GraphicV) -> Seq<EventV> {
    seq![EventV::Start { name: "graphic"@, attrs: Seq::empty() }] + senc_opt_text("name"@, g.name)
        + (match g.image {
        Some(a) => senc_attachment("image"@, a),
        None => Seq::empty(),
    }) + seq![EventV::End { name: "graphic"@ }]
}

pub open spec fn senc_graphic_items(items: Seq<GraphicV>) -> Seq<EventV>
    decreases items.len(),
{
    if items.len() == 0 {
        Seq::empty()
    } else {
        senc_graphic(items[0]) + senc_graphic_items(items.drop_first())
    }
}

/// A `collection` element and its `graphic` children in order.
pub open spec fn senc_collection(items: Seq<GraphicV>) -> Seq<EventV> {
    seq![EventV::Start { name: "collection"@, attrs: Seq::empty() }] + senc_graphic_items(items)
        + seq![EventV::End { name: "collection"@ }]
}

/// A `graphics` element: the optional description, then the collection.
pub open spec fn senc_graphics(g: GraphicsV) -> Seq<EventV> {
    seq![EventV::Start { name: "graphics"@, attrs: Seq::empty() }] + senc_opt_text(
        "description"@,
        g.description,
    ) + (match g.collection {
        Some(c) => senc_collection(c),
        None => Seq::empty(),
    }) + seq![EventV::End { name: "graphics"@ }]
}

pub proof fn lemma_senc_graphic_items_snoc(items: Seq<GraphicV>, x: GraphicV)
    ensures
        senc_graphic_items(items.push(x)) == senc_graphic_items(items) + senc_graphic(x),
    decreases items.len(),
{
    let p = items.push(x);
    if items.len() == 0 {
        assert(p[0] == x);
        assert(p.drop_first() =~= Seq::<GraphicV>::empty());
        assert(senc_graphic_items(p.drop_first()) =~= Seq::<EventV>::empty());
        assert(senc_graphic_items(p) =~= senc_graphic_items(items) + senc_graphic(x));
    } else {
        assert(p[0] == items[0]);
        assert(p.drop_first() =~= items.drop_first().push(x));
        lemma_senc_graphic_items_snoc(items.drop_first(), x);
        assert(senc_graphic_items(p) == senc_graphic(items[0]) + senc_graphic_items(p.drop_first()));
        assert(senc_graphic_items(items) == senc_graphic(items[0]) + senc_graphic_items(
            items.drop_first(),
        ));
        assert(senc_graphic_items(p) =~= senc_graphic_items(items) + senc_graphic(x));
    }
}

/// Writes a `graphic` element.
pub fn emit_graphic(out: &mut Vec<Event>, g: &Graphic)
    ensures
        final(out).deep_view() == old(out).deep_view() + senc_graphic(g.deep_view()),
{
    push_start(out, "graphic");
    emit_opt_text(out, "name", &g.name);
    match &g.image {
        Some(a) => {
            emit_attachment(out, "image", a);
        },
        None => {},
    }
    push_end(out, "graphic");
    proof {
        assert(out.deep_view() =~~= old(out).deep_view() + senc_graphic(g.deep_view()));
    }
}

/// Writes a `collection` element and its children in order.
pub fn emit_collection(out: &mut Vec<Event>, c: &Collection)
    ensures
        final(out).deep_view() == old(out).deep_view() + senc_collection(c.deep_view()),
{
    push_start(out, "collection");
    let ghost base = out.deep_view();
    let mut k: usize = 0;
    proof {
        assert(senc_graphic_items(c.deep_view().take(0)) =~= Seq::<EventV>::empty());
        assert(base + senc_graphic_items(c.deep_view().take(0)) =~= base);
    }
    while k < c.0.len()
        invariant
            k <= c.0@.len(),
            c.deep_view().len() == c.0@.len(),
            out.deep_view() == base + senc_graphic_items(c.deep_view().take(k as int)),
        decreases c.0@.len() - k,
    {
        emit_graphic(out, &c.0[k]);
        proof {
            assert(c.0[k as int].deep_view() == c.deep_view()[k as int]);
            assert(c.deep_view().take(k as int + 1) =~= c.deep_view().take(k as int).push(
                c.deep_view()[k as int],
            ));
            lemma_senc_graphic_items_snoc(c.deep_view().take(k as int), c.deep_view()[k as int]);
            assert(out.deep_view() =~= base + senc_graphic_items(c.deep_view().take(k as int + 1)));
        }
        k = k + 1;
    }
    proof {
        assert(c.deep_view().take(c.0@.len() as int) =~= c.deep_view());
    }
    push_end(out, "collection");
    proof {
        assert(out.deep_view() =~~= old(out).deep_view() + senc_collection(c.deep_view()));
    }
}

/// Writes a `graphics` element.
pub fn emit_graphics(out: &mut Vec<Event>, g: &Graphics)
    ensures
        final(out).deep_view() == old(out).deep_view() + senc_graphics(g.deep_view()),
{
    push_start(out, "graphics");
    emit_opt_text(out, "description", &g.description);
    match &g.collection {
        Some(c) => {
            emit_collection(out, c);
        },
        None => {},
    }
    push_end(out, "graphics");
    proof {
        assert(out.deep_view() =~~= old(out).deep_view() + senc_graphics(g.deep_view()));
    }
}

// ---------------------------------------------------------------------
// Data contents
// ---------------------------------------------------------------------

/// A `contents` element: attachment, then url, then properties.
pub open spec fn senc_contents(c: DataContentsV) -> Seq<EventV> {
    seq![EventV::Start { name: "contents"@, attrs: Seq::empty() }] + (match c.attachment {
        Some(a) => senc_attachment("attachment"@, a),
        None => Seq::empty(),
    }) + senc_opt_text("url"@, c.url) + (match c.properties {
        Some(ps) => senc_properties(ps),
        None => Seq::empty(),
    }) + seq![EventV::End { name: "contents"@ }]
}

/// Writes a `contents` element.
pub fn emit_contents(out: &mut Vec<Event>, c: &DataContents)
    ensures
        final(out).deep_view() == old(out).deep_view() + senc_contents(c.deep_view()),
{
    push_start(out, "contents");
    match &c.attachment {
        Some(a) => {
            emit_attachment(out, "attachment", a);
        },
        None => {},
    }
    emit_opt_text(out, "url", &c.url);
    match &c.properties {
        Some(ps) => {
            emit_properties(out, ps);
        },
        None => {},
    }
    push_end(out, "contents");
    proof {
        assert(out.deep_view() =~~= old(out).deep_view() + senc_contents(c.deep_view()));
    }
}

// ---------------------------------------------------------------------
// Dataset
// ---------------------------------------------------------------------

/// An inline-object dataset: the mandatory `type` child first, then every
/// optional field in the schema's order.
pub open spec fn senc_component(c: ComponentDataV) -> Seq<EventV> {
    seq![EventV::Start { name: "dataset"@, attrs: opt_attr("bom-ref"@, c.bom_ref) }] + senc_text(
        "type"@,
        c.data_type,
    ) + senc_opt_text("name"@, c.name) + (match c.contents {
        Some(x) => senc_contents(x),
        None => Seq::empty(),
    }) + senc_opt_text("classification"@, c.classification) + senc_opt_text(
        "sensitiveData"@,
        c.sensitive_data,
    ) + (match c.graphics {
        Some(g) => senc_graphics(g),
        None => Seq::empty(),
    }) + senc_opt_text("description"@, c.description) + (match c.governance {
        Some(g) => senc_governance(g),
        None => Seq::empty(),
    }) + seq![EventV::End { name: "dataset"@ }]
}

/// A dataset: an inline object, or a plain reference child alone.
pub open spec fn senc_dataset(d: DatasetV) -> Seq<EventV> {
    match d {
        DatasetV::Component(c) => senc_component(c),
        DatasetV::Reference(r) => seq![EventV::Start { name: "dataset"@, attrs: Seq::empty() }]
            + senc_text("ref"@, r) + seq![EventV::End { name: "dataset"@ }],
    }
}

pub open spec fn senc_dataset_items(items: Seq<DatasetV>) -> Seq<EventV>
    decreases items.len(),
{
    if items.len() == 0 {
        Seq::empty()
    } else {
        senc_dataset(items[0]) + senc_dataset_items(items.drop_first())
    }
}

/// A `datasets` element and its `dataset` children in order.  An empty
/// sequence still writes the wrapper: present-but-empty is preserved.
pub open spec fn senc_datasets(items: Seq<DatasetV>) -> Seq<EventV> {
    seq![EventV::Start { name: "datasets"@, attrs: Seq::empty() }] + senc_dataset_items(items)
        + seq![EventV::End { name: "datasets"@ }]
}

pub proof fn lemma_senc_dataset_items_snoc(items: Seq<DatasetV>, x: DatasetV)
    ensures
        senc_dataset_items(items.push(x)) == senc_dataset_items(items) + senc_dataset(x),
    decreases items.len(),
{
    let p = items.push(x);
    if items.len() == 0 {
        assert(p[0] == x);
        assert(p.drop_first() =~= Seq::<DatasetV>::empty());
        assert(senc_dataset_items(p.drop_first()) =~= Seq::<EventV>::empty());
        assert(senc_dataset_items(p) =~= senc_dataset_items(items) + senc_dataset(x));
    } else {
        assert(p[0] == items[0]);
        assert(p.drop_first() =~= items.drop_first().push(x));
        lemma_senc_dataset_items_snoc(items.drop_first(), x);
        assert(senc_dataset_items(p) == senc_dataset(items[0]) + senc_dataset_items(p.drop_first()));
        assert(senc_dataset_items(items) == senc_dataset(items[0]) + senc_dataset_items(
            items.drop_first(),
        ));
        assert(senc_dataset_items(p) =~= senc_dataset_items(items) + senc_dataset(x));
    }
}

/// Writes a `dataset` element.
#[verifier::rlimit(100)]
#[verifier::spinoff_prover]
pub fn emit_dataset(out: &mut Vec<Event>, d: &Dataset)
    ensures
        final(out).deep_view() == old(out).deep_view() + senc_dataset(d.deep_view()),
{
    match d {
        Dataset::Component(c) => {
            let attrs = bom_ref_attrs(&c.bom_ref);
            push_start_attrs(out, "dataset", attrs);
            emit_text_tag(out, "type", &c.data_type);
            emit_opt_text(out, "name", &c.name);
            match &c.contents {
                Some(x) => {
                    emit_contents(out, x);
                },
                None => {},
            }
            emit_opt_text(out, "classification", &c.classification);
            emit_opt_text(out, "sensitiveData", &c.sensitive_data);
            match &c.graphics {
                Some(g) => {
                    emit_graphics(out, g);
                },
                None => {},
            }
            emit_opt_text(out, "description", &c.description);
            match &c.governance {
                Some(g) => {
                    emit_governance(out, g);
                },
                None => {},
            }
            push_end(out, "dataset");
            proof {
                assert(out.deep_view() =~~= old(out).deep_view() + senc_dataset(d.deep_view()));
            }
        },
        Dataset::Reference(r) => {
            push_start(out, "dataset");
            emit_text_tag(out, "ref", r);
            push_end(out, "dataset");
            proof {
                assert(out.deep_view() =~~= old(out).deep_view() + senc_dataset(d.deep_view()));
            }
        },
    }
}

/// Writes a `datasets` element and its children in order.
pub fn emit_datasets(out: &mut Vec<Event>, ds: &Datasets)
    ensures
        final(out).deep_view() == old(out).deep_view() + senc_datasets(ds.deep_view()),
{
    push_start(out, "datasets");
    let ghost base = out.deep_view();
    let mut k: usize = 0;
    proof {
        assert(senc_dataset_items(ds.deep_view().take(0)) =~= Seq::<EventV>::empty());
        assert(base + senc_dataset_items(ds.deep_view().take(0)) =~= base);
    }
    while k < ds.0.len()
        invariant
            k <= ds.0@.len(),
            ds.deep_view().len() == ds.0@.len(),
            out.deep_view() == base + senc_dataset_items(ds.deep_view().take(k as int)),
        decreases ds.0@.len() - k,
    {
        emit_dataset(out, &ds.0[k]);
        proof {
            assert(ds.0[k as int].deep_view() == ds.deep_view()[k as int]);
            assert(ds.deep_view().take(k as int + 1) =~= ds.deep_view().take(k as int).push(
                ds.deep_view()[k as int],
            ));
            lemma_senc_dataset_items_snoc(ds.deep_view().take(k as int), ds.deep_view()[k as int]);
            assert(out.deep_view() =~= base + senc_dataset_items(ds.deep_view().take(k as int + 1)));
        }
        k = k + 1;
    }
    proof {
        assert(ds.deep_view().take(ds.0@.len() as int) =~= ds.deep_view());
    }
    push_end(out, "datasets");
    proof {
        assert(out.deep_view() =~~= old(out).deep_view() + senc_datasets(ds.deep_view()));
    }
}

// ---------------------------------------------------------------------
// Inputs and outputs
// ---------------------------------------------------------------------

/// One list item: the wrapper's item tag around the parameter body.
pub open spec fn senc_parameter_item(item: Seq<char>, p: MLParameterV) -> Seq<EventV> {
    seq![EventV::Start { name: item, attrs: Seq::empty() }] + senc_ml_parameter(p) + seq![
        EventV::End { name: item },
    ]
}

pub open spec fn senc_parameter_items(item: Seq<char>, items: Seq<MLParameterV>) -> Seq<EventV>
    decreases items.len(),
{
    if items.len() == 0 {
        Seq::empty()
    } else {
        senc_parameter_item(item, items[0]) + senc_parameter_items(item, items.drop_first())
    }
}

/// An `inputs` or `outputs` element and its items in order.
pub open spec fn senc_parameter_list(wrapper: Seq<char>, item: Seq<char>, items: Seq<MLParameterV>) -> Seq<
    EventV,
> {
    seq![EventV::Start { name: wrapper, attrs: Seq::empty() }] + senc_parameter_items(item, items)
        + seq![EventV::End { name: wrapper }]
}

pub proof fn lemma_senc_parameter_items_snoc(item: Seq<char>, items: Seq<MLParameterV>, x: MLParameterV)
    ensures
        senc_parameter_items(item, items.push(x)) == senc_parameter_items(item, items)
            + senc_parameter_item(item, x),
    decreases items.len(),
{
    let p = items.push(x);
    if items.len() == 0 {
        assert(p[0] == x);
        assert(p.drop_first() =~= Seq::<MLParameterV>::empty());
        assert(senc_parameter_items(item, p.drop_first()) =~= Seq::<EventV>::empty());
        assert(senc_parameter_items(item, p) =~= senc_parameter_items(item, items)
            + senc_parameter_item(item, x));
    } else {
        assert(p[0] == items[0]);
        assert(p.drop_first() =~= items.drop_first().push(x));
        lemma_senc_parameter_items_snoc(item, items.drop_first(), x);
        assert(senc_parameter_items(item, p) == senc_parameter_item(item, items[0])
            + senc_parameter_items(item, p.drop_first()));
        assert(senc_parameter_items(item, items) == senc_parameter_item(item, items[0])
            + senc_parameter_items(item, items.drop_first()));
        assert(senc_parameter_items(item, p) =~= senc_parameter_items(item, items)
            + senc_parameter_item(item, x));
    }
}

/// Writes an `inputs` or `outputs` element and its items in order.
pub fn emit_parameter_list(out: &mut Vec<Event>, wrapper: &str, item: &str, items: &Vec<MLParameter>)
    ensures
        final(out).deep_view() == old(out).deep_view() + senc_parameter_list(
            wrapper@,
            item@,
            items.deep_view(),
        ),
{
    push_start(out, wrapper);
    let ghost base = out.deep_view();
    let mut k: usize = 0;
    proof {
        assert(senc_parameter_items(item@, items.deep_view().take(0)) =~= Seq::<EventV>::empty());
        assert(base + senc_parameter_items(item@, items.deep_view().take(0)) =~= base);
    }
    while k < items.len()
        invariant
            k <= items@.len(),
            items.deep_view().len() == items@.len(),
            out.deep_view() == base + senc_parameter_items(item@, items.deep_view().take(k as int)),
        decreases items@.len() - k,
    {
        push_start(out, item);
        emit_ml_parameter(out, &items[k]);
        push_end(out, item);
        proof {
            assert(items[k as int].deep_view() == items.deep_view()[k as int]);
            assert(items.deep_view().take(k as int + 1) =~= items.deep_view().take(k as int).push(
                items.deep_view()[k as int],
            ));
            lemma_senc_parameter_items_snoc(
                item@,
                items.deep_view().take(k as int),
                items.deep_view()[k as int],
            );
            assert(out.deep_view() =~= base + senc_parameter_items(
                item@,
                items.deep_view().take(k as int + 1),
            ));
        }
        k = k + 1;
    }
    proof {
        assert(items.deep_view().take(items@.len() as int) =~= items.deep_view());
    }
    push_end(out, wrapper);
    proof {
        assert(out.deep_view() =~~= old(out).deep_view() + senc_parameter_list(
            wrapper@,
            item@,
            items.deep_view(),
        ));
    }
}

// ---------------------------------------------------------------------
// Model parameters
// ---------------------------------------------------------------------

/// The scalar fields of `modelParameters`, in the schema's order.
pub open spec fn senc_mp_scalars(m: ModelParametersV) -> Seq<EventV> {
    (match m.approach {
        Some(a) => senc_approach(a),
        None => Seq::empty(),
    }) + senc_opt_text("task"@, m.task) + senc_opt_text("architectureFamily"@, m.architecture_family)
        + senc_opt_text("modelArchitecture"@, m.model_architecture)
}

/// The collection fields of `modelParameters`, in the schema's order.
pub open spec fn senc_mp_collections(m: ModelParametersV) -> Seq<EventV> {
    (match m.datasets {
        Some(ds) => senc_datasets(ds),
        None => Seq::empty(),
    }) + (match m.inputs {
        Some(ps) => senc_parameter_list("inputs"@, "input"@, ps),
        None => Seq::empty(),
    }) + (match m.outputs {
        Some(ps) => senc_parameter_list("outputs"@, "output"@, ps),
        None => Seq::empty(),
    })
}

/// A `modelParameters` element: every present field in the schema's order.
pub open spec fn senc_model_parameters(m: ModelParametersV) -> Seq<EventV> {
    seq![EventV::Start { name: "modelParameters"@, attrs: Seq::empty() }] + senc_mp_scalars(m)
        + senc_mp_collections(m) + seq![EventV::End { name: "modelParameters"@ }]
}

fn emit_mp_scalars(out: &mut Vec<Event>, m: &ModelParameters)
    ensures
        final(out).deep_view() == old(out).deep_view() + senc_mp_scalars(m.deep_view()),
{
    match &m.approach {
        Some(a) => {
            emit_approach(out, a);
        },
        None => {},
    }
    emit_opt_text(out, "task", &m.task);
    emit_opt_text(out, "architectureFamily", &m.architecture_family);
    emit_opt_text(out, "modelArchitecture", &m.model_architecture);
    proof {
        assert(out.deep_view() =~~= old(out).deep_view() + senc_mp_scalars(m.deep_view()));
    }
}

fn emit_mp_collections(out: &mut Vec<Event>, m: &ModelParameters)
    ensures
        final(out).deep_view() == old(out).deep_view() + senc_mp_collections(m.deep_view()),
{
    match &m.datasets {
        Some(ds) => {
            emit_datasets(out, ds);
        },
        None => {},
    }
    match &m.inputs {
        Some(ps) => {
            emit_parameter_list(out, "inputs", "input", &ps.0);
        },
        None => {},
    }
    match &m.outputs {
        Some(ps) => {
            emit_parameter_list(out, "outputs", "output", &ps.0);
        },
        None => {},
    }
    proof {
        assert(out.deep_view() =~~= old(out).deep_view() + senc_mp_collections(m.deep_view()));
    }
}

/// Writes a `modelParameters` element.
pub fn emit_model_parameters(out: &mut Vec<Event>, m: &ModelParameters)
    ensures
        final(out).deep_view() == old(out).deep_view() + senc_model_parameters(m.deep_view()),
{
    push_start(out, "modelParameters");
    emit_mp_scalars(out, m);
    emit_mp_collections(out, m);
    push_end(out, "modelParameters");
    proof {
        assert(out.deep_view() =~~= old(out).deep_view() + senc_model_parameters(m.deep_view()));
    }
}

// ---------------------------------------------------------------------
// Quantitative analysis
// ---------------------------------------------------------------------

/// A `quantitativeAnalysis` element: metrics, then graphics.
pub open spec fn senc_quantitative(q: QuantitativeAnalysisV) -> Seq<EventV> {
    seq![EventV::Start { name: "quantitativeAnalysis"@, attrs: Seq::empty() }] + (match q
        .performance_metrics {
        Some(ms) => senc_metrics(ms),
        None => Seq::empty(),
    }) + (match q.graphics {
        Some(g) => senc_graphics(g),
        None => Seq::empty(),
    }) + seq![EventV::End { name: "quantitativeAnalysis"@ }]
}

/// Writes a `quantitativeAnalysis` element.
pub fn emit_quantitative(out: &mut Vec<Event>, q: &QuantitativeAnalysis)
    ensures
        final(out).deep_view() == old(out).deep_view() + senc_quantitative(q.deep_view()),
{
    push_start(out, "quantitativeAnalysis");
    match &q.performance_metrics {
        Some(ms) => {
            emit_metrics(out, ms);
        },
        None => {},
    }
    match &q.graphics {
        Some(g) => {
            emit_graphics(out, g);
        },
        None => {},
    }
    push_end(out, "quantitativeAnalysis");
    proof {
        assert(out.deep_view() =~~= old(out).deep_view() + senc_quantitative(q.deep_view()));
    }
}

// ---------------------------------------------------------------------
// Model card
// ---------------------------------------------------------------------

/// A `modelCard` element: its optional `bom-ref` attribute, then every
/// present field in the schema's order.
pub open spec fn senc_model_card(m: ModelCardV) -> Seq<EventV> {
    seq![EventV::Start { name: "modelCard"@, attrs: opt_attr("bom-ref"@, m.bom_ref) }] + (match m
        .model_parameters {
        Some(mp) => senc_model_parameters(mp),
        None => Seq::empty(),
    }) + (match m.quantitative_analysis {
        Some(q) => senc_quantitative(q),
        None => Seq::empty(),
    }) + (match m.considerations {
        Some(c) => senc_considerations(c),
        None => Seq::empty(),
    }) + (match m.properties {
        Some(ps) => senc_properties(ps),
        None => Seq::empty(),
    }) + seq![EventV::End { name: "modelCard"@ }]
}

/// Writes a `modelCard` element.
#[verifier::rlimit(100)]
#[verifier::spinoff_prover]
pub fn emit_model_card(out: &mut Vec<Event>, m: &ModelCard)
    ensures
        final(out).deep_view() == old(out).deep_view() + senc_model_card(m.deep_view()),
{
    let attrs = bom_ref_attrs(&m.bom_ref);
    push_start_attrs(out, "modelCard", attrs);
    match &m.model_parameters {
        Some(mp) => {
            emit_model_parameters(out, mp);
        },
        None => {},
    }
    match &m.quantitative_analysis {
        Some(q) => {
            emit_quantitative(out, q);
        },
        None => {},
    }
    match &m.considerations {
        Some(c) => {
            emit_considerations(out, c);
        },
        None => {},
    }
    match &m.properties {
        Some(ps) => {
            emit_properties(out, ps);
        },
        None => {},
    }
    push_end(out, "modelCard");
    proof {
        assert(out.deep_view() =~~= old(out).deep_view() + senc_model_card(m.deep_view()));
    }
}

/// Encodes a model card into a fresh event stream.
pub fn encode_model_card(m: &ModelCard) -> (r: Vec<Event>)
    ensures
        r.deep_view() == senc_model_card(m.deep_view()),
{
    let mut out: Vec<Event> = Vec::new();
    proof {
        assert(out.deep_view() =~= Seq::<EventV>::empty());
    }
    emit_model_card(&mut out, m);
    proof {
        assert(Seq::<EventV>::empty() + senc_model_card(m.deep_view()) =~= senc_model_card(
            m.deep_view(),
        ));
    }
    out
}

} // verus!
