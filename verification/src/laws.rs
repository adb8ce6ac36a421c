//! The laws of the codec, proved over the specification-level encoders
//! and decoders.
//!
//! The central family is the round trip: decoding what an entity encodes
//! yields that entity back, for every entity type.  Each `lemma_rt_*`
//! states this compositionally: wherever an entity's encoding appears as
//! a slice of a larger stream, the decoder consumes exactly that slice
//! and returns exactly that entity.  The top-level `lemma_round_trip_*`
//! functions instantiate them on the encoder's own output.

use vstd::prelude::*;

use crate::decode::{
    approach_init, ci_init, contact_init, contents_init, dataset_finish, dataset_has_object_field,
    dataset_init, governance_init, graphic_init, graphics_init, metric_init, ml_init,
    model_card_init, model_parameters_init, organization_init, push_opt, quantitative_init,
    sdec_approach, sdec_approach_loop, sdec_attachment, sdec_attachment_loop, sdec_collection,
    sdec_collection_loop, sdec_confidence_interval, sdec_confidence_interval_loop,
    sdec_considerations, sdec_contact, sdec_contact_loop, sdec_contents, sdec_contents_loop,
    sdec_dataset, sdec_dataset_loop, sdec_datasets, sdec_datasets_loop, sdec_governance,
    sdec_governance_loop, sdec_graphic, sdec_graphic_loop, sdec_graphics, sdec_graphics_loop,
    sdec_metric, sdec_metric_loop, sdec_metrics, sdec_metrics_loop, sdec_ml_parameter,
    sdec_ml_parameter_loop, sdec_model_card, sdec_model_card_loop, sdec_model_parameters,
    sdec_model_parameters_loop, sdec_organization, sdec_organization_loop, sdec_parameter_list,
    sdec_parameter_list_loop, sdec_party, sdec_party_list, sdec_party_list_loop, sdec_party_loop,
    sdec_properties, sdec_properties_loop, sdec_property, sdec_quantitative,
    sdec_quantitative_loop, sdec_text, sdec_text_loop, DatasetSt,
};
use crate::encode::{
    attachment_attrs, opt_attr, senc_approach, senc_attachment, senc_collection,
    senc_component, senc_confidence_interval, senc_considerations, senc_contact, senc_contact_items, senc_contents,
    senc_dataset, senc_dataset_items, senc_datasets, senc_governance, senc_graphic,
    senc_graphic_items, senc_graphics, senc_metric, senc_metric_items, senc_metrics,
    senc_ml_parameter, senc_model_card, senc_model_parameters, senc_mp_collections,
    senc_mp_scalars, senc_opt_text, senc_organization, senc_quantitative, senc_parameter_item, senc_parameter_items,
    senc_parameter_list, senc_party, senc_party_item, senc_party_items, senc_party_list,
    senc_properties, senc_property, senc_property_items, senc_text, senc_url_items,
};
use crate::errors::DecodeErrorV;
use crate::events::{spec_find_attr, AttrV, EventV};
use crate::model::{
    AttachmentV, ComponentDataV, ConfidenceIntervalV, ConsiderationsV, DataContentsV,
    DataGovernanceResponsiblePartyV, DataGovernanceV, DatasetV, GraphicV, GraphicsV, MLParameterV,
    ModelCardV, ModelParametersApproachV, ModelParametersV, OrganizationalContactV,
    OrganizationalEntityV, PerformanceMetricV, PropertyV, QuantitativeAnalysisV,
};

verus! {

// ---------------------------------------------------------------------
// Slices of slices
// ---------------------------------------------------------------------

/// A slice of a known slice of the stream is the matching slice of the
/// known events.
pub proof fn lemma_slice_of_slice(s: Seq<EventV>, i: int, e: Seq<EventV>, off: int, len: int)
    requires
        0 <= i,
        i + e.len() <= s.len(),
        s.subrange(i, i + e.len()) == e,
        0 <= off,
        0 <= len,
        off + len <= e.len(),
    ensures
        s.subrange(i + off, i + off + len) == e.subrange(off, off + len),
{
    assert(s.subrange(i + off, i + off + len) =~= e.subrange(off, off + len)) by {
        assert forall|k: int| 0 <= k < len implies #[trigger] s.subrange(i + off, i + off + len)[k]
            == e.subrange(off, off + len)[k] by {
            assert(e[off + k] == s.subrange(i, i + e.len())[off + k]);
            assert(s.subrange(i, i + e.len())[off + k] == s[i + off + k]);
            assert(s.subrange(i + off, i + off + len)[k] == s[i + off + k]);
            assert(e.subrange(off, off + len)[k] == e[off + k]);
        }
    }
}

/// Every event of a known slice of the stream.
pub proof fn lemma_slice_index(s: Seq<EventV>, i: int, e: Seq<EventV>, k: int)
    requires
        0 <= i,
        i + e.len() <= s.len(),
        s.subrange(i, i + e.len()) == e,
        0 <= k < e.len(),
    ensures
        s[i + k] == e[k],
{
    assert(s.subrange(i, i + e.len())[k] == s[i + k]);
}

// ---------------------------------------------------------------------
// Distinctness of the tag names each decoder discriminates between
// ---------------------------------------------------------------------

/// The child tags of a `confidenceInterval` are pairwise distinct.
pub proof fn lemma_ci_tags()
    ensures
        "upperBound"@ != "lowerBound"@,
{
    reveal_strlit("upperBound");
    reveal_strlit("lowerBound");
    assert("upperBound"@.len() == 10);
    assert("lowerBound"@.len() == 10);
    assert("upperBound"@[0] == 'u');
    assert("lowerBound"@[0] == 'l');
}

/// The child tags of a `contact` are pairwise distinct.
pub proof fn lemma_contact_tags()
    ensures
        "email"@ != "name"@,
        "phone"@ != "name"@,
        "phone"@ != "email"@,
{
    reveal_strlit("email");
    reveal_strlit("phone");
    reveal_strlit("name");
    assert("email"@.len() == 5);
    assert("phone"@.len() == 5);
    assert("name"@.len() == 4);
    assert("phone"@[0] == 'p');
    assert("email"@[0] == 'e');
}

/// The child tags of an `organization` are pairwise distinct.
pub proof fn lemma_organization_tags()
    ensures
        "url"@ != "name"@,
        "contact"@ != "name"@,
        "contact"@ != "url"@,
{
    reveal_strlit("url");
    reveal_strlit("contact");
    reveal_strlit("name");
    assert("url"@.len() == 3);
    assert("contact"@.len() == 7);
    assert("name"@.len() == 4);
}

/// The child tags of a responsible party are pairwise distinct.
pub proof fn lemma_party_tags()
    ensures
        "contact"@ != "organization"@,
{
    reveal_strlit("contact");
    reveal_strlit("organization");
    assert("contact"@.len() == 7);
    assert("organization"@.len() == 12);
}

/// The child tags of a `governance` element are pairwise distinct.
pub proof fn lemma_governance_tags()
    ensures
        "stewards"@ != "custodians"@,
        "owners"@ != "custodians"@,
        "owners"@ != "stewards"@,
{
    reveal_strlit("stewards");
    reveal_strlit("owners");
    reveal_strlit("custodians");
    assert("stewards"@.len() == 8);
    assert("owners"@.len() == 6);
    assert("custodians"@.len() == 10);
}

/// The child tags of a `graphic` are pairwise distinct.
pub proof fn lemma_graphic_tags()
    ensures
        "image"@ != "name"@,
{
    reveal_strlit("image");
    reveal_strlit("name");
    assert("image"@.len() == 5);
    assert("name"@.len() == 4);
}

/// The child tags of a `graphics` element are pairwise distinct.
pub proof fn lemma_graphics_tags()
    ensures
        "collection"@ != "description"@,
{
    reveal_strlit("collection");
    reveal_strlit("description");
    assert("collection"@.len() == 10);
    assert("description"@.len() == 11);
}

/// The child tags of a `contents` element are pairwise distinct.
pub proof fn lemma_contents_tags()
    ensures
        "attachment"@ != "url"@,
        "properties"@ != "url"@,
        "properties"@ != "attachment"@,
{
    reveal_strlit("attachment");
    reveal_strlit("properties");
    reveal_strlit("url");
    assert("attachment"@.len() == 10);
    assert("properties"@.len() == 10);
    assert("url"@.len() == 3);
    assert("properties"@[0] == 'p');
    assert("attachment"@[0] == 'a');
}

/// The two attachment attribute names are distinct.
pub proof fn lemma_attachment_attr_names()
    ensures
        "content-type"@ != "encoding"@,
{
    reveal_strlit("content-type");
    reveal_strlit("encoding");
    assert("content-type"@.len() == 12);
    assert("encoding"@.len() == 8);
}

/// The child tags of a `performanceMetric` are pairwise distinct.
pub proof fn lemma_metric_tags()
    ensures
        "value"@ != "type"@,
        "slice"@ != "type"@,
        "slice"@ != "value"@,
        "confidenceInterval"@ != "type"@,
        "confidenceInterval"@ != "value"@,
        "confidenceInterval"@ != "slice"@,
{
    reveal_strlit("value");
    reveal_strlit("slice");
    reveal_strlit("confidenceInterval");
    reveal_strlit("type");
    assert("value"@.len() == 5);
    assert("slice"@.len() == 5);
    assert("confidenceInterval"@.len() == 18);
    assert("type"@.len() == 4);
    assert("slice"@[0] == 's');
    assert("value"@[0] == 'v');
}

/// The child tags of a `quantitativeAnalysis` are pairwise distinct.
pub proof fn lemma_quantitative_tags()
    ensures
        "graphics"@ != "performanceMetrics"@,
{
    reveal_strlit("graphics");
    reveal_strlit("performanceMetrics");
    assert("graphics"@.len() == 8);
    assert("performanceMetrics"@.len() == 18);
}

/// The child tags of a `dataset` are pairwise distinct.
#[verifier::rlimit(50)]
pub proof fn lemma_dataset_tags()
    ensures
        "name"@ != "type"@,
        "contents"@ != "type"@,
        "contents"@ != "name"@,
        "classification"@ != "type"@,
        "classification"@ != "name"@,
        "classification"@ != "contents"@,
        "sensitiveData"@ != "type"@,
        "sensitiveData"@ != "name"@,
        "sensitiveData"@ != "contents"@,
        "sensitiveData"@ != "classification"@,
        "graphics"@ != "type"@,
        "graphics"@ != "name"@,
        "graphics"@ != "contents"@,
        "graphics"@ != "classification"@,
        "graphics"@ != "sensitiveData"@,
        "description"@ != "type"@,
        "description"@ != "name"@,
        "description"@ != "contents"@,
        "description"@ != "classification"@,
        "description"@ != "sensitiveData"@,
        "description"@ != "graphics"@,
        "governance"@ != "type"@,
        "governance"@ != "name"@,
        "governance"@ != "contents"@,
        "governance"@ != "classification"@,
        "governance"@ != "sensitiveData"@,
        "governance"@ != "graphics"@,
        "governance"@ != "description"@,
        "ref"@ != "type"@,
        "ref"@ != "name"@,
        "ref"@ != "contents"@,
        "ref"@ != "classification"@,
        "ref"@ != "sensitiveData"@,
        "ref"@ != "graphics"@,
        "ref"@ != "description"@,
        "ref"@ != "governance"@,
{
    reveal_strlit("type");
    reveal_strlit("name");
    reveal_strlit("contents");
    reveal_strlit("classification");
    reveal_strlit("sensitiveData");
    reveal_strlit("graphics");
    reveal_strlit("description");
    reveal_strlit("governance");
    reveal_strlit("ref");
    assert("type"@.len() == 4);
    assert("name"@.len() == 4);
    assert("contents"@.len() == 8);
    assert("classification"@.len() == 14);
    assert("sensitiveData"@.len() == 13);
    assert("graphics"@.len() == 8);
    assert("description"@.len() == 11);
    assert("governance"@.len() == 10);
    assert("ref"@.len() == 3);
    assert("name"@[0] == 'n');
    assert("type"@[0] == 't');
    assert("graphics"@[0] == 'g');
    assert("contents"@[0] == 'c');
}

/// The child tags of a `modelParameters` element are pairwise distinct.
#[verifier::rlimit(50)]
pub proof fn lemma_model_parameters_tags()
    ensures
        "task"@ != "approach"@,
        "architectureFamily"@ != "approach"@,
        "architectureFamily"@ != "task"@,
        "modelArchitecture"@ != "approach"@,
        "modelArchitecture"@ != "task"@,
        "modelArchitecture"@ != "architectureFamily"@,
        "datasets"@ != "approach"@,
        "datasets"@ != "task"@,
        "datasets"@ != "architectureFamily"@,
        "datasets"@ != "modelArchitecture"@,
        "inputs"@ != "approach"@,
        "inputs"@ != "task"@,
        "inputs"@ != "architectureFamily"@,
        "inputs"@ != "modelArchitecture"@,
        "inputs"@ != "datasets"@,
        "outputs"@ != "approach"@,
        "outputs"@ != "task"@,
        "outputs"@ != "architectureFamily"@,
        "outputs"@ != "modelArchitecture"@,
        "outputs"@ != "datasets"@,
        "outputs"@ != "inputs"@,
{
    reveal_strlit("approach");
    reveal_strlit("task");
    reveal_strlit("architectureFamily");
    reveal_strlit("modelArchitecture");
    reveal_strlit("datasets");
    reveal_strlit("inputs");
    reveal_strlit("outputs");
    assert("approach"@.len() == 8);
    assert("task"@.len() == 4);
    assert("architectureFamily"@.len() == 18);
    assert("modelArchitecture"@.len() == 17);
    assert("datasets"@.len() == 8);
    assert("inputs"@.len() == 6);
    assert("outputs"@.len() == 7);
    assert("datasets"@[0] == 'd');
    assert("approach"@[0] == 'a');
}

/// The child tags of a `modelCard` are pairwise distinct.
pub proof fn lemma_model_card_tags()
    ensures
        "quantitativeAnalysis"@ != "modelParameters"@,
        "considerations"@ != "modelParameters"@,
        "considerations"@ != "quantitativeAnalysis"@,
        "properties"@ != "modelParameters"@,
        "properties"@ != "quantitativeAnalysis"@,
        "properties"@ != "considerations"@,
{
    reveal_strlit("modelParameters");
    reveal_strlit("quantitativeAnalysis");
    reveal_strlit("considerations");
    reveal_strlit("properties");
    assert("modelParameters"@.len() == 15);
    assert("quantitativeAnalysis"@.len() == 20);
    assert("considerations"@.len() == 14);
    assert("properties"@.len() == 10);
}

// ---------------------------------------------------------------------
// Attribute lookups on canonical attribute lists
// ---------------------------------------------------------------------

/// Looking up `bom-ref` in the list its encoder builds yields the field.
pub proof fn lemma_find_bom_ref(v: Option<Seq<char>>)
    ensures
        spec_find_attr(opt_attr("bom-ref"@, v), "bom-ref"@) == v,
{
    match v {
        Some(x) => {
            assert(opt_attr("bom-ref"@, v)[0].name == "bom-ref"@);
        },
        None => {},
    }
}

/// Looking up either metadata attribute in the list the attachment
/// encoder builds yields the matching field.
pub proof fn lemma_find_attachment_attrs(a: AttachmentV)
    ensures
        spec_find_attr(attachment_attrs(a), "content-type"@) == a.content_type,
        spec_find_attr(attachment_attrs(a), "encoding"@) == a.encoding,
{
    lemma_attachment_attr_names();
    let attrs = attachment_attrs(a);
    match a.content_type {
        Some(ct) => {
            assert(attrs[0] == (AttrV { name: "content-type"@, value: ct }));
            assert(attrs.drop_first() =~= opt_attr("encoding"@, a.encoding));
            assert(spec_find_attr(attrs, "content-type"@) == Some(ct));
            match a.encoding {
                Some(e) => {
                    assert(attrs.drop_first()[0] == (AttrV { name: "encoding"@, value: e }));
                    assert(spec_find_attr(attrs.drop_first(), "encoding"@) == Some(e));
                },
                None => {
                    assert(spec_find_attr(attrs.drop_first(), "encoding"@) == Option::<
                        Seq<char>,
                    >::None);
                },
            }
            assert(spec_find_attr(attrs, "encoding"@) == spec_find_attr(
                attrs.drop_first(),
                "encoding"@,
            ));
        },
        None => {
            assert(attrs =~= opt_attr("encoding"@, a.encoding));
            match a.encoding {
                Some(e) => {
                    assert(attrs[0] == (AttrV { name: "encoding"@, value: e }));
                    assert(spec_find_attr(attrs, "encoding"@) == Some(e));
                    assert(attrs.drop_first() =~= Seq::<AttrV>::empty());
                    assert(spec_find_attr(attrs, "content-type"@) == spec_find_attr(
                        attrs.drop_first(),
                        "content-type"@,
                    ));
                },
                None => {},
            }
        },
    }
}

// ---------------------------------------------------------------------
// Text elements
// ---------------------------------------------------------------------

/// Wherever a text element's encoding is a slice of the stream, reading
/// the element back after its opening tag yields its text and consumes
/// exactly the slice.
pub proof fn lemma_rt_text(tag: Seq<char>, t: Seq<char>, s: Seq<EventV>, i: int)
    requires
        0 <= i,
        i + 3 <= s.len(),
        s.subrange(i, i + 3) == senc_text(tag, t),
    ensures
        s[i] == (EventV::Start { name: tag, attrs: Seq::<AttrV>::empty() }),
        sdec_text(s, i + 1, tag) == (Ok::<Seq<char>, DecodeErrorV>(t), i + 3),
{
    let e = senc_text(tag, t);
    lemma_slice_index(s, i, e, 0);
    lemma_slice_index(s, i, e, 1);
    lemma_slice_index(s, i, e, 2);
    assert(sdec_text_loop(s, i + 1, tag, Seq::empty()) == sdec_text_loop(s, i + 2, tag, t));
    assert(sdec_text_loop(s, i + 2, tag, t) == (Ok::<Seq<char>, DecodeErrorV>(t), i + 3));
}

// ---------------------------------------------------------------------
// Confidence interval
// ---------------------------------------------------------------------

/// Round trip of one `confidenceInterval` element placed anywhere in a
/// stream.
pub proof fn lemma_rt_confidence_interval(m: ConfidenceIntervalV, s: Seq<EventV>, i: int)
    requires
        0 <= i,
        i + senc_confidence_interval(m).len() <= s.len(),
        s.subrange(i, i + senc_confidence_interval(m).len()) == senc_confidence_interval(m),
    ensures
        s[i] == (EventV::Start { name: "confidenceInterval"@, attrs: Seq::<AttrV>::empty() }),
        sdec_confidence_interval(s, i + 1) == (
            Ok::<ConfidenceIntervalV, DecodeErrorV>(m),
            i + senc_confidence_interval(m).len(),
        ),
{
    lemma_ci_tags();
    let e = senc_confidence_interval(m);
    let la = senc_opt_text("lowerBound"@, m.lower_bound).len() as int;
    let lb = senc_opt_text("upperBound"@, m.upper_bound).len() as int;
    lemma_slice_index(s, i, e, 0);
    let st0 = ci_init();
    let p1 = i + 1 + la;
    let st1 = ConfidenceIntervalV { lower_bound: m.lower_bound, ..st0 };
    match m.lower_bound {
        Some(t) => {
            lemma_slice_of_slice(s, i, e, 1, 3);
            assert(e.subrange(1, 4) =~= senc_text("lowerBound"@, t));
            lemma_rt_text("lowerBound"@, t, s, i + 1);
            assert(st1 =~= ConfidenceIntervalV { lower_bound: Some(t), ..st0 });
            assert(sdec_confidence_interval_loop(s, i + 1, st0) == sdec_confidence_interval_loop(
                s,
                p1,
                st1,
            ));
        },
        None => {
            assert(st1 =~= st0);
        },
    }
    let p2 = p1 + lb;
    let st2 = ConfidenceIntervalV { upper_bound: m.upper_bound, ..st1 };
    match m.upper_bound {
        Some(t) => {
            lemma_slice_of_slice(s, i, e, 1 + la, 3);
            assert(e.subrange(1 + la, 1 + la + 3) =~= senc_text("upperBound"@, t));
            lemma_rt_text("upperBound"@, t, s, p1);
            assert(st2 =~= ConfidenceIntervalV { upper_bound: Some(t), ..st1 });
            assert(sdec_confidence_interval_loop(s, p1, st1) == sdec_confidence_interval_loop(
                s,
                p2,
                st2,
            ));
        },
        None => {
            assert(st2 =~= st1);
        },
    }
    lemma_slice_index(s, i, e, 1 + la + lb);
    assert(s[p2] == (EventV::End { name: "confidenceInterval"@ }));
    assert(sdec_confidence_interval_loop(s, p2, st2) == (
        Ok::<ConfidenceIntervalV, DecodeErrorV>(st2),
        p2 + 1,
    ));
    assert(st2 =~= m);
}

// ---------------------------------------------------------------------
// Attachment
// ---------------------------------------------------------------------

/// Round trip of one attachment element placed anywhere in a stream.
pub proof fn lemma_rt_attachment(tag: Seq<char>, a: AttachmentV, s: Seq<EventV>, i: int)
    requires
        0 <= i,
        i + senc_attachment(tag, a).len() <= s.len(),
        s.subrange(i, i + senc_attachment(tag, a).len()) == senc_attachment(tag, a),
    ensures
        s[i] == (EventV::Start { name: tag, attrs: attachment_attrs(a) }),
        sdec_attachment(s, i + 1, attachment_attrs(a), tag) == (
            Ok::<AttachmentV, DecodeErrorV>(a),
            i + senc_attachment(tag, a).len(),
        ),
{
    let e = senc_attachment(tag, a);
    lemma_slice_index(s, i, e, 0);
    lemma_slice_index(s, i, e, 1);
    lemma_slice_index(s, i, e, 2);
    lemma_find_attachment_attrs(a);
    assert(sdec_attachment_loop(s, i + 1, tag, a.content_type, a.encoding, Seq::empty())
        == sdec_attachment_loop(s, i + 2, tag, a.content_type, a.encoding, a.content));
    assert(sdec_attachment_loop(s, i + 2, tag, a.content_type, a.encoding, a.content) == (
        Ok::<AttachmentV, DecodeErrorV>(
            AttachmentV { content: a.content, content_type: a.content_type, encoding: a.encoding },
        ),
        i + 3,
    ));
    assert((AttachmentV {
        content: a.content,
        content_type: a.content_type,
        encoding: a.encoding,
    }) =~= a);
}

// ---------------------------------------------------------------------
// Property
// ---------------------------------------------------------------------

/// Round trip of one `property` element placed anywhere in a stream.
pub proof fn lemma_rt_property(p: PropertyV, s: Seq<EventV>, i: int)
    requires
        0 <= i,
        i + senc_property(p).len() <= s.len(),
        s.subrange(i, i + senc_property(p).len()) == senc_property(p),
    ensures
        s[i] == (EventV::Start {
            name: "property"@,
            attrs: seq![AttrV { name: "name"@, value: p.name }],
        }),
        sdec_property(s, i + 1, seq![AttrV { name: "name"@, value: p.name }]) == (
            Ok::<PropertyV, DecodeErrorV>(p),
            i + senc_property(p).len(),
        ),
{
    let e = senc_property(p);
    lemma_slice_index(s, i, e, 0);
    lemma_slice_index(s, i, e, 1);
    lemma_slice_index(s, i, e, 2);
    let attrs = seq![AttrV { name: "name"@, value: p.name }];
    assert(spec_find_attr(attrs, "name"@) == Some(p.name));
    assert(sdec_text_loop(s, i + 1, "property"@, Seq::empty()) == sdec_text_loop(
        s,
        i + 2,
        "property"@,
        p.value,
    ));
    assert(sdec_text_loop(s, i + 2, "property"@, p.value) == (
        Ok::<Seq<char>, DecodeErrorV>(p.value),
        i + 3,
    ));
    assert((PropertyV { name: p.name, value: p.value }) =~= p);
}

// ---------------------------------------------------------------------
// Machine-learning parameter items
// ---------------------------------------------------------------------

/// Round trip of one `input` or `output` element placed anywhere in a
/// stream.
pub proof fn lemma_rt_parameter_item(item: Seq<char>, p: MLParameterV, s: Seq<EventV>, i: int)
    requires
        0 <= i,
        i + senc_parameter_item(item, p).len() <= s.len(),
        s.subrange(i, i + senc_parameter_item(item, p).len()) == senc_parameter_item(item, p),
    ensures
        s[i] == (EventV::Start { name: item, attrs: Seq::<AttrV>::empty() }),
        sdec_ml_parameter(s, i + 1, item) == (
            Ok::<MLParameterV, DecodeErrorV>(p),
            i + senc_parameter_item(item, p).len(),
        ),
{
    let e = senc_parameter_item(item, p);
    let lf = senc_ml_parameter(p).len() as int;
    lemma_slice_index(s, i, e, 0);
    let st0 = ml_init();
    let p1 = i + 1 + lf;
    let st1 = MLParameterV { format: p.format };
    match p.format {
        Some(t) => {
            lemma_slice_of_slice(s, i, e, 1, 3);
            assert(e.subrange(1, 4) =~= senc_text("format"@, t));
            lemma_rt_text("format"@, t, s, i + 1);
            assert(sdec_ml_parameter_loop(s, i + 1, item, st0) == sdec_ml_parameter_loop(
                s,
                p1,
                item,
                st1,
            ));
        },
        None => {
            assert(st1 =~= st0);
        },
    }
    lemma_slice_index(s, i, e, 1 + lf);
    assert(s[p1] == (EventV::End { name: item }));
    assert(sdec_ml_parameter_loop(s, p1, item, st1) == (
        Ok::<MLParameterV, DecodeErrorV>(st1),
        p1 + 1,
    ));
    assert(st1 =~= p);
}

// ---------------------------------------------------------------------
// Model-parameters approach
// ---------------------------------------------------------------------

/// Round trip of one `approach` element placed anywhere in a stream.
pub proof fn lemma_rt_approach(a: ModelParametersApproachV, s: Seq<EventV>, i: int)
    requires
        0 <= i,
        i + senc_approach(a).len() <= s.len(),
        s.subrange(i, i + senc_approach(a).len()) == senc_approach(a),
    ensures
        s[i] == (EventV::Start { name: "approach"@, attrs: Seq::<AttrV>::empty() }),
        sdec_approach(s, i + 1) == (
            Ok::<ModelParametersApproachV, DecodeErrorV>(a),
            i + senc_approach(a).len(),
        ),
{
    let e = senc_approach(a);
    let lf = senc_opt_text("type"@, a.approach_type).len() as int;
    lemma_slice_index(s, i, e, 0);
    let st0 = approach_init();
    let p1 = i + 1 + lf;
    let st1 = ModelParametersApproachV { approach_type: a.approach_type };
    match a.approach_type {
        Some(t) => {
            lemma_slice_of_slice(s, i, e, 1, 3);
            assert(e.subrange(1, 4) =~= senc_text("type"@, t));
            lemma_rt_text("type"@, t, s, i + 1);
            assert(sdec_approach_loop(s, i + 1, st0) == sdec_approach_loop(s, p1, st1));
        },
        None => {
            assert(st1 =~= st0);
        },
    }
    lemma_slice_index(s, i, e, 1 + lf);
    assert(s[p1] == (EventV::End { name: "approach"@ }));
    assert(sdec_approach_loop(s, p1, st1) == (
        Ok::<ModelParametersApproachV, DecodeErrorV>(st1),
        p1 + 1,
    ));
    assert(st1 =~= a);
}

// ---------------------------------------------------------------------
// Considerations
// ---------------------------------------------------------------------

/// Round trip of one `considerations` element placed anywhere in a stream.
pub proof fn lemma_rt_considerations(c: ConsiderationsV, s: Seq<EventV>, i: int)
    requires
        0 <= i,
        i + senc_considerations(c).len() <= s.len(),
        s.subrange(i, i + senc_considerations(c).len()) == senc_considerations(c),
    ensures
        s[i] == (EventV::Start { name: "considerations"@, attrs: Seq::<AttrV>::empty() }),
        sdec_considerations(s, i + 1) == (
            Ok::<ConsiderationsV, DecodeErrorV>(c),
            i + senc_considerations(c).len(),
        ),
{
    let e = senc_considerations(c);
    lemma_slice_index(s, i, e, 0);
    lemma_slice_index(s, i, e, 1);
    assert(s[i + 1] == (EventV::End { name: "considerations"@ }));
    assert(c =~= ConsiderationsV {});
}

// ---------------------------------------------------------------------
// Organizational contact
// ---------------------------------------------------------------------

/// Round trip of one `contact` element placed anywhere in a stream.
pub proof fn lemma_rt_contact(c: OrganizationalContactV, s: Seq<EventV>, i: int)
    requires
        0 <= i,
        i + senc_contact(c).len() <= s.len(),
        s.subrange(i, i + senc_contact(c).len()) == senc_contact(c),
    ensures
        s[i] == (EventV::Start { name: "contact"@, attrs: opt_attr("bom-ref"@, c.bom_ref) }),
        sdec_contact(s, i + 1, opt_attr("bom-ref"@, c.bom_ref)) == (
            Ok::<OrganizationalContactV, DecodeErrorV>(c),
            i + senc_contact(c).len(),
        ),
{
    lemma_contact_tags();
    lemma_find_bom_ref(c.bom_ref);
    let e = senc_contact(c);
    let ln = senc_opt_text("name"@, c.name).len() as int;
    let le = senc_opt_text("email"@, c.email).len() as int;
    let lp = senc_opt_text("phone"@, c.phone).len() as int;
    lemma_slice_index(s, i, e, 0);
    let st0 = contact_init(opt_attr("bom-ref"@, c.bom_ref));
    let p1 = i + 1 + ln;
    let st1 = OrganizationalContactV { name: c.name, ..st0 };
    match c.name {
        Some(t) => {
            lemma_slice_of_slice(s, i, e, 1, 3);
            assert(e.subrange(1, 4) =~= senc_text("name"@, t));
            lemma_rt_text("name"@, t, s, i + 1);
            assert(st1 =~= OrganizationalContactV { name: Some(t), ..st0 });
            assert(sdec_contact_loop(s, i + 1, st0) == sdec_contact_loop(s, p1, st1));
        },
        None => {
            assert(st1 =~= st0);
        },
    }
    let p2 = p1 + le;
    let st2 = OrganizationalContactV { email: c.email, ..st1 };
    match c.email {
        Some(t) => {
            lemma_slice_of_slice(s, i, e, 1 + ln, 3);
            assert(e.subrange(1 + ln, 1 + ln + 3) =~= senc_text("email"@, t));
            lemma_rt_text("email"@, t, s, p1);
            assert(st2 =~= OrganizationalContactV { email: Some(t), ..st1 });
            assert(sdec_contact_loop(s, p1, st1) == sdec_contact_loop(s, p2, st2));
        },
        None => {
            assert(st2 =~= st1);
        },
    }
    let p3 = p2 + lp;
    let st3 = OrganizationalContactV { phone: c.phone, ..st2 };
    match c.phone {
        Some(t) => {
            lemma_slice_of_slice(s, i, e, 1 + ln + le, 3);
            assert(e.subrange(1 + ln + le, 1 + ln + le + 3) =~= senc_text("phone"@, t));
            lemma_rt_text("phone"@, t, s, p2);
            assert(st3 =~= OrganizationalContactV { phone: Some(t), ..st2 });
            assert(sdec_contact_loop(s, p2, st2) == sdec_contact_loop(s, p3, st3));
        },
        None => {
            assert(st3 =~= st2);
        },
    }
    lemma_slice_index(s, i, e, 1 + ln + le + lp);
    assert(s[p3] == (EventV::End { name: "contact"@ }));
    assert(sdec_contact_loop(s, p3, st3) == (
        Ok::<OrganizationalContactV, DecodeErrorV>(st3),
        p3 + 1,
    ));
    assert(st3 =~= c);
}

// ---------------------------------------------------------------------
// Organizational entity
// ---------------------------------------------------------------------

/// What a repeated child accumulates over a whole list, starting from an
/// already-accumulated prefix.
pub open spec fn opt_extend<T>(pre: Option<Seq<T>>, items: Seq<T>) -> Option<Seq<T>> {
    if items.len() == 0 {
        pre
    } else {
        match pre {
            None => Some(items),
            Some(p) => Some(p + items),
        }
    }
}

pub proof fn lemma_opt_extend_step<T>(pre: Option<Seq<T>>, items: Seq<T>)
    requires
        items.len() > 0,
    ensures
        opt_extend(push_opt(pre, items[0]), items.drop_first()) == opt_extend(pre, items),
{
    let rest = items.drop_first();
    match pre {
        None => {
            if rest.len() == 0 {
                assert(seq![items[0]] =~= items);
            } else {
                assert(seq![items[0]] + rest =~= items);
            }
        },
        Some(p) => {
            if rest.len() == 0 {
                assert(p.push(items[0]) =~= p + items);
            } else {
                assert(p.push(items[0]) + rest =~= p + items);
            }
        },
    }
}

/// An organization as the encoder can reproduce it: a repeated child has
/// no wrapper element on the wire, so a present-but-empty `url` or
/// `contact` list cannot be told apart from an absent one and is ruled
/// out.
pub open spec fn wf_organization(o: OrganizationalEntityV) -> bool {
    &&& (match o.url {
        Some(u) => u.len() > 0,
        None => true,
    })
    &&& (match o.contact {
        Some(c) => c.len() > 0,
        None => true,
    })
}

/// Walking a run of `url` children accumulates them in order.
pub proof fn lemma_rt_org_urls(us: Seq<Seq<char>>, st: OrganizationalEntityV, s: Seq<EventV>, i: int)
    requires
        0 <= i,
        i + senc_url_items(us).len() <= s.len(),
        s.subrange(i, i + senc_url_items(us).len()) == senc_url_items(us),
    ensures
        sdec_organization_loop(s, i, st) == sdec_organization_loop(
            s,
            i + senc_url_items(us).len(),
            OrganizationalEntityV { url: opt_extend(st.url, us), ..st },
        ),
    decreases us.len(),
{
    lemma_organization_tags();
    if us.len() == 0 {
        assert((OrganizationalEntityV { url: opt_extend(st.url, us), ..st }) =~= st);
    } else {
        let e = senc_url_items(us);
        let u0 = us[0];
        lemma_slice_of_slice(s, i, e, 0, 3);
        assert(e.subrange(0, 3) =~= senc_text("url"@, u0));
        lemma_rt_text("url"@, u0, s, i);
        let st1 = OrganizationalEntityV { url: push_opt(st.url, u0), ..st };
        assert(sdec_organization_loop(s, i, st) == sdec_organization_loop(s, i + 3, st1));
        lemma_slice_of_slice(s, i, e, 3, e.len() - 3);
        assert(e.subrange(3, e.len() as int) =~= senc_url_items(us.drop_first()));
        lemma_rt_org_urls(us.drop_first(), st1, s, i + 3);
        lemma_opt_extend_step(st.url, us);
        assert((OrganizationalEntityV { url: opt_extend(st1.url, us.drop_first()), ..st1 })
            =~= (OrganizationalEntityV { url: opt_extend(st.url, us), ..st }));
    }
}

/// Walking a run of `contact` children accumulates them in order.
pub proof fn lemma_rt_org_contacts(
    cs: Seq<OrganizationalContactV>,
    st: OrganizationalEntityV,
    s: Seq<EventV>,
    i: int,
)
    requires
        0 <= i,
        i + senc_contact_items(cs).len() <= s.len(),
        s.subrange(i, i + senc_contact_items(cs).len()) == senc_contact_items(cs),
    ensures
        sdec_organization_loop(s, i, st) == sdec_organization_loop(
            s,
            i + senc_contact_items(cs).len(),
            OrganizationalEntityV { contact: opt_extend(st.contact, cs), ..st },
        ),
    decreases cs.len(),
{
    lemma_organization_tags();
    if cs.len() == 0 {
        assert((OrganizationalEntityV { contact: opt_extend(st.contact, cs), ..st }) =~= st);
    } else {
        let e = senc_contact_items(cs);
        let c0 = cs[0];
        let l0 = senc_contact(c0).len() as int;
        lemma_slice_of_slice(s, i, e, 0, l0);
        assert(e.subrange(0, l0) =~= senc_contact(c0));
        lemma_rt_contact(c0, s, i);
        let st1 = OrganizationalEntityV { contact: push_opt(st.contact, c0), ..st };
        assert(sdec_organization_loop(s, i, st) == sdec_organization_loop(s, i + l0, st1));
        lemma_slice_of_slice(s, i, e, l0, e.len() - l0);
        assert(e.subrange(l0, e.len() as int) =~= senc_contact_items(cs.drop_first()));
        lemma_rt_org_contacts(cs.drop_first(), st1, s, i + l0);
        lemma_opt_extend_step(st.contact, cs);
        assert((OrganizationalEntityV { contact: opt_extend(st1.contact, cs.drop_first()), ..st1 })
            =~= (OrganizationalEntityV { contact: opt_extend(st.contact, cs), ..st }));
    }
}

/// Round trip of one `organization` element placed anywhere in a stream.
pub proof fn lemma_rt_organization(o: OrganizationalEntityV, s: Seq<EventV>, i: int)
    requires
        wf_organization(o),
        0 <= i,
        i + senc_organization(o).len() <= s.len(),
        s.subrange(i, i + senc_organization(o).len()) == senc_organization(o),
    ensures
        s[i] == (EventV::Start { name: "organization"@, attrs: opt_attr("bom-ref"@, o.bom_ref) }),
        sdec_organization(s, i + 1, opt_attr("bom-ref"@, o.bom_ref)) == (
            Ok::<OrganizationalEntityV, DecodeErrorV>(o),
            i + senc_organization(o).len(),
        ),
{
    lemma_organization_tags();
    lemma_find_bom_ref(o.bom_ref);
    let e = senc_organization(o);
    let ln = senc_opt_text("name"@, o.name).len() as int;
    let useg = match o.url {
        Some(us) => senc_url_items(us),
        None => Seq::<EventV>::empty(),
    };
    let cseg = match o.contact {
        Some(cs) => senc_contact_items(cs),
        None => Seq::<EventV>::empty(),
    };
    let lu = useg.len() as int;
    let lc = cseg.len() as int;
    lemma_slice_index(s, i, e, 0);
    let st0 = organization_init(opt_attr("bom-ref"@, o.bom_ref));
    let p1 = i + 1 + ln;
    let st1 = OrganizationalEntityV { name: o.name, ..st0 };
    match o.name {
        Some(t) => {
            lemma_slice_of_slice(s, i, e, 1, 3);
            assert(e.subrange(1, 4) =~= senc_text("name"@, t));
            lemma_rt_text("name"@, t, s, i + 1);
            assert(st1 =~= OrganizationalEntityV { name: Some(t), ..st0 });
            assert(sdec_organization_loop(s, i + 1, st0) == sdec_organization_loop(s, p1, st1));
        },
        None => {
            assert(st1 =~= st0);
        },
    }
    let p2 = p1 + lu;
    let st2 = OrganizationalEntityV { url: o.url, ..st1 };
    match o.url {
        Some(us) => {
            lemma_slice_of_slice(s, i, e, 1 + ln, lu);
            assert(e.subrange(1 + ln, 1 + ln + lu) =~= senc_url_items(us));
            lemma_rt_org_urls(us, st1, s, p1);
            assert(opt_extend(st1.url, us) == Some(us));
            assert(st2 =~= OrganizationalEntityV { url: opt_extend(st1.url, us), ..st1 });
        },
        None => {
            assert(st2 =~= st1);
        },
    }
    let p3 = p2 + lc;
    let st3 = OrganizationalEntityV { contact: o.contact, ..st2 };
    match o.contact {
        Some(cs) => {
            lemma_slice_of_slice(s, i, e, 1 + ln + lu, lc);
            assert(e.subrange(1 + ln + lu, 1 + ln + lu + lc) =~= senc_contact_items(cs));
            lemma_rt_org_contacts(cs, st2, s, p2);
            assert(opt_extend(st2.contact, cs) == Some(cs));
            assert(st3 =~= OrganizationalEntityV { contact: opt_extend(st2.contact, cs), ..st2 });
        },
        None => {
            assert(st3 =~= st2);
        },
    }
    lemma_slice_index(s, i, e, 1 + ln + lu + lc);
    assert(s[p3] == (EventV::End { name: "organization"@ }));
    assert(sdec_organization_loop(s, p3, st3) == (
        Ok::<OrganizationalEntityV, DecodeErrorV>(st3),
        p3 + 1,
    ));
    assert(st3 =~= o);
}

// ---------------------------------------------------------------------
// Responsible parties
// ---------------------------------------------------------------------

/// A responsible party the encoder can reproduce.
pub open spec fn wf_party(p: DataGovernanceResponsiblePartyV) -> bool {
    match p {
        DataGovernanceResponsiblePartyV::Organization(o) => wf_organization(o),
        DataGovernanceResponsiblePartyV::Contact(c) => true,
    }
}

pub open spec fn wf_parties(ps: Seq<DataGovernanceResponsiblePartyV>) -> bool {
    forall|k: int| 0 <= k < ps.len() ==> wf_party(#[trigger] ps[k])
}

/// Round trip of one responsible-party item placed anywhere in a stream.
pub proof fn lemma_rt_party_item(
    item: Seq<char>,
    p: DataGovernanceResponsiblePartyV,
    s: Seq<EventV>,
    i: int,
)
    requires
        wf_party(p),
        0 <= i,
        i + senc_party_item(item, p).len() <= s.len(),
        s.subrange(i, i + senc_party_item(item, p).len()) == senc_party_item(item, p),
    ensures
        s[i] == (EventV::Start { name: item, attrs: Seq::<AttrV>::empty() }),
        sdec_party(s, i + 1, item) == (
            Ok::<DataGovernanceResponsiblePartyV, DecodeErrorV>(p),
            i + senc_party_item(item, p).len(),
        ),
{
    lemma_party_tags();
    let e = senc_party_item(item, p);
    let lp = senc_party(p).len() as int;
    lemma_slice_index(s, i, e, 0);
    lemma_slice_of_slice(s, i, e, 1, lp);
    assert(e.subrange(1, 1 + lp) =~= senc_party(p));
    let p1 = i + 1 + lp;
    match p {
        DataGovernanceResponsiblePartyV::Organization(o) => {
            lemma_rt_organization(o, s, i + 1);
            assert(sdec_party_loop(s, i + 1, item, None) == sdec_party_loop(
                s,
                p1,
                item,
                Some(DataGovernanceResponsiblePartyV::Organization(o)),
            ));
        },
        DataGovernanceResponsiblePartyV::Contact(c) => {
            lemma_rt_contact(c, s, i + 1);
            assert(sdec_party_loop(s, i + 1, item, None) == sdec_party_loop(
                s,
                p1,
                item,
                Some(DataGovernanceResponsiblePartyV::Contact(c)),
            ));
        },
    }
    lemma_slice_index(s, i, e, 1 + lp);
    assert(s[p1] == (EventV::End { name: item }));
}

/// Walking a run of responsible-party items accumulates them in order up
/// to the list wrapper's close tag.
pub proof fn lemma_rt_party_items(
    wrapper: Seq<char>,
    item: Seq<char>,
    items: Seq<DataGovernanceResponsiblePartyV>,
    acc: Seq<DataGovernanceResponsiblePartyV>,
    s: Seq<EventV>,
    i: int,
)
    requires
        wf_parties(items),
        0 <= i,
        i + senc_party_items(item, items).len() + 1 <= s.len(),
        s.subrange(i, i + senc_party_items(item, items).len() + 1) == senc_party_items(item, items)
            + seq![EventV::End { name: wrapper }],
    ensures
        sdec_party_list_loop(s, i, wrapper, item, acc) == (
            Ok::<Seq<DataGovernanceResponsiblePartyV>, DecodeErrorV>(acc + items),
            i + senc_party_items(item, items).len() + 1,
        ),
    decreases items.len(),
{
    let e = senc_party_items(item, items) + seq![EventV::End { name: wrapper }];
    if items.len() == 0 {
        lemma_slice_index(s, i, e, 0);
        assert(s[i] == (EventV::End { name: wrapper }));
        assert(acc + items =~= acc);
    } else {
        let p0 = items[0];
        let l0 = senc_party_item(item, p0).len() as int;
        assert(wf_party(items[0]));
        lemma_slice_of_slice(s, i, e, 0, l0);
        assert(e.subrange(0, l0) =~= senc_party_item(item, p0));
        lemma_rt_party_item(item, p0, s, i);
        assert(sdec_party_list_loop(s, i, wrapper, item, acc) == sdec_party_list_loop(
            s,
            i + l0,
            wrapper,
            item,
            acc.push(p0),
        ));
        lemma_slice_of_slice(s, i, e, l0, e.len() - l0);
        assert(e.subrange(l0, e.len() as int) =~= senc_party_items(item, items.drop_first())
            + seq![EventV::End { name: wrapper }]);
        assert(wf_parties(items.drop_first())) by {
            assert(forall|k: int|
                0 <= k < items.drop_first().len() ==> #[trigger] items.drop_first()[k] == items[k
                    + 1]);
        }
        lemma_rt_party_items(wrapper, item, items.drop_first(), acc.push(p0), s, i + l0);
        assert(acc.push(p0) + items.drop_first() =~= acc + items);
    }
}

/// Round trip of one responsible-party list wrapper placed anywhere in a
/// stream.
pub proof fn lemma_rt_party_list(
    wrapper: Seq<char>,
    item: Seq<char>,
    items: Seq<DataGovernanceResponsiblePartyV>,
    s: Seq<EventV>,
    i: int,
)
    requires
        wf_parties(items),
        0 <= i,
        i + senc_party_list(wrapper, item, items).len() <= s.len(),
        s.subrange(i, i + senc_party_list(wrapper, item, items).len()) == senc_party_list(
            wrapper,
            item,
            items,
        ),
    ensures
        s[i] == (EventV::Start { name: wrapper, attrs: Seq::<AttrV>::empty() }),
        sdec_party_list(s, i + 1, wrapper, item) == (
            Ok::<Seq<DataGovernanceResponsiblePartyV>, DecodeErrorV>(items),
            i + senc_party_list(wrapper, item, items).len(),
        ),
{
    let e = senc_party_list(wrapper, item, items);
    let li = senc_party_items(item, items).len() as int;
    lemma_slice_index(s, i, e, 0);
    lemma_slice_of_slice(s, i, e, 1, li + 1);
    assert(e.subrange(1, 1 + li + 1) =~= senc_party_items(item, items) + seq![
        EventV::End { name: wrapper },
    ]);
    lemma_rt_party_items(wrapper, item, items, Seq::empty(), s, i + 1);
    assert(Seq::<DataGovernanceResponsiblePartyV>::empty() + items =~= items);
}

// ---------------------------------------------------------------------
// Data governance
// ---------------------------------------------------------------------

/// A governance record the encoder can reproduce.
pub open spec fn wf_governance(g: DataGovernanceV) -> bool {
    &&& (match g.custodians {
        Some(ps) => wf_parties(ps),
        None => true,
    })
    &&& (match g.stewards {
        Some(ps) => wf_parties(ps),
        None => true,
    })
    &&& (match g.owners {
        Some(ps) => wf_parties(ps),
        None => true,
    })
}

/// Round trip of one `governance` element placed anywhere in a stream.
#[verifier::rlimit(100)]
#[verifier::spinoff_prover]
pub proof fn lemma_rt_governance(g: DataGovernanceV, s: Seq<EventV>, i: int)
    requires
        wf_governance(g),
        0 <= i,
        i + senc_governance(g).len() <= s.len(),
        s.subrange(i, i + senc_governance(g).len()) == senc_governance(g),
    ensures
        s[i] == (EventV::Start { name: "governance"@, attrs: Seq::<AttrV>::empty() }),
        sdec_governance(s, i + 1) == (
            Ok::<DataGovernanceV, DecodeErrorV>(g),
            i + senc_governance(g).len(),
        ),
{
    lemma_governance_tags();
    let e = senc_governance(g);
    let oseg = match g.owners {
        Some(ps) => senc_party_list("owners"@, "owner"@, ps),
        None => Seq::<EventV>::empty(),
    };
    let cseg = match g.custodians {
        Some(ps) => senc_party_list("custodians"@, "custodian"@, ps),
        None => Seq::<EventV>::empty(),
    };
    let sseg = match g.stewards {
        Some(ps) => senc_party_list("stewards"@, "steward"@, ps),
        None => Seq::<EventV>::empty(),
    };
    let lo = oseg.len() as int;
    let lc = cseg.len() as int;
    let ls = sseg.len() as int;
    lemma_slice_index(s, i, e, 0);
    let st0 = governance_init();
    let p1 = i + 1 + lo;
    let st1 = DataGovernanceV { owners: g.owners, ..st0 };
    match g.owners {
        Some(ps) => {
            lemma_slice_of_slice(s, i, e, 1, lo);
            assert(e.subrange(1, 1 + lo) =~= senc_party_list("owners"@, "owner"@, ps));
            lemma_rt_party_list("owners"@, "owner"@, ps, s, i + 1);
            assert(st1 =~= DataGovernanceV { owners: Some(ps), ..st0 });
            assert(sdec_governance_loop(s, i + 1, st0) == sdec_governance_loop(s, p1, st1));
        },
        None => {
            assert(st1 =~= st0);
        },
    }
    let p2 = p1 + lc;
    let st2 = DataGovernanceV { custodians: g.custodians, ..st1 };
    match g.custodians {
        Some(ps) => {
            lemma_slice_of_slice(s, i, e, 1 + lo, lc);
            assert(e.subrange(1 + lo, 1 + lo + lc) =~= senc_party_list(
                "custodians"@,
                "custodian"@,
                ps,
            ));
            lemma_rt_party_list("custodians"@, "custodian"@, ps, s, p1);
            assert(st2 =~= DataGovernanceV { custodians: Some(ps), ..st1 });
            assert(sdec_governance_loop(s, p1, st1) == sdec_governance_loop(s, p2, st2));
        },
        None => {
            assert(st2 =~= st1);
        },
    }
    let p3 = p2 + ls;
    let st3 = DataGovernanceV { stewards: g.stewards, ..st2 };
    match g.stewards {
        Some(ps) => {
            lemma_slice_of_slice(s, i, e, 1 + lo + lc, ls);
            assert(e.subrange(1 + lo + lc, 1 + lo + lc + ls) =~= senc_party_list(
                "stewards"@,
                "steward"@,
                ps,
            ));
            lemma_rt_party_list("stewards"@, "steward"@, ps, s, p2);
            assert(st3 =~= DataGovernanceV { stewards: Some(ps), ..st2 });
            assert(sdec_governance_loop(s, p2, st2) == sdec_governance_loop(s, p3, st3));
        },
        None => {
            assert(st3 =~= st2);
        },
    }
    lemma_slice_index(s, i, e, 1 + lo + lc + ls);
    assert(s[p3] == (EventV::End { name: "governance"@ }));
    assert(sdec_governance_loop(s, p3, st3) == (Ok::<DataGovernanceV, DecodeErrorV>(st3), p3 + 1));
    assert(st3 =~= g);
}

// ---------------------------------------------------------------------
// Performance metric
// ---------------------------------------------------------------------

/// Round trip of one `performanceMetric` element placed anywhere in a
/// stream.
#[verifier::rlimit(100)]
#[verifier::spinoff_prover]
pub proof fn lemma_rt_metric(m: PerformanceMetricV, s: Seq<EventV>, i: int)
    requires
        0 <= i,
        i + senc_metric(m).len() <= s.len(),
        s.subrange(i, i + senc_metric(m).len()) == senc_metric(m),
    ensures
        s[i] == (EventV::Start { name: "performanceMetric"@, attrs: Seq::<AttrV>::empty() }),
        sdec_metric(s, i + 1) == (
            Ok::<PerformanceMetricV, DecodeErrorV>(m),
            i + senc_metric(m).len(),
        ),
{
    lemma_metric_tags();
    let e = senc_metric(m);
    let lt = senc_opt_text("type"@, m.metric_type).len() as int;
    let lv = senc_opt_text("value"@, m.value).len() as int;
    let ls = senc_opt_text("slice"@, m.slice).len() as int;
    let cseg = match m.confidence_interval {
        Some(ci) => senc_confidence_interval(ci),
        None => Seq::<EventV>::empty(),
    };
    let lc = cseg.len() as int;
    lemma_slice_index(s, i, e, 0);
    let st0 = metric_init();
    let p1 = i + 1 + lt;
    let st1 = PerformanceMetricV { metric_type: m.metric_type, ..st0 };
    match m.metric_type {
        Some(t) => {
            lemma_slice_of_slice(s, i, e, 1, 3);
            assert(e.subrange(1, 4) =~= senc_text("type"@, t));
            lemma_rt_text("type"@, t, s, i + 1);
            assert(st1 =~= PerformanceMetricV { metric_type: Some(t), ..st0 });
            assert(sdec_metric_loop(s, i + 1, st0) == sdec_metric_loop(s, p1, st1));
        },
        None => {
            assert(st1 =~= st0);
        },
    }
    let p2 = p1 + lv;
    let st2 = PerformanceMetricV { value: m.value, ..st1 };
    match m.value {
        Some(t) => {
            lemma_slice_of_slice(s, i, e, 1 + lt, 3);
            assert(e.subrange(1 + lt, 1 + lt + 3) =~= senc_text("value"@, t));
            lemma_rt_text("value"@, t, s, p1);
            assert(st2 =~= PerformanceMetricV { value: Some(t), ..st1 });
            assert(sdec_metric_loop(s, p1, st1) == sdec_metric_loop(s, p2, st2));
        },
        None => {
            assert(st2 =~= st1);
        },
    }
    let p3 = p2 + ls;
    let st3 = PerformanceMetricV { slice: m.slice, ..st2 };
    match m.slice {
        Some(t) => {
            lemma_slice_of_slice(s, i, e, 1 + lt + lv, 3);
            assert(e.subrange(1 + lt + lv, 1 + lt + lv + 3) =~= senc_text("slice"@, t));
            lemma_rt_text("slice"@, t, s, p2);
            assert(st3 =~= PerformanceMetricV { slice: Some(t), ..st2 });
            assert(sdec_metric_loop(s, p2, st2) == sdec_metric_loop(s, p3, st3));
        },
        None => {
            assert(st3 =~= st2);
        },
    }
    let p4 = p3 + lc;
    let st4 = PerformanceMetricV { confidence_interval: m.confidence_interval, ..st3 };
    match m.confidence_interval {
        Some(ci) => {
            lemma_slice_of_slice(s, i, e, 1 + lt + lv + ls, lc);
            assert(e.subrange(1 + lt + lv + ls, 1 + lt + lv + ls + lc) =~= senc_confidence_interval(
                ci,
            ));
            lemma_rt_confidence_interval(ci, s, p3);
            assert(st4 =~= PerformanceMetricV { confidence_interval: Some(ci), ..st3 });
            assert(sdec_metric_loop(s, p3, st3) == sdec_metric_loop(s, p4, st4));
        },
        None => {
            assert(st4 =~= st3);
        },
    }
    lemma_slice_index(s, i, e, 1 + lt + lv + ls + lc);
    assert(s[p4] == (EventV::End { name: "performanceMetric"@ }));
    assert(sdec_metric_loop(s, p4, st4) == (Ok::<PerformanceMetricV, DecodeErrorV>(st4), p4 + 1));
    assert(st4 =~= m);
}

/// Walking a run of `performanceMetric` items accumulates them in order
/// up to the wrapper's close tag.
pub proof fn lemma_rt_metric_items(
    items: Seq<PerformanceMetricV>,
    acc: Seq<PerformanceMetricV>,
    s: Seq<EventV>,
    i: int,
)
    requires
        0 <= i,
        i + senc_metric_items(items).len() + 1 <= s.len(),
        s.subrange(i, i + senc_metric_items(items).len() + 1) == senc_metric_items(items) + seq![
            EventV::End { name: "performanceMetrics"@ },
        ],
    ensures
        sdec_metrics_loop(s, i, acc) == (
            Ok::<Seq<PerformanceMetricV>, DecodeErrorV>(acc + items),
            i + senc_metric_items(items).len() + 1,
        ),
    decreases items.len(),
{
    let e = senc_metric_items(items) + seq![EventV::End { name: "performanceMetrics"@ }];
    if items.len() == 0 {
        lemma_slice_index(s, i, e, 0);
        assert(s[i] == (EventV::End { name: "performanceMetrics"@ }));
        assert(acc + items =~= acc);
    } else {
        let m0 = items[0];
        let l0 = senc_metric(m0).len() as int;
        lemma_slice_of_slice(s, i, e, 0, l0);
        assert(e.subrange(0, l0) =~= senc_metric(m0));
        lemma_rt_metric(m0, s, i);
        assert(sdec_metrics_loop(s, i, acc) == sdec_metrics_loop(s, i + l0, acc.push(m0)));
        lemma_slice_of_slice(s, i, e, l0, e.len() - l0);
        assert(e.subrange(l0, e.len() as int) =~= senc_metric_items(items.drop_first()) + seq![
            EventV::End { name: "performanceMetrics"@ },
        ]);
        lemma_rt_metric_items(items.drop_first(), acc.push(m0), s, i + l0);
        assert(acc.push(m0) + items.drop_first() =~= acc + items);
    }
}

/// Round trip of one `performanceMetrics` element placed anywhere in a
/// stream.
pub proof fn lemma_rt_metrics(items: Seq<PerformanceMetricV>, s: Seq<EventV>, i: int)
    requires
        0 <= i,
        i + senc_metrics(items).len() <= s.len(),
        s.subrange(i, i + senc_metrics(items).len()) == senc_metrics(items),
    ensures
        s[i] == (EventV::Start { name: "performanceMetrics"@, attrs: Seq::<AttrV>::empty() }),
        sdec_metrics(s, i + 1) == (
            Ok::<Seq<PerformanceMetricV>, DecodeErrorV>(items),
            i + senc_metrics(items).len(),
        ),
{
    let e = senc_metrics(items);
    let li = senc_metric_items(items).len() as int;
    lemma_slice_index(s, i, e, 0);
    lemma_slice_of_slice(s, i, e, 1, li + 1);
    assert(e.subrange(1, 1 + li + 1) =~= senc_metric_items(items) + seq![
        EventV::End { name: "performanceMetrics"@ },
    ]);
    lemma_rt_metric_items(items, Seq::empty(), s, i + 1);
    assert(Seq::<PerformanceMetricV>::empty() + items =~= items);
}

// ---------------------------------------------------------------------
// Graphics
// ---------------------------------------------------------------------

/// Round trip of one `graphic` element placed anywhere in a stream.
pub proof fn lemma_rt_graphic(g: GraphicV, s: Seq<EventV>, i: int)
    requires
        0 <= i,
        i + senc_graphic(g).len() <= s.len(),
        s.subrange(i, i + senc_graphic(g).len()) == senc_graphic(g),
    ensures
        s[i] == (EventV::Start { name: "graphic"@, attrs: Seq::<AttrV>::empty() }),
        sdec_graphic(s, i + 1) == (Ok::<GraphicV, DecodeErrorV>(g), i + senc_graphic(g).len()),
{
    lemma_graphic_tags();
    let e = senc_graphic(g);
    let ln = senc_opt_text("name"@, g.name).len() as int;
    let iseg = match g.image {
        Some(a) => senc_attachment("image"@, a),
        None => Seq::<EventV>::empty(),
    };
    let li = iseg.len() as int;
    lemma_slice_index(s, i, e, 0);
    let st0 = graphic_init();
    let p1 = i + 1 + ln;
    let st1 = GraphicV { name: g.name, ..st0 };
    match g.name {
        Some(t) => {
            lemma_slice_of_slice(s, i, e, 1, 3);
            assert(e.subrange(1, 4) =~= senc_text("name"@, t));
            lemma_rt_text("name"@, t, s, i + 1);
            assert(st1 =~= GraphicV { name: Some(t), ..st0 });
            assert(sdec_graphic_loop(s, i + 1, st0) == sdec_graphic_loop(s, p1, st1));
        },
        None => {
            assert(st1 =~= st0);
        },
    }
    let p2 = p1 + li;
    let st2 = GraphicV { image: g.image, ..st1 };
    match g.image {
        Some(a) => {
            lemma_slice_of_slice(s, i, e, 1 + ln, li);
            assert(e.subrange(1 + ln, 1 + ln + li) =~= senc_attachment("image"@, a));
            lemma_rt_attachment("image"@, a, s, p1);
            assert(st2 =~= GraphicV { image: Some(a), ..st1 });
            assert(sdec_graphic_loop(s, p1, st1) == sdec_graphic_loop(s, p2, st2));
        },
        None => {
            assert(st2 =~= st1);
        },
    }
    lemma_slice_index(s, i, e, 1 + ln + li);
    assert(s[p2] == (EventV::End { name: "graphic"@ }));
    assert(sdec_graphic_loop(s, p2, st2) == (Ok::<GraphicV, DecodeErrorV>(st2), p2 + 1));
    assert(st2 =~= g);
}

/// Walking a run of `graphic` items accumulates them in order up to the
/// wrapper's close tag.
pub proof fn lemma_rt_graphic_items(items: Seq<GraphicV>, acc: Seq<GraphicV>, s: Seq<EventV>, i: int)
    requires
        0 <= i,
        i + senc_graphic_items(items).len() + 1 <= s.len(),
        s.subrange(i, i + senc_graphic_items(items).len() + 1) == senc_graphic_items(items) + seq![
            EventV::End { name: "collection"@ },
        ],
    ensures
        sdec_collection_loop(s, i, acc) == (
            Ok::<Seq<GraphicV>, DecodeErrorV>(acc + items),
            i + senc_graphic_items(items).len() + 1,
        ),
    decreases items.len(),
{
    let e = senc_graphic_items(items) + seq![EventV::End { name: "collection"@ }];
    if items.len() == 0 {
        lemma_slice_index(s, i, e, 0);
        assert(s[i] == (EventV::End { name: "collection"@ }));
        assert(acc + items =~= acc);
    } else {
        let g0 = items[0];
        let l0 = senc_graphic(g0).len() as int;
        lemma_slice_of_slice(s, i, e, 0, l0);
        assert(e.subrange(0, l0) =~= senc_graphic(g0));
        lemma_rt_graphic(g0, s, i);
        assert(sdec_collection_loop(s, i, acc) == sdec_collection_loop(s, i + l0, acc.push(g0)));
        lemma_slice_of_slice(s, i, e, l0, e.len() - l0);
        assert(e.subrange(l0, e.len() as int) =~= senc_graphic_items(items.drop_first()) + seq![
            EventV::End { name: "collection"@ },
        ]);
        lemma_rt_graphic_items(items.drop_first(), acc.push(g0), s, i + l0);
        assert(acc.push(g0) + items.drop_first() =~= acc + items);
    }
}

/// Round trip of one `collection` element placed anywhere in a stream.
pub proof fn lemma_rt_collection(items: Seq<GraphicV>, s: Seq<EventV>, i: int)
    requires
        0 <= i,
        i + senc_collection(items).len() <= s.len(),
        s.subrange(i, i + senc_collection(items).len()) == senc_collection(items),
    ensures
        s[i] == (EventV::Start { name: "collection"@, attrs: Seq::<AttrV>::empty() }),
        sdec_collection(s, i + 1) == (
            Ok::<Seq<GraphicV>, DecodeErrorV>(items),
            i + senc_collection(items).len(),
        ),
{
    let e = senc_collection(items);
    let li = senc_graphic_items(items).len() as int;
    lemma_slice_index(s, i, e, 0);
    lemma_slice_of_slice(s, i, e, 1, li + 1);
    assert(e.subrange(1, 1 + li + 1) =~= senc_graphic_items(items) + seq![
        EventV::End { name: "collection"@ },
    ]);
    lemma_rt_graphic_items(items, Seq::empty(), s, i + 1);
    assert(Seq::<GraphicV>::empty() + items =~= items);
}

/// Round trip of one `graphics` element placed anywhere in a stream.
pub proof fn lemma_rt_graphics(g: GraphicsV, s: Seq<EventV>, i: int)
    requires
        0 <= i,
        i + senc_graphics(g).len() <= s.len(),
        s.subrange(i, i + senc_graphics(g).len()) == senc_graphics(g),
    ensures
        s[i] == (EventV::Start { name: "graphics"@, attrs: Seq::<AttrV>::empty() }),
        sdec_graphics(s, i + 1) == (Ok::<GraphicsV, DecodeErrorV>(g), i + senc_graphics(g).len()),
{
    lemma_graphics_tags();
    let e = senc_graphics(g);
    let ld = senc_opt_text("description"@, g.description).len() as int;
    let cseg = match g.collection {
        Some(c) => senc_collection(c),
        None => Seq::<EventV>::empty(),
    };
    let lc = cseg.len() as int;
    lemma_slice_index(s, i, e, 0);
    let st0 = graphics_init();
    let p1 = i + 1 + ld;
    let st1 = GraphicsV { description: g.description, ..st0 };
    match g.description {
        Some(t) => {
            lemma_slice_of_slice(s, i, e, 1, 3);
            assert(e.subrange(1, 4) =~= senc_text("description"@, t));
            lemma_rt_text("description"@, t, s, i + 1);
            assert(st1 =~= GraphicsV { description: Some(t), ..st0 });
            assert(sdec_graphics_loop(s, i + 1, st0) == sdec_graphics_loop(s, p1, st1));
        },
        None => {
            assert(st1 =~= st0);
        },
    }
    let p2 = p1 + lc;
    let st2 = GraphicsV { collection: g.collection, ..st1 };
    match g.collection {
        Some(c) => {
            lemma_slice_of_slice(s, i, e, 1 + ld, lc);
            assert(e.subrange(1 + ld, 1 + ld + lc) =~= senc_collection(c));
            lemma_rt_collection(c, s, p1);
            assert(st2 =~= GraphicsV { collection: Some(c), ..st1 });
            assert(sdec_graphics_loop(s, p1, st1) == sdec_graphics_loop(s, p2, st2));
        },
        None => {
            assert(st2 =~= st1);
        },
    }
    lemma_slice_index(s, i, e, 1 + ld + lc);
    assert(s[p2] == (EventV::End { name: "graphics"@ }));
    assert(sdec_graphics_loop(s, p2, st2) == (Ok::<GraphicsV, DecodeErrorV>(st2), p2 + 1));
    assert(st2 =~= g);
}

// ---------------------------------------------------------------------
// Properties
// ---------------------------------------------------------------------

/// Walking a run of `property` items accumulates them in order up to the
/// wrapper's close tag.
pub proof fn lemma_rt_property_items(items: Seq<PropertyV>, acc: Seq<PropertyV>, s: Seq<EventV>, i: int)
    requires
        0 <= i,
        i + senc_property_items(items).len() + 1 <= s.len(),
        s.subrange(i, i + senc_property_items(items).len() + 1) == senc_property_items(items)
            + seq![EventV::End { name: "properties"@ }],
    ensures
        sdec_properties_loop(s, i, acc) == (
            Ok::<Seq<PropertyV>, DecodeErrorV>(acc + items),
            i + senc_property_items(items).len() + 1,
        ),
    decreases items.len(),
{
    let e = senc_property_items(items) + seq![EventV::End { name: "properties"@ }];
    if items.len() == 0 {
        lemma_slice_index(s, i, e, 0);
        assert(s[i] == (EventV::End { name: "properties"@ }));
        assert(acc + items =~= acc);
    } else {
        let p0 = items[0];
        let l0 = senc_property(p0).len() as int;
        lemma_slice_of_slice(s, i, e, 0, l0);
        assert(e.subrange(0, l0) =~= senc_property(p0));
        lemma_rt_property(p0, s, i);
        assert(sdec_properties_loop(s, i, acc) == sdec_properties_loop(s, i + l0, acc.push(p0)));
        lemma_slice_of_slice(s, i, e, l0, e.len() - l0);
        assert(e.subrange(l0, e.len() as int) =~= senc_property_items(items.drop_first()) + seq![
            EventV::End { name: "properties"@ },
        ]);
        lemma_rt_property_items(items.drop_first(), acc.push(p0), s, i + l0);
        assert(acc.push(p0) + items.drop_first() =~= acc + items);
    }
}

/// Round trip of one `properties` element placed anywhere in a stream.
pub proof fn lemma_rt_properties(items: Seq<PropertyV>, s: Seq<EventV>, i: int)
    requires
        0 <= i,
        i + senc_properties(items).len() <= s.len(),
        s.subrange(i, i + senc_properties(items).len()) == senc_properties(items),
    ensures
        s[i] == (EventV::Start { name: "properties"@, attrs: Seq::<AttrV>::empty() }),
        sdec_properties(s, i + 1) == (
            Ok::<Seq<PropertyV>, DecodeErrorV>(items),
            i + senc_properties(items).len(),
        ),
{
    let e = senc_properties(items);
    let li = senc_property_items(items).len() as int;
    lemma_slice_index(s, i, e, 0);
    lemma_slice_of_slice(s, i, e, 1, li + 1);
    assert(e.subrange(1, 1 + li + 1) =~= senc_property_items(items) + seq![
        EventV::End { name: "properties"@ },
    ]);
    lemma_rt_property_items(items, Seq::empty(), s, i + 1);
    assert(Seq::<PropertyV>::empty() + items =~= items);
}

// ---------------------------------------------------------------------
// Data contents
// ---------------------------------------------------------------------

/// Round trip of one `contents` element placed anywhere in a stream.
pub proof fn lemma_rt_contents(c: DataContentsV, s: Seq<EventV>, i: int)
    requires
        0 <= i,
        i + senc_contents(c).len() <= s.len(),
        s.subrange(i, i + senc_contents(c).len()) == senc_contents(c),
    ensures
        s[i] == (EventV::Start { name: "contents"@, attrs: Seq::<AttrV>::empty() }),
        sdec_contents(s, i + 1) == (Ok::<DataContentsV, DecodeErrorV>(c), i + senc_contents(c).len()),
{
    lemma_contents_tags();
    let e = senc_contents(c);
    let aseg = match c.attachment {
        Some(a) => senc_attachment("attachment"@, a),
        None => Seq::<EventV>::empty(),
    };
    let la = aseg.len() as int;
    let lu = senc_opt_text("url"@, c.url).len() as int;
    let pseg = match c.properties {
        Some(ps) => senc_properties(ps),
        None => Seq::<EventV>::empty(),
    };
    let lp = pseg.len() as int;
    lemma_slice_index(s, i, e, 0);
    let st0 = contents_init();
    let p1 = i + 1 + la;
    let st1 = DataContentsV { attachment: c.attachment, ..st0 };
    match c.attachment {
        Some(a) => {
            lemma_slice_of_slice(s, i, e, 1, la);
            assert(e.subrange(1, 1 + la) =~= senc_attachment("attachment"@, a));
            lemma_rt_attachment("attachment"@, a, s, i + 1);
            assert(st1 =~= DataContentsV { attachment: Some(a), ..st0 });
            assert(sdec_contents_loop(s, i + 1, st0) == sdec_contents_loop(s, p1, st1));
        },
        None => {
            assert(st1 =~= st0);
        },
    }
    let p2 = p1 + lu;
    let st2 = DataContentsV { url: c.url, ..st1 };
    match c.url {
        Some(t) => {
            lemma_slice_of_slice(s, i, e, 1 + la, 3);
            assert(e.subrange(1 + la, 1 + la + 3) =~= senc_text("url"@, t));
            lemma_rt_text("url"@, t, s, p1);
            assert(st2 =~= DataContentsV { url: Some(t), ..st1 });
            assert(sdec_contents_loop(s, p1, st1) == sdec_contents_loop(s, p2, st2));
        },
        None => {
            assert(st2 =~= st1);
        },
    }
    let p3 = p2 + lp;
    let st3 = DataContentsV { properties: c.properties, ..st2 };
    match c.properties {
        Some(ps) => {
            lemma_slice_of_slice(s, i, e, 1 + la + lu, lp);
            assert(e.subrange(1 + la + lu, 1 + la + lu + lp) =~= senc_properties(ps));
            lemma_rt_properties(ps, s, p2);
            assert(st3 =~= DataContentsV { properties: Some(ps), ..st2 });
            assert(sdec_contents_loop(s, p2, st2) == sdec_contents_loop(s, p3, st3));
        },
        None => {
            assert(st3 =~= st2);
        },
    }
    lemma_slice_index(s, i, e, 1 + la + lu + lp);
    assert(s[p3] == (EventV::End { name: "contents"@ }));
    assert(sdec_contents_loop(s, p3, st3) == (Ok::<DataContentsV, DecodeErrorV>(st3), p3 + 1));
    assert(st3 =~= c);
}

// ---------------------------------------------------------------------
// Dataset
// ---------------------------------------------------------------------

/// A dataset the encoder can reproduce (see `wf_organization`).
pub open spec fn wf_dataset(d: DatasetV) -> bool {
    match d {
        DatasetV::Component(c) => match c.governance {
            Some(g) => wf_governance(g),
            None => true,
        },
        DatasetV::Reference(r) => true,
    }
}

pub open spec fn wf_datasets(items: Seq<DatasetV>) -> bool {
    forall|k: int| 0 <= k < items.len() ==> wf_dataset(#[trigger] items[k])
}

/// The first half of an inline-object dataset's children.
pub open spec fn senc_comp_a(c: ComponentDataV) -> Seq<EventV> {
    senc_text("type"@, c.data_type) + senc_opt_text("name"@, c.name) + (match c.contents {
        Some(x) => senc_contents(x),
        None => Seq::empty(),
    }) + senc_opt_text("classification"@, c.classification)
}

/// The second half of an inline-object dataset's children.
pub open spec fn senc_comp_b(c: ComponentDataV) -> Seq<EventV> {
    senc_opt_text("sensitiveData"@, c.sensitive_data) + (match c.graphics {
        Some(g) => senc_graphics(g),
        None => Seq::empty(),
    }) + senc_opt_text("description"@, c.description) + (match c.governance {
        Some(g) => senc_governance(g),
        None => Seq::empty(),
    })
}

/// Walking the first half of an inline-object dataset's children fills
/// the matching fields.
#[verifier::rlimit(100)]
#[verifier::spinoff_prover]
pub proof fn lemma_rt_component_a(c: ComponentDataV, st: DatasetSt, s: Seq<EventV>, i: int)
    requires
        st.data_type == None::<Seq<char>>,
        st.name == None::<Seq<char>>,
        st.contents == None::<DataContentsV>,
        st.classification == None::<Seq<char>>,
        0 <= i,
        i + senc_comp_a(c).len() <= s.len(),
        s.subrange(i, i + senc_comp_a(c).len()) == senc_comp_a(c),
    ensures
        sdec_dataset_loop(s, i, st) == sdec_dataset_loop(
            s,
            i + senc_comp_a(c).len(),
            DatasetSt {
                data_type: Some(c.data_type),
                name: c.name,
                contents: c.contents,
                classification: c.classification,
                ..st
            },
        ),
{
    lemma_dataset_tags();
    let e = senc_comp_a(c);
    let lt = 3int;
    let ln = senc_opt_text("name"@, c.name).len() as int;
    let cseg = match c.contents {
        Some(x) => senc_contents(x),
        None => Seq::<EventV>::empty(),
    };
    let lc = cseg.len() as int;
    let lcl = senc_opt_text("classification"@, c.classification).len() as int;
    lemma_slice_of_slice(s, i, e, 0, 3);
    assert(e.subrange(0, 3) =~= senc_text("type"@, c.data_type));
    lemma_rt_text("type"@, c.data_type, s, i);
    let p1 = i + 3;
    let st1 = DatasetSt { data_type: Some(c.data_type), ..st };
    assert(sdec_dataset_loop(s, i, st) == sdec_dataset_loop(s, p1, st1));
    let p2 = p1 + ln;
    let st2 = DatasetSt { name: c.name, ..st1 };
    match c.name {
        Some(t) => {
            lemma_slice_of_slice(s, i, e, lt, 3);
            assert(e.subrange(lt, lt + 3) =~= senc_text("name"@, t));
            lemma_rt_text("name"@, t, s, p1);
            assert(st2 =~= DatasetSt { name: Some(t), ..st1 });
            assert(sdec_dataset_loop(s, p1, st1) == sdec_dataset_loop(s, p2, st2));
        },
        None => {
            assert(st2 =~= st1);
        },
    }
    let p3 = p2 + lc;
    let st3 = DatasetSt { contents: c.contents, ..st2 };
    match c.contents {
        Some(x) => {
            lemma_slice_of_slice(s, i, e, lt + ln, lc);
            assert(e.subrange(lt + ln, lt + ln + lc) =~= senc_contents(x));
            lemma_rt_contents(x, s, p2);
            assert(st3 =~= DatasetSt { contents: Some(x), ..st2 });
            assert(sdec_dataset_loop(s, p2, st2) == sdec_dataset_loop(s, p3, st3));
        },
        None => {
            assert(st3 =~= st2);
        },
    }
    let p4 = p3 + lcl;
    let st4 = DatasetSt { classification: c.classification, ..st3 };
    match c.classification {
        Some(t) => {
            lemma_slice_of_slice(s, i, e, lt + ln + lc, 3);
            assert(e.subrange(lt + ln + lc, lt + ln + lc + 3) =~= senc_text("classification"@, t));
            lemma_rt_text("classification"@, t, s, p3);
            assert(st4 =~= DatasetSt { classification: Some(t), ..st3 });
            assert(sdec_dataset_loop(s, p3, st3) == sdec_dataset_loop(s, p4, st4));
        },
        None => {
            assert(st4 =~= st3);
        },
    }
    assert(st4 =~= (DatasetSt {
        data_type: Some(c.data_type),
        name: c.name,
        contents: c.contents,
        classification: c.classification,
        ..st
    }));
}

/// Walking the second half of an inline-object dataset's children fills
/// the matching fields.
#[verifier::rlimit(100)]
#[verifier::spinoff_prover]
pub proof fn lemma_rt_component_b(c: ComponentDataV, st: DatasetSt, s: Seq<EventV>, i: int)
    requires
        (match c.governance {
            Some(g) => wf_governance(g),
            None => true,
        }),
        st.sensitive_data == None::<Seq<char>>,
        st.graphics == None::<GraphicsV>,
        st.description == None::<Seq<char>>,
        st.governance == None::<DataGovernanceV>,
        0 <= i,
        i + senc_comp_b(c).len() <= s.len(),
        s.subrange(i, i + senc_comp_b(c).len()) == senc_comp_b(c),
    ensures
        sdec_dataset_loop(s, i, st) == sdec_dataset_loop(
            s,
            i + senc_comp_b(c).len(),
            DatasetSt {
                sensitive_data: c.sensitive_data,
                graphics: c.graphics,
                description: c.description,
                governance: c.governance,
                ..st
            },
        ),
{
    lemma_dataset_tags();
    let e = senc_comp_b(c);
    let lsd = senc_opt_text("sensitiveData"@, c.sensitive_data).len() as int;
    let gseg = match c.graphics {
        Some(g) => senc_graphics(g),
        None => Seq::<EventV>::empty(),
    };
    let lg = gseg.len() as int;
    let ld = senc_opt_text("description"@, c.description).len() as int;
    let vseg = match c.governance {
        Some(g) => senc_governance(g),
        None => Seq::<EventV>::empty(),
    };
    let lv = vseg.len() as int;
    let p1 = i + lsd;
    let st1 = DatasetSt { sensitive_data: c.sensitive_data, ..st };
    match c.sensitive_data {
        Some(t) => {
            lemma_slice_of_slice(s, i, e, 0, 3);
            assert(e.subrange(0, 3) =~= senc_text("sensitiveData"@, t));
            lemma_rt_text("sensitiveData"@, t, s, i);
            assert(st1 =~= DatasetSt { sensitive_data: Some(t), ..st });
            assert(sdec_dataset_loop(s, i, st) == sdec_dataset_loop(s, p1, st1));
        },
        None => {
            assert(st1 =~= st);
        },
    }
    let p2 = p1 + lg;
    let st2 = DatasetSt { graphics: c.graphics, ..st1 };
    match c.graphics {
        Some(g) => {
            lemma_slice_of_slice(s, i, e, lsd, lg);
            assert(e.subrange(lsd, lsd + lg) =~= senc_graphics(g));
            lemma_rt_graphics(g, s, p1);
            assert(st2 =~= DatasetSt { graphics: Some(g), ..st1 });
            assert(sdec_dataset_loop(s, p1, st1) == sdec_dataset_loop(s, p2, st2));
        },
        None => {
            assert(st2 =~= st1);
        },
    }
    let p3 = p2 + ld;
    let st3 = DatasetSt { description: c.description, ..st2 };
    match c.description {
        Some(t) => {
            lemma_slice_of_slice(s, i, e, lsd + lg, 3);
            assert(e.subrange(lsd + lg, lsd + lg + 3) =~= senc_text("description"@, t));
            lemma_rt_text("description"@, t, s, p2);
            assert(st3 =~= DatasetSt { description: Some(t), ..st2 });
            assert(sdec_dataset_loop(s, p2, st2) == sdec_dataset_loop(s, p3, st3));
        },
        None => {
            assert(st3 =~= st2);
        },
    }
    let p4 = p3 + lv;
    let st4 = DatasetSt { governance: c.governance, ..st3 };
    match c.governance {
        Some(g) => {
            lemma_slice_of_slice(s, i, e, lsd + lg + ld, lv);
            assert(e.subrange(lsd + lg + ld, lsd + lg + ld + lv) =~= senc_governance(g));
            lemma_rt_governance(g, s, p3);
            assert(st4 =~= DatasetSt { governance: Some(g), ..st3 });
            assert(sdec_dataset_loop(s, p3, st3) == sdec_dataset_loop(s, p4, st4));
        },
        None => {
            assert(st4 =~= st3);
        },
    }
    assert(st4 =~= (DatasetSt {
        sensitive_data: c.sensitive_data,
        graphics: c.graphics,
        description: c.description,
        governance: c.governance,
        ..st
    }));
}

/// Round trip of one `dataset` element placed anywhere in a stream.  For
/// an inline object the mandatory `type` child is always written, so the
/// disambiguation picks the object shape back; for a reference only the
/// `ref` child is written, so the reference shape is picked back.
#[verifier::rlimit(100)]
#[verifier::spinoff_prover]
pub proof fn lemma_rt_dataset(d: DatasetV, s: Seq<EventV>, i: int)
    requires
        wf_dataset(d),
        0 <= i,
        i + senc_dataset(d).len() <= s.len(),
        s.subrange(i, i + senc_dataset(d).len()) == senc_dataset(d),
    ensures
        ({
            let battrs = match d {
                DatasetV::Component(c) => opt_attr("bom-ref"@, c.bom_ref),
                DatasetV::Reference(r) => Seq::<AttrV>::empty(),
            };
            &&& s[i] == (EventV::Start { name: "dataset"@, attrs: battrs })
            &&& sdec_dataset(s, i + 1, battrs) == (
                Ok::<DatasetV, DecodeErrorV>(d),
                i + senc_dataset(d).len(),
            )
        }),
{
    lemma_dataset_tags();
    let e = senc_dataset(d);
    match d {
        DatasetV::Reference(r) => {
            lemma_find_bom_ref(None);
            lemma_slice_index(s, i, e, 0);
            lemma_slice_of_slice(s, i, e, 1, 3);
            assert(e.subrange(1, 4) =~= senc_text("ref"@, r));
            lemma_rt_text("ref"@, r, s, i + 1);
            let st0 = dataset_init(Seq::empty());
            let st1 = DatasetSt { reference: Some(r), ..st0 };
            assert(sdec_dataset_loop(s, i + 1, st0) == sdec_dataset_loop(s, i + 4, st1));
            lemma_slice_index(s, i, e, 4);
            assert(s[i + 4] == (EventV::End { name: "dataset"@ }));
            assert(!dataset_has_object_field(st1));
            assert(sdec_dataset_loop(s, i + 4, st1) == (dataset_finish(st1), i + 5));
            assert(dataset_finish(st1) == Ok::<DatasetV, DecodeErrorV>(DatasetV::Reference(r)));
        },
        DatasetV::Component(c) => {
            lemma_find_bom_ref(c.bom_ref);
            let battrs = opt_attr("bom-ref"@, c.bom_ref);
            let la = senc_comp_a(c).len() as int;
            let lb = senc_comp_b(c).len() as int;
            assert(e =~= seq![EventV::Start { name: "dataset"@, attrs: battrs }] + senc_comp_a(c)
                + senc_comp_b(c) + seq![EventV::End { name: "dataset"@ }]);
            lemma_slice_index(s, i, e, 0);
            let st0 = dataset_init(battrs);
            lemma_slice_of_slice(s, i, e, 1, la);
            assert(e.subrange(1, 1 + la) =~= senc_comp_a(c));
            lemma_rt_component_a(c, st0, s, i + 1);
            let sta = DatasetSt {
                data_type: Some(c.data_type),
                name: c.name,
                contents: c.contents,
                classification: c.classification,
                ..st0
            };
            lemma_slice_of_slice(s, i, e, 1 + la, lb);
            assert(e.subrange(1 + la, 1 + la + lb) =~= senc_comp_b(c));
            lemma_rt_component_b(c, sta, s, i + 1 + la);
            let stb = DatasetSt {
                sensitive_data: c.sensitive_data,
                graphics: c.graphics,
                description: c.description,
                governance: c.governance,
                ..sta
            };
            lemma_slice_index(s, i, e, 1 + la + lb);
            assert(s[i + 1 + la + lb] == (EventV::End { name: "dataset"@ }));
            assert(sdec_dataset_loop(s, i + 1 + la + lb, stb) == (
                dataset_finish(stb),
                i + 1 + la + lb + 1,
            ));
            assert(dataset_has_object_field(stb));
            assert(dataset_finish(stb) == Ok::<DatasetV, DecodeErrorV>(
                DatasetV::Component(
                    ComponentDataV {
                        bom_ref: stb.bom_ref,
                        data_type: c.data_type,
                        name: stb.name,
                        contents: stb.contents,
                        classification: stb.classification,
                        sensitive_data: stb.sensitive_data,
                        graphics: stb.graphics,
                        description: stb.description,
                        governance: stb.governance,
                    },
                ),
            ));
            assert((ComponentDataV {
                bom_ref: stb.bom_ref,
                data_type: c.data_type,
                name: stb.name,
                contents: stb.contents,
                classification: stb.classification,
                sensitive_data: stb.sensitive_data,
                graphics: stb.graphics,
                description: stb.description,
                governance: stb.governance,
            }) =~= c);
        },
    }
}

/// Walking a run of `dataset` items accumulates them in order up to the
/// wrapper's close tag.
pub proof fn lemma_rt_dataset_items(items: Seq<DatasetV>, acc: Seq<DatasetV>, s: Seq<EventV>, i: int)
    requires
        wf_datasets(items),
        0 <= i,
        i + senc_dataset_items(items).len() + 1 <= s.len(),
        s.subrange(i, i + senc_dataset_items(items).len() + 1) == senc_dataset_items(items) + seq![
            EventV::End { name: "datasets"@ },
        ],
    ensures
        sdec_datasets_loop(s, i, acc) == (
            Ok::<Seq<DatasetV>, DecodeErrorV>(acc + items),
            i + senc_dataset_items(items).len() + 1,
        ),
    decreases items.len(),
{
    let e = senc_dataset_items(items) + seq![EventV::End { name: "datasets"@ }];
    if items.len() == 0 {
        lemma_slice_index(s, i, e, 0);
        assert(s[i] == (EventV::End { name: "datasets"@ }));
        assert(acc + items =~= acc);
    } else {
        let d0 = items[0];
        assert(wf_dataset(items[0]));
        let l0 = senc_dataset(d0).len() as int;
        lemma_slice_of_slice(s, i, e, 0, l0);
        assert(e.subrange(0, l0) =~= senc_dataset(d0));
        lemma_rt_dataset(d0, s, i);
        assert(sdec_datasets_loop(s, i, acc) == sdec_datasets_loop(s, i + l0, acc.push(d0)));
        lemma_slice_of_slice(s, i, e, l0, e.len() - l0);
        assert(e.subrange(l0, e.len() as int) =~= senc_dataset_items(items.drop_first()) + seq![
            EventV::End { name: "datasets"@ },
        ]);
        assert(wf_datasets(items.drop_first())) by {
            assert(forall|k: int|
                0 <= k < items.drop_first().len() ==> #[trigger] items.drop_first()[k] == items[k
                    + 1]);
        }
        lemma_rt_dataset_items(items.drop_first(), acc.push(d0), s, i + l0);
        assert(acc.push(d0) + items.drop_first() =~= acc + items);
    }
}

/// Round trip of one `datasets` element placed anywhere in a stream.
pub proof fn lemma_rt_datasets(items: Seq<DatasetV>, s: Seq<EventV>, i: int)
    requires
        wf_datasets(items),
        0 <= i,
        i + senc_datasets(items).len() <= s.len(),
        s.subrange(i, i + senc_datasets(items).len()) == senc_datasets(items),
    ensures
        s[i] == (EventV::Start { name: "datasets"@, attrs: Seq::<AttrV>::empty() }),
        sdec_datasets(s, i + 1) == (
            Ok::<Seq<DatasetV>, DecodeErrorV>(items),
            i + senc_datasets(items).len(),
        ),
{
    let e = senc_datasets(items);
    let li = senc_dataset_items(items).len() as int;
    lemma_slice_index(s, i, e, 0);
    lemma_slice_of_slice(s, i, e, 1, li + 1);
    assert(e.subrange(1, 1 + li + 1) =~= senc_dataset_items(items) + seq![
        EventV::End { name: "datasets"@ },
    ]);
    lemma_rt_dataset_items(items, Seq::empty(), s, i + 1);
    assert(Seq::<DatasetV>::empty() + items =~= items);
}

// ---------------------------------------------------------------------
// Inputs and outputs
// ---------------------------------------------------------------------

/// Walking a run of `input` or `output` items accumulates them in order
/// up to the wrapper's close tag.
pub proof fn lemma_rt_parameter_items(
    wrapper: Seq<char>,
    item: Seq<char>,
    items: Seq<MLParameterV>,
    acc: Seq<MLParameterV>,
    s: Seq<EventV>,
    i: int,
)
    requires
        item != wrapper,
        0 <= i,
        i + senc_parameter_items(item, items).len() + 1 <= s.len(),
        s.subrange(i, i + senc_parameter_items(item, items).len() + 1) == senc_parameter_items(
            item,
            items,
        ) + seq![EventV::End { name: wrapper }],
    ensures
        sdec_parameter_list_loop(s, i, wrapper, item, acc) == (
            Ok::<Seq<MLParameterV>, DecodeErrorV>(acc + items),
            i + senc_parameter_items(item, items).len() + 1,
        ),
    decreases items.len(),
{
    let e = senc_parameter_items(item, items) + seq![EventV::End { name: wrapper }];
    if items.len() == 0 {
        lemma_slice_index(s, i, e, 0);
        assert(s[i] == (EventV::End { name: wrapper }));
        assert(acc + items =~= acc);
    } else {
        let p0 = items[0];
        let l0 = senc_parameter_item(item, p0).len() as int;
        lemma_slice_of_slice(s, i, e, 0, l0);
        assert(e.subrange(0, l0) =~= senc_parameter_item(item, p0));
        lemma_rt_parameter_item(item, p0, s, i);
        assert(sdec_parameter_list_loop(s, i, wrapper, item, acc) == sdec_parameter_list_loop(
            s,
            i + l0,
            wrapper,
            item,
            acc.push(p0),
        ));
        lemma_slice_of_slice(s, i, e, l0, e.len() - l0);
        assert(e.subrange(l0, e.len() as int) =~= senc_parameter_items(item, items.drop_first())
            + seq![EventV::End { name: wrapper }]);
        lemma_rt_parameter_items(wrapper, item, items.drop_first(), acc.push(p0), s, i + l0);
        assert(acc.push(p0) + items.drop_first() =~= acc + items);
    }
}

/// Round trip of one `inputs` or `outputs` element placed anywhere in a
/// stream.
pub proof fn lemma_rt_parameter_list(
    wrapper: Seq<char>,
    item: Seq<char>,
    items: Seq<MLParameterV>,
    s: Seq<EventV>,
    i: int,
)
    requires
        item != wrapper,
        0 <= i,
        i + senc_parameter_list(wrapper, item, items).len() <= s.len(),
        s.subrange(i, i + senc_parameter_list(wrapper, item, items).len()) == senc_parameter_list(
            wrapper,
            item,
            items,
        ),
    ensures
        s[i] == (EventV::Start { name: wrapper, attrs: Seq::<AttrV>::empty() }),
        sdec_parameter_list(s, i + 1, wrapper, item) == (
            Ok::<Seq<MLParameterV>, DecodeErrorV>(items),
            i + senc_parameter_list(wrapper, item, items).len(),
        ),
{
    let e = senc_parameter_list(wrapper, item, items);
    let li = senc_parameter_items(item, items).len() as int;
    lemma_slice_index(s, i, e, 0);
    lemma_slice_of_slice(s, i, e, 1, li + 1);
    assert(e.subrange(1, 1 + li + 1) =~= senc_parameter_items(item, items) + seq![
        EventV::End { name: wrapper },
    ]);
    lemma_rt_parameter_items(wrapper, item, items, Seq::empty(), s, i + 1);
    assert(Seq::<MLParameterV>::empty() + items =~= items);
}

/// The item tag of each parameter list differs from its wrapper tag.
pub proof fn lemma_parameter_list_tags()
    ensures
        "input"@ != "inputs"@,
        "output"@ != "outputs"@,
{
    reveal_strlit("input");
    reveal_strlit("inputs");
    reveal_strlit("output");
    reveal_strlit("outputs");
    assert("input"@.len() == 5);
    assert("inputs"@.len() == 6);
    assert("output"@.len() == 6);
    assert("outputs"@.len() == 7);
}

// ---------------------------------------------------------------------
// Model parameters
// ---------------------------------------------------------------------

/// Model parameters the encoder can reproduce (see `wf_organization`).
pub open spec fn wf_model_parameters(m: ModelParametersV) -> bool {
    match m.datasets {
        Some(ds) => wf_datasets(ds),
        None => true,
    }
}

/// Walking the scalar children of `modelParameters` fills the matching
/// fields.
#[verifier::rlimit(100)]
#[verifier::spinoff_prover]
pub proof fn lemma_rt_mp_scalars(m: ModelParametersV, st: ModelParametersV, s: Seq<EventV>, i: int)
    requires
        st.approach == None::<ModelParametersApproachV>,
        st.task == None::<Seq<char>>,
        st.architecture_family == None::<Seq<char>>,
        st.model_architecture == None::<Seq<char>>,
        0 <= i,
        i + senc_mp_scalars(m).len() <= s.len(),
        s.subrange(i, i + senc_mp_scalars(m).len()) == senc_mp_scalars(m),
    ensures
        sdec_model_parameters_loop(s, i, st) == sdec_model_parameters_loop(
            s,
            i + senc_mp_scalars(m).len(),
            ModelParametersV {
                approach: m.approach,
                task: m.task,
                architecture_family: m.architecture_family,
                model_architecture: m.model_architecture,
                ..st
            },
        ),
{
    lemma_model_parameters_tags();
    let e = senc_mp_scalars(m);
    let aseg = match m.approach {
        Some(a) => senc_approach(a),
        None => Seq::<EventV>::empty(),
    };
    let la = aseg.len() as int;
    let lt = senc_opt_text("task"@, m.task).len() as int;
    let lf = senc_opt_text("architectureFamily"@, m.architecture_family).len() as int;
    let lm = senc_opt_text("modelArchitecture"@, m.model_architecture).len() as int;
    let p1 = i + la;
    let st1 = ModelParametersV { approach: m.approach, ..st };
    match m.approach {
        Some(a) => {
            lemma_slice_of_slice(s, i, e, 0, la);
            assert(e.subrange(0, la) =~= senc_approach(a));
            lemma_rt_approach(a, s, i);
            assert(st1 =~= ModelParametersV { approach: Some(a), ..st });
            assert(sdec_model_parameters_loop(s, i, st) == sdec_model_parameters_loop(s, p1, st1));
        },
        None => {
            assert(st1 =~= st);
        },
    }
    let p2 = p1 + lt;
    let st2 = ModelParametersV { task: m.task, ..st1 };
    match m.task {
        Some(t) => {
            lemma_slice_of_slice(s, i, e, la, 3);
            assert(e.subrange(la, la + 3) =~= senc_text("task"@, t));
            lemma_rt_text("task"@, t, s, p1);
            assert(st2 =~= ModelParametersV { task: Some(t), ..st1 });
            assert(sdec_model_parameters_loop(s, p1, st1) == sdec_model_parameters_loop(s, p2, st2));
        },
        None => {
            assert(st2 =~= st1);
        },
    }
    let p3 = p2 + lf;
    let st3 = ModelParametersV { architecture_family: m.architecture_family, ..st2 };
    match m.architecture_family {
        Some(t) => {
            lemma_slice_of_slice(s, i, e, la + lt, 3);
            assert(e.subrange(la + lt, la + lt + 3) =~= senc_text("architectureFamily"@, t));
            lemma_rt_text("architectureFamily"@, t, s, p2);
            assert(st3 =~= ModelParametersV { architecture_family: Some(t), ..st2 });
            assert(sdec_model_parameters_loop(s, p2, st2) == sdec_model_parameters_loop(s, p3, st3));
        },
        None => {
            assert(st3 =~= st2);
        },
    }
    let p4 = p3 + lm;
    let st4 = ModelParametersV { model_architecture: m.model_architecture, ..st3 };
    match m.model_architecture {
        Some(t) => {
            lemma_slice_of_slice(s, i, e, la + lt + lf, 3);
            assert(e.subrange(la + lt + lf, la + lt + lf + 3) =~= senc_text("modelArchitecture"@, t));
            lemma_rt_text("modelArchitecture"@, t, s, p3);
            assert(st4 =~= ModelParametersV { model_architecture: Some(t), ..st3 });
            assert(sdec_model_parameters_loop(s, p3, st3) == sdec_model_parameters_loop(s, p4, st4));
        },
        None => {
            assert(st4 =~= st3);
        },
    }
    assert(st4 =~= (ModelParametersV {
        approach: m.approach,
        task: m.task,
        architecture_family: m.architecture_family,
        model_architecture: m.model_architecture,
        ..st
    }));
}

/// Walking the collection children of `modelParameters` fills the
/// matching fields.
#[verifier::rlimit(100)]
#[verifier::spinoff_prover]
pub proof fn lemma_rt_mp_collections(m: ModelParametersV, st: ModelParametersV, s: Seq<EventV>, i: int)
    requires
        wf_model_parameters(m),
        st.datasets == None::<Seq<DatasetV>>,
        st.inputs == None::<Seq<MLParameterV>>,
        st.outputs == None::<Seq<MLParameterV>>,
        0 <= i,
        i + senc_mp_collections(m).len() <= s.len(),
        s.subrange(i, i + senc_mp_collections(m).len()) == senc_mp_collections(m),
    ensures
        sdec_model_parameters_loop(s, i, st) == sdec_model_parameters_loop(
            s,
            i + senc_mp_collections(m).len(),
            ModelParametersV { datasets: m.datasets, inputs: m.inputs, outputs: m.outputs, ..st },
        ),
{
    lemma_model_parameters_tags();
    lemma_parameter_list_tags();
    let e = senc_mp_collections(m);
    let dseg = match m.datasets {
        Some(ds) => senc_datasets(ds),
        None => Seq::<EventV>::empty(),
    };
    let ld = dseg.len() as int;
    let iseg = match m.inputs {
        Some(ps) => senc_parameter_list("inputs"@, "input"@, ps),
        None => Seq::<EventV>::empty(),
    };
    let li = iseg.len() as int;
    let oseg = match m.outputs {
        Some(ps) => senc_parameter_list("outputs"@, "output"@, ps),
        None => Seq::<EventV>::empty(),
    };
    let lo = oseg.len() as int;
    let p1 = i + ld;
    let st1 = ModelParametersV { datasets: m.datasets, ..st };
    match m.datasets {
        Some(ds) => {
            lemma_slice_of_slice(s, i, e, 0, ld);
            assert(e.subrange(0, ld) =~= senc_datasets(ds));
            lemma_rt_datasets(ds, s, i);
            assert(st1 =~= ModelParametersV { datasets: Some(ds), ..st });
            assert(sdec_model_parameters_loop(s, i, st) == sdec_model_parameters_loop(s, p1, st1));
        },
        None => {
            assert(st1 =~= st);
        },
    }
    let p2 = p1 + li;
    let st2 = ModelParametersV { inputs: m.inputs, ..st1 };
    match m.inputs {
        Some(ps) => {
            lemma_slice_of_slice(s, i, e, ld, li);
            assert(e.subrange(ld, ld + li) =~= senc_parameter_list("inputs"@, "input"@, ps));
            lemma_rt_parameter_list("inputs"@, "input"@, ps, s, p1);
            assert(st2 =~= ModelParametersV { inputs: Some(ps), ..st1 });
            assert(sdec_model_parameters_loop(s, p1, st1) == sdec_model_parameters_loop(s, p2, st2));
        },
        None => {
            assert(st2 =~= st1);
        },
    }
    let p3 = p2 + lo;
    let st3 = ModelParametersV { outputs: m.outputs, ..st2 };
    match m.outputs {
        Some(ps) => {
            lemma_slice_of_slice(s, i, e, ld + li, lo);
            assert(e.subrange(ld + li, ld + li + lo) =~= senc_parameter_list(
                "outputs"@,
                "output"@,
                ps,
            ));
            lemma_rt_parameter_list("outputs"@, "output"@, ps, s, p2);
            assert(st3 =~= ModelParametersV { outputs: Some(ps), ..st2 });
            assert(sdec_model_parameters_loop(s, p2, st2) == sdec_model_parameters_loop(s, p3, st3));
        },
        None => {
            assert(st3 =~= st2);
        },
    }
    assert(st3 =~= (ModelParametersV {
        datasets: m.datasets,
        inputs: m.inputs,
        outputs: m.outputs,
        ..st
    }));
}

/// Round trip of one `modelParameters` element placed anywhere in a
/// stream.
pub proof fn lemma_rt_model_parameters(m: ModelParametersV, s: Seq<EventV>, i: int)
    requires
        wf_model_parameters(m),
        0 <= i,
        i + senc_model_parameters(m).len() <= s.len(),
        s.subrange(i, i + senc_model_parameters(m).len()) == senc_model_parameters(m),
    ensures
        s[i] == (EventV::Start { name: "modelParameters"@, attrs: Seq::<AttrV>::empty() }),
        sdec_model_parameters(s, i + 1) == (
            Ok::<ModelParametersV, DecodeErrorV>(m),
            i + senc_model_parameters(m).len(),
        ),
{
    let e = senc_model_parameters(m);
    let la = senc_mp_scalars(m).len() as int;
    let lb = senc_mp_collections(m).len() as int;
    lemma_slice_index(s, i, e, 0);
    let st0 = model_parameters_init();
    lemma_slice_of_slice(s, i, e, 1, la);
    assert(e.subrange(1, 1 + la) =~= senc_mp_scalars(m));
    lemma_rt_mp_scalars(m, st0, s, i + 1);
    let sta = ModelParametersV {
        approach: m.approach,
        task: m.task,
        architecture_family: m.architecture_family,
        model_architecture: m.model_architecture,
        ..st0
    };
    lemma_slice_of_slice(s, i, e, 1 + la, lb);
    assert(e.subrange(1 + la, 1 + la + lb) =~= senc_mp_collections(m));
    lemma_rt_mp_collections(m, sta, s, i + 1 + la);
    let stb = ModelParametersV { datasets: m.datasets, inputs: m.inputs, outputs: m.outputs, ..sta };
    lemma_slice_index(s, i, e, 1 + la + lb);
    assert(s[i + 1 + la + lb] == (EventV::End { name: "modelParameters"@ }));
    assert(sdec_model_parameters_loop(s, i + 1 + la + lb, stb) == (
        Ok::<ModelParametersV, DecodeErrorV>(stb),
        i + 1 + la + lb + 1,
    ));
    assert(stb =~= m);
}

// ---------------------------------------------------------------------
// Quantitative analysis
// ---------------------------------------------------------------------

/// Round trip of one `quantitativeAnalysis` element placed anywhere in a
/// stream.
pub proof fn lemma_rt_quantitative(q: QuantitativeAnalysisV, s: Seq<EventV>, i: int)
    requires
        0 <= i,
        i + senc_quantitative(q).len() <= s.len(),
        s.subrange(i, i + senc_quantitative(q).len()) == senc_quantitative(q),
    ensures
        s[i] == (EventV::Start { name: "quantitativeAnalysis"@, attrs: Seq::<AttrV>::empty() }),
        sdec_quantitative(s, i + 1) == (
            Ok::<QuantitativeAnalysisV, DecodeErrorV>(q),
            i + senc_quantitative(q).len(),
        ),
{
    lemma_quantitative_tags();
    let e = senc_quantitative(q);
    let mseg = match q.performance_metrics {
        Some(ms) => senc_metrics(ms),
        None => Seq::<EventV>::empty(),
    };
    let lm = mseg.len() as int;
    let gseg = match q.graphics {
        Some(g) => senc_graphics(g),
        None => Seq::<EventV>::empty(),
    };
    let lg = gseg.len() as int;
    lemma_slice_index(s, i, e, 0);
    let st0 = quantitative_init();
    let p1 = i + 1 + lm;
    let st1 = QuantitativeAnalysisV { performance_metrics: q.performance_metrics, ..st0 };
    match q.performance_metrics {
        Some(ms) => {
            lemma_slice_of_slice(s, i, e, 1, lm);
            assert(e.subrange(1, 1 + lm) =~= senc_metrics(ms));
            lemma_rt_metrics(ms, s, i + 1);
            assert(st1 =~= QuantitativeAnalysisV { performance_metrics: Some(ms), ..st0 });
            assert(sdec_quantitative_loop(s, i + 1, st0) == sdec_quantitative_loop(s, p1, st1));
        },
        None => {
            assert(st1 =~= st0);
        },
    }
    let p2 = p1 + lg;
    let st2 = QuantitativeAnalysisV { graphics: q.graphics, ..st1 };
    match q.graphics {
        Some(g) => {
            lemma_slice_of_slice(s, i, e, 1 + lm, lg);
            assert(e.subrange(1 + lm, 1 + lm + lg) =~= senc_graphics(g));
            lemma_rt_graphics(g, s, p1);
            assert(st2 =~= QuantitativeAnalysisV { graphics: Some(g), ..st1 });
            assert(sdec_quantitative_loop(s, p1, st1) == sdec_quantitative_loop(s, p2, st2));
        },
        None => {
            assert(st2 =~= st1);
        },
    }
    lemma_slice_index(s, i, e, 1 + lm + lg);
    assert(s[p2] == (EventV::End { name: "quantitativeAnalysis"@ }));
    assert(sdec_quantitative_loop(s, p2, st2) == (
        Ok::<QuantitativeAnalysisV, DecodeErrorV>(st2),
        p2 + 1,
    ));
    assert(st2 =~= q);
}

// ---------------------------------------------------------------------
// Model card
// ---------------------------------------------------------------------

/// A model card the encoder can reproduce (see `wf_organization`).
pub open spec fn wf_model_card(m: ModelCardV) -> bool {
    match m.model_parameters {
        Some(mp) => wf_model_parameters(mp),
        None => true,
    }
}

/// The first half of a model card's children.
pub open spec fn senc_mc_a(m: ModelCardV) -> Seq<EventV> {
    (match m.model_parameters {
        Some(mp) => senc_model_parameters(mp),
        None => Seq::empty(),
    }) + (match m.quantitative_analysis {
        Some(q) => senc_quantitative(q),
        None => Seq::empty(),
    })
}

/// The second half of a model card's children.
pub open spec fn senc_mc_b(m: ModelCardV) -> Seq<EventV> {
    (match m.considerations {
        Some(c) => senc_considerations(c),
        None => Seq::empty(),
    }) + (match m.properties {
        Some(ps) => senc_properties(ps),
        None => Seq::empty(),
    })
}

/// Walking the first half of a model card's children fills the matching
/// fields.
#[verifier::rlimit(100)]
#[verifier::spinoff_prover]
pub proof fn lemma_rt_mc_a(m: ModelCardV, st: ModelCardV, s: Seq<EventV>, i: int)
    requires
        wf_model_card(m),
        st.model_parameters == None::<ModelParametersV>,
        st.quantitative_analysis == None::<QuantitativeAnalysisV>,
        0 <= i,
        i + senc_mc_a(m).len() <= s.len(),
        s.subrange(i, i + senc_mc_a(m).len()) == senc_mc_a(m),
    ensures
        sdec_model_card_loop(s, i, st) == sdec_model_card_loop(
            s,
            i + senc_mc_a(m).len(),
            ModelCardV {
                model_parameters: m.model_parameters,
                quantitative_analysis: m.quantitative_analysis,
                ..st
            },
        ),
{
    lemma_model_card_tags();
    let e = senc_mc_a(m);
    let lp = (match m.model_parameters {
        Some(mp) => senc_model_parameters(mp),
        None => Seq::<EventV>::empty(),
    }).len() as int;
    let lq = (match m.quantitative_analysis {
        Some(q) => senc_quantitative(q),
        None => Seq::<EventV>::empty(),
    }).len() as int;
    let p1 = i + lp;
    let st1 = ModelCardV { model_parameters: m.model_parameters, ..st };
    match m.model_parameters {
        Some(mp) => {
            lemma_slice_of_slice(s, i, e, 0, lp);
            assert(e.subrange(0, lp) =~= senc_model_parameters(mp));
            lemma_rt_model_parameters(mp, s, i);
            assert(st1 =~= ModelCardV { model_parameters: Some(mp), ..st });
            assert(sdec_model_card_loop(s, i, st) == sdec_model_card_loop(s, p1, st1));
        },
        None => {
            assert(st1 =~= st);
        },
    }
    let p2 = p1 + lq;
    let st2 = ModelCardV { quantitative_analysis: m.quantitative_analysis, ..st1 };
    match m.quantitative_analysis {
        Some(q) => {
            lemma_slice_of_slice(s, i, e, lp, lq);
            assert(e.subrange(lp, lp + lq) =~= senc_quantitative(q));
            lemma_rt_quantitative(q, s, p1);
            assert(st2 =~= ModelCardV { quantitative_analysis: Some(q), ..st1 });
            assert(sdec_model_card_loop(s, p1, st1) == sdec_model_card_loop(s, p2, st2));
        },
        None => {
            assert(st2 =~= st1);
        },
    }
    assert(st2 =~= (ModelCardV {
        model_parameters: m.model_parameters,
        quantitative_analysis: m.quantitative_analysis,
        ..st
    }));
}

/// Walking the second half of a model card's children fills the matching
/// fields.
#[verifier::rlimit(100)]
#[verifier::spinoff_prover]
pub proof fn lemma_rt_mc_b(m: ModelCardV, st: ModelCardV, s: Seq<EventV>, i: int)
    requires
        st.considerations == None::<ConsiderationsV>,
        st.properties == None::<Seq<PropertyV>>,
        0 <= i,
        i + senc_mc_b(m).len() <= s.len(),
        s.subrange(i, i + senc_mc_b(m).len()) == senc_mc_b(m),
    ensures
        sdec_model_card_loop(s, i, st) == sdec_model_card_loop(
            s,
            i + senc_mc_b(m).len(),
            ModelCardV { considerations: m.considerations, properties: m.properties, ..st },
        ),
{
    lemma_model_card_tags();
    let e = senc_mc_b(m);
    let lc = (match m.considerations {
        Some(c) => senc_considerations(c),
        None => Seq::<EventV>::empty(),
    }).len() as int;
    let lr = (match m.properties {
        Some(ps) => senc_properties(ps),
        None => Seq::<EventV>::empty(),
    }).len() as int;
    let p1 = i + lc;
    let st1 = ModelCardV { considerations: m.considerations, ..st };
    match m.considerations {
        Some(c) => {
            lemma_slice_of_slice(s, i, e, 0, lc);
            assert(e.subrange(0, lc) =~= senc_considerations(c));
            lemma_rt_considerations(c, s, i);
            assert(st1 =~= ModelCardV { considerations: Some(c), ..st });
            assert(sdec_model_card_loop(s, i, st) == sdec_model_card_loop(s, p1, st1));
        },
        None => {
            assert(st1 =~= st);
        },
    }
    let p2 = p1 + lr;
    let st2 = ModelCardV { properties: m.properties, ..st1 };
    match m.properties {
        Some(ps) => {
            lemma_slice_of_slice(s, i, e, lc, lr);
            assert(e.subrange(lc, lc + lr) =~= senc_properties(ps));
            lemma_rt_properties(ps, s, p1);
            assert(st2 =~= ModelCardV { properties: Some(ps), ..st1 });
            assert(sdec_model_card_loop(s, p1, st1) == sdec_model_card_loop(s, p2, st2));
        },
        None => {
            assert(st2 =~= st1);
        },
    }
    assert(st2 =~= (ModelCardV { considerations: m.considerations, properties: m.properties, ..st }));
}

/// Round trip of one `modelCard` element placed anywhere in a stream.
#[verifier::rlimit(100)]
#[verifier::spinoff_prover]
pub proof fn lemma_rt_model_card(m: ModelCardV, s: Seq<EventV>, i: int)
    requires
        wf_model_card(m),
        0 <= i,
        i + senc_model_card(m).len() <= s.len(),
        s.subrange(i, i + senc_model_card(m).len()) == senc_model_card(m),
    ensures
        s[i] == (EventV::Start { name: "modelCard"@, attrs: opt_attr("bom-ref"@, m.bom_ref) }),
        sdec_model_card(s, i + 1, opt_attr("bom-ref"@, m.bom_ref)) == (
            Ok::<ModelCardV, DecodeErrorV>(m),
            i + senc_model_card(m).len(),
        ),
{
    lemma_find_bom_ref(m.bom_ref);
    let e = senc_model_card(m);
    let la = senc_mc_a(m).len() as int;
    let lb = senc_mc_b(m).len() as int;
    assert(e =~= seq![EventV::Start { name: "modelCard"@, attrs: opt_attr("bom-ref"@, m.bom_ref) }]
        + senc_mc_a(m) + senc_mc_b(m) + seq![EventV::End { name: "modelCard"@ }]);
    lemma_slice_index(s, i, e, 0);
    let st0 = model_card_init(opt_attr("bom-ref"@, m.bom_ref));
    lemma_slice_of_slice(s, i, e, 1, la);
    assert(e.subrange(1, 1 + la) =~= senc_mc_a(m));
    lemma_rt_mc_a(m, st0, s, i + 1);
    let sta = ModelCardV {
        model_parameters: m.model_parameters,
        quantitative_analysis: m.quantitative_analysis,
        ..st0
    };
    lemma_slice_of_slice(s, i, e, 1 + la, lb);
    assert(e.subrange(1 + la, 1 + la + lb) =~= senc_mc_b(m));
    lemma_rt_mc_b(m, sta, s, i + 1 + la);
    let stb = ModelCardV { considerations: m.considerations, properties: m.properties, ..sta };
    lemma_slice_index(s, i, e, 1 + la + lb);
    assert(s[i + 1 + la + lb] == (EventV::End { name: "modelCard"@ }));
    assert(sdec_model_card_loop(s, i + 1 + la + lb, stb) == (
        Ok::<ModelCardV, DecodeErrorV>(stb),
        i + 1 + la + lb + 1,
    ));
    assert(stb =~= m);
}

// ---------------------------------------------------------------------
// The round-trip law, stated on each encoder's own output
// ---------------------------------------------------------------------

/// Decoding the events a confidence interval encodes to yields it back.
pub proof fn lemma_round_trip_confidence_interval(m: ConfidenceIntervalV)
    ensures
        sdec_confidence_interval(senc_confidence_interval(m), 1) == (
            Ok::<ConfidenceIntervalV, DecodeErrorV>(m),
            senc_confidence_interval(m).len() as int,
        ),
{
    let e = senc_confidence_interval(m);
    assert(e.subrange(0, e.len() as int) =~= e);
    lemma_rt_confidence_interval(m, e, 0);
}

/// Decoding the events an attachment encodes to yields it back, with the
/// same attribute set and text body.
pub proof fn lemma_round_trip_attachment(tag: Seq<char>, a: AttachmentV)
    ensures
        sdec_attachment(senc_attachment(tag, a), 1, attachment_attrs(a), tag) == (
            Ok::<AttachmentV, DecodeErrorV>(a),
            senc_attachment(tag, a).len() as int,
        ),
{
    let e = senc_attachment(tag, a);
    assert(e.subrange(0, e.len() as int) =~= e);
    lemma_rt_attachment(tag, a, e, 0);
}

/// Decoding the events a property encodes to yields it back.
pub proof fn lemma_round_trip_property(p: PropertyV)
    ensures
        sdec_property(senc_property(p), 1, seq![AttrV { name: "name"@, value: p.name }]) == (
            Ok::<PropertyV, DecodeErrorV>(p),
            senc_property(p).len() as int,
        ),
{
    let e = senc_property(p);
    assert(e.subrange(0, e.len() as int) =~= e);
    lemma_rt_property(p, e, 0);
}

/// Decoding the events a `properties` wrapper encodes to yields it back.
pub proof fn lemma_round_trip_properties(items: Seq<PropertyV>)
    ensures
        sdec_properties(senc_properties(items), 1) == (
            Ok::<Seq<PropertyV>, DecodeErrorV>(items),
            senc_properties(items).len() as int,
        ),
{
    let e = senc_properties(items);
    assert(e.subrange(0, e.len() as int) =~= e);
    lemma_rt_properties(items, e, 0);
}

/// Decoding the events a parameter item encodes to yields it back.
pub proof fn lemma_round_trip_parameter_item(item: Seq<char>, p: MLParameterV)
    ensures
        sdec_ml_parameter(senc_parameter_item(item, p), 1, item) == (
            Ok::<MLParameterV, DecodeErrorV>(p),
            senc_parameter_item(item, p).len() as int,
        ),
{
    let e = senc_parameter_item(item, p);
    assert(e.subrange(0, e.len() as int) =~= e);
    lemma_rt_parameter_item(item, p, e, 0);
}

/// Decoding the events an `inputs` or `outputs` wrapper encodes to yields
/// it back.
pub proof fn lemma_round_trip_parameter_list(wrapper: Seq<char>, item: Seq<char>, items: Seq<MLParameterV>)
    requires
        item != wrapper,
    ensures
        sdec_parameter_list(senc_parameter_list(wrapper, item, items), 1, wrapper, item) == (
            Ok::<Seq<MLParameterV>, DecodeErrorV>(items),
            senc_parameter_list(wrapper, item, items).len() as int,
        ),
{
    let e = senc_parameter_list(wrapper, item, items);
    assert(e.subrange(0, e.len() as int) =~= e);
    lemma_rt_parameter_list(wrapper, item, items, e, 0);
}

/// Decoding the events an approach encodes to yields it back.
pub proof fn lemma_round_trip_approach(a: ModelParametersApproachV)
    ensures
        sdec_approach(senc_approach(a), 1) == (
            Ok::<ModelParametersApproachV, DecodeErrorV>(a),
            senc_approach(a).len() as int,
        ),
{
    let e = senc_approach(a);
    assert(e.subrange(0, e.len() as int) =~= e);
    lemma_rt_approach(a, e, 0);
}

/// Decoding the events a considerations marker encodes to yields it back.
pub proof fn lemma_round_trip_considerations(c: ConsiderationsV)
    ensures
        sdec_considerations(senc_considerations(c), 1) == (
            Ok::<ConsiderationsV, DecodeErrorV>(c),
            senc_considerations(c).len() as int,
        ),
{
    let e = senc_considerations(c);
    assert(e.subrange(0, e.len() as int) =~= e);
    lemma_rt_considerations(c, e, 0);
}

/// Decoding the events a contact encodes to yields it back.
pub proof fn lemma_round_trip_contact(c: OrganizationalContactV)
    ensures
        sdec_contact(senc_contact(c), 1, opt_attr("bom-ref"@, c.bom_ref)) == (
            Ok::<OrganizationalContactV, DecodeErrorV>(c),
            senc_contact(c).len() as int,
        ),
{
    let e = senc_contact(c);
    assert(e.subrange(0, e.len() as int) =~= e);
    lemma_rt_contact(c, e, 0);
}

/// Decoding the events an organization encodes to yields it back.
pub proof fn lemma_round_trip_organization(o: OrganizationalEntityV)
    requires
        wf_organization(o),
    ensures
        sdec_organization(senc_organization(o), 1, opt_attr("bom-ref"@, o.bom_ref)) == (
            Ok::<OrganizationalEntityV, DecodeErrorV>(o),
            senc_organization(o).len() as int,
        ),
{
    let e = senc_organization(o);
    assert(e.subrange(0, e.len() as int) =~= e);
    lemma_rt_organization(o, e, 0);
}

/// Decoding the events a governance record encodes to yields it back.
pub proof fn lemma_round_trip_governance(g: DataGovernanceV)
    requires
        wf_governance(g),
    ensures
        sdec_governance(senc_governance(g), 1) == (
            Ok::<DataGovernanceV, DecodeErrorV>(g),
            senc_governance(g).len() as int,
        ),
{
    let e = senc_governance(g);
    assert(e.subrange(0, e.len() as int) =~= e);
    lemma_rt_governance(g, e, 0);
}

/// Decoding the events a performance metric encodes to yields it back.
pub proof fn lemma_round_trip_metric(m: PerformanceMetricV)
    ensures
        sdec_metric(senc_metric(m), 1) == (
            Ok::<PerformanceMetricV, DecodeErrorV>(m),
            senc_metric(m).len() as int,
        ),
{
    let e = senc_metric(m);
    assert(e.subrange(0, e.len() as int) =~= e);
    lemma_rt_metric(m, e, 0);
}

/// Decoding the events a metrics wrapper encodes to yields it back.
pub proof fn lemma_round_trip_metrics(items: Seq<PerformanceMetricV>)
    ensures
        sdec_metrics(senc_metrics(items), 1) == (
            Ok::<Seq<PerformanceMetricV>, DecodeErrorV>(items),
            senc_metrics(items).len() as int,
        ),
{
    let e = senc_metrics(items);
    assert(e.subrange(0, e.len() as int) =~= e);
    lemma_rt_metrics(items, e, 0);
}

/// Decoding the events a graphic encodes to yields it back.
pub proof fn lemma_round_trip_graphic(g: GraphicV)
    ensures
        sdec_graphic(senc_graphic(g), 1) == (
            Ok::<GraphicV, DecodeErrorV>(g),
            senc_graphic(g).len() as int,
        ),
{
    let e = senc_graphic(g);
    assert(e.subrange(0, e.len() as int) =~= e);
    lemma_rt_graphic(g, e, 0);
}

/// Decoding the events a collection encodes to yields it back.
pub proof fn lemma_round_trip_collection(items: Seq<GraphicV>)
    ensures
        sdec_collection(senc_collection(items), 1) == (
            Ok::<Seq<GraphicV>, DecodeErrorV>(items),
            senc_collection(items).len() as int,
        ),
{
    let e = senc_collection(items);
    assert(e.subrange(0, e.len() as int) =~= e);
    lemma_rt_collection(items, e, 0);
}

/// Decoding the events a graphics element encodes to yields it back.
pub proof fn lemma_round_trip_graphics(g: GraphicsV)
    ensures
        sdec_graphics(senc_graphics(g), 1) == (
            Ok::<GraphicsV, DecodeErrorV>(g),
            senc_graphics(g).len() as int,
        ),
{
    let e = senc_graphics(g);
    assert(e.subrange(0, e.len() as int) =~= e);
    lemma_rt_graphics(g, e, 0);
}

/// Decoding the events a contents element encodes to yields it back.
pub proof fn lemma_round_trip_contents(c: DataContentsV)
    ensures
        sdec_contents(senc_contents(c), 1) == (
            Ok::<DataContentsV, DecodeErrorV>(c),
            senc_contents(c).len() as int,
        ),
{
    let e = senc_contents(c);
    assert(e.subrange(0, e.len() as int) =~= e);
    lemma_rt_contents(c, e, 0);
}

/// Decoding the events a dataset encodes to yields it back.
pub proof fn lemma_round_trip_dataset(d: DatasetV)
    requires
        wf_dataset(d),
    ensures
        ({
            let battrs = match d {
                DatasetV::Component(c) => opt_attr("bom-ref"@, c.bom_ref),
                DatasetV::Reference(r) => Seq::<AttrV>::empty(),
            };
            sdec_dataset(senc_dataset(d), 1, battrs) == (
                Ok::<DatasetV, DecodeErrorV>(d),
                senc_dataset(d).len() as int,
            )
        }),
{
    let e = senc_dataset(d);
    assert(e.subrange(0, e.len() as int) =~= e);
    lemma_rt_dataset(d, e, 0);
}

/// Decoding the events a datasets wrapper encodes to yields it back.
pub proof fn lemma_round_trip_datasets(items: Seq<DatasetV>)
    requires
        wf_datasets(items),
    ensures
        sdec_datasets(senc_datasets(items), 1) == (
            Ok::<Seq<DatasetV>, DecodeErrorV>(items),
            senc_datasets(items).len() as int,
        ),
{
    let e = senc_datasets(items);
    assert(e.subrange(0, e.len() as int) =~= e);
    lemma_rt_datasets(items, e, 0);
}

/// Decoding the events a model-parameters element encodes to yields it
/// back.
pub proof fn lemma_round_trip_model_parameters(m: ModelParametersV)
    requires
        wf_model_parameters(m),
    ensures
        sdec_model_parameters(senc_model_parameters(m), 1) == (
            Ok::<ModelParametersV, DecodeErrorV>(m),
            senc_model_parameters(m).len() as int,
        ),
{
    let e = senc_model_parameters(m);
    assert(e.subrange(0, e.len() as int) =~= e);
    lemma_rt_model_parameters(m, e, 0);
}

/// Decoding the events a quantitative analysis encodes to yields it back.
pub proof fn lemma_round_trip_quantitative(q: QuantitativeAnalysisV)
    ensures
        sdec_quantitative(senc_quantitative(q), 1) == (
            Ok::<QuantitativeAnalysisV, DecodeErrorV>(q),
            senc_quantitative(q).len() as int,
        ),
{
    let e = senc_quantitative(q);
    assert(e.subrange(0, e.len() as int) =~= e);
    lemma_rt_quantitative(q, e, 0);
}

/// Decoding the events a model card encodes to yields it back: the round
/// trip at the root of the subtree.
pub proof fn lemma_round_trip_model_card(m: ModelCardV)
    requires
        wf_model_card(m),
    ensures
        sdec_model_card(senc_model_card(m), 1, opt_attr("bom-ref"@, m.bom_ref)) == (
            Ok::<ModelCardV, DecodeErrorV>(m),
            senc_model_card(m).len() as int,
        ),
{
    let e = senc_model_card(m);
    assert(e.subrange(0, e.len() as int) =~= e);
    lemma_rt_model_card(m, e, 0);
}

// ---------------------------------------------------------------------
// Omission of absent optional fields
// ---------------------------------------------------------------------

/// Whether an event carries the given name anywhere: as its tag or as one
/// of its attribute names.
pub open spec fn mentions_name(e: EventV, n: Seq<char>) -> bool {
    match e {
        EventV::Start { name, attrs } => name == n || exists|k: int|
            0 <= k < attrs.len() && (#[trigger] attrs[k]).name == n,
        EventV::End { name } => name == n,
        EventV::Text { text } => false,
    }
}

/// Encoding a confidence interval with an absent lower bound emits no tag
/// for it at all; by the round trip, decoding that output yields the
/// field absent again.
pub proof fn lemma_omission_lower_bound(m: ConfidenceIntervalV)
    requires
        m.lower_bound is None,
    ensures
        forall|k: int|
            0 <= k < senc_confidence_interval(m).len() ==> !mentions_name(
                #[trigger] senc_confidence_interval(m)[k],
                "lowerBound"@,
            ),
{
    lemma_ci_tags();
    reveal_strlit("lowerBound");
    reveal_strlit("confidenceInterval");
    assert("lowerBound"@.len() == 10);
    assert("confidenceInterval"@.len() == 18);
    let e = senc_confidence_interval(m);
    assert forall|k: int| 0 <= k < e.len() implies !mentions_name(e[k], "lowerBound"@) by {
        match m.upper_bound {
            Some(t) => {
                assert(e =~= seq![
                    EventV::Start { name: "confidenceInterval"@, attrs: Seq::empty() },
                    EventV::Start { name: "upperBound"@, attrs: Seq::empty() },
                    EventV::Text { text: t },
                    EventV::End { name: "upperBound"@ },
                    EventV::End { name: "confidenceInterval"@ },
                ]);
            },
            None => {
                assert(e =~= seq![
                    EventV::Start { name: "confidenceInterval"@, attrs: Seq::empty() },
                    EventV::End { name: "confidenceInterval"@ },
                ]);
            },
        }
    }
}

/// Encoding an attachment with an absent encoding attribute emits no
/// attribute of that name at all; by the round trip, decoding that output
/// yields the field absent again.
pub proof fn lemma_omission_encoding_attr(tag: Seq<char>, a: AttachmentV)
    requires
        a.encoding is None,
        tag != "encoding"@,
    ensures
        forall|k: int|
            0 <= k < senc_attachment(tag, a).len() ==> !mentions_name(
                #[trigger] senc_attachment(tag, a)[k],
                "encoding"@,
            ),
{
    lemma_attachment_attr_names();
    let e = senc_attachment(tag, a);
    assert forall|k: int| 0 <= k < e.len() implies !mentions_name(e[k], "encoding"@) by {
        assert(e[0] == (EventV::Start { name: tag, attrs: attachment_attrs(a) }));
        assert(e[1] == (EventV::Text { text: a.content }));
        assert(e[2] == (EventV::End { name: tag }));
        match a.content_type {
            Some(ct) => {
                assert(attachment_attrs(a) =~= seq![AttrV { name: "content-type"@, value: ct }]);
            },
            None => {
                assert(attachment_attrs(a) =~= Seq::<AttrV>::empty());
            },
        }
    }
}

// ---------------------------------------------------------------------
// Union disambiguation and required-field enforcement
// ---------------------------------------------------------------------

/// A dataset element whose only content was a `ref` child decodes as the
/// reference variant.
pub proof fn lemma_union_reference(st: DatasetSt)
    requires
        !dataset_has_object_field(st),
        st.reference is Some,
    ensures
        dataset_finish(st) == Ok::<DatasetV, DecodeErrorV>(DatasetV::Reference(st.reference->0)),
{
}

/// Any object-shaped child — a `name` or a `contents`, among others —
/// makes the object shape authoritative, even if a `ref` child is also
/// present; with its mandatory `type` child read, the dataset decodes as
/// the inline-object variant.
pub proof fn lemma_union_object_wins(st: DatasetSt)
    requires
        st.name is Some || st.contents is Some,
        st.data_type is Some,
    ensures
        dataset_finish(st) == Ok::<DatasetV, DecodeErrorV>(
            DatasetV::Component(
                ComponentDataV {
                    bom_ref: st.bom_ref,
                    data_type: st.data_type->0,
                    name: st.name,
                    contents: st.contents,
                    classification: st.classification,
                    sensitive_data: st.sensitive_data,
                    graphics: st.graphics,
                    description: st.description,
                    governance: st.governance,
                },
            ),
        ),
{
}

/// A dataset element with object-shaped children but no `type` child is
/// missing required data, named after the field and the element.
pub proof fn lemma_dataset_requires_type(st: DatasetSt)
    requires
        dataset_has_object_field(st),
        st.data_type is None,
    ensures
        dataset_finish(st) == Err::<DatasetV, DecodeErrorV>(
            DecodeErrorV::RequiredDataMissing { required_field: "type"@, element: "dataset"@ },
        ),
{
}

// ---------------------------------------------------------------------
// List semantics
// ---------------------------------------------------------------------

/// A present-but-empty `datasets` wrapper decodes to an empty sequence —
/// a value distinct from the field being absent from the parent, which
/// stays `None`.
pub proof fn lemma_empty_datasets(s: Seq<EventV>, i: int)
    requires
        0 <= i < s.len(),
        s[i] == (EventV::End { name: "datasets"@ }),
    ensures
        sdec_datasets(s, i) == (
            Ok::<Seq<DatasetV>, DecodeErrorV>(Seq::empty()),
            i + 1,
        ),
{
}

/// Encoding a model card with an absent identifier puts no attribute at
/// all on the opening tag; by the round trip, decoding that output yields
/// the field absent again.
pub proof fn lemma_omission_bom_ref(m: ModelCardV)
    requires
        m.bom_ref is None,
    ensures
        senc_model_card(m)[0] == (EventV::Start { name: "modelCard"@, attrs: Seq::<AttrV>::empty() }),
{
}

/// Encoding a contact with an absent email emits no tag or attribute for
/// it at all; by the round trip, decoding that output yields the field
/// absent again.
pub proof fn lemma_omission_email(c: OrganizationalContactV)
    requires
        c.email is None,
    ensures
        forall|k: int|
            0 <= k < senc_contact(c).len() ==> !mentions_name(
                #[trigger] senc_contact(c)[k],
                "email"@,
            ),
{
    lemma_contact_tags();
    reveal_strlit("email");
    reveal_strlit("contact");
    reveal_strlit("bom-ref");
    assert("email"@.len() == 5);
    assert("contact"@.len() == 7);
    assert("bom-ref"@.len() == 7);
    assert("contact"@[0] == 'c');
    assert("bom-ref"@[0] == 'b');
    let e = senc_contact(c);
    let ln = senc_opt_text("name"@, c.name).len() as int;
    let lp = senc_opt_text("phone"@, c.phone).len() as int;
    assert forall|k: int| 0 <= k < e.len() implies !mentions_name(e[k], "email"@) by {
        assert(e[0] == (EventV::Start { name: "contact"@, attrs: opt_attr("bom-ref"@, c.bom_ref) }));
        match c.bom_ref {
            Some(b) => {
                assert(opt_attr("bom-ref"@, c.bom_ref) =~= seq![AttrV { name: "bom-ref"@, value: b }]);
            },
            None => {
                assert(opt_attr("bom-ref"@, c.bom_ref) =~= Seq::<AttrV>::empty());
            },
        }
        if 1 <= k < 1 + ln {
            let t = c.name->0;
            assert(e[k] == senc_text("name"@, t)[k - 1]);
        } else if 1 + ln <= k < 1 + ln + lp {
            let t = c.phone->0;
            assert(e[k] == senc_text("phone"@, t)[k - 1 - ln]);
        } else if k == 1 + ln + lp {
            assert(e[k] == (EventV::End { name: "contact"@ }));
        }
    }
}

// ---------------------------------------------------------------------
// List semantics: absence of the wrapper stays absent
// ---------------------------------------------------------------------

/// No opening tag with the given name occurs at or after position i.
pub open spec fn no_start_named(s: Seq<EventV>, i: int, tag: Seq<char>) -> bool {
    forall|k: int|
        i <= k < s.len() ==> match #[trigger] s[k] {
            EventV::Start { name, attrs } => name != tag,
            _ => true,
        }
}

/// When no opening tag in the stream is named `datasets`, a successful
/// `modelParameters` decode leaves the datasets field exactly as it
/// began — `None` from the initial state.  Together with the empty-wrapper
/// law, absence of the wrapper is distinguishable from an empty one.
#[verifier::rlimit(100)]
#[verifier::spinoff_prover]
pub proof fn lemma_absent_datasets_stays_unset(s: Seq<EventV>, i: int, st: ModelParametersV)
    requires
        0 <= i <= s.len(),
        no_start_named(s, i, "datasets"@),
    ensures
        ({
            let (r, j) = sdec_model_parameters_loop(s, i, st);
            r matches Ok(v) ==> v.datasets == st.datasets
        }),
    decreases s.len() - i,
{
    if 0 <= i < s.len() {
        match s[i] {
            EventV::Start { name, attrs } => {
                if name == "approach"@ {
                    let (cr, j) = sdec_approach(s, i + 1);
                    match cr {
                        Ok(a) => {
                            if i + 1 <= j <= s.len() {
                                lemma_absent_datasets_stays_unset(
                                    s,
                                    j,
                                    ModelParametersV { approach: Some(a), ..st },
                                );
                            }
                        },
                        Err(e) => {},
                    }
                } else if name == "task"@ {
                    let (cr, j) = sdec_text(s, i + 1, name);
                    match cr {
                        Ok(t) => {
                            if i + 1 <= j <= s.len() {
                                lemma_absent_datasets_stays_unset(
                                    s,
                                    j,
                                    ModelParametersV { task: Some(t), ..st },
                                );
                            }
                        },
                        Err(e) => {},
                    }
                } else if name == "architectureFamily"@ {
                    let (cr, j) = sdec_text(s, i + 1, name);
                    match cr {
                        Ok(t) => {
                            if i + 1 <= j <= s.len() {
                                lemma_absent_datasets_stays_unset(
                                    s,
                                    j,
                                    ModelParametersV { architecture_family: Some(t), ..st },
                                );
                            }
                        },
                        Err(e) => {},
                    }
                } else if name == "modelArchitecture"@ {
                    let (cr, j) = sdec_text(s, i + 1, name);
                    match cr {
                        Ok(t) => {
                            if i + 1 <= j <= s.len() {
                                lemma_absent_datasets_stays_unset(
                                    s,
                                    j,
                                    ModelParametersV { model_architecture: Some(t), ..st },
                                );
                            }
                        },
                        Err(e) => {},
                    }
                } else if name == "datasets"@ {
                    assert(false);
                } else if name == "inputs"@ {
                    let (cr, j) = sdec_parameter_list(s, i + 1, name, "input"@);
                    match cr {
                        Ok(ps) => {
                            if i + 1 <= j <= s.len() {
                                lemma_absent_datasets_stays_unset(
                                    s,
                                    j,
                                    ModelParametersV { inputs: Some(ps), ..st },
                                );
                            }
                        },
                        Err(e) => {},
                    }
                } else if name == "outputs"@ {
                    let (cr, j) = sdec_parameter_list(s, i + 1, name, "output"@);
                    match cr {
                        Ok(ps) => {
                            if i + 1 <= j <= s.len() {
                                lemma_absent_datasets_stays_unset(
                                    s,
                                    j,
                                    ModelParametersV { outputs: Some(ps), ..st },
                                );
                            }
                        },
                        Err(e) => {},
                    }
                } else {
                    lemma_absent_datasets_stays_unset(s, i + 1, st);
                }
            },
            EventV::End { name } => {
                if name != "modelParameters"@ {
                    lemma_absent_datasets_stays_unset(s, i + 1, st);
                }
            },
            EventV::Text { text } => {
                lemma_absent_datasets_stays_unset(s, i + 1, st);
            },
        }
    }
}

// ---------------------------------------------------------------------
// Unknown-element tolerance
// ---------------------------------------------------------------------

/// A permissive decoder presented with an unrecognized child tag skips
/// that event and decodes the recognized siblings exactly as it would
/// without it; shown here for the dataset, whose child set is the
/// largest.  As in the wire format's event model, the skip is one event
/// at a time, not one subtree at a time.
pub proof fn lemma_skip_unknown_dataset(
    s: Seq<EventV>,
    i: int,
    st: DatasetSt,
    name: Seq<char>,
    attrs: Seq<AttrV>,
)
    requires
        0 <= i < s.len(),
        s[i] == (EventV::Start { name: name, attrs: attrs }),
        name != "type"@,
        name != "name"@,
        name != "contents"@,
        name != "classification"@,
        name != "sensitiveData"@,
        name != "graphics"@,
        name != "description"@,
        name != "governance"@,
        name != "ref"@,
    ensures
        sdec_dataset_loop(s, i, st) == sdec_dataset_loop(s, i + 1, st),
{
}

/// The same tolerance at the root of the subtree: the model card's
/// decoder, the permissive shape every non-list entity shares.
pub proof fn lemma_skip_unknown_model_card(
    s: Seq<EventV>,
    i: int,
    st: ModelCardV,
    name: Seq<char>,
    attrs: Seq<AttrV>,
)
    requires
        0 <= i < s.len(),
        s[i] == (EventV::Start { name: name, attrs: attrs }),
        name != "modelParameters"@,
        name != "quantitativeAnalysis"@,
        name != "considerations"@,
        name != "properties"@,
    ensures
        sdec_model_card_loop(s, i, st) == sdec_model_card_loop(s, i + 1, st),
{
}

// ---------------------------------------------------------------------
// Omission of absent fields, in full for model parameters
// ---------------------------------------------------------------------

/// The tags a `modelParameters` element may carry for its own fields.
pub open spec fn is_mp_field_tag(t: Seq<char>) -> bool {
    ||| t == "approach"@
    ||| t == "task"@
    ||| t == "architectureFamily"@
    ||| t == "modelArchitecture"@
    ||| t == "datasets"@
    ||| t == "inputs"@
    ||| t == "outputs"@
}

/// The event carries no tag with the given name (character data never
/// carries one).
pub open spec fn event_not_tagged(e: EventV, t: Seq<char>) -> bool {
    match e {
        EventV::Start { name, attrs } => name != t,
        EventV::End { name } => name != t,
        EventV::Text { text } => true,
    }
}

/// No event of the stream carries a tag with the given name.
pub open spec fn no_tag_named(e: Seq<EventV>, t: Seq<char>) -> bool {
    forall|k: int| 0 <= k < e.len() ==> event_not_tagged(#[trigger] e[k], t)
}

pub proof fn lemma_no_tag_concat(a: Seq<EventV>, b: Seq<EventV>, t: Seq<char>)
    requires
        no_tag_named(a, t),
        no_tag_named(b, t),
    ensures
        no_tag_named(a + b, t),
{
    assert forall|k: int| 0 <= k < (a + b).len() implies event_not_tagged(
        #[trigger] (a + b)[k],
        t,
    ) by {
        if k < a.len() {
            assert((a + b)[k] == a[k]);
        } else {
            assert((a + b)[k] == b[k - a.len()]);
        }
    }
}

pub proof fn lemma_nt_empty(t: Seq<char>)
    ensures
        no_tag_named(Seq::empty(), t),
{
}

pub proof fn lemma_nt_single_start(name: Seq<char>, attrs: Seq<AttrV>, t: Seq<char>)
    requires
        name != t,
    ensures
        no_tag_named(seq![EventV::Start { name, attrs }], t),
{
    assert forall|k: int| 0 <= k < 1 implies event_not_tagged(
        #[trigger] seq![EventV::Start { name, attrs }][k],
        t,
    ) by {
        assert(seq![EventV::Start { name, attrs }][0] == (EventV::Start { name, attrs }));
    }
}

pub proof fn lemma_nt_single_end(name: Seq<char>, t: Seq<char>)
    requires
        name != t,
    ensures
        no_tag_named(seq![EventV::End { name }], t),
{
    assert forall|k: int| 0 <= k < 1 implies event_not_tagged(
        #[trigger] seq![EventV::End { name }][k],
        t,
    ) by {
        assert(seq![EventV::End { name }][0] == (EventV::End { name }));
    }
}

pub proof fn lemma_nt_text(tag: Seq<char>, x: Seq<char>, t: Seq<char>)
    requires
        tag != t,
    ensures
        no_tag_named(senc_text(tag, x), t),
{
    let e = senc_text(tag, x);
    assert forall|k: int| 0 <= k < e.len() implies event_not_tagged(#[trigger] e[k], t) by {
        assert(e[0] == (EventV::Start { name: tag, attrs: Seq::<AttrV>::empty() }));
        assert(e[1] == (EventV::Text { text: x }));
        assert(e[2] == (EventV::End { name: tag }));
    }
}

pub proof fn lemma_nt_opt_text(tag: Seq<char>, v: Option<Seq<char>>, t: Seq<char>)
    requires
        tag != t,
    ensures
        no_tag_named(senc_opt_text(tag, v), t),
{
    match v {
        Some(x) => {
            lemma_nt_text(tag, x, t);
        },
        None => {
            lemma_nt_empty(t);
        },
    }
}

/// A tag of a `modelParameters` field differs from each name its
/// children's encodings can carry.
#[verifier::rlimit(100)]
#[verifier::spinoff_prover]
pub proof fn lemma_mp_vocab_a(t: Seq<char>)
    requires
        is_mp_field_tag(t),
    ensures
        t != "modelParameters"@,
        t != "type"@,
        t != "dataset"@,
        t != "name"@,
        t != "contents"@,
        t != "attachment"@,
        t != "url"@,
        t != "properties"@,
        t != "property"@,
        t != "classification"@,
        t != "sensitiveData"@,
        t != "graphics"@,
        t != "description"@,
        t != "collection"@,
        t != "graphic"@,
{
    reveal_strlit("approach");
    reveal_strlit("task");
    reveal_strlit("architectureFamily");
    reveal_strlit("modelArchitecture");
    reveal_strlit("datasets");
    reveal_strlit("inputs");
    reveal_strlit("outputs");
    reveal_strlit("modelParameters");
    reveal_strlit("type");
    reveal_strlit("dataset");
    reveal_strlit("name");
    reveal_strlit("contents");
    reveal_strlit("attachment");
    reveal_strlit("url");
    reveal_strlit("properties");
    reveal_strlit("property");
    reveal_strlit("classification");
    reveal_strlit("sensitiveData");
    reveal_strlit("graphics");
    reveal_strlit("description");
    reveal_strlit("collection");
    reveal_strlit("graphic");
    assert("approach"@.len() == 8);
    assert("task"@.len() == 4);
    assert("architectureFamily"@.len() == 18);
    assert("modelArchitecture"@.len() == 17);
    assert("datasets"@.len() == 8);
    assert("inputs"@.len() == 6);
    assert("outputs"@.len() == 7);
    assert("modelParameters"@.len() == 15);
    assert("type"@.len() == 4);
    assert("dataset"@.len() == 7);
    assert("name"@.len() == 4);
    assert("contents"@.len() == 8);
    assert("attachment"@.len() == 10);
    assert("url"@.len() == 3);
    assert("properties"@.len() == 10);
    assert("property"@.len() == 8);
    assert("classification"@.len() == 14);
    assert("sensitiveData"@.len() == 13);
    assert("graphics"@.len() == 8);
    assert("description"@.len() == 11);
    assert("collection"@.len() == 10);
    assert("graphic"@.len() == 7);
    assert("approach"@[0] == 'a');
    assert("task"@[0] == 't');
    assert("architectureFamily"@[0] == 'a');
    assert("modelArchitecture"@[0] == 'm');
    assert("datasets"@[0] == 'd');
    assert("inputs"@[0] == 'i');
    assert("outputs"@[0] == 'o');
    assert("modelParameters"@[0] == 'm');
    assert("type"@[0] == 't');
    assert("dataset"@[0] == 'd');
    assert("name"@[0] == 'n');
    assert("contents"@[0] == 'c');
    assert("attachment"@[0] == 'a');
    assert("url"@[0] == 'u');
    assert("properties"@[0] == 'p');
    assert("property"@[0] == 'p');
    assert("classification"@[0] == 'c');
    assert("sensitiveData"@[0] == 's');
    assert("graphics"@[0] == 'g');
    assert("description"@[0] == 'd');
    assert("collection"@[0] == 'c');
    assert("graphic"@[0] == 'g');
    assert("task"@[1] == 'a');
    assert("type"@[1] == 'y');
}

/// A tag of a `modelParameters` field differs from each name its
/// children's encodings can carry.
#[verifier::rlimit(100)]
#[verifier::spinoff_prover]
pub proof fn lemma_mp_vocab_b(t: Seq<char>)
    requires
        is_mp_field_tag(t),
    ensures
        t != "image"@,
        t != "governance"@,
        t != "owners"@,
        t != "owner"@,
        t != "custodians"@,
        t != "custodian"@,
        t != "stewards"@,
        t != "steward"@,
        t != "organization"@,
        t != "contact"@,
        t != "email"@,
        t != "phone"@,
        t != "ref"@,
        t != "format"@,
        t != "input"@,
        t != "output"@,
{
    reveal_strlit("approach");
    reveal_strlit("task");
    reveal_strlit("architectureFamily");
    reveal_strlit("modelArchitecture");
    reveal_strlit("datasets");
    reveal_strlit("inputs");
    reveal_strlit("outputs");
    reveal_strlit("image");
    reveal_strlit("governance");
    reveal_strlit("owners");
    reveal_strlit("owner");
    reveal_strlit("custodians");
    reveal_strlit("custodian");
    reveal_strlit("stewards");
    reveal_strlit("steward");
    reveal_strlit("organization");
    reveal_strlit("contact");
    reveal_strlit("email");
    reveal_strlit("phone");
    reveal_strlit("ref");
    reveal_strlit("format");
    reveal_strlit("input");
    reveal_strlit("output");
    assert("approach"@.len() == 8);
    assert("task"@.len() == 4);
    assert("architectureFamily"@.len() == 18);
    assert("modelArchitecture"@.len() == 17);
    assert("datasets"@.len() == 8);
    assert("inputs"@.len() == 6);
    assert("outputs"@.len() == 7);
    assert("image"@.len() == 5);
    assert("governance"@.len() == 10);
    assert("owners"@.len() == 6);
    assert("owner"@.len() == 5);
    assert("custodians"@.len() == 10);
    assert("custodian"@.len() == 9);
    assert("stewards"@.len() == 8);
    assert("steward"@.len() == 7);
    assert("organization"@.len() == 12);
    assert("contact"@.len() == 7);
    assert("email"@.len() == 5);
    assert("phone"@.len() == 5);
    assert("ref"@.len() == 3);
    assert("format"@.len() == 6);
    assert("input"@.len() == 5);
    assert("output"@.len() == 6);
    assert("approach"@[0] == 'a');
    assert("task"@[0] == 't');
    assert("architectureFamily"@[0] == 'a');
    assert("modelArchitecture"@[0] == 'm');
    assert("datasets"@[0] == 'd');
    assert("inputs"@[0] == 'i');
    assert("outputs"@[0] == 'o');
    assert("image"@[0] == 'i');
    assert("governance"@[0] == 'g');
    assert("owners"@[0] == 'o');
    assert("owner"@[0] == 'o');
    assert("custodians"@[0] == 'c');
    assert("custodian"@[0] == 'c');
    assert("stewards"@[0] == 's');
    assert("steward"@[0] == 's');
    assert("organization"@[0] == 'o');
    assert("contact"@[0] == 'c');
    assert("email"@[0] == 'e');
    assert("phone"@[0] == 'p');
    assert("ref"@[0] == 'r');
    assert("format"@[0] == 'f');
    assert("input"@[0] == 'i');
    assert("output"@[0] == 'o');
}

pub proof fn lemma_mp_vocab(t: Seq<char>)
    requires
        is_mp_field_tag(t),
    ensures
        t != "modelParameters"@,
        t != "type"@,
        t != "dataset"@,
        t != "name"@,
        t != "contents"@,
        t != "attachment"@,
        t != "url"@,
        t != "properties"@,
        t != "property"@,
        t != "classification"@,
        t != "sensitiveData"@,
        t != "graphics"@,
        t != "description"@,
        t != "collection"@,
        t != "graphic"@,
        t != "image"@,
        t != "governance"@,
        t != "owners"@,
        t != "owner"@,
        t != "custodians"@,
        t != "custodian"@,
        t != "stewards"@,
        t != "steward"@,
        t != "organization"@,
        t != "contact"@,
        t != "email"@,
        t != "phone"@,
        t != "ref"@,
        t != "format"@,
        t != "input"@,
        t != "output"@,
{
    lemma_mp_vocab_a(t);
    lemma_mp_vocab_b(t);
}

pub proof fn lemma_nt_attachment(tag: Seq<char>, a: AttachmentV, t: Seq<char>)
    requires
        tag != t,
    ensures
        no_tag_named(senc_attachment(tag, a), t),
{
    let s0 = seq![
        EventV::Start { name: tag, attrs: attachment_attrs(a) },
        EventV::Text { text: a.content },
    ];
    let s1 = seq![EventV::End { name: tag }];
    assert forall|k: int| 0 <= k < s0.len() implies event_not_tagged(#[trigger] s0[k], t) by {
        assert(s0[0] == (EventV::Start { name: tag, attrs: attachment_attrs(a) }));
        assert(s0[1] == (EventV::Text { text: a.content }));
    }
    lemma_nt_single_end(tag, t);
    lemma_no_tag_concat(s0, s1, t);
    assert(senc_attachment(tag, a) == s0 + s1);
}

pub proof fn lemma_nt_property(p: PropertyV, t: Seq<char>)
    requires
        is_mp_field_tag(t),
    ensures
        no_tag_named(senc_property(p), t),
{
    lemma_mp_vocab(t);
    let s0 = seq![
        EventV::Start {
            name: "property"@,
            attrs: seq![AttrV { name: "name"@, value: p.name }],
        },
        EventV::Text { text: p.value },
    ];
    let s1 = seq![EventV::End { name: "property"@ }];
    assert forall|k: int| 0 <= k < s0.len() implies event_not_tagged(#[trigger] s0[k], t) by {
        assert(s0[0] == (EventV::Start {
            name: "property"@,
            attrs: seq![AttrV { name: "name"@, value: p.name }],
        }));
        assert(s0[1] == (EventV::Text { text: p.value }));
    }
    lemma_nt_single_end("property"@, t);
    lemma_no_tag_concat(s0, s1, t);
    assert(senc_property(p) == s0 + s1);
}

pub proof fn lemma_nt_property_items(items: Seq<PropertyV>, t: Seq<char>)
    requires
        is_mp_field_tag(t),
    ensures
        no_tag_named(senc_property_items(items), t),
    decreases items.len(),
{
    if items.len() == 0 {
        lemma_nt_empty(t);
    } else {
        lemma_nt_property(items[0], t);
        lemma_nt_property_items(items.drop_first(), t);
        lemma_no_tag_concat(senc_property(items[0]), senc_property_items(items.drop_first()), t);
    }
}

pub proof fn lemma_nt_properties(items: Seq<PropertyV>, t: Seq<char>)
    requires
        is_mp_field_tag(t),
    ensures
        no_tag_named(senc_properties(items), t),
{
    lemma_mp_vocab(t);
    let s0 = seq![EventV::Start { name: "properties"@, attrs: Seq::<AttrV>::empty() }];
    let s1 = senc_property_items(items);
    let s2 = seq![EventV::End { name: "properties"@ }];
    lemma_nt_single_start("properties"@, Seq::<AttrV>::empty(), t);
    lemma_nt_property_items(items, t);
    lemma_nt_single_end("properties"@, t);
    lemma_no_tag_concat(s0, s1, t);
    lemma_no_tag_concat(s0 + s1, s2, t);
    assert(senc_properties(items) == s0 + s1 + s2);
}

pub proof fn lemma_nt_contact(c: OrganizationalContactV, t: Seq<char>)
    requires
        is_mp_field_tag(t),
    ensures
        no_tag_named(senc_contact(c), t),
{
    lemma_mp_vocab(t);
    let s0 = seq![EventV::Start { name: "contact"@, attrs: opt_attr("bom-ref"@, c.bom_ref) }];
    let s1 = senc_opt_text("name"@, c.name);
    let s2 = senc_opt_text("email"@, c.email);
    let s3 = senc_opt_text("phone"@, c.phone);
    let s4 = seq![EventV::End { name: "contact"@ }];
    lemma_nt_single_start("contact"@, opt_attr("bom-ref"@, c.bom_ref), t);
    lemma_nt_opt_text("name"@, c.name, t);
    lemma_nt_opt_text("email"@, c.email, t);
    lemma_nt_opt_text("phone"@, c.phone, t);
    lemma_nt_single_end("contact"@, t);
    lemma_no_tag_concat(s0, s1, t);
    lemma_no_tag_concat(s0 + s1, s2, t);
    lemma_no_tag_concat(s0 + s1 + s2, s3, t);
    lemma_no_tag_concat(s0 + s1 + s2 + s3, s4, t);
    assert(senc_contact(c) == s0 + s1 + s2 + s3 + s4);
}

pub proof fn lemma_nt_url_items(items: Seq<Seq<char>>, t: Seq<char>)
    requires
        is_mp_field_tag(t),
    ensures
        no_tag_named(senc_url_items(items), t),
    decreases items.len(),
{
    if items.len() == 0 {
        lemma_nt_empty(t);
    } else {
        lemma_mp_vocab(t);
        lemma_nt_text("url"@, items[0], t);
        lemma_nt_url_items(items.drop_first(), t);
        lemma_no_tag_concat(senc_text("url"@, items[0]), senc_url_items(items.drop_first()), t);
    }
}

pub proof fn lemma_nt_contact_items(items: Seq<OrganizationalContactV>, t: Seq<char>)
    requires
        is_mp_field_tag(t),
    ensures
        no_tag_named(senc_contact_items(items), t),
    decreases items.len(),
{
    if items.len() == 0 {
        lemma_nt_empty(t);
    } else {
        lemma_nt_contact(items[0], t);
        lemma_nt_contact_items(items.drop_first(), t);
        lemma_no_tag_concat(senc_contact(items[0]), senc_contact_items(items.drop_first()), t);
    }
}

pub proof fn lemma_nt_organization(o: OrganizationalEntityV, t: Seq<char>)
    requires
        is_mp_field_tag(t),
    ensures
        no_tag_named(senc_organization(o), t),
{
    lemma_mp_vocab(t);
    let s0 = seq![EventV::Start { name: "organization"@, attrs: opt_attr("bom-ref"@, o.bom_ref) }];
    let s1 = senc_opt_text("name"@, o.name);
    let s2 = match o.url { Some(x) => senc_url_items(x), None => Seq::empty() };
    let s3 = match o.contact { Some(x) => senc_contact_items(x), None => Seq::empty() };
    let s4 = seq![EventV::End { name: "organization"@ }];
    lemma_nt_single_start("organization"@, opt_attr("bom-ref"@, o.bom_ref), t);
    lemma_nt_opt_text("name"@, o.name, t);
    match o.url {
        Some(x) => {
            lemma_nt_url_items(x, t);
        },
        None => {
            lemma_nt_empty(t);
        },
    }
    match o.contact {
        Some(x) => {
            lemma_nt_contact_items(x, t);
        },
        None => {
            lemma_nt_empty(t);
        },
    }
    lemma_nt_single_end("organization"@, t);
    lemma_no_tag_concat(s0, s1, t);
    lemma_no_tag_concat(s0 + s1, s2, t);
    lemma_no_tag_concat(s0 + s1 + s2, s3, t);
    lemma_no_tag_concat(s0 + s1 + s2 + s3, s4, t);
    assert(senc_organization(o) == s0 + s1 + s2 + s3 + s4);
}

pub proof fn lemma_nt_party(p: DataGovernanceResponsiblePartyV, t: Seq<char>)
    requires
        is_mp_field_tag(t),
    ensures
        no_tag_named(senc_party(p), t),
{
    match p {
        DataGovernanceResponsiblePartyV::Organization(o) => {
            lemma_nt_organization(o, t);
        },
        DataGovernanceResponsiblePartyV::Contact(c) => {
            lemma_nt_contact(c, t);
        },
    }
}

pub proof fn lemma_nt_party_item(item: Seq<char>, p: DataGovernanceResponsiblePartyV, t: Seq<char>)
    requires
        is_mp_field_tag(t),
        item != t,
    ensures
        no_tag_named(senc_party_item(item, p), t),
{
    let s0 = seq![EventV::Start { name: item, attrs: Seq::<AttrV>::empty() }];
    let s1 = senc_party(p);
    let s2 = seq![EventV::End { name: item }];
    lemma_nt_single_start(item, Seq::<AttrV>::empty(), t);
    lemma_nt_party(p, t);
    lemma_nt_single_end(item, t);
    lemma_no_tag_concat(s0, s1, t);
    lemma_no_tag_concat(s0 + s1, s2, t);
    assert(senc_party_item(item, p) == s0 + s1 + s2);
}

pub proof fn lemma_nt_party_items(
    item: Seq<char>,
    items: Seq<DataGovernanceResponsiblePartyV>,
    t: Seq<char>,
)
    requires
        is_mp_field_tag(t),
        item != t,
    ensures
        no_tag_named(senc_party_items(item, items), t),
    decreases items.len(),
{
    if items.len() == 0 {
        lemma_nt_empty(t);
    } else {
        lemma_nt_party_item(item, items[0], t);
        lemma_nt_party_items(item, items.drop_first(), t);
        lemma_no_tag_concat(
            senc_party_item(item, items[0]),
            senc_party_items(item, items.drop_first()),
            t,
        );
    }
}

pub proof fn lemma_nt_party_list(
    wrapper: Seq<char>,
    item: Seq<char>,
    items: Seq<DataGovernanceResponsiblePartyV>,
    t: Seq<char>,
)
    requires
        is_mp_field_tag(t),
        wrapper != t,
        item != t,
    ensures
        no_tag_named(senc_party_list(wrapper, item, items), t),
{
    let s0 = seq![EventV::Start { name: wrapper, attrs: Seq::<AttrV>::empty() }];
    let s1 = senc_party_items(item, items);
    let s2 = seq![EventV::End { name: wrapper }];
    lemma_nt_single_start(wrapper, Seq::<AttrV>::empty(), t);
    lemma_nt_party_items(item, items, t);
    lemma_nt_single_end(wrapper, t);
    lemma_no_tag_concat(s0, s1, t);
    lemma_no_tag_concat(s0 + s1, s2, t);
    assert(senc_party_list(wrapper, item, items) == s0 + s1 + s2);
}

pub proof fn lemma_nt_governance(g: DataGovernanceV, t: Seq<char>)
    requires
        is_mp_field_tag(t),
    ensures
        no_tag_named(senc_governance(g), t),
{
    lemma_mp_vocab(t);
    let s0 = seq![EventV::Start { name: "governance"@, attrs: Seq::<AttrV>::empty() }];
    let s1 = match g.owners { Some(x) => senc_party_list("owners"@, "owner"@, x), None => Seq::empty() };
    let s2 = match g.custodians { Some(x) => senc_party_list("custodians"@, "custodian"@, x), None => Seq::empty() };
    let s3 = match g.stewards { Some(x) => senc_party_list("stewards"@, "steward"@, x), None => Seq::empty() };
    let s4 = seq![EventV::End { name: "governance"@ }];
    lemma_nt_single_start("governance"@, Seq::<AttrV>::empty(), t);
    match g.owners {
        Some(x) => {
            lemma_nt_party_list("owners"@, "owner"@, x, t);
        },
        None => {
            lemma_nt_empty(t);
        },
    }
    match g.custodians {
        Some(x) => {
            lemma_nt_party_list("custodians"@, "custodian"@, x, t);
        },
        None => {
            lemma_nt_empty(t);
        },
    }
    match g.stewards {
        Some(x) => {
            lemma_nt_party_list("stewards"@, "steward"@, x, t);
        },
        None => {
            lemma_nt_empty(t);
        },
    }
    lemma_nt_single_end("governance"@, t);
    lemma_no_tag_concat(s0, s1, t);
    lemma_no_tag_concat(s0 + s1, s2, t);
    lemma_no_tag_concat(s0 + s1 + s2, s3, t);
    lemma_no_tag_concat(s0 + s1 + s2 + s3, s4, t);
    assert(senc_governance(g) == s0 + s1 + s2 + s3 + s4);
}

pub proof fn lemma_nt_graphic(g: GraphicV, t: Seq<char>)
    requires
        is_mp_field_tag(t),
    ensures
        no_tag_named(senc_graphic(g), t),
{
    lemma_mp_vocab(t);
    let s0 = seq![EventV::Start { name: "graphic"@, attrs: Seq::<AttrV>::empty() }];
    let s1 = senc_opt_text("name"@, g.name);
    let s2 = match g.image { Some(x) => senc_attachment("image"@, x), None => Seq::empty() };
    let s3 = seq![EventV::End { name: "graphic"@ }];
    lemma_nt_single_start("graphic"@, Seq::<AttrV>::empty(), t);
    lemma_nt_opt_text("name"@, g.name, t);
    match g.image {
        Some(x) => {
            lemma_nt_attachment("image"@, x, t);
        },
        None => {
            lemma_nt_empty(t);
        },
    }
    lemma_nt_single_end("graphic"@, t);
    lemma_no_tag_concat(s0, s1, t);
    lemma_no_tag_concat(s0 + s1, s2, t);
    lemma_no_tag_concat(s0 + s1 + s2, s3, t);
    assert(senc_graphic(g) == s0 + s1 + s2 + s3);
}

pub proof fn lemma_nt_graphic_items(items: Seq<GraphicV>, t: Seq<char>)
    requires
        is_mp_field_tag(t),
    ensures
        no_tag_named(senc_graphic_items(items), t),
    decreases items.len(),
{
    if items.len() == 0 {
        lemma_nt_empty(t);
    } else {
        lemma_nt_graphic(items[0], t);
        lemma_nt_graphic_items(items.drop_first(), t);
        lemma_no_tag_concat(senc_graphic(items[0]), senc_graphic_items(items.drop_first()), t);
    }
}

pub proof fn lemma_nt_collection(items: Seq<GraphicV>, t: Seq<char>)
    requires
        is_mp_field_tag(t),
    ensures
        no_tag_named(senc_collection(items), t),
{
    lemma_mp_vocab(t);
    let s0 = seq![EventV::Start { name: "collection"@, attrs: Seq::<AttrV>::empty() }];
    let s1 = senc_graphic_items(items);
    let s2 = seq![EventV::End { name: "collection"@ }];
    lemma_nt_single_start("collection"@, Seq::<AttrV>::empty(), t);
    lemma_nt_graphic_items(items, t);
    lemma_nt_single_end("collection"@, t);
    lemma_no_tag_concat(s0, s1, t);
    lemma_no_tag_concat(s0 + s1, s2, t);
    assert(senc_collection(items) == s0 + s1 + s2);
}

pub proof fn lemma_nt_graphics(g: GraphicsV, t: Seq<char>)
    requires
        is_mp_field_tag(t),
    ensures
        no_tag_named(senc_graphics(g), t),
{
    lemma_mp_vocab(t);
    let s0 = seq![EventV::Start { name: "graphics"@, attrs: Seq::<AttrV>::empty() }];
    let s1 = senc_opt_text("description"@, g.description);
    let s2 = match g.collection { Some(x) => senc_collection(x), None => Seq::empty() };
    let s3 = seq![EventV::End { name: "graphics"@ }];
    lemma_nt_single_start("graphics"@, Seq::<AttrV>::empty(), t);
    lemma_nt_opt_text("description"@, g.description, t);
    match g.collection {
        Some(x) => {
            lemma_nt_collection(x, t);
        },
        None => {
            lemma_nt_empty(t);
        },
    }
    lemma_nt_single_end("graphics"@, t);
    lemma_no_tag_concat(s0, s1, t);
    lemma_no_tag_concat(s0 + s1, s2, t);
    lemma_no_tag_concat(s0 + s1 + s2, s3, t);
    assert(senc_graphics(g) == s0 + s1 + s2 + s3);
}

pub proof fn lemma_nt_contents(c: DataContentsV, t: Seq<char>)
    requires
        is_mp_field_tag(t),
    ensures
        no_tag_named(senc_contents(c), t),
{
    lemma_mp_vocab(t);
    let s0 = seq![EventV::Start { name: "contents"@, attrs: Seq::<AttrV>::empty() }];
    let s1 = match c.attachment { Some(x) => senc_attachment("attachment"@, x), None => Seq::empty() };
    let s2 = senc_opt_text("url"@, c.url);
    let s3 = match c.properties { Some(x) => senc_properties(x), None => Seq::empty() };
    let s4 = seq![EventV::End { name: "contents"@ }];
    lemma_nt_single_start("contents"@, Seq::<AttrV>::empty(), t);
    match c.attachment {
        Some(x) => {
            lemma_nt_attachment("attachment"@, x, t);
        },
        None => {
            lemma_nt_empty(t);
        },
    }
    lemma_nt_opt_text("url"@, c.url, t);
    match c.properties {
        Some(x) => {
            lemma_nt_properties(x, t);
        },
        None => {
            lemma_nt_empty(t);
        },
    }
    lemma_nt_single_end("contents"@, t);
    lemma_no_tag_concat(s0, s1, t);
    lemma_no_tag_concat(s0 + s1, s2, t);
    lemma_no_tag_concat(s0 + s1 + s2, s3, t);
    lemma_no_tag_concat(s0 + s1 + s2 + s3, s4, t);
    assert(senc_contents(c) == s0 + s1 + s2 + s3 + s4);
}

#[verifier::rlimit(100)]
#[verifier::spinoff_prover]
pub proof fn lemma_nt_component(c: ComponentDataV, t: Seq<char>)
    requires
        is_mp_field_tag(t),
    ensures
        no_tag_named(senc_component(c), t),
{
    lemma_mp_vocab(t);
    let s0 = seq![EventV::Start { name: "dataset"@, attrs: opt_attr("bom-ref"@, c.bom_ref) }];
    let s1 = senc_text("type"@, c.data_type);
    let s2 = senc_opt_text("name"@, c.name);
    let s3 = match c.contents { Some(x) => senc_contents(x), None => Seq::empty() };
    let s4 = senc_opt_text("classification"@, c.classification);
    let s5 = senc_opt_text("sensitiveData"@, c.sensitive_data);
    let s6 = match c.graphics { Some(x) => senc_graphics(x), None => Seq::empty() };
    let s7 = senc_opt_text("description"@, c.description);
    let s8 = match c.governance { Some(x) => senc_governance(x), None => Seq::empty() };
    let s9 = seq![EventV::End { name: "dataset"@ }];
    lemma_nt_single_start("dataset"@, opt_attr("bom-ref"@, c.bom_ref), t);
    lemma_nt_text("type"@, c.data_type, t);
    lemma_nt_opt_text("name"@, c.name, t);
    match c.contents {
        Some(x) => {
            lemma_nt_contents(x, t);
        },
        None => {
            lemma_nt_empty(t);
        },
    }
    lemma_nt_opt_text("classification"@, c.classification, t);
    lemma_nt_opt_text("sensitiveData"@, c.sensitive_data, t);
    match c.graphics {
        Some(x) => {
            lemma_nt_graphics(x, t);
        },
        None => {
            lemma_nt_empty(t);
        },
    }
    lemma_nt_opt_text("description"@, c.description, t);
    match c.governance {
        Some(x) => {
            lemma_nt_governance(x, t);
        },
        None => {
            lemma_nt_empty(t);
        },
    }
    lemma_nt_single_end("dataset"@, t);
    lemma_no_tag_concat(s0, s1, t);
    lemma_no_tag_concat(s0 + s1, s2, t);
    lemma_no_tag_concat(s0 + s1 + s2, s3, t);
    lemma_no_tag_concat(s0 + s1 + s2 + s3, s4, t);
    lemma_no_tag_concat(s0 + s1 + s2 + s3 + s4, s5, t);
    lemma_no_tag_concat(s0 + s1 + s2 + s3 + s4 + s5, s6, t);
    lemma_no_tag_concat(s0 + s1 + s2 + s3 + s4 + s5 + s6, s7, t);
    lemma_no_tag_concat(s0 + s1 + s2 + s3 + s4 + s5 + s6 + s7, s8, t);
    lemma_no_tag_concat(s0 + s1 + s2 + s3 + s4 + s5 + s6 + s7 + s8, s9, t);
    assert(senc_component(c) == s0 + s1 + s2 + s3 + s4 + s5 + s6 + s7 + s8 + s9);
}

pub proof fn lemma_nt_dataset(d: DatasetV, t: Seq<char>)
    requires
        is_mp_field_tag(t),
    ensures
        no_tag_named(senc_dataset(d), t),
{
    lemma_mp_vocab(t);
    match d {
        DatasetV::Component(c) => {
            lemma_nt_component(c, t);
        },
        DatasetV::Reference(r) => {
            let s0 = seq![EventV::Start { name: "dataset"@, attrs: Seq::<AttrV>::empty() }];
            let s1 = senc_text("ref"@, r);
            let s2 = seq![EventV::End { name: "dataset"@ }];
            lemma_nt_single_start("dataset"@, Seq::<AttrV>::empty(), t);
            lemma_nt_text("ref"@, r, t);
            lemma_nt_single_end("dataset"@, t);
            lemma_no_tag_concat(s0, s1, t);
            lemma_no_tag_concat(s0 + s1, s2, t);
            assert(senc_dataset(d) == s0 + s1 + s2);
        },
    }
}

pub proof fn lemma_nt_dataset_items(items: Seq<DatasetV>, t: Seq<char>)
    requires
        is_mp_field_tag(t),
    ensures
        no_tag_named(senc_dataset_items(items), t),
    decreases items.len(),
{
    if items.len() == 0 {
        lemma_nt_empty(t);
    } else {
        lemma_nt_dataset(items[0], t);
        lemma_nt_dataset_items(items.drop_first(), t);
        lemma_no_tag_concat(senc_dataset(items[0]), senc_dataset_items(items.drop_first()), t);
    }
}

pub proof fn lemma_nt_datasets(items: Seq<DatasetV>, t: Seq<char>)
    requires
        is_mp_field_tag(t),
        t != "datasets"@,
    ensures
        no_tag_named(senc_datasets(items), t),
{
    let s0 = seq![EventV::Start { name: "datasets"@, attrs: Seq::<AttrV>::empty() }];
    let s1 = senc_dataset_items(items);
    let s2 = seq![EventV::End { name: "datasets"@ }];
    lemma_nt_single_start("datasets"@, Seq::<AttrV>::empty(), t);
    lemma_nt_dataset_items(items, t);
    lemma_nt_single_end("datasets"@, t);
    lemma_no_tag_concat(s0, s1, t);
    lemma_no_tag_concat(s0 + s1, s2, t);
    assert(senc_datasets(items) == s0 + s1 + s2);
}

pub proof fn lemma_nt_ml_parameter(p: MLParameterV, t: Seq<char>)
    requires
        is_mp_field_tag(t),
    ensures
        no_tag_named(senc_ml_parameter(p), t),
{
    lemma_mp_vocab(t);
    lemma_nt_opt_text("format"@, p.format, t);
}

pub proof fn lemma_nt_parameter_item(item: Seq<char>, p: MLParameterV, t: Seq<char>)
    requires
        is_mp_field_tag(t),
        item != t,
    ensures
        no_tag_named(senc_parameter_item(item, p), t),
{
    let s0 = seq![EventV::Start { name: item, attrs: Seq::<AttrV>::empty() }];
    let s1 = senc_ml_parameter(p);
    let s2 = seq![EventV::End { name: item }];
    lemma_nt_single_start(item, Seq::<AttrV>::empty(), t);
    lemma_nt_ml_parameter(p, t);
    lemma_nt_single_end(item, t);
    lemma_no_tag_concat(s0, s1, t);
    lemma_no_tag_concat(s0 + s1, s2, t);
    assert(senc_parameter_item(item, p) == s0 + s1 + s2);
}

pub proof fn lemma_nt_parameter_items(item: Seq<char>, items: Seq<MLParameterV>, t: Seq<char>)
    requires
        is_mp_field_tag(t),
        item != t,
    ensures
        no_tag_named(senc_parameter_items(item, items), t),
    decreases items.len(),
{
    if items.len() == 0 {
        lemma_nt_empty(t);
    } else {
        lemma_nt_parameter_item(item, items[0], t);
        lemma_nt_parameter_items(item, items.drop_first(), t);
        lemma_no_tag_concat(
            senc_parameter_item(item, items[0]),
            senc_parameter_items(item, items.drop_first()),
            t,
        );
    }
}

pub proof fn lemma_nt_parameter_list(
    wrapper: Seq<char>,
    item: Seq<char>,
    items: Seq<MLParameterV>,
    t: Seq<char>,
)
    requires
        is_mp_field_tag(t),
        wrapper != t,
        item != t,
    ensures
        no_tag_named(senc_parameter_list(wrapper, item, items), t),
{
    let s0 = seq![EventV::Start { name: wrapper, attrs: Seq::<AttrV>::empty() }];
    let s1 = senc_parameter_items(item, items);
    let s2 = seq![EventV::End { name: wrapper }];
    lemma_nt_single_start(wrapper, Seq::<AttrV>::empty(), t);
    lemma_nt_parameter_items(item, items, t);
    lemma_nt_single_end(wrapper, t);
    lemma_no_tag_concat(s0, s1, t);
    lemma_no_tag_concat(s0 + s1, s2, t);
    assert(senc_parameter_list(wrapper, item, items) == s0 + s1 + s2);
}

pub proof fn lemma_nt_approach(a: ModelParametersApproachV, t: Seq<char>)
    requires
        is_mp_field_tag(t),
        t != "approach"@,
    ensures
        no_tag_named(senc_approach(a), t),
{
    lemma_mp_vocab(t);
    let s0 = seq![EventV::Start { name: "approach"@, attrs: Seq::<AttrV>::empty() }];
    let s1 = senc_opt_text("type"@, a.approach_type);
    let s2 = seq![EventV::End { name: "approach"@ }];
    lemma_nt_single_start("approach"@, Seq::<AttrV>::empty(), t);
    lemma_nt_opt_text("type"@, a.approach_type, t);
    lemma_nt_single_end("approach"@, t);
    lemma_no_tag_concat(s0, s1, t);
    lemma_no_tag_concat(s0 + s1, s2, t);
    assert(senc_approach(a) == s0 + s1 + s2);
}

/// Encoding model parameters emits no tag at all, at any depth, for a
/// field that is absent: for each of the element's own field tags, if the
/// matching field is `None`, no event of the whole encoding carries that
/// tag.  By the round trip, decoding that output yields the field absent
/// again.
#[verifier::rlimit(100)]
#[verifier::spinoff_prover]
pub proof fn lemma_omission_model_parameters(m: ModelParametersV, t: Seq<char>)
    requires
        is_mp_field_tag(t),
        t == "approach"@ ==> m.approach is None,
        t == "task"@ ==> m.task is None,
        t == "architectureFamily"@ ==> m.architecture_family is None,
        t == "modelArchitecture"@ ==> m.model_architecture is None,
        t == "datasets"@ ==> m.datasets is None,
        t == "inputs"@ ==> m.inputs is None,
        t == "outputs"@ ==> m.outputs is None,
    ensures
        no_tag_named(senc_model_parameters(m), t),
{
    lemma_mp_vocab(t);
    lemma_model_parameters_tags();
    lemma_parameter_list_tags();
    let s0 = seq![EventV::Start { name: "modelParameters"@, attrs: Seq::<AttrV>::empty() }];
    let sa = match m.approach {
        Some(a) => senc_approach(a),
        None => Seq::empty(),
    };
    let st = senc_opt_text("task"@, m.task);
    let sf = senc_opt_text("architectureFamily"@, m.architecture_family);
    let sm = senc_opt_text("modelArchitecture"@, m.model_architecture);
    let sd = match m.datasets {
        Some(ds) => senc_datasets(ds),
        None => Seq::empty(),
    };
    let si = match m.inputs {
        Some(ps) => senc_parameter_list("inputs"@, "input"@, ps),
        None => Seq::empty(),
    };
    let so = match m.outputs {
        Some(ps) => senc_parameter_list("outputs"@, "output"@, ps),
        None => Seq::empty(),
    };
    let se = seq![EventV::End { name: "modelParameters"@ }];
    lemma_nt_single_start("modelParameters"@, Seq::<AttrV>::empty(), t);
    match m.approach {
        Some(a) => {
            lemma_nt_approach(a, t);
        },
        None => {
            lemma_nt_empty(t);
        },
    }
    if t == "task"@ {
        lemma_nt_empty(t);
        assert(st == Seq::<EventV>::empty());
    } else {
        lemma_nt_opt_text("task"@, m.task, t);
    }
    if t == "architectureFamily"@ {
        lemma_nt_empty(t);
        assert(sf == Seq::<EventV>::empty());
    } else {
        lemma_nt_opt_text("architectureFamily"@, m.architecture_family, t);
    }
    if t == "modelArchitecture"@ {
        lemma_nt_empty(t);
        assert(sm == Seq::<EventV>::empty());
    } else {
        lemma_nt_opt_text("modelArchitecture"@, m.model_architecture, t);
    }
    match m.datasets {
        Some(ds) => {
            lemma_nt_datasets(ds, t);
        },
        None => {
            lemma_nt_empty(t);
        },
    }
    match m.inputs {
        Some(ps) => {
            lemma_nt_parameter_list("inputs"@, "input"@, ps, t);
        },
        None => {
            lemma_nt_empty(t);
        },
    }
    match m.outputs {
        Some(ps) => {
            lemma_nt_parameter_list("outputs"@, "output"@, ps, t);
        },
        None => {
            lemma_nt_empty(t);
        },
    }
    lemma_nt_single_end("modelParameters"@, t);
    lemma_no_tag_concat(sa, st, t);
    lemma_no_tag_concat(sa + st, sf, t);
    lemma_no_tag_concat(sa + st + sf, sm, t);
    assert(senc_mp_scalars(m) == sa + st + sf + sm);
    lemma_no_tag_concat(sd, si, t);
    lemma_no_tag_concat(sd + si, so, t);
    assert(senc_mp_collections(m) == sd + si + so);
    lemma_no_tag_concat(s0, senc_mp_scalars(m), t);
    lemma_no_tag_concat(s0 + senc_mp_scalars(m), senc_mp_collections(m), t);
    lemma_no_tag_concat(s0 + senc_mp_scalars(m) + senc_mp_collections(m), se, t);
    assert(senc_model_parameters(m) == s0 + senc_mp_scalars(m) + senc_mp_collections(m) + se);
}

} // verus!
