//! The spec-version adapter: pure, total, bidirectional conversion
//! between the canonical model and the wire-shaped entities.
//!
//! Decoding a free-form wire string into a canonical enumerated value
//! always succeeds (accept-unchecked), and the canonical value always
//! renders back to its text, so both directions are total and neither
//! invents a default.  Every conversion preserves the mathematical view
//! of the document, which is what makes the two models interchangeable:
//! the round trip through the adapter is immediate from the contracts.

use vstd::prelude::*;

use crate::canonical::{
    ApproachType, BomReference, CanonicalApproach, CanonicalComponentData, CanonicalDataContents,
    CanonicalDataset, CanonicalDatasets, CanonicalModelCard, CanonicalModelParameters,
    ComponentDataType, Uri,
};
use crate::model::{
    ComponentData, DataContents, Dataset, Datasets, ModelCard, ModelParameters,
    ModelParametersApproach,
};

verus! {

/// Narrows a wire `contents` into the canonical form.
pub fn data_contents_to_canonical(c: DataContents) -> (r: CanonicalDataContents)
    ensures
        r.deep_view() == c.deep_view(),
{
    let DataContents { attachment, url, properties } = c;
    CanonicalDataContents {
        attachment,
        url: match url {
            Some(u) => Some(Uri(u)),
            None => None,
        },
        properties,
    }
}

/// Renders a canonical `contents` back into the wire form.
pub fn data_contents_from_canonical(c: CanonicalDataContents) -> (r: DataContents)
    ensures
        r.deep_view() == c.deep_view(),
{
    let CanonicalDataContents { attachment, url, properties } = c;
    DataContents {
        attachment,
        url: match url {
            Some(u) => Some(u.0),
            None => None,
        },
        properties,
    }
}

/// Narrows a wire inline-object dataset into the canonical form.
pub fn component_data_to_canonical(c: ComponentData) -> (r: CanonicalComponentData)
    ensures
        r.deep_view() == c.deep_view(),
{
    let ComponentData {
        bom_ref,
        data_type,
        name,
        contents,
        classification,
        sensitive_data,
        graphics,
        description,
        governance,
    } = c;
    CanonicalComponentData {
        bom_ref: match bom_ref {
            Some(s) => Some(BomReference(s)),
            None => None,
        },
        data_type: ComponentDataType::new_unchecked(data_type.as_str()),
        name,
        contents: match contents {
            Some(x) => Some(data_contents_to_canonical(x)),
            None => None,
        },
        classification,
        sensitive_data,
        graphics,
        description,
        governance,
    }
}

/// Renders a canonical inline-object dataset back into the wire form.
pub fn component_data_from_canonical(c: CanonicalComponentData) -> (r: ComponentData)
    ensures
        r.deep_view() == c.deep_view(),
{
    let CanonicalComponentData {
        bom_ref,
        data_type,
        name,
        contents,
        classification,
        sensitive_data,
        graphics,
        description,
        governance,
    } = c;
    ComponentData {
        bom_ref: match bom_ref {
            Some(s) => Some(s.0),
            None => None,
        },
        data_type: data_type.as_text(),
        name,
        contents: match contents {
            Some(x) => Some(data_contents_from_canonical(x)),
            None => None,
        },
        classification,
        sensitive_data,
        graphics,
        description,
        governance,
    }
}

/// Narrows a wire dataset into the canonical form.
pub fn dataset_to_canonical(d: Dataset) -> (r: CanonicalDataset)
    ensures
        r.deep_view() == d.deep_view(),
{
    match d {
        Dataset::Component(c) => CanonicalDataset::Component(component_data_to_canonical(c)),
        Dataset::Reference(s) => CanonicalDataset::Reference(s),
    }
}

/// Renders a canonical dataset back into the wire form.
pub fn dataset_from_canonical(d: CanonicalDataset) -> (r: Dataset)
    ensures
        r.deep_view() == d.deep_view(),
{
    match d {
        CanonicalDataset::Component(c) => Dataset::Component(component_data_from_canonical(c)),
        CanonicalDataset::Reference(s) => Dataset::Reference(s),
    }
}

/// Narrows a wire dataset list into the canonical form, in order.
pub fn datasets_to_canonical(d: Datasets) -> (r: CanonicalDatasets)
    ensures
        r.deep_view() == d.deep_view(),
{
    let ghost dv = d.deep_view();
    let mut v = d.0;
    let mut out: Vec<crate::canonical::CanonicalDataset> = Vec::new();
    proof {
        assert(out.deep_view() + v.deep_view() =~= dv);
    }
    while v.len() > 0
        invariant
            out.deep_view() + v.deep_view() == dv,
        decreases v@.len(),
    {
        let ghost pre_out = out.deep_view();
        let ghost pre_v = v.deep_view();
        let x = v.remove(0);
        let y = dataset_to_canonical(x);
        out.push(y);
        proof {
            assert(v.deep_view() =~= pre_v.drop_first());
            assert(out.deep_view() =~= pre_out.push(pre_v[0]));
            assert(out.deep_view() + v.deep_view() =~= pre_out + pre_v);
        }
    }
    proof {
        assert(out.deep_view() =~= dv);
    }
    CanonicalDatasets(out)
}

/// Renders a canonical dataset list back into the wire form, in order.
pub fn datasets_from_canonical(d: CanonicalDatasets) -> (r: Datasets)
    ensures
        r.deep_view() == d.deep_view(),
{
    let ghost dv = d.deep_view();
    let mut v = d.0;
    let mut out: Vec<Dataset> = Vec::new();
    proof {
        assert(out.deep_view() + v.deep_view() =~= dv);
    }
    while v.len() > 0
        invariant
            out.deep_view() + v.deep_view() == dv,
        decreases v@.len(),
    {
        let ghost pre_out = out.deep_view();
        let ghost pre_v = v.deep_view();
        let x = v.remove(0);
        let y = dataset_from_canonical(x);
        out.push(y);
        proof {
            assert(v.deep_view() =~= pre_v.drop_first());
            assert(out.deep_view() =~= pre_out.push(pre_v[0]));
            assert(out.deep_view() + v.deep_view() =~= pre_out + pre_v);
        }
    }
    proof {
        assert(out.deep_view() =~= dv);
    }
    Datasets(out)
}

/// Narrows a wire approach into the canonical form.
pub fn approach_to_canonical(a: ModelParametersApproach) -> (r: CanonicalApproach)
    ensures
        r.deep_view() == a.deep_view(),
{
    CanonicalApproach {
        approach_type: match a.approach_type {
            Some(s) => Some(ApproachType::new_unchecked(s.as_str())),
            None => None,
        },
    }
}

/// Renders a canonical approach back into the wire form.
pub fn approach_from_canonical(a: CanonicalApproach) -> (r: ModelParametersApproach)
    ensures
        r.deep_view() == a.deep_view(),
{
    ModelParametersApproach {
        approach_type: match a.approach_type {
            Some(t) => Some(t.as_text()),
            None => None,
        },
    }
}

/// Narrows wire model parameters into the canonical form.
pub fn model_parameters_to_canonical(m: ModelParameters) -> (r: CanonicalModelParameters)
    ensures
        r.deep_view() == m.deep_view(),
{
    let ModelParameters {
        approach,
        task,
        architecture_family,
        model_architecture,
        datasets,
        inputs,
        outputs,
    } = m;
    CanonicalModelParameters {
        approach: match approach {
            Some(a) => Some(approach_to_canonical(a)),
            None => None,
        },
        task,
        architecture_family,
        model_architecture,
        datasets: match datasets {
            Some(ds) => Some(datasets_to_canonical(ds)),
            None => None,
        },
        inputs,
        outputs,
    }
}

/// Renders canonical model parameters back into the wire form.
pub fn model_parameters_from_canonical(m: CanonicalModelParameters) -> (r: ModelParameters)
    ensures
        r.deep_view() == m.deep_view(),
{
    let CanonicalModelParameters {
        approach,
        task,
        architecture_family,
        model_architecture,
        datasets,
        inputs,
        outputs,
    } = m;
    ModelParameters {
        approach: match approach {
            Some(a) => Some(approach_from_canonical(a)),
            None => None,
        },
        task,
        architecture_family,
        model_architecture,
        datasets: match datasets {
            Some(ds) => Some(datasets_from_canonical(ds)),
            None => None,
        },
        inputs,
        outputs,
    }
}

/// Narrows a wire model card into the canonical form.
pub fn model_card_to_canonical(m: ModelCard) -> (r: CanonicalModelCard)
    ensures
        r.deep_view() == m.deep_view(),
{
    let ModelCard {
        bom_ref,
        model_parameters,
        quantitative_analysis,
        considerations,
        properties,
    } = m;
    CanonicalModelCard {
        bom_ref: match bom_ref {
            Some(s) => Some(BomReference(s)),
            None => None,
        },
        model_parameters: match model_parameters {
            Some(mp) => Some(model_parameters_to_canonical(mp)),
            None => None,
        },
        quantitative_analysis,
        considerations,
        properties,
    }
}

/// Renders a canonical model card back into the wire form.
pub fn model_card_from_canonical(m: CanonicalModelCard) -> (r: ModelCard)
    ensures
        r.deep_view() == m.deep_view(),
{
    let CanonicalModelCard {
        bom_ref,
        model_parameters,
        quantitative_analysis,
        considerations,
        properties,
    } = m;
    ModelCard {
        bom_ref: match bom_ref {
            Some(s) => Some(s.0),
            None => None,
        },
        model_parameters: match model_parameters {
            Some(mp) => Some(model_parameters_from_canonical(mp)),
            None => None,
        },
        quantitative_analysis,
        considerations,
        properties,
    }
}

} // verus!
