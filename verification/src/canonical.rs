//! The canonical, version-independent model of the model-card subtree,
//! and the adapter between it and the wire-shaped entities.
//!
//! The canonical model narrows a few free-form strings of the wire form
//! into typed values: a `bom-ref` and a URL get a type of their own, and
//! the enumerated leaves become enums that still accept unknown text from
//! newer producers ("accept-unchecked" construction).  Both directions of
//! the adapter are total, pure and preserve the mathematical view of the
//! document, so a canonical value and its wire form mean the same tree;
//! fields whose wire shape already matches the canonical one are shared.

use vstd::prelude::*;

use crate::events::str_eq;
use crate::model::{
    Attachment, Considerations, DataGovernance, Graphics, Inputs, Outputs, Properties,
    QuantitativeAnalysis,
};
use crate::model::{
    ComponentDataV, DataContentsV, DatasetV, ModelCardV, ModelParametersApproachV, ModelParametersV,
};

verus! {

/// The unique local identifier of a document node.
#[derive(Debug, Clone, PartialEq)]
pub struct BomReference(pub String);

impl DeepView for BomReference {
    type V = Seq<char>;

    open spec fn deep_view(&self) -> Seq<char> {
        self.0@
    }
}

impl BomReference {
    /// An identifier with the given text.
    pub fn new(s: &str) -> (r: Self)
        ensures
            r.deep_view() == s@,
    {
        BomReference(s.to_owned())
    }
}

/// A uniform resource identifier, kept as its text.
#[derive(Debug, Clone, PartialEq)]
pub struct Uri(pub String);

impl DeepView for Uri {
    type V = Seq<char>;

    open spec fn deep_view(&self) -> Seq<char> {
        self.0@
    }
}

/// The texts the schema enumerates for a learning approach.
pub open spec fn known_approach_text(s: Seq<char>) -> bool {
    ||| s == "supervised"@
    ||| s == "unsupervised"@
    ||| s == "reinforcement-learning"@
    ||| s == "semi-supervised"@
    ||| s == "self-supervised"@
}

/// The learning approach of a model.  Decoding is lenient: a text no
/// schema version knows yet is kept as it came, so documents from newer
/// producers survive the trip.
#[derive(Debug, Clone, PartialEq)]
pub enum ApproachType {
    Supervised,
    Unsupervised,
    ReinforcementLearning,
    SemiSupervised,
    SelfSupervised,
    Unknown(String),
}

impl DeepView for ApproachType {
    type V = Seq<char>;

    open spec fn deep_view(&self) -> Seq<char> {
        match self {
            ApproachType::Supervised => "supervised"@,
            ApproachType::Unsupervised => "unsupervised"@,
            ApproachType::ReinforcementLearning => "reinforcement-learning"@,
            ApproachType::SemiSupervised => "semi-supervised"@,
            ApproachType::SelfSupervised => "self-supervised"@,
            ApproachType::Unknown(s) => s@,
        }
    }
}

/// A canonical enumerated value is normalized: the catch-all variant
/// never shadows a known text.
pub open spec fn wf_approach_type(t: ApproachType) -> bool {
    match t {
        ApproachType::Unknown(s) => !known_approach_text(s@),
        _ => true,
    }
}

impl ApproachType {
    /// Accept-unchecked construction: any text is taken, a known one as
    /// its enumerated value, anything else as itself.
    pub fn new_unchecked(s: &str) -> (r: Self)
        ensures
            r.deep_view() == s@,
            wf_approach_type(r),
    {
        if str_eq(s, "supervised") {
            ApproachType::Supervised
        } else if str_eq(s, "unsupervised") {
            ApproachType::Unsupervised
        } else if str_eq(s, "reinforcement-learning") {
            ApproachType::ReinforcementLearning
        } else if str_eq(s, "semi-supervised") {
            ApproachType::SemiSupervised
        } else if str_eq(s, "self-supervised") {
            ApproachType::SelfSupervised
        } else {
            ApproachType::Unknown(s.to_owned())
        }
    }

    /// The canonical value always renders back to its text form, so the
    /// reverse direction of the adapter is total.
    pub fn as_text(&self) -> (r: String)
        ensures
            r@ == self.deep_view(),
    {
        match self {
            ApproachType::Supervised => "supervised".to_owned(),
            ApproachType::Unsupervised => "unsupervised".to_owned(),
            ApproachType::ReinforcementLearning => "reinforcement-learning".to_owned(),
            ApproachType::SemiSupervised => "semi-supervised".to_owned(),
            ApproachType::SelfSupervised => "self-supervised".to_owned(),
            ApproachType::Unknown(s) => s.clone(),
        }
    }
}

/// The texts the schema enumerates for the type of a dataset.
pub open spec fn known_component_data_text(s: Seq<char>) -> bool {
    ||| s == "source-code"@
    ||| s == "configuration"@
    ||| s == "dataset"@
    ||| s == "definition"@
    ||| s == "other"@
}

/// The type of data a dataset holds, with the same lenient catch-all.
#[derive(Debug, Clone, PartialEq)]
pub enum ComponentDataType {
    SourceCode,
    Configuration,
    Dataset,
    Definition,
    Other,
    Unknown(String),
}

impl DeepView for ComponentDataType {
    type V = Seq<char>;

    open spec fn deep_view(&self) -> Seq<char> {
        match self {
            ComponentDataType::SourceCode => "source-code"@,
            ComponentDataType::Configuration => "configuration"@,
            ComponentDataType::Dataset => "dataset"@,
            ComponentDataType::Definition => "definition"@,
            ComponentDataType::Other => "other"@,
            ComponentDataType::Unknown(s) => s@,
        }
    }
}

pub open spec fn wf_component_data_type(t: ComponentDataType) -> bool {
    match t {
        ComponentDataType::Unknown(s) => !known_component_data_text(s@),
        _ => true,
    }
}

impl ComponentDataType {
    /// Accept-unchecked construction, as for the approach type.
    pub fn new_unchecked(s: &str) -> (r: Self)
        ensures
            r.deep_view() == s@,
            wf_component_data_type(r),
    {
        if str_eq(s, "source-code") {
            ComponentDataType::SourceCode
        } else if str_eq(s, "configuration") {
            ComponentDataType::Configuration
        } else if str_eq(s, "dataset") {
            ComponentDataType::Dataset
        } else if str_eq(s, "definition") {
            ComponentDataType::Definition
        } else if str_eq(s, "other") {
            ComponentDataType::Other
        } else {
            ComponentDataType::Unknown(s.to_owned())
        }
    }

    /// The canonical value always renders back to its text form.
    pub fn as_text(&self) -> (r: String)
        ensures
            r@ == self.deep_view(),
    {
        match self {
            ComponentDataType::SourceCode => "source-code".to_owned(),
            ComponentDataType::Configuration => "configuration".to_owned(),
            ComponentDataType::Dataset => "dataset".to_owned(),
            ComponentDataType::Definition => "definition".to_owned(),
            ComponentDataType::Other => "other".to_owned(),
            ComponentDataType::Unknown(s) => s.clone(),
        }
    }
}

/// The canonical contents of a dataset: the URL is typed.
#[derive(Debug, Clone, PartialEq)]
pub struct CanonicalDataContents {
    pub attachment: Option<Attachment>,
    pub url: Option<Uri>,
    pub properties: Option<Properties>,
}

impl DeepView for CanonicalDataContents {
    type V = DataContentsV;

    open spec fn deep_view(&self) -> DataContentsV {
        DataContentsV {
            attachment: self.attachment.deep_view(),
            url: self.url.deep_view(),
            properties: self.properties.deep_view(),
        }
    }
}

/// The canonical inline-object dataset: identifier and type are typed.
#[derive(Debug, Clone, PartialEq)]
pub struct CanonicalComponentData {
    pub bom_ref: Option<BomReference>,
    pub data_type: ComponentDataType,
    pub name: Option<String>,
    pub contents: Option<CanonicalDataContents>,
    pub classification: Option<String>,
    pub sensitive_data: Option<String>,
    pub graphics: Option<Graphics>,
    pub description: Option<String>,
    pub governance: Option<DataGovernance>,
}

impl DeepView for CanonicalComponentData {
    type V = ComponentDataV;

    open spec fn deep_view(&self) -> ComponentDataV {
        ComponentDataV {
            bom_ref: self.bom_ref.deep_view(),
            data_type: self.data_type.deep_view(),
            name: self.name.deep_view(),
            contents: self.contents.deep_view(),
            classification: self.classification.deep_view(),
            sensitive_data: self.sensitive_data.deep_view(),
            graphics: self.graphics.deep_view(),
            description: self.description.deep_view(),
            governance: self.governance.deep_view(),
        }
    }
}

/// The canonical dataset union.
#[derive(Debug, Clone, PartialEq)]
pub enum CanonicalDataset {
    Component(CanonicalComponentData),
    Reference(String),
}

impl DeepView for CanonicalDataset {
    type V = DatasetV;

    open spec fn deep_view(&self) -> DatasetV {
        match self {
            CanonicalDataset::Component(c) => DatasetV::Component(c.deep_view()),
            CanonicalDataset::Reference(r) => DatasetV::Reference(r@),
        }
    }
}

/// The canonical dataset list.
#[derive(Debug, Clone, PartialEq)]
pub struct CanonicalDatasets(pub Vec<CanonicalDataset>);

impl DeepView for CanonicalDatasets {
    type V = Seq<DatasetV>;

    open spec fn deep_view(&self) -> Seq<DatasetV> {
        self.0.deep_view()
    }
}

/// The canonical learning approach.
#[derive(Debug, Clone, PartialEq)]
pub struct CanonicalApproach {
    pub approach_type: Option<ApproachType>,
}

impl DeepView for CanonicalApproach {
    type V = ModelParametersApproachV;

    open spec fn deep_view(&self) -> ModelParametersApproachV {
        ModelParametersApproachV { approach_type: self.approach_type.deep_view() }
    }
}

/// The canonical hyper-parameters.
#[derive(Debug, Clone, PartialEq)]
pub struct CanonicalModelParameters {
    pub approach: Option<CanonicalApproach>,
    pub task: Option<String>,
    pub architecture_family: Option<String>,
    pub model_architecture: Option<String>,
    pub datasets: Option<CanonicalDatasets>,
    pub inputs: Option<Inputs>,
    pub outputs: Option<Outputs>,
}

impl DeepView for CanonicalModelParameters {
    type V = ModelParametersV;

    open spec fn deep_view(&self) -> ModelParametersV {
        ModelParametersV {
            approach: self.approach.deep_view(),
            task: self.task.deep_view(),
            architecture_family: self.architecture_family.deep_view(),
            model_architecture: self.model_architecture.deep_view(),
            datasets: self.datasets.deep_view(),
            inputs: self.inputs.deep_view(),
            outputs: self.outputs.deep_view(),
        }
    }
}

/// The canonical model card.
#[derive(Debug, Clone, PartialEq)]
pub struct CanonicalModelCard {
    pub bom_ref: Option<BomReference>,
    pub model_parameters: Option<CanonicalModelParameters>,
    pub quantitative_analysis: Option<QuantitativeAnalysis>,
    pub considerations: Option<Considerations>,
    pub properties: Option<Properties>,
}

impl DeepView for CanonicalModelCard {
    type V = ModelCardV;

    open spec fn deep_view(&self) -> ModelCardV {
        ModelCardV {
            bom_ref: self.bom_ref.deep_view(),
            model_parameters: self.model_parameters.deep_view(),
            quantitative_analysis: self.quantitative_analysis.deep_view(),
            considerations: self.considerations.deep_view(),
            properties: self.properties.deep_view(),
        }
    }
}

} // verus!
