//! The wire-shaped entities of the model-card subtree, and the
//! mathematical view of each.
//!
//! Every entity is a tree of optional children, optional scalar fields and
//! optional repeatable children; a field that is absent on the wire is
//! `None`, which is distinct from a field set to an empty list.  The view
//! of an entity replaces every `String` by its character sequence and every
//! `Vec` by its sequence, so that contracts can speak of values rather than
//! allocations.

use vstd::prelude::*;

verus! {

/// A leaf entity with inline text content plus two optional metadata
/// attributes carried on the opening tag rather than as child elements.
#[derive(Debug, Clone, PartialEq)]
pub struct Attachment {
    pub content: String,
    pub content_type: Option<String>,
    pub encoding: Option<String>,
}

#[verifier::ext_equal]
pub struct AttachmentV {
    pub content: Seq<char>,
    pub content_type: Option<Seq<char>>,
    pub encoding: Option<Seq<char>>,
}

impl DeepView for Attachment {
    type V = AttachmentV;

    open spec fn deep_view(&self) -> AttachmentV {
        AttachmentV {
            content: self.content@,
            content_type: self.content_type.deep_view(),
            encoding: self.encoding.deep_view(),
        }
    }
}

/// A name/value pair carried as `<property name="...">value</property>`.
#[derive(Debug, Clone, PartialEq)]
pub struct Property {
    pub name: String,
    pub value: String,
}

#[verifier::ext_equal]
pub struct PropertyV {
    pub name: Seq<char>,
    pub value: Seq<char>,
}

impl DeepView for Property {
    type V = PropertyV;

    open spec fn deep_view(&self) -> PropertyV {
        PropertyV { name: self.name@, value: self.value@ }
    }
}

/// The repeatable `property` children of a `properties` wrapper.
#[derive(Debug, Clone, PartialEq)]
pub struct Properties(pub Vec<Property>);

impl DeepView for Properties {
    type V = Seq<PropertyV>;

    open spec fn deep_view(&self) -> Seq<PropertyV> {
        self.0.deep_view()
    }
}

/// A person that can be responsible for data governance.
#[derive(Debug, Clone, PartialEq)]
pub struct OrganizationalContact {
    pub bom_ref: Option<String>,
    pub name: Option<String>,
    pub email: Option<String>,
    pub phone: Option<String>,
}

#[verifier::ext_equal]
pub struct OrganizationalContactV {
    pub bom_ref: Option<Seq<char>>,
    pub name: Option<Seq<char>>,
    pub email: Option<Seq<char>>,
    pub phone: Option<Seq<char>>,
}

impl DeepView for OrganizationalContact {
    type V = OrganizationalContactV;

    open spec fn deep_view(&self) -> OrganizationalContactV {
        OrganizationalContactV {
            bom_ref: self.bom_ref.deep_view(),
            name: self.name.deep_view(),
            email: self.email.deep_view(),
            phone: self.phone.deep_view(),
        }
    }
}

/// An organization that can be responsible for data governance.
#[derive(Debug, Clone, PartialEq)]
pub struct OrganizationalEntity {
    pub bom_ref: Option<String>,
    pub name: Option<String>,
    pub url: Option<Vec<String>>,
    pub contact: Option<Vec<OrganizationalContact>>,
}

#[verifier::ext_equal]
pub struct OrganizationalEntityV {
    pub bom_ref: Option<Seq<char>>,
    pub name: Option<Seq<char>>,
    pub url: Option<Seq<Seq<char>>>,
    pub contact: Option<Seq<OrganizationalContactV>>,
}

impl DeepView for OrganizationalEntity {
    type V = OrganizationalEntityV;

    open spec fn deep_view(&self) -> OrganizationalEntityV {
        OrganizationalEntityV {
            bom_ref: self.bom_ref.deep_view(),
            name: self.name.deep_view(),
            url: self.url.deep_view(),
            contact: self.contact.deep_view(),
        }
    }
}

impl OrganizationalEntity {
    /// An organization known by name alone.
    pub fn new(name: &str) -> (r: Self)
        ensures
            r.deep_view() == (OrganizationalEntityV {
                bom_ref: None,
                name: Some(name@),
                url: None,
                contact: None,
            }),
    {
        OrganizationalEntity { bom_ref: None, name: Some(name.to_owned()), url: None, contact: None }
    }
}

/// A responsible party is either an organization or a contact; the wire
/// form carries no discriminator beyond the child element's own name.
#[derive(Debug, Clone, PartialEq)]
pub enum DataGovernanceResponsibleParty {
    Organization(OrganizationalEntity),
    Contact(OrganizationalContact),
}

#[verifier::ext_equal]
pub enum DataGovernanceResponsiblePartyV {
    Organization(OrganizationalEntityV),
    Contact(OrganizationalContactV),
}

impl DeepView for DataGovernanceResponsibleParty {
    type V = DataGovernanceResponsiblePartyV;

    open spec fn deep_view(&self) -> DataGovernanceResponsiblePartyV {
        match self {
            DataGovernanceResponsibleParty::Organization(o) => {
                DataGovernanceResponsiblePartyV::Organization(o.deep_view())
            },
            DataGovernanceResponsibleParty::Contact(c) => {
                DataGovernanceResponsiblePartyV::Contact(c.deep_view())
            },
        }
    }
}

/// Custodians, stewards and owners of data.
#[derive(Debug, Clone, PartialEq)]
pub struct DataGovernance {
    pub custodians: Option<Vec<DataGovernanceResponsibleParty>>,
    pub stewards: Option<Vec<DataGovernanceResponsibleParty>>,
    pub owners: Option<Vec<DataGovernanceResponsibleParty>>,
}

#[verifier::ext_equal]
pub struct DataGovernanceV {
    pub custodians: Option<Seq<DataGovernanceResponsiblePartyV>>,
    pub stewards: Option<Seq<DataGovernanceResponsiblePartyV>>,
    pub owners: Option<Seq<DataGovernanceResponsiblePartyV>>,
}

impl DeepView for DataGovernance {
    type V = DataGovernanceV;

    open spec fn deep_view(&self) -> DataGovernanceV {
        DataGovernanceV {
            custodians: self.custodians.deep_view(),
            stewards: self.stewards.deep_view(),
            owners: self.owners.deep_view(),
        }
    }
}

/// A graphic: a name plus an image attachment.
#[derive(Debug, Clone, PartialEq)]
pub struct Graphic {
    pub name: Option<String>,
    pub image: Option<Attachment>,
}

#[verifier::ext_equal]
pub struct GraphicV {
    pub name: Option<Seq<char>>,
    pub image: Option<AttachmentV>,
}

impl DeepView for Graphic {
    type V = GraphicV;

    open spec fn deep_view(&self) -> GraphicV {
        GraphicV { name: self.name.deep_view(), image: self.image.deep_view() }
    }
}

/// The repeatable `graphic` children of a `collection` wrapper.
#[derive(Debug, Clone, PartialEq)]
pub struct Collection(pub Vec<Graphic>);

impl DeepView for Collection {
    type V = Seq<GraphicV>;

    open spec fn deep_view(&self) -> Seq<GraphicV> {
        self.0.deep_view()
    }
}

/// A described collection of graphics.
#[derive(Debug, Clone, PartialEq)]
pub struct Graphics {
    pub description: Option<String>,
    pub collection: Option<Collection>,
}

#[verifier::ext_equal]
pub struct GraphicsV {
    pub description: Option<Seq<char>>,
    pub collection: Option<Seq<GraphicV>>,
}

impl DeepView for Graphics {
    type V = GraphicsV;

    open spec fn deep_view(&self) -> GraphicsV {
        GraphicsV {
            description: self.description.deep_view(),
            collection: self.collection.deep_view(),
        }
    }
}

/// What a dataset holds: an attachment, a URL, or named properties.
#[derive(Debug, Clone, PartialEq)]
pub struct DataContents {
    pub attachment: Option<Attachment>,
    pub url: Option<String>,
    pub properties: Option<Properties>,
}

#[verifier::ext_equal]
pub struct DataContentsV {
    pub attachment: Option<AttachmentV>,
    pub url: Option<Seq<char>>,
    pub properties: Option<Seq<PropertyV>>,
}

impl DeepView for DataContents {
    type V = DataContentsV;

    open spec fn deep_view(&self) -> DataContentsV {
        DataContentsV {
            attachment: self.attachment.deep_view(),
            url: self.url.deep_view(),
            properties: self.properties.deep_view(),
        }
    }
}

/// A dataset described inline.  The `data_type` field is the one child the
/// schema marks mandatory for this shape.
#[derive(Debug, Clone, PartialEq)]
pub struct ComponentData {
    pub bom_ref: Option<String>,
    pub data_type: String,
    pub name: Option<String>,
    pub contents: Option<DataContents>,
    pub classification: Option<String>,
    pub sensitive_data: Option<String>,
    pub graphics: Option<Graphics>,
    pub description: Option<String>,
    pub governance: Option<DataGovernance>,
}

#[verifier::ext_equal]
pub struct ComponentDataV {
    pub bom_ref: Option<Seq<char>>,
    pub data_type: Seq<char>,
    pub name: Option<Seq<char>>,
    pub contents: Option<DataContentsV>,
    pub classification: Option<Seq<char>>,
    pub sensitive_data: Option<Seq<char>>,
    pub graphics: Option<GraphicsV>,
    pub description: Option<Seq<char>>,
    pub governance: Option<DataGovernanceV>,
}

impl DeepView for ComponentData {
    type V = ComponentDataV;

    open spec fn deep_view(&self) -> ComponentDataV {
        ComponentDataV {
            bom_ref: self.bom_ref.deep_view(),
            data_type: self.data_type@,
            name: self.name.deep_view(),
            contents: self.contents.deep_view(),
            classification: self.classification.deep_view(),
            sensitive_data: self.sensitive_data.deep_view(),
            graphics: self.graphics.deep_view(),
            description: self.description.deep_view(),
            governance: self.governance.deep_view(),
        }
    }
}

/// A dataset is either an inline object or a plain reference string; the
/// wire form carries no discriminator tag.
#[derive(Debug, Clone, PartialEq)]
pub enum Dataset {
    Component(ComponentData),
    Reference(String),
}

#[verifier::ext_equal]
pub enum DatasetV {
    Component(ComponentDataV),
    Reference(Seq<char>),
}

impl DeepView for Dataset {
    type V = DatasetV;

    open spec fn deep_view(&self) -> DatasetV {
        match self {
            Dataset::Component(c) => DatasetV::Component(c.deep_view()),
            Dataset::Reference(r) => DatasetV::Reference(r@),
        }
    }
}

/// The repeatable `dataset` children of a `datasets` wrapper.
#[derive(Debug, Clone, PartialEq)]
pub struct Datasets(pub Vec<Dataset>);

impl DeepView for Datasets {
    type V = Seq<DatasetV>;

    open spec fn deep_view(&self) -> Seq<DatasetV> {
        self.0.deep_view()
    }
}

/// A machine-learning input or output parameter.
#[derive(Debug, Clone, PartialEq)]
pub struct MLParameter {
    pub format: Option<String>,
}

#[verifier::ext_equal]
pub struct MLParameterV {
    pub format: Option<Seq<char>>,
}

impl DeepView for MLParameter {
    type V = MLParameterV;

    open spec fn deep_view(&self) -> MLParameterV {
        MLParameterV { format: self.format.deep_view() }
    }
}

impl MLParameter {
    /// A parameter of the given format.
    pub fn new(format: &str) -> (r: Self)
        ensures
            r.deep_view() == (MLParameterV { format: Some(format@) }),
    {
        MLParameter { format: Some(format.to_owned()) }
    }
}

/// The repeatable `input` children of an `inputs` wrapper.
#[derive(Debug, Clone, PartialEq)]
pub struct Inputs(pub Vec<MLParameter>);

impl DeepView for Inputs {
    type V = Seq<MLParameterV>;

    open spec fn deep_view(&self) -> Seq<MLParameterV> {
        self.0.deep_view()
    }
}

/// The repeatable `output` children of an `outputs` wrapper.
#[derive(Debug, Clone, PartialEq)]
pub struct Outputs(pub Vec<MLParameter>);

impl DeepView for Outputs {
    type V = Seq<MLParameterV>;

    open spec fn deep_view(&self) -> Seq<MLParameterV> {
        self.0.deep_view()
    }
}

/// The learning approach of the model.
#[derive(Debug, Clone, PartialEq)]
pub struct ModelParametersApproach {
    pub approach_type: Option<String>,
}

#[verifier::ext_equal]
pub struct ModelParametersApproachV {
    pub approach_type: Option<Seq<char>>,
}

impl DeepView for ModelParametersApproach {
    type V = ModelParametersApproachV;

    open spec fn deep_view(&self) -> ModelParametersApproachV {
        ModelParametersApproachV { approach_type: self.approach_type.deep_view() }
    }
}

/// Hyper-parameters of the model.
#[derive(Debug, Clone, PartialEq)]
pub struct ModelParameters {
    pub approach: Option<ModelParametersApproach>,
    pub task: Option<String>,
    pub architecture_family: Option<String>,
    pub model_architecture: Option<String>,
    pub datasets: Option<Datasets>,
    pub inputs: Option<Inputs>,
    pub outputs: Option<Outputs>,
}

#[verifier::ext_equal]
pub struct ModelParametersV {
    pub approach: Option<ModelParametersApproachV>,
    pub task: Option<Seq<char>>,
    pub architecture_family: Option<Seq<char>>,
    pub model_architecture: Option<Seq<char>>,
    pub datasets: Option<Seq<DatasetV>>,
    pub inputs: Option<Seq<MLParameterV>>,
    pub outputs: Option<Seq<MLParameterV>>,
}

impl DeepView for ModelParameters {
    type V = ModelParametersV;

    open spec fn deep_view(&self) -> ModelParametersV {
        ModelParametersV {
            approach: self.approach.deep_view(),
            task: self.task.deep_view(),
            architecture_family: self.architecture_family.deep_view(),
            model_architecture: self.model_architecture.deep_view(),
            datasets: self.datasets.deep_view(),
            inputs: self.inputs.deep_view(),
            outputs: self.outputs.deep_view(),
        }
    }
}

/// A single performance metric.
#[derive(Debug, Clone, PartialEq)]
pub struct PerformanceMetric {
    pub metric_type: Option<String>,
    pub value: Option<String>,
    pub slice: Option<String>,
    pub confidence_interval: Option<ConfidenceInterval>,
}

#[verifier::ext_equal]
pub struct PerformanceMetricV {
    pub metric_type: Option<Seq<char>>,
    pub value: Option<Seq<char>>,
    pub slice: Option<Seq<char>>,
    pub confidence_interval: Option<ConfidenceIntervalV>,
}

impl DeepView for PerformanceMetric {
    type V = PerformanceMetricV;

    open spec fn deep_view(&self) -> PerformanceMetricV {
        PerformanceMetricV {
            metric_type: self.metric_type.deep_view(),
            value: self.value.deep_view(),
            slice: self.slice.deep_view(),
            confidence_interval: self.confidence_interval.deep_view(),
        }
    }
}

/// The repeatable `performanceMetric` children of a `performanceMetrics`
/// wrapper.
#[derive(Debug, Clone, PartialEq)]
pub struct PerformanceMetrics(pub Vec<PerformanceMetric>);

impl DeepView for PerformanceMetrics {
    type V = Seq<PerformanceMetricV>;

    open spec fn deep_view(&self) -> Seq<PerformanceMetricV> {
        self.0.deep_view()
    }
}

/// The confidence interval of a metric.
#[derive(Debug, Clone, PartialEq)]
pub struct ConfidenceInterval {
    pub lower_bound: Option<String>,
    pub upper_bound: Option<String>,
}

#[verifier::ext_equal]
pub struct ConfidenceIntervalV {
    pub lower_bound: Option<Seq<char>>,
    pub upper_bound: Option<Seq<char>>,
}

impl DeepView for ConfidenceInterval {
    type V = ConfidenceIntervalV;

    open spec fn deep_view(&self) -> ConfidenceIntervalV {
        ConfidenceIntervalV {
            lower_bound: self.lower_bound.deep_view(),
            upper_bound: self.upper_bound.deep_view(),
        }
    }
}

/// Quantitative analysis of the model.
#[derive(Debug, Clone, PartialEq)]
pub struct QuantitativeAnalysis {
    pub performance_metrics: Option<PerformanceMetrics>,
    pub graphics: Option<Graphics>,
}

#[verifier::ext_equal]
pub struct QuantitativeAnalysisV {
    pub performance_metrics: Option<Seq<PerformanceMetricV>>,
    pub graphics: Option<GraphicsV>,
}

impl DeepView for QuantitativeAnalysis {
    type V = QuantitativeAnalysisV;

    open spec fn deep_view(&self) -> QuantitativeAnalysisV {
        QuantitativeAnalysisV {
            performance_metrics: self.performance_metrics.deep_view(),
            graphics: self.graphics.deep_view(),
        }
    }
}

/// Considerations of the model.  The schema version at hand carries no
/// children here yet; the element still round-trips as a marker.
#[derive(Debug, Clone, PartialEq)]
pub struct Considerations {}

#[verifier::ext_equal]
pub struct ConsiderationsV {}

impl DeepView for Considerations {
    type V = ConsiderationsV;

    open spec fn deep_view(&self) -> ConsiderationsV {
        ConsiderationsV {}
    }
}

/// The model card itself: the root entity of this subtree.
#[derive(Debug, Clone, PartialEq)]
pub struct ModelCard {
    pub bom_ref: Option<String>,
    pub model_parameters: Option<ModelParameters>,
    pub quantitative_analysis: Option<QuantitativeAnalysis>,
    pub considerations: Option<Considerations>,
    pub properties: Option<Properties>,
}

#[verifier::ext_equal]
pub struct ModelCardV {
    pub bom_ref: Option<Seq<char>>,
    pub model_parameters: Option<ModelParametersV>,
    pub quantitative_analysis: Option<QuantitativeAnalysisV>,
    pub considerations: Option<ConsiderationsV>,
    pub properties: Option<Seq<PropertyV>>,
}

impl DeepView for ModelCard {
    type V = ModelCardV;

    open spec fn deep_view(&self) -> ModelCardV {
        ModelCardV {
            bom_ref: self.bom_ref.deep_view(),
            model_parameters: self.model_parameters.deep_view(),
            quantitative_analysis: self.quantitative_analysis.deep_view(),
            considerations: self.considerations.deep_view(),
            properties: self.properties.deep_view(),
        }
    }
}

} // verus!
