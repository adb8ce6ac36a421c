use modelcard_xml::model::{
    Attachment, Collection, ComponentData, ConfidenceInterval, DataContents, DataGovernance,
    DataGovernanceResponsibleParty, Dataset, Datasets, Graphic, Graphics, Inputs, MLParameter,
    ModelCard, ModelParameters, ModelParametersApproach, OrganizationalContact, Outputs,
    PerformanceMetric, PerformanceMetrics, QuantitativeAnalysis,
};
use modelcard_xml::xmlio::{governance_to_xml, model_card_to_xml, model_parameters_to_xml};

fn example_modelcard() -> ModelCard {
    ModelCard {
        bom_ref: Some("modelcard-1".to_string()),
        model_parameters: Some(example_model_parameters()),
        quantitative_analysis: Some(QuantitativeAnalysis {
            performance_metrics: Some(PerformanceMetrics(vec![PerformanceMetric {
                metric_type: Some("metric-1".to_string()),
                value: Some("metric value".to_string()),
                slice: None,
                confidence_interval: Some(ConfidenceInterval {
                    lower_bound: Some("low".to_string()),
                    upper_bound: Some("high".to_string()),
                }),
            }])),
            graphics: Some(Graphics {
                description: Some("Graphic Desc".to_string()),
                collection: Some(Collection(vec![Graphic {
                    name: Some("Graphic A".to_string()),
                    image: Some(Attachment {
                        content: "1234".to_string(),
                        content_type: None,
                        encoding: None,
                    }),
                }])),
            }),
        }),
        considerations: None,
        properties: None,
    }
}

fn example_governance() -> DataGovernance {
    DataGovernance {
        custodians: None,
        stewards: None,
        owners: Some(vec![DataGovernanceResponsibleParty::Contact(
            OrganizationalContact {
                bom_ref: Some("contact-1".to_string()),
                name: Some("Contact".to_string()),
                email: Some("contact@example.com".to_string()),
                phone: None,
            },
        )]),
    }
}

fn example_model_parameters() -> ModelParameters {
    ModelParameters {
        approach: Some(ModelParametersApproach {
            approach_type: Some("supervised".to_string()),
        }),
        task: Some("Task".to_string()),
        architecture_family: Some("Architecture".to_string()),
        model_architecture: Some("Model".to_string()),
        datasets: Some(Datasets(vec![Dataset::Component(ComponentData {
            bom_ref: Some("dataset-1".to_string()),
            data_type: "dataset".to_string(),
            name: Some("Training Data".to_string()),
            contents: Some(DataContents {
                attachment: None,
                url: Some("https://example.com/path/to/dataset".to_string()),
                properties: None,
            }),
            classification: Some("public".to_string()),
            sensitive_data: None,
            graphics: None,
            description: None,
            governance: Some(example_governance()),
        })])),
        inputs: Some(Inputs(vec![MLParameter::new("string")])),
        outputs: Some(Outputs(vec![MLParameter::new("image")])),
    }
}

const EXPECTED_GOVERNANCE: &str = "<governance><owners><owner><contact bom-ref=\"contact-1\"><name>Contact</name><email>contact@example.com</email></contact></owner></owners></governance>";

const EXPECTED_MODEL_PARAMETERS: &str = "<modelParameters><approach><type>supervised</type></approach><task>Task</task><architectureFamily>Architecture</architectureFamily><modelArchitecture>Model</modelArchitecture><datasets><dataset bom-ref=\"dataset-1\"><type>dataset</type><name>Training Data</name><contents><url>https://example.com/path/to/dataset</url></contents><classification>public</classification><governance><owners><owner><contact bom-ref=\"contact-1\"><name>Contact</name><email>contact@example.com</email></contact></owner></owners></governance></dataset></datasets><inputs><input><format>string</format></input></inputs><outputs><output><format>image</format></output></outputs></modelParameters>";

#[test]
fn it_should_write_xml_model_card() {
    let xml_output = model_card_to_xml(&example_modelcard()).expect("failed to write");
    let expected = format!(
        "<modelCard bom-ref=\"modelcard-1\">{}<quantitativeAnalysis><performanceMetrics><performanceMetric><type>metric-1</type><value>metric value</value><confidenceInterval><lowerBound>low</lowerBound><upperBound>high</upperBound></confidenceInterval></performanceMetric></performanceMetrics><graphics><description>Graphic Desc</description><collection><graphic><name>Graphic A</name><image>1234</image></graphic></collection></graphics></quantitativeAnalysis></modelCard>",
        EXPECTED_MODEL_PARAMETERS
    );
    assert_eq!(expected, xml_output);
}

#[test]
fn it_should_write_xml_data_governance() {
    let xml_output = governance_to_xml(&example_governance()).expect("failed to write");
    assert_eq!(EXPECTED_GOVERNANCE, xml_output);
}

#[test]
fn it_should_write_xml_model_parameters() {
    let xml_output = model_parameters_to_xml(&example_model_parameters()).expect("failed to write");
    assert_eq!(EXPECTED_MODEL_PARAMETERS, xml_output);
}
