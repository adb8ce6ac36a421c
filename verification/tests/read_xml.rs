use modelcard_xml::model::{
    Attachment, Collection, ComponentData, ConfidenceInterval, DataContents, DataGovernance,
    DataGovernanceResponsibleParty, Dataset, Datasets, Graphic, Graphics, Inputs, MLParameter,
    ModelCard, ModelParameters, ModelParametersApproach, OrganizationalContact,
    OrganizationalEntity, Outputs, PerformanceMetric, PerformanceMetrics, QuantitativeAnalysis,
};
use modelcard_xml::xmlio::{
    approach_from_xml, attachment_from_xml, confidence_interval_from_xml, dataset_from_xml,
    governance_from_xml, graphic_from_xml, graphics_from_xml, inputs_from_xml,
    ml_parameter_from_xml, model_card_from_xml, model_parameters_from_xml,
    quantitative_analysis_from_xml,
};

#[test]
fn it_should_read_confidence_interval() {
    let input = r#"
<confidenceInterval>
  <lowerBound>The lower bound</lowerBound>
  <upperBound>The upper bound</upperBound>
</confidenceInterval>
"#;
    let actual = confidence_interval_from_xml(input).expect("failed to read");
    let expected = ConfidenceInterval {
        lower_bound: Some("The lower bound".to_string()),
        upper_bound: Some("The upper bound".to_string()),
    };
    assert_eq!(expected, actual);
}

#[test]
fn it_should_read_xml_quantitative_analysis() {
    let input = r#"
<quantitativeAnalysis>
  <performanceMetrics>
    <performanceMetric>
      <type>The type of performance metric</type>
      <value>The value of the performance metric</value>
      <slice>The name of the slice this metric was computed on. By default, assume this metric is not sliced</slice>
      <confidenceInterval>
        <lowerBound>The lower bound of the confidence interval</lowerBound>
        <upperBound>The upper bound of the confidence interval</upperBound>
      </confidenceInterval>
    </performanceMetric>
  </performanceMetrics>
  <graphics>
    <description>Performance images</description>
    <collection>
      <graphic>
        <name>FID vs CLIP Scores on 512x512 samples for different v1-versions</name>
        <image encoding="base64" content-type="image/jpeg">1234</image>
      </graphic>
    </collection>
  </graphics>
</quantitativeAnalysis>
"#;
    let actual = quantitative_analysis_from_xml(input).expect("failed to read");
    let expected = QuantitativeAnalysis {
        performance_metrics: Some(PerformanceMetrics(vec![PerformanceMetric {
            metric_type: Some("The type of performance metric".to_string()),
            value: Some("The value of the performance metric".to_string()),
            slice: Some("The name of the slice this metric was computed on. By default, assume this metric is not sliced".to_string()),
            confidence_interval: Some(ConfidenceInterval {
                lower_bound: Some("The lower bound of the confidence interval".to_string()),
                upper_bound: Some("The upper bound of the confidence interval".to_string())
            })
        }])),
        graphics: Some(Graphics {
            description: Some("Performance images".to_string()),
            collection: Some(Collection(vec![Graphic {
                name: Some(
                    "FID vs CLIP Scores on 512x512 samples for different v1-versions"
                        .to_string(),
                ),
                image: Some(Attachment {
                    content: "1234".to_string(),
                    content_type: Some("image/jpeg".to_string()),
                    encoding: Some("base64".to_string()),
                }),
            }])),
        }),
    };
    assert_eq!(expected, actual);
}

#[test]
fn it_should_read_xml_image_attachment() {
    let input = r#"
<image encoding="base64" content-type="image/jpeg">abcdefgh</image>
"#;
    let actual = attachment_from_xml(input, "image").expect("failed to read");
    let expected = Attachment {
        content: "abcdefgh".to_string(),
        content_type: Some("image/jpeg".to_string()),
        encoding: Some("base64".to_string()),
    };
    assert_eq!(expected, actual);
}

#[test]
fn it_should_read_xml_graphic() {
    let input = r#"
<graphic>
  <name>FID vs CLIP Scores on 512x512 samples for different v1-versions</name>
  <image encoding="base64" content-type="image/jpeg">abcdefgh</image>
</graphic>
"#;
    let actual = graphic_from_xml(input).expect("failed to read");
    let expected = Graphic {
        name: Some("FID vs CLIP Scores on 512x512 samples for different v1-versions".to_string()),
        image: Some(Attachment {
            content: "abcdefgh".to_string(),
            content_type: Some("image/jpeg".to_string()),
            encoding: Some("base64".to_string()),
        }),
    };
    assert_eq!(expected, actual);
}

#[test]
fn it_should_read_xml_graphics() {
    let input = r#"
<graphics>
  <description>Performance images</description>
  <collection>
    <graphic>
      <name>FID vs CLIP Scores on 512x512 samples for different v1-versions</name>
      <image encoding="base64" content-type="image/jpeg">abcdefgh</image>
    </graphic>
  </collection>
</graphics>
"#;
    let actual = graphics_from_xml(input).expect("failed to read");
    let expected = Graphics {
        description: Some("Performance images".to_string()),
        collection: Some(Collection(vec![Graphic {
            name: Some(
                "FID vs CLIP Scores on 512x512 samples for different v1-versions".to_string(),
            ),
            image: Some(Attachment {
                content: "abcdefgh".to_string(),
                content_type: Some("image/jpeg".to_string()),
                encoding: Some("base64".to_string()),
            }),
        }])),
    };
    assert_eq!(expected, actual);
}

#[test]
fn it_should_read_xml_ml_parameter() {
    let input = r#"
<input>
  <format>string</format>
</input>
"#;
    let actual = ml_parameter_from_xml(input, "input").expect("failed to read");
    let expected = MLParameter::new("string");
    assert_eq!(expected, actual);
}

#[test]
fn it_should_parse_xml_inputs() {
    let input = r#"
<inputs>
  <input>
    <format>string</format>
  </input>
  <input>
    <format>input</format>
  </input>
</inputs>
"#;
    let actual = inputs_from_xml(input).expect("failed to read");
    let expected = Inputs(vec![MLParameter::new("string"), MLParameter::new("input")]);
    assert_eq!(expected, actual);
}

#[test]
fn it_should_read_xml_governance() {
    let input = r#"
<governance>
  <owners>
    <owner>
      <organization>
        <name>Organization 1</name>
      </organization>
    </owner>
  </owners>
  <custodians>
    <custodian>
      <contact bom-ref="custodian-1">
        <name>Custodian 1</name>
        <email>custodian@example.com</email>
      </contact>
    </custodian>
  </custodians>
</governance>
"#;
    let actual = governance_from_xml(input).expect("failed to read");
    let expected = DataGovernance {
        custodians: Some(vec![DataGovernanceResponsibleParty::Contact(
            OrganizationalContact {
                bom_ref: Some("custodian-1".to_string()),
                name: Some("Custodian 1".to_string()),
                email: Some("custodian@example.com".to_string()),
                phone: None,
            },
        )]),
        stewards: None,
        owners: Some(vec![DataGovernanceResponsibleParty::Organization(
            OrganizationalEntity::new("Organization 1"),
        )]),
    };
    assert_eq!(expected, actual);
}

#[test]
fn it_should_read_xml_dataset() {
    let input = r#"
<dataset bom-ref="dataset-a">
  <type>dataset</type>
  <name>Training Data</name>
  <contents>
    <url>https://example.com/path/to/dataset</url>
  </contents>
  <classification>public</classification>
  <description>data description</description>
  <governance>
    <owners>
      <owner>
        <organization>
          <name>Organization name</name>
        </organization>
      </owner>
    </owners>
  </governance>
</dataset>
"#;
    let actual = dataset_from_xml(input).expect("failed to read");
    let expected = Dataset::Component(ComponentData {
        bom_ref: Some("dataset-a".to_string()),
        data_type: "dataset".to_string(),
        name: Some("Training Data".to_string()),
        contents: Some(DataContents {
            attachment: None,
            url: Some("https://example.com/path/to/dataset".to_string()),
            properties: None,
        }),
        sensitive_data: None,
        classification: Some("public".to_string()),
        graphics: None,
        description: Some("data description".to_string()),
        governance: Some(DataGovernance {
            custodians: None,
            stewards: None,
            owners: Some(vec![DataGovernanceResponsibleParty::Organization(
                OrganizationalEntity::new("Organization name"),
            )]),
        }),
    });
    assert_eq!(expected, actual);
}

#[test]
fn it_should_read_xml_model_parameters_approach() {
    let input = r#"
<approach>
  <type>supervised</type>
</approach>
"#;
    let actual = approach_from_xml(input).expect("failed to read");
    let expected = ModelParametersApproach {
        approach_type: Some("supervised".to_string()),
    };
    assert_eq!(expected, actual);
}

#[test]
fn it_should_read_xml_model_parameters() {
    let input = r#"
<modelParameters>
  <approach>
    <type>supervised</type>
  </approach>
  <task>Task</task>
  <architectureFamily>Architecture</architectureFamily>
  <modelArchitecture>Model</modelArchitecture>
</modelParameters>
"#;
    let actual = model_parameters_from_xml(input).expect("failed to read");
    let expected = ModelParameters {
        approach: Some(ModelParametersApproach {
            approach_type: Some("supervised".to_string()),
        }),
        task: Some("Task".to_string()),
        architecture_family: Some("Architecture".to_string()),
        model_architecture: Some("Model".to_string()),
        datasets: None,
        inputs: None,
        outputs: None,
    };
    assert_eq!(expected, actual);
}

#[test]
fn it_sould_read_xml_model_card() {
    let input = r#"
<modelCard>
  <modelParameters>
    <approach>
      <type>supervised</type>
    </approach>
    <task>Task</task>
    <architectureFamily>Architecture</architectureFamily>
    <modelArchitecture>Model</modelArchitecture>
    <datasets>
      <dataset>
        <type>dataset</type>
        <name>Training Data</name>
        <contents>
          <url>https://example.com/path/to/dataset</url>
        </contents>
        <classification>public</classification>
      </dataset>
    </datasets>
    <inputs>
      <input><format>string</format></input>
    </inputs>
    <outputs>
      <output><format>image</format></output>
    </outputs>
  </modelParameters>
</modelCard>
"#;
    let actual = model_card_from_xml(input).expect("failed to read");
    let expected = ModelCard {
        bom_ref: None,
        model_parameters: Some(ModelParameters {
            approach: Some(ModelParametersApproach {
                approach_type: Some("supervised".to_string()),
            }),
            task: Some("Task".to_string()),
            architecture_family: Some("Architecture".to_string()),
            model_architecture: Some("Model".to_string()),
            datasets: Some(Datasets(vec![Dataset::Component(ComponentData {
                bom_ref: None,
                data_type: "dataset".to_string(),
                name: Some("Training Data".to_string()),
                contents: Some(DataContents {
                    attachment: None,
                    url: Some("https://example.com/path/to/dataset".to_string()),
                    properties: None,
                }),
                classification: Some("public".to_string()),
                sensitive_data: None,
                graphics: None,
                description: None,
                governance: None,
            })])),
            inputs: Some(Inputs(vec![MLParameter::new("string")])),
            outputs: Some(Outputs(vec![MLParameter::new("image")])),
        }),
        quantitative_analysis: None,
        considerations: None,
        properties: None,
    };
    assert_eq!(expected, actual);
}

#[test]
fn it_should_read_xml_bom_ref_attribute_in_modelcard() {
    let input = r#"
<modelCard bom-ref="modelcard-1">
</modelCard>
        "#;
    let actual = model_card_from_xml(input).expect("failed to read");
    let expected = ModelCard {
        bom_ref: Some("modelcard-1".to_string()),
        model_parameters: None,
        quantitative_analysis: None,
        considerations: None,
        properties: None,
    };
    assert_eq!(expected, actual);
}
