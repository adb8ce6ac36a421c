use modelcard_xml::adapt::{
    approach_from_canonical, approach_to_canonical, dataset_from_canonical, dataset_to_canonical,
    datasets_from_canonical, datasets_to_canonical, model_card_from_canonical,
    model_card_to_canonical,
};
use modelcard_xml::canonical::{ApproachType, BomReference, CanonicalDataset, ComponentDataType};
use modelcard_xml::errors::EncodeError;
use modelcard_xml::events::Event;
use modelcard_xml::model::{
    ComponentData, DataContents, Dataset, Datasets, ModelCard, ModelParameters,
    ModelParametersApproach,
};
use modelcard_xml::xmlio::{events_to_xml, model_card_from_xml, model_card_to_xml};

fn wire_model_card() -> ModelCard {
    ModelCard {
        bom_ref: Some("modelcard-1".to_string()),
        model_parameters: Some(ModelParameters {
            approach: Some(ModelParametersApproach {
                approach_type: Some("supervised".to_string()),
            }),
            task: Some("Task".to_string()),
            architecture_family: None,
            model_architecture: None,
            datasets: Some(Datasets(vec![
                Dataset::Component(ComponentData {
                    bom_ref: Some("dataset-1".to_string()),
                    data_type: "dataset".to_string(),
                    name: Some("Training Data".to_string()),
                    contents: Some(DataContents {
                        attachment: None,
                        url: Some("https://example.com/data".to_string()),
                        properties: None,
                    }),
                    classification: Some("public".to_string()),
                    sensitive_data: None,
                    graphics: None,
                    description: None,
                    governance: None,
                }),
                Dataset::Reference("ds-1".to_string()),
            ])),
            inputs: None,
            outputs: None,
        }),
        quantitative_analysis: None,
        considerations: None,
        properties: None,
    }
}

#[test]
fn adapter_round_trips_a_model_card() {
    let wire = wire_model_card();
    let canonical = model_card_to_canonical(wire_model_card());
    let back = model_card_from_canonical(canonical);
    assert_eq!(wire, back);
}

#[test]
fn adapter_narrows_known_enumerated_values() {
    let canonical = model_card_to_canonical(wire_model_card());
    let mp = canonical.model_parameters.expect("parameters lost");
    let approach = mp.approach.expect("approach lost");
    assert_eq!(Some(ApproachType::Supervised), approach.approach_type);
    let ds = mp.datasets.expect("datasets lost");
    match &ds.0[0] {
        CanonicalDataset::Component(c) => {
            assert_eq!(ComponentDataType::Dataset, c.data_type);
            assert_eq!(Some(BomReference("dataset-1".to_string())), c.bom_ref);
        }
        CanonicalDataset::Reference(_) => panic!("expected the inline object first"),
    }
    match &ds.0[1] {
        CanonicalDataset::Reference(r) => assert_eq!("ds-1", r),
        CanonicalDataset::Component(_) => panic!("expected the reference second"),
    }
}

#[test]
fn unknown_enumerated_text_survives_unchecked() {
    let a = ApproachType::new_unchecked("novel-method");
    assert_eq!(ApproachType::Unknown("novel-method".to_string()), a);
    assert_eq!("novel-method", a.as_text());
    let d = ComponentDataType::new_unchecked("holograms");
    assert_eq!(ComponentDataType::Unknown("holograms".to_string()), d);
    assert_eq!("holograms", d.as_text());
}

#[test]
fn known_enumerated_text_renders_back_to_itself() {
    for text in ["supervised", "unsupervised", "reinforcement-learning", "semi-supervised", "self-supervised"] {
        assert_eq!(text, ApproachType::new_unchecked(text).as_text());
    }
    for text in ["source-code", "configuration", "dataset", "definition", "other"] {
        assert_eq!(text, ComponentDataType::new_unchecked(text).as_text());
    }
}

#[test]
fn adapter_round_trips_each_dataset_shape() {
    let reference = Dataset::Reference("r".to_string());
    assert_eq!(
        reference,
        dataset_from_canonical(dataset_to_canonical(Dataset::Reference("r".to_string())))
    );
    let ds = Datasets(vec![Dataset::Reference("a".to_string()), Dataset::Reference("b".to_string())]);
    let back = datasets_from_canonical(datasets_to_canonical(Datasets(vec![
        Dataset::Reference("a".to_string()),
        Dataset::Reference("b".to_string()),
    ])));
    assert_eq!(ds, back);
}

#[test]
fn adapter_keeps_free_form_approach_text() {
    let a = ModelParametersApproach {
        approach_type: Some("something newer".to_string()),
    };
    let back = approach_from_canonical(approach_to_canonical(a.clone()));
    assert_eq!(a, back);
}

#[test]
fn canonical_value_survives_the_wire() {
    let canonical = model_card_to_canonical(wire_model_card());
    let wire = model_card_from_canonical(canonical);
    let xml = model_card_to_xml(&wire).expect("failed to write");
    let back_wire = model_card_from_xml(&xml).expect("failed to read");
    let back = model_card_to_canonical(back_wire);
    assert_eq!(model_card_to_canonical(wire_model_card()), back);
}

#[test]
fn sink_refuses_a_stray_close_tag() {
    let events = vec![Event::End {
        name: "dangling".to_string(),
    }];
    let r = events_to_xml(&events);
    assert_eq!(
        Err(EncodeError::SinkWriteFailure {
            element: "dangling".to_string(),
        }),
        r
    );
}
