use modelcard_xml::decode::{decode_confidence_interval, decode_datasets};
use modelcard_xml::errors::DecodeError;
use modelcard_xml::events::{Attr, Event};
use modelcard_xml::model::{
    Attachment, Collection, ComponentData, ConfidenceInterval, Considerations, DataContents,
    DataGovernance,
    DataGovernanceResponsibleParty, Dataset, Datasets, Graphic, Graphics, Inputs, MLParameter,
    ModelCard, ModelParameters, ModelParametersApproach, OrganizationalContact,
    OrganizationalEntity, Outputs, PerformanceMetric, PerformanceMetrics, Properties, Property,
    QuantitativeAnalysis,
};
use modelcard_xml::xmlio::{
    attachment_from_xml, attachment_to_xml, confidence_interval_from_xml,
    confidence_interval_to_xml, contact_from_xml, contact_to_xml, dataset_from_xml,
    dataset_to_xml, datasets_from_xml, datasets_to_xml, governance_from_xml, governance_to_xml,
    graphic_from_xml, graphic_to_xml, inputs_from_xml, inputs_to_xml, model_card_from_xml,
    model_card_to_xml, model_parameters_from_xml, model_parameters_to_xml, organization_from_xml,
    organization_to_xml, outputs_from_xml, outputs_to_xml, parse_events,
    performance_metric_from_xml, performance_metric_to_xml, properties_from_xml,
    properties_to_xml,
};

fn full_model_card() -> ModelCard {
    ModelCard {
        bom_ref: Some("modelcard-1".to_string()),
        model_parameters: Some(ModelParameters {
            approach: Some(ModelParametersApproach {
                approach_type: Some("supervised".to_string()),
            }),
            task: Some("Task".to_string()),
            architecture_family: Some("Architecture".to_string()),
            model_architecture: Some("Model".to_string()),
            datasets: Some(Datasets(vec![
                Dataset::Component(ComponentData {
                    bom_ref: Some("dataset-1".to_string()),
                    data_type: "dataset".to_string(),
                    name: Some("Training Data".to_string()),
                    contents: Some(DataContents {
                        attachment: Some(Attachment {
                            content: "abcd".to_string(),
                            content_type: Some("text/plain".to_string()),
                            encoding: None,
                        }),
                        url: Some("https://example.com/data".to_string()),
                        properties: Some(Properties(vec![Property {
                            name: "source".to_string(),
                            value: "internal".to_string(),
                        }])),
                    }),
                    classification: Some("public".to_string()),
                    sensitive_data: Some("none".to_string()),
                    graphics: Some(Graphics {
                        description: Some("plots".to_string()),
                        collection: Some(Collection(vec![Graphic {
                            name: Some("g1".to_string()),
                            image: Some(Attachment {
                                content: "1234".to_string(),
                                content_type: Some("image/jpeg".to_string()),
                                encoding: Some("base64".to_string()),
                            }),
                        }])),
                    }),
                    description: Some("training set".to_string()),
                    governance: Some(DataGovernance {
                        custodians: Some(vec![DataGovernanceResponsibleParty::Contact(
                            OrganizationalContact {
                                bom_ref: Some("c-1".to_string()),
                                name: Some("Custodian".to_string()),
                                email: Some("c@example.com".to_string()),
                                phone: Some("555".to_string()),
                            },
                        )]),
                        stewards: Some(vec![DataGovernanceResponsibleParty::Organization(
                            OrganizationalEntity {
                                bom_ref: Some("o-1".to_string()),
                                name: Some("Org".to_string()),
                                url: Some(vec!["https://example.org".to_string()]),
                                contact: Some(vec![OrganizationalContact {
                                    bom_ref: None,
                                    name: Some("N".to_string()),
                                    email: None,
                                    phone: None,
                                }]),
                            },
                        )]),
                        owners: Some(vec![DataGovernanceResponsibleParty::Organization(
                            OrganizationalEntity::new("Owner Org"),
                        )]),
                    }),
                }),
                Dataset::Reference("ds-ref-1".to_string()),
            ])),
            inputs: Some(Inputs(vec![MLParameter::new("string")])),
            outputs: Some(Outputs(vec![MLParameter::new("image"), MLParameter { format: None }])),
        }),
        quantitative_analysis: Some(QuantitativeAnalysis {
            performance_metrics: Some(PerformanceMetrics(vec![PerformanceMetric {
                metric_type: Some("accuracy".to_string()),
                value: Some("0.99".to_string()),
                slice: Some("validation".to_string()),
                confidence_interval: Some(ConfidenceInterval {
                    lower_bound: Some("0.98".to_string()),
                    upper_bound: Some("0.995".to_string()),
                }),
            }])),
            graphics: None,
        }),
        considerations: None,
        properties: Some(Properties(vec![Property {
            name: "k".to_string(),
            value: "v".to_string(),
        }])),
    }
}

#[test]
fn round_trip_full_model_card() {
    let card = full_model_card();
    let xml = model_card_to_xml(&card).expect("failed to write");
    let back = model_card_from_xml(&xml).expect("failed to read");
    assert_eq!(card, back);
}

#[test]
fn round_trip_all_absent_model_card() {
    let card = ModelCard {
        bom_ref: None,
        model_parameters: None,
        quantitative_analysis: None,
        considerations: None,
        properties: None,
    };
    let xml = model_card_to_xml(&card).expect("failed to write");
    assert!(!xml.contains("bom-ref"));
    let back = model_card_from_xml(&xml).expect("failed to read");
    assert_eq!(card, back);
}

#[test]
fn round_trip_reference_dataset() {
    let d = Dataset::Reference("some-ref".to_string());
    let xml = dataset_to_xml(&d).expect("failed to write");
    let back = dataset_from_xml(&xml).expect("failed to read");
    assert_eq!(d, back);
}

#[test]
fn round_trip_governance() {
    let g = DataGovernance {
        custodians: Some(vec![DataGovernanceResponsibleParty::Contact(
            OrganizationalContact {
                bom_ref: None,
                name: Some("A".to_string()),
                email: None,
                phone: None,
            },
        )]),
        stewards: None,
        owners: Some(vec![DataGovernanceResponsibleParty::Organization(
            OrganizationalEntity::new("B"),
        )]),
    };
    let xml = governance_to_xml(&g).expect("failed to write");
    let back = governance_from_xml(&xml).expect("failed to read");
    assert_eq!(g, back);
}

#[test]
fn round_trip_attachment_with_markup_in_text() {
    let a = Attachment {
        content: "a<b&c>\"d\"".to_string(),
        content_type: Some("text/plain".to_string()),
        encoding: None,
    };
    let xml = attachment_to_xml(&a, "attachment").expect("failed to write");
    let back = attachment_from_xml(&xml, "attachment").expect("failed to read");
    assert_eq!(a, back);
}

#[test]
fn omitted_field_emits_no_tag() {
    let ci = ConfidenceInterval {
        lower_bound: None,
        upper_bound: Some("high".to_string()),
    };
    let xml = confidence_interval_to_xml(&ci).expect("failed to write");
    assert!(!xml.contains("lowerBound"));
    let back = confidence_interval_from_xml(&xml).expect("failed to read");
    assert_eq!(None, back.lower_bound);
    assert_eq!(Some("high".to_string()), back.upper_bound);
}

#[test]
fn omitted_attribute_emits_nothing() {
    let a = Attachment {
        content: "xyz".to_string(),
        content_type: Some("text/plain".to_string()),
        encoding: None,
    };
    let xml = attachment_to_xml(&a, "attachment").expect("failed to write");
    assert!(!xml.contains("encoding"));
    let back = attachment_from_xml(&xml, "attachment").expect("failed to read");
    assert_eq!(a, back);
}

#[test]
fn union_reference_child_alone_yields_reference() {
    let input = "<dataset><ref>the-ref</ref></dataset>";
    let actual = dataset_from_xml(input).expect("failed to read");
    assert_eq!(Dataset::Reference("the-ref".to_string()), actual);
}

#[test]
fn union_object_shape_wins_over_reference() {
    let input = "<dataset><type>dataset</type><name>N</name><ref>the-ref</ref></dataset>";
    let actual = dataset_from_xml(input).expect("failed to read");
    let expected = Dataset::Component(ComponentData {
        bom_ref: None,
        data_type: "dataset".to_string(),
        name: Some("N".to_string()),
        contents: None,
        classification: None,
        sensitive_data: None,
        graphics: None,
        description: None,
        governance: None,
    });
    assert_eq!(expected, actual);
}

#[test]
fn dataset_without_type_is_missing_required_data() {
    let input = "<dataset><name>N</name></dataset>";
    let actual = dataset_from_xml(input);
    let expected = Err(DecodeError::RequiredDataMissing {
        required_field: "type".to_string(),
        element: "dataset".to_string(),
    });
    assert_eq!(expected, actual);
}

#[test]
fn dataset_with_no_recognized_children_names_both_shapes() {
    let input = "<dataset></dataset>";
    let actual = dataset_from_xml(input);
    let expected = Err(DecodeError::RequiredDataMissing {
        required_field: "type or ref".to_string(),
        element: "dataset".to_string(),
    });
    assert_eq!(expected, actual);
}

#[test]
fn empty_datasets_wrapper_is_an_empty_sequence() {
    let input = "<datasets></datasets>";
    let actual = datasets_from_xml(input).expect("failed to read");
    assert_eq!(Datasets(vec![]), actual);
}

#[test]
fn absent_datasets_field_stays_unset() {
    let input = "<modelParameters><task>T</task></modelParameters>";
    let actual = model_parameters_from_xml(input).expect("failed to read");
    assert_eq!(None, actual.datasets);
    assert_eq!(Some("T".to_string()), actual.task);
}

#[test]
fn empty_datasets_round_trips_as_present() {
    let mp = ModelParameters {
        approach: None,
        task: None,
        architecture_family: None,
        model_architecture: None,
        datasets: Some(Datasets(vec![])),
        inputs: None,
        outputs: None,
    };
    let xml = model_parameters_to_xml(&mp).expect("failed to write");
    let back = model_parameters_from_xml(&xml).expect("failed to read");
    assert_eq!(Some(Datasets(vec![])), back.datasets);
}

#[test]
fn attribute_and_element_placement_round_trips_exactly() {
    let input = "<image encoding=\"base64\" content-type=\"image/jpeg\">1234</image>";
    let actual = attachment_from_xml(input, "image").expect("failed to read");
    let expected = Attachment {
        content: "1234".to_string(),
        content_type: Some("image/jpeg".to_string()),
        encoding: Some("base64".to_string()),
    };
    assert_eq!(expected, actual);
    let xml = attachment_to_xml(&actual, "image").expect("failed to write");
    assert_eq!(
        "<image content-type=\"image/jpeg\" encoding=\"base64\">1234</image>",
        xml
    );
}

#[test]
fn unknown_child_is_skipped_by_permissive_decoder() {
    let input = "<confidenceInterval><mystery>???</mystery><lowerBound>low</lowerBound><upperBound>high</upperBound></confidenceInterval>";
    let actual = confidence_interval_from_xml(input).expect("failed to read");
    let expected = ConfidenceInterval {
        lower_bound: Some("low".to_string()),
        upper_bound: Some("high".to_string()),
    };
    assert_eq!(expected, actual);
}

#[test]
fn strict_list_wrapper_refuses_unknown_children() {
    let input = "<datasets><mystery></mystery></datasets>";
    let actual = datasets_from_xml(input);
    let expected = Err(DecodeError::UnexpectedElement {
        expected: "datasets".to_string(),
        found: "mystery".to_string(),
    });
    assert_eq!(expected, actual);
}

#[test]
fn truncated_stream_is_unexpected_end() {
    let events = vec![Event::Start {
        name: "lowerBound".to_string(),
        attrs: vec![],
    }];
    let (r, _) = decode_confidence_interval(&events, 0);
    assert_eq!(Err(DecodeError::UnexpectedEndOfStream), r);
}

#[test]
fn stray_text_in_strict_list_is_unexpected() {
    let events = vec![Event::Text {
        text: "loose".to_string(),
    }];
    let (r, _) = decode_datasets(&events, 0);
    assert_eq!(
        Err(DecodeError::UnexpectedElement {
            expected: "datasets".to_string(),
            found: "loose".to_string(),
        }),
        r
    );
}

#[test]
fn malformed_document_is_refused() {
    let input = "<confidenceInterval><lowerBound>low";
    let actual = confidence_interval_from_xml(input);
    assert_eq!(Err(DecodeError::MalformedDocument), actual);
}

#[test]
fn property_without_name_is_missing_required_data() {
    let input = "<properties><property>v</property></properties>";
    let actual = properties_from_xml(input);
    let expected = Err(DecodeError::RequiredDataMissing {
        required_field: "name".to_string(),
        element: "property".to_string(),
    });
    assert_eq!(expected, actual);
}

#[test]
fn properties_round_trip_keeps_order() {
    let ps = Properties(vec![
        Property {
            name: "a".to_string(),
            value: "1".to_string(),
        },
        Property {
            name: "b".to_string(),
            value: "2".to_string(),
        },
    ]);
    let xml = properties_to_xml(&ps).expect("failed to write");
    let back = properties_from_xml(&xml).expect("failed to read");
    assert_eq!(ps, back);
}

#[test]
fn empty_attachment_body_decodes_to_empty_content() {
    let input = "<image></image>";
    let actual = attachment_from_xml(input, "image").expect("failed to read");
    let expected = Attachment {
        content: "".to_string(),
        content_type: None,
        encoding: None,
    };
    assert_eq!(expected, actual);
}

#[test]
fn tokenizer_produces_events_not_text() {
    let events = parse_events("<a><b>t</b></a>").expect("failed to tokenize");
    let expected = vec![
        Event::Start {
            name: "a".to_string(),
            attrs: vec![],
        },
        Event::Start {
            name: "b".to_string(),
            attrs: vec![],
        },
        Event::Text {
            text: "t".to_string(),
        },
        Event::End {
            name: "b".to_string(),
        },
        Event::End {
            name: "a".to_string(),
        },
    ];
    assert_eq!(expected, events);
}

#[test]
fn tokenizer_reads_attributes() {
    let events = parse_events("<a k=\"v\"></a>").expect("failed to tokenize");
    let expected = vec![
        Event::Start {
            name: "a".to_string(),
            attrs: vec![Attr {
                name: "k".to_string(),
                value: "v".to_string(),
            }],
        },
        Event::End {
            name: "a".to_string(),
        },
    ];
    assert_eq!(expected, events);
}

#[test]
fn considerations_round_trips_as_marker() {
    let card = ModelCard {
        bom_ref: None,
        model_parameters: None,
        quantitative_analysis: None,
        considerations: Some(Considerations {}),
        properties: None,
    };
    let xml = model_card_to_xml(&card).expect("failed to write");
    assert!(xml.contains("<considerations></considerations>"));
    let back = model_card_from_xml(&xml).expect("failed to read");
    assert_eq!(card, back);
}

#[test]
fn round_trip_performance_metric() {
    let m = PerformanceMetric {
        metric_type: Some("accuracy".to_string()),
        value: Some("0.9".to_string()),
        slice: None,
        confidence_interval: Some(ConfidenceInterval {
            lower_bound: Some("0.8".to_string()),
            upper_bound: None,
        }),
    };
    let xml = performance_metric_to_xml(&m).expect("failed to write");
    let back = performance_metric_from_xml(&xml).expect("failed to read");
    assert_eq!(m, back);
}

#[test]
fn round_trip_contact() {
    let c = OrganizationalContact {
        bom_ref: Some("c-9".to_string()),
        name: Some("Contact".to_string()),
        email: None,
        phone: Some("555".to_string()),
    };
    let xml = contact_to_xml(&c).expect("failed to write");
    assert!(!xml.contains("email"));
    let back = contact_from_xml(&xml).expect("failed to read");
    assert_eq!(c, back);
}

#[test]
fn round_trip_organization_with_repeated_children() {
    let o = OrganizationalEntity {
        bom_ref: Some("o-9".to_string()),
        name: Some("Org".to_string()),
        url: Some(vec![
            "https://example.org/a".to_string(),
            "https://example.org/b".to_string(),
        ]),
        contact: Some(vec![
            OrganizationalContact {
                bom_ref: None,
                name: Some("First".to_string()),
                email: None,
                phone: None,
            },
            OrganizationalContact {
                bom_ref: None,
                name: Some("Second".to_string()),
                email: Some("second@example.org".to_string()),
                phone: None,
            },
        ]),
    };
    let xml = organization_to_xml(&o).expect("failed to write");
    let back = organization_from_xml(&xml).expect("failed to read");
    assert_eq!(o, back);
}

#[test]
fn round_trip_inputs_and_outputs() {
    let i = Inputs(vec![MLParameter::new("string"), MLParameter { format: None }]);
    let xml = inputs_to_xml(&i).expect("failed to write");
    assert_eq!(i, inputs_from_xml(&xml).expect("failed to read"));
    let o = Outputs(vec![MLParameter::new("image")]);
    let xml = outputs_to_xml(&o).expect("failed to write");
    assert_eq!(o, outputs_from_xml(&xml).expect("failed to read"));
}

#[test]
fn round_trip_graphic() {
    let g = Graphic {
        name: Some("g".to_string()),
        image: Some(Attachment {
            content: "89ab".to_string(),
            content_type: Some("image/png".to_string()),
            encoding: Some("base64".to_string()),
        }),
    };
    let xml = graphic_to_xml(&g).expect("failed to write");
    let back = graphic_from_xml(&xml).expect("failed to read");
    assert_eq!(g, back);
}

#[test]
fn round_trip_datasets_list() {
    let ds = Datasets(vec![
        Dataset::Reference("a".to_string()),
        Dataset::Component(ComponentData {
            bom_ref: None,
            data_type: "dataset".to_string(),
            name: None,
            contents: None,
            classification: None,
            sensitive_data: None,
            graphics: None,
            description: None,
            governance: None,
        }),
    ]);
    let xml = datasets_to_xml(&ds).expect("failed to write");
    let back = datasets_from_xml(&xml).expect("failed to read");
    assert_eq!(ds, back);
}

#[test]
fn absent_model_parameter_fields_emit_no_tags_at_any_depth() {
    let mp = ModelParameters {
        approach: None,
        task: Some("T".to_string()),
        architecture_family: None,
        model_architecture: None,
        datasets: Some(Datasets(vec![Dataset::Reference("r".to_string())])),
        inputs: None,
        outputs: None,
    };
    let xml = model_parameters_to_xml(&mp).expect("failed to write");
    assert!(!xml.contains("approach"));
    assert!(!xml.contains("architectureFamily"));
    assert!(!xml.contains("modelArchitecture"));
    assert!(!xml.contains("inputs"));
    assert!(!xml.contains("outputs"));
    assert!(xml.contains("task"));
    assert!(xml.contains("datasets"));
}

#[test]
fn repeated_singular_tag_last_write_wins() {
    let input = "<confidenceInterval><lowerBound>first</lowerBound><lowerBound>second</lowerBound></confidenceInterval>";
    let actual = confidence_interval_from_xml(input).expect("failed to read");
    assert_eq!(Some("second".to_string()), actual.lower_bound);
}
