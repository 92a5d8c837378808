use assistant_slash_command::{
    IconName, SlashCommandContent, SlashCommandEvent, SlashCommandOutput,
    SlashCommandOutputSection,
};

fn flag_object(key: &str) -> serde_json::Value {
    let mut map = serde_json::Map::new();
    map.insert(key.to_string(), serde_json::Value::Bool(true));
    serde_json::Value::Object(map)
}

#[test]
fn test_slash_command_output_to_events_round_trip() {
    // Test basic output consisting of a single section.
    {
        let text = b"Hello, world!".to_vec();
        let range = 0..text.len();
        let output = SlashCommandOutput {
            text,
            sections: vec![SlashCommandOutputSection {
                range,
                icon: IconName::Code,
                label: "Section 1".to_string(),
                metadata: None,
            }],
            run_commands_in_text: false,
        };

        let events = output.to_event_stream();

        assert_eq!(
            events,
            vec![
                SlashCommandEvent::StartSection {
                    icon: IconName::Code,
                    label: "Section 1".to_string(),
                    metadata: None
                },
                SlashCommandEvent::Content(SlashCommandContent::Text {
                    text: b"Hello, world!".to_vec(),
                    run_commands_in_text: false
                }),
                SlashCommandEvent::EndSection { metadata: None }
            ]
        );

        let new_output = SlashCommandOutput::from_event_stream(&output.to_event_stream());

        assert_eq!(new_output, output);
    }

    // Test output where the sections do not comprise all of the text.
    {
        let text = b"Apple\nCucumber\nBanana\n".to_vec();
        let output = SlashCommandOutput {
            text,
            sections: vec![
                SlashCommandOutputSection {
                    range: 0..6,
                    icon: IconName::Check,
                    label: "Fruit".to_string(),
                    metadata: None,
                },
                SlashCommandOutputSection {
                    range: 15..22,
                    icon: IconName::Check,
                    label: "Fruit".to_string(),
                    metadata: None,
                },
            ],
            run_commands_in_text: false,
        };

        let events = output.to_event_stream();

        assert_eq!(
            events,
            vec![
                SlashCommandEvent::StartSection {
                    icon: IconName::Check,
                    label: "Fruit".to_string(),
                    metadata: None
                },
                SlashCommandEvent::Content(SlashCommandContent::Text {
                    text: b"Apple\n".to_vec(),
                    run_commands_in_text: false
                }),
                SlashCommandEvent::EndSection { metadata: None },
                SlashCommandEvent::Content(SlashCommandContent::Text {
                    text: b"Cucumber\n".to_vec(),
                    run_commands_in_text: false
                }),
                SlashCommandEvent::StartSection {
                    icon: IconName::Check,
                    label: "Fruit".to_string(),
                    metadata: None
                },
                SlashCommandEvent::Content(SlashCommandContent::Text {
                    text: b"Banana\n".to_vec(),
                    run_commands_in_text: false
                }),
                SlashCommandEvent::EndSection { metadata: None }
            ]
        );

        let new_output = SlashCommandOutput::from_event_stream(&output.to_event_stream());

        assert_eq!(new_output, output);
    }

    // Test output consisting of multiple sections.
    {
        let text = b"Line 1\nLine 2\nLine 3\nLine 4\n".to_vec();
        let output = SlashCommandOutput {
            text,
            sections: vec![
                SlashCommandOutputSection {
                    range: 0..6,
                    icon: IconName::FileCode,
                    label: "Section 1".to_string(),
                    metadata: Some(flag_object("a")),
                },
                SlashCommandOutputSection {
                    range: 7..13,
                    icon: IconName::FileDoc,
                    label: "Section 2".to_string(),
                    metadata: Some(flag_object("b")),
                },
                SlashCommandOutputSection {
                    range: 14..20,
                    icon: IconName::FileGit,
                    label: "Section 3".to_string(),
                    metadata: Some(flag_object("c")),
                },
                SlashCommandOutputSection {
                    range: 21..27,
                    icon: IconName::FileToml,
                    label: "Section 4".to_string(),
                    metadata: Some(flag_object("d")),
                },
            ],
            run_commands_in_text: false,
        };

        let events = output.to_event_stream();

        assert_eq!(
            events,
            vec![
                SlashCommandEvent::StartSection {
                    icon: IconName::FileCode,
                    label: "Section 1".to_string(),
                    metadata: Some(flag_object("a"))
                },
                SlashCommandEvent::Content(SlashCommandContent::Text {
                    text: b"Line 1".to_vec(),
                    run_commands_in_text: false
                }),
                SlashCommandEvent::EndSection {
                    metadata: Some(flag_object("a"))
                },
                SlashCommandEvent::Content(SlashCommandContent::Text {
                    text: b"\n".to_vec(),
                    run_commands_in_text: false
                }),
                SlashCommandEvent::StartSection {
                    icon: IconName::FileDoc,
                    label: "Section 2".to_string(),
                    metadata: Some(flag_object("b"))
                },
                SlashCommandEvent::Content(SlashCommandContent::Text {
                    text: b"Line 2".to_vec(),
                    run_commands_in_text: false
                }),
                SlashCommandEvent::EndSection {
                    metadata: Some(flag_object("b"))
                },
                SlashCommandEvent::Content(SlashCommandContent::Text {
                    text: b"\n".to_vec(),
                    run_commands_in_text: false
                }),
                SlashCommandEvent::StartSection {
                    icon: IconName::FileGit,
                    label: "Section 3".to_string(),
                    metadata: Some(flag_object("c"))
                },
                SlashCommandEvent::Content(SlashCommandContent::Text {
                    text: b"Line 3".to_vec(),
                    run_commands_in_text: false
                }),
                SlashCommandEvent::EndSection {
                    metadata: Some(flag_object("c"))
                },
                SlashCommandEvent::Content(SlashCommandContent::Text {
                    text: b"\n".to_vec(),
                    run_commands_in_text: false
                }),
                SlashCommandEvent::StartSection {
                    icon: IconName::FileToml,
                    label: "Section 4".to_string(),
                    metadata: Some(flag_object("d"))
                },
                SlashCommandEvent::Content(SlashCommandContent::Text {
                    text: b"Line 4".to_vec(),
                    run_commands_in_text: false
                }),
                SlashCommandEvent::EndSection {
                    metadata: Some(flag_object("d"))
                },
                SlashCommandEvent::Content(SlashCommandContent::Text {
                    text: b"\n".to_vec(),
                    run_commands_in_text: false
                }),
            ]
        );

        let new_output = SlashCommandOutput::from_event_stream(&output.to_event_stream());

        assert_eq!(new_output, output);
    }
}
