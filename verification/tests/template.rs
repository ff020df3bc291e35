use rubble_templates::template::{
    EvaluableMixedContent, EvaluableMixedContentIterator, Template, TemplateSlice,
};

#[test]
fn should_find_all_evaluation_spots() {
    let template = Template::from("Some template {{ variable }} - or something".to_string());
    let all_evaluation_spots: Vec<TemplateSlice> = template.slices();
    let expected = vec![
        TemplateSlice::Text {
            value: "Some template ",
            start_position: 0,
            end_position: 14,
        },
        TemplateSlice::Code {
            value: "{{ variable }}",
            start_position: 14,
            end_position: 28,
        },
        TemplateSlice::Text {
            value: " - or something",
            start_position: 28,
            end_position: 43,
        },
    ];
    assert_eq!(all_evaluation_spots, expected);
}

#[test]
fn iterator_hands_out_slices_one_by_one() {
    let template = Template::from("Some template {{ variable }}".to_string());
    let mut iterator = EvaluableMixedContentIterator {
        source: &template,
        current_position: 0,
    };

    assert_eq!(
        iterator.next(),
        Some(TemplateSlice::Text {
            value: "Some template ",
            start_position: 0,
            end_position: 14,
        })
    );
    assert_eq!(
        iterator.next(),
        Some(TemplateSlice::Code {
            value: "{{ variable }}",
            start_position: 14,
            end_position: 28,
        })
    );
    assert_eq!(iterator.next(), None);
}

#[test]
fn unterminated_code_block_is_dropped() {
    let template = Template::from("abc {{ x".to_string());
    let slices: Vec<TemplateSlice> = template.slices();
    let expected = vec![TemplateSlice::Text {
        value: "abc ",
        start_position: 0,
        end_position: 4,
    }];
    assert_eq!(slices, expected);
}

#[test]
fn template_without_markers_is_one_text_slice() {
    let template = Template::from("plain text".to_string());
    let slices: Vec<TemplateSlice> = template.slices();
    let expected = vec![TemplateSlice::Text {
        value: "plain text",
        start_position: 0,
        end_position: 10,
    }];
    assert_eq!(slices, expected);
}

#[test]
fn adjacent_code_blocks_are_separate_slices() {
    let template = Template::from("{{a}}{{b}}".to_string());
    let slices: Vec<TemplateSlice> = template.slices();
    let expected = vec![
        TemplateSlice::Code {
            value: "{{a}}",
            start_position: 0,
            end_position: 5,
        },
        TemplateSlice::Code {
            value: "{{b}}",
            start_position: 5,
            end_position: 10,
        },
    ];
    assert_eq!(slices, expected);
}
