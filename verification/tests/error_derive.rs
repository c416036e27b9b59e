use oasis_sdk::macros::error_derive::{
    convert_variants, derive_error, find_abort, find_source, Arm, Conversion, ErrorField,
    ErrorInput, ErrorVariant, Member, VariantError,
};

fn unit(name: &str, code: Option<u32>) -> ErrorVariant {
    ErrorVariant {
        ident: name.to_string(),
        fields: Vec::new(),
        code,
        transparent: false,
        abort: false,
    }
}

fn field(name: Option<&str>, has_attrs: bool) -> ErrorField {
    ErrorField {
        ident: name.map(|n| n.to_string()),
        has_attrs,
    }
}

fn arm_text(arm: &Arm) -> String {
    match arm {
        Arm::Code(code) => format!("code {}", code),
        Arm::Forward(Member::Named(name)) => format!("forward {}", name),
        Arm::Forward(Member::Unnamed(index)) => format!("forward {}", index),
        Arm::Rejected(VariantError::MultipleSources) => "multiple sources".to_string(),
        Arm::Rejected(VariantError::NoSource) => "no source".to_string(),
        Arm::Rejected(VariantError::CodeAlreadyUsed(code)) => format!("code {} used", code),
        Arm::Rejected(VariantError::MissingCode) => "missing code".to_string(),
    }
}

fn plan(conversion: &Conversion) -> (Option<usize>, Vec<String>) {
    match conversion {
        Conversion::Arms { abort, arms } => (*abort, arms.iter().map(arm_text).collect()),
        Conversion::Empty => panic!("no variants"),
        Conversion::MultipleAbortVariants => panic!("multiple abort variants"),
    }
}

#[test]
fn generate_error_impl_auto_abort() {
    let input = ErrorInput {
        ident: "Error".to_string(),
        variants: vec![
            unit("Error0", None),
            ErrorVariant {
                ident: "Error2".to_string(),
                fields: vec![field(Some("payload"), false)],
                code: Some(2),
                transparent: false,
                abort: false,
            },
            ErrorVariant {
                ident: "Error1".to_string(),
                fields: vec![field(None, false)],
                code: None,
                transparent: false,
                abort: false,
            },
            unit("Error3", None),
            ErrorVariant {
                ident: "ErrorAbort".to_string(),
                fields: vec![field(None, false)],
                code: None,
                transparent: false,
                abort: true,
            },
        ],
        module_name: None,
        autonumber: true,
    };
    let out = derive_error(&input);
    assert_eq!(out.ident, "Error");
    assert_eq!(out.module_name, "MODULE_NAME");
    let (abort, arms) = plan(&out.conversion);
    assert_eq!(arms, vec!["code 0", "code 2", "code 1", "code 3", "code 4"]);
    assert_eq!(abort, Some(4));
}

#[test]
fn generate_error_impl_manual() {
    let input = ErrorInput {
        ident: "Error".to_string(),
        variants: Vec::new(),
        module_name: Some("THE_MODULE_NAME".to_string()),
        autonumber: true,
    };
    let out = derive_error(&input);
    assert_eq!(out.ident, "Error");
    assert_eq!(out.module_name, "THE_MODULE_NAME");
    assert!(matches!(out.conversion, Conversion::Empty));
}

#[test]
fn generate_error_impl_from() {
    let input = ErrorInput {
        ident: "Error".to_string(),
        variants: vec![ErrorVariant {
            ident: "Foo".to_string(),
            fields: vec![field(None, true)],
            code: None,
            transparent: true,
            abort: false,
        }],
        module_name: Some("THE_MODULE_NAME".to_string()),
        autonumber: false,
    };
    let out = derive_error(&input);
    assert_eq!(out.module_name, "THE_MODULE_NAME");
    let (abort, arms) = plan(&out.conversion);
    assert_eq!(arms, vec!["forward 0"]);
    assert_eq!(abort, None);
}

#[test]
fn autonumber_skips_to_next_free_number() {
    let variants = vec![
        unit("A", Some(0)),
        unit("B", Some(1)),
        unit("C", None),
        unit("D", Some(3)),
        unit("E", None),
        unit("F", None),
    ];
    let (_, arms) = plan(&convert_variants(&variants, true));
    assert_eq!(
        arms,
        vec!["code 0", "code 1", "code 2", "code 3", "code 4", "code 5"]
    );
}

#[test]
fn autonumber_does_not_go_back_to_a_gap() {
    let variants = vec![
        unit("A", None),
        unit("B", None),
        unit("C", Some(5)),
        unit("D", None),
        unit("E", Some(3)),
        unit("F", None),
        unit("G", None),
    ];
    let (_, arms) = plan(&convert_variants(&variants, true));
    assert_eq!(
        arms,
        vec!["code 0", "code 1", "code 5", "code 2", "code 3", "code 4", "code 6"]
    );
}

#[test]
fn codes_are_pairwise_distinct() {
    let variants = vec![
        unit("A", None),
        unit("B", Some(2)),
        unit("C", Some(1)),
        unit("D", None),
        unit("E", None),
        unit("F", Some(0)),
        unit("G", None),
    ];
    let conversion = convert_variants(&variants, true);
    let mut seen = Vec::new();
    if let Conversion::Arms { arms, .. } = &conversion {
        for arm in arms {
            if let Arm::Code(code) = arm {
                assert!(!seen.contains(code));
                seen.push(*code);
            }
        }
    }
    assert_eq!(seen, vec![0, 2, 1, 3, 4, 5]);
    let (_, arms) = plan(&conversion);
    assert_eq!(arms[5], "code 0 used");
}

#[test]
fn explicit_code_used_twice_is_rejected_and_the_rest_goes_on() {
    let variants = vec![unit("A", Some(7)), unit("B", Some(7)), unit("C", Some(8))];
    let (_, arms) = plan(&convert_variants(&variants, false));
    assert_eq!(arms, vec!["code 7", "code 7 used", "code 8"]);
}

#[test]
fn missing_code_without_autonumber_is_rejected() {
    let variants = vec![unit("A", Some(1)), unit("B", None)];
    let (_, arms) = plan(&convert_variants(&variants, false));
    assert_eq!(arms, vec!["code 1", "missing code"]);
}

#[test]
fn multiple_abort_variants_are_refused() {
    let mut first = unit("A", Some(1));
    first.abort = true;
    let mut second = unit("B", Some(2));
    second.abort = true;
    let conversion = convert_variants(&vec![first, second], false);
    assert!(matches!(conversion, Conversion::MultipleAbortVariants));
}

#[test]
fn find_abort_names_the_one_abort_variant() {
    let mut second = unit("B", Some(2));
    second.abort = true;
    assert_eq!(find_abort(&vec![unit("A", Some(1)), second]), Ok(Some(1)));
    assert_eq!(find_abort(&vec![unit("A", Some(1))]), Ok(None));
}

#[test]
fn transparent_variant_forwards_to_named_source() {
    let variant = ErrorVariant {
        ident: "Wrapped".to_string(),
        fields: vec![field(Some("context"), false), field(Some("source"), true)],
        code: None,
        transparent: true,
        abort: false,
    };
    assert_eq!(arm_text(&find_source(&variant)), "forward source");
}

#[test]
fn transparent_variant_forwards_to_unnamed_source_by_position() {
    let variant = ErrorVariant {
        ident: "Wrapped".to_string(),
        fields: vec![field(None, false), field(None, false), field(None, true)],
        code: None,
        transparent: true,
        abort: false,
    };
    assert_eq!(arm_text(&find_source(&variant)), "forward 2");
}

#[test]
fn transparent_variant_without_source_is_rejected() {
    let variant = ErrorVariant {
        ident: "Wrapped".to_string(),
        fields: vec![field(None, false)],
        code: Some(3),
        transparent: true,
        abort: false,
    };
    assert_eq!(arm_text(&find_source(&variant)), "no source");
}

#[test]
fn transparent_variant_with_two_sources_is_rejected() {
    let variant = ErrorVariant {
        ident: "Wrapped".to_string(),
        fields: vec![field(None, true), field(None, true)],
        code: None,
        transparent: true,
        abort: false,
    };
    assert_eq!(arm_text(&find_source(&variant)), "multiple sources");
}

#[test]
fn transparent_variant_takes_no_number() {
    let variants = vec![
        unit("A", None),
        ErrorVariant {
            ident: "Wrapped".to_string(),
            fields: vec![field(None, true)],
            code: Some(1),
            transparent: true,
            abort: false,
        },
        unit("B", None),
    ];
    let (_, arms) = plan(&convert_variants(&variants, true));
    assert_eq!(arms, vec!["code 0", "forward 0", "code 1"]);
}
