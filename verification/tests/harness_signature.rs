use mdnt_extractor::harness_macro::{CircuitCfg, ErrorType};
use mdnt_extractor::harness_parse::{
    extract_field, get_output, harness_signature, type_params_from_path, unit_harness_signature,
    BoundShape, ErrorSite, FnShape, GenericArgKind, HarnessSig, OutputShape, ParamShape, PathShape,
    ReturnShape, SegmentShape, TypeShape, UnitHarnessSig,
};

fn path(name: &str, args: Option<Vec<GenericArgKind>>) -> PathShape {
    PathShape { last: Some(SegmentShape { ident: name.to_string(), angle_args: args }) }
}

fn reference(mutable: bool, elem: TypeShape) -> TypeShape {
    TypeShape::Reference { mutable, elem: Box::new(elem) }
}

fn chip() -> ParamShape {
    ParamShape::Typed(reference(false, TypeShape::Path(path("FakeChip", None))))
}

fn layouter() -> ParamShape {
    ParamShape::Typed(reference(
        true,
        TypeShape::ImplTrait(vec![BoundShape::Trait(path("Layouter", Some(vec![GenericArgKind::Type])))]),
    ))
}

fn plain(name: &str) -> ParamShape {
    ParamShape::Typed(TypeShape::Path(path(name, None)))
}

fn injected() -> ParamShape {
    ParamShape::Typed(reference(true, TypeShape::Path(path("InjectedIR", None))))
}

fn result_of(ok: GenericArgKind, err: GenericArgKind) -> ReturnShape {
    ReturnShape::Type(TypeShape::Path(path("Result", Some(vec![ok, err]))))
}

#[test]
fn harness_with_three_params_and_no_return() {
    let f = FnShape { params: vec![chip(), layouter(), plain("Input")], output: ReturnShape::Default };
    let sig = harness_signature(&f).unwrap();
    assert_eq!(sig, HarnessSig { layouter_bound: 0, injected_ir: false, output: OutputShape::Void });
}

#[test]
fn harness_with_injected_ir_and_result() {
    let f = FnShape {
        params: vec![chip(), layouter(), plain("Input"), injected()],
        output: result_of(GenericArgKind::Type, GenericArgKind::Type),
    };
    let sig = harness_signature(&f).unwrap();
    assert_eq!(sig, HarnessSig { layouter_bound: 0, injected_ir: true, output: OutputShape::Result });
}

#[test]
fn harness_param_count_refused() {
    let f = FnShape { params: vec![chip(), layouter()], output: ReturnShape::Default };
    let err = harness_signature(&f).unwrap_err();
    assert_eq!(err.site, ErrorSite::Params);
    assert_eq!(
        err.kind.message(),
        "expected between 3 and 4 parameters: chip, layouter, input[, injected_ir]"
    );
    let five = FnShape {
        params: vec![chip(), layouter(), plain("A"), plain("B"), injected()],
        output: ReturnShape::Default,
    };
    assert!(matches!(
        harness_signature(&five).unwrap_err().kind,
        ErrorType::UnexpectedParams { from: 3, to: 4, .. }
    ));
}

#[test]
fn harness_self_and_reference_checks() {
    let f = FnShape { params: vec![ParamShape::Receiver, layouter(), plain("I")], output: ReturnShape::Default };
    let err = harness_signature(&f).unwrap_err();
    assert!(matches!(err.kind, ErrorType::UnexpectedSelf));
    assert_eq!(err.site, ErrorSite::Param(0));
    assert_eq!(err.kind.message(), "unexpected self parameter; expected typed parameter");

    let f = FnShape { params: vec![plain("FakeChip"), layouter(), plain("I")], output: ReturnShape::Default };
    let err = harness_signature(&f).unwrap_err();
    assert!(matches!(err.kind, ErrorType::TypeNotReference));
    assert_eq!(err.site, ErrorSite::ParamType(0));
    assert_eq!(err.kind.message(), "parameter must be a &-reference");

    let shared_layouter = ParamShape::Typed(reference(
        false,
        TypeShape::ImplTrait(vec![BoundShape::Trait(path("Layouter", Some(vec![GenericArgKind::Type])))]),
    ));
    let f = FnShape { params: vec![chip(), shared_layouter, plain("I")], output: ReturnShape::Default };
    let err = harness_signature(&f).unwrap_err();
    assert!(matches!(err.kind, ErrorType::TypeNotMutReference));
    assert_eq!(err.site, ErrorSite::ParamType(1));
    assert_eq!(err.kind.message(), "parameter must be a &mut-reference");

    let f = FnShape {
        params: vec![chip(), layouter(), ParamShape::Receiver],
        output: ReturnShape::Default,
    };
    assert_eq!(harness_signature(&f).unwrap_err().site, ErrorSite::Param(2));

    let f = FnShape {
        params: vec![chip(), layouter(), plain("I"), plain("NotMut")],
        output: ReturnShape::Default,
    };
    let err = harness_signature(&f).unwrap_err();
    assert!(matches!(err.kind, ErrorType::TypeNotMutReference));
    assert_eq!(err.site, ErrorSite::ParamType(3));
}

#[test]
fn layouter_field_extraction() {
    // `&mut impl Clone + Layouter<F>`: the second bound names F.
    let ty = reference(
        true,
        TypeShape::ImplTrait(vec![
            BoundShape::Trait(path("Clone", None)),
            BoundShape::Other,
            BoundShape::Trait(path("Layouter", Some(vec![GenericArgKind::Type]))),
        ]),
    );
    assert_eq!(extract_field(&ty, 1).unwrap(), 2);

    // A two-argument Layouter is passed over.
    let ty = reference(
        true,
        TypeShape::ImplTrait(vec![
            BoundShape::Trait(path("Layouter", Some(vec![GenericArgKind::Type, GenericArgKind::Type]))),
            BoundShape::Trait(path("Layouter", Some(vec![GenericArgKind::Type]))),
        ]),
    );
    assert_eq!(extract_field(&ty, 1).unwrap(), 1);

    let err = extract_field(&TypeShape::Path(path("L", None)), 1).unwrap_err();
    assert_eq!(err.site, ErrorSite::ParamType(1));
    assert_eq!(
        err.kind.message(),
        "failed to extract F from &mut impl Layouter<F>: Was expecting a reference type"
    );

    let err = extract_field(&reference(true, TypeShape::Path(path("L", None))), 1).unwrap_err();
    assert_eq!(
        err.kind.message(),
        "failed to extract F from &mut impl Layouter<F>: Was expecting an implicit type parameter"
    );

    let ty = reference(true, TypeShape::ImplTrait(vec![BoundShape::Trait(path("Layouter", None))]));
    let err = extract_field(&ty, 1).unwrap_err();
    assert_eq!(err.site, ErrorSite::Bounds(1));
    assert_eq!(
        err.kind.message(),
        "failed to extract F from &mut impl Layouter<F>: Was expecting trait Layouter<F>"
    );

    let ty = reference(
        true,
        TypeShape::ImplTrait(vec![BoundShape::Trait(path("Layouter", Some(vec![GenericArgKind::Other])))]),
    );
    let err = extract_field(&ty, 1).unwrap_err();
    assert_eq!(err.site, ErrorSite::Bounds(1));
    assert_eq!(
        err.kind.message(),
        "failed to extract F from &mut impl Layouter<F>: Was expecting F in Layouter<F> to be a type"
    );
}

#[test]
fn return_type_checks() {
    assert_eq!(get_output(&ReturnShape::Default).unwrap(), OutputShape::Void);
    let err = get_output(&ReturnShape::Type(TypeShape::Path(path("Option", Some(vec![GenericArgKind::Type])))))
        .unwrap_err();
    assert!(matches!(err.kind, ErrorType::IncorrectReturnType));
    assert_eq!(err.site, ErrorSite::Return);
    assert_eq!(err.kind.message(), "return type must be () or Result<Output, Error>");
    let err = get_output(&result_of(GenericArgKind::Other, GenericArgKind::Type)).unwrap_err();
    assert!(matches!(err.kind, ErrorType::ExpectedTypeInGeneric(0)));
    assert_eq!(err.site, ErrorSite::ReturnArg(0));
    assert_eq!(err.kind.message(), "expected a type for generic argument #0");
    let err = get_output(&result_of(GenericArgKind::Type, GenericArgKind::Other)).unwrap_err();
    assert!(matches!(err.kind, ErrorType::ExpectedTypeInGeneric(1)));
    let err = get_output(&ReturnShape::Type(reference(false, TypeShape::Other))).unwrap_err();
    assert!(matches!(err.kind, ErrorType::IncorrectReturnType));
    let err = get_output(&ReturnShape::Type(TypeShape::Path(path(
        "Result",
        Some(vec![GenericArgKind::Type]),
    ))))
    .unwrap_err();
    assert!(matches!(err.kind, ErrorType::IncorrectReturnType));
}

#[test]
fn type_params_by_last_segment() {
    let p = path("Result", Some(vec![GenericArgKind::Type, GenericArgKind::Other]));
    assert_eq!(type_params_from_path(&p, "Result").unwrap(), &vec![GenericArgKind::Type, GenericArgKind::Other]);
    assert!(type_params_from_path(&p, "Option").is_none());
    assert!(type_params_from_path(&path("Result", None), "Result").is_none());
    assert!(type_params_from_path(&PathShape { last: None }, "Result").is_none());
}

#[test]
fn unit_harness_signatures() {
    let f = FnShape {
        params: vec![chip(), layouter(), plain("I"), plain("O")],
        output: ReturnShape::Type(TypeShape::Other),
    };
    assert_eq!(unit_harness_signature(&f).unwrap(), UnitHarnessSig { layouter_bound: 0, injected_ir: false });
    let f = FnShape {
        params: vec![chip(), layouter(), plain("I"), plain("O"), injected()],
        output: ReturnShape::Default,
    };
    assert_eq!(unit_harness_signature(&f).unwrap(), UnitHarnessSig { layouter_bound: 0, injected_ir: true });
    let f = FnShape { params: vec![chip(), layouter(), plain("I")], output: ReturnShape::Default };
    assert_eq!(
        unit_harness_signature(&f).unwrap_err().kind.message(),
        "expected between 4 and 5 parameters: chip, layouter, input, output[, injected_ir]"
    );
    let f = FnShape {
        params: vec![chip(), layouter(), plain("I"), ParamShape::Receiver],
        output: ReturnShape::Default,
    };
    assert_eq!(unit_harness_signature(&f).unwrap_err().site, ErrorSite::Param(3));
}

#[test]
fn synthesis_names_follow_chip_mutability() {
    let shared = CircuitCfg::new().synthesis_names();
    assert_eq!(shared.circuit_trait, "AbstractCircuit");
    assert_eq!(shared.method, "synthesize");
    assert!(!shared.chip_by_mut);
    assert_eq!(shared.tag, "Function");
    let mutable = CircuitCfg::new().with_mut_chip().synthesis_names();
    assert_eq!(mutable.circuit_trait, "AbstractCircuitMut");
    assert_eq!(mutable.method, "synthesize_mut");
    assert!(mutable.chip_by_mut);
    assert_eq!(mutable.tag, "FunctionMut");
}
