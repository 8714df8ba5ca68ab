//! The signature check of the harness attributes.
//!
//! A harness function takes a chip by `&`, a layouter by `&mut impl Layouter<F>`, an
//! input and, optionally, the injected IR by `&mut`; it returns `()` or
//! `Result<Output, Error>`. A unit harness takes an output cell after the input and
//! returns nothing that is checked. The function's signature is read as a shape: the
//! parts of its types that the check looks at.

use vstd::prelude::*;
use crate::harness_macro::ErrorType;
use vstd::string::StringExecFns;
use crate::text::str_eq;

verus! {

/// A generic argument between angle brackets, by kind.
#[derive(Clone, Copy, Debug, PartialEq, Eq, Structural)]
pub enum GenericArgKind {
    /// A type.
    Type,
    /// A lifetime, a constant, an associated type or a constraint.
    Other,
}

/// The last segment of a path.
#[derive(Debug)]
pub struct SegmentShape {
    /// The segment's name.
    pub ident: String,
    /// The segment's arguments, where they stand between angle brackets.
    pub angle_args: Option<Vec<GenericArgKind>>,
}

/// A path, by its last segment (`None` for a path without segments).
#[derive(Debug)]
pub struct PathShape {
    pub last: Option<SegmentShape>,
}

/// A bound of an `impl Trait` type.
#[derive(Debug)]
pub enum BoundShape {
    /// A trait bound, by the trait's path.
    Trait(PathShape),
    /// Any other bound.
    Other,
}

/// A type, as far as the check looks into it.
#[derive(Debug)]
pub enum TypeShape {
    /// `&T` or `&mut T`.
    Reference { mutable: bool, elem: Box<TypeShape> },
    /// `impl B1 + B2 + ...`.
    ImplTrait(Vec<BoundShape>),
    /// A path type.
    Path(PathShape),
    /// Any other type.
    Other,
}

/// A parameter of the function.
#[derive(Debug)]
pub enum ParamShape {
    /// `self` in any of its forms.
    Receiver,
    /// A typed parameter.
    Typed(TypeShape),
}

/// The declared return type.
#[derive(Debug)]
pub enum ReturnShape {
    /// No return type: `()`.
    Default,
    /// `-> T`.
    Type(TypeShape),
}

/// The signature of a harness function.
#[derive(Debug)]
pub struct FnShape {
    pub params: Vec<ParamShape>,
    pub output: ReturnShape,
}

/// The part of the signature that an error points at.
#[derive(Clone, Copy, Debug, PartialEq, Eq, Structural)]
pub enum ErrorSite {
    /// The whole parameter list.
    Params,
    /// The parameter of this index.
    Param(usize),
    /// The type of the parameter of this index.
    ParamType(usize),
    /// The bounds of the `impl` type behind the parameter of this index.
    Bounds(usize),
    /// The return type.
    Return,
    /// The generic argument of this index of the return type.
    ReturnArg(usize),
}

/// A refusal of a signature: what is wrong and where.
#[derive(Debug)]
pub struct SigError {
    pub kind: ErrorType,
    pub site: ErrorSite,
}

/// The shape of the value a harness returns.
#[derive(Clone, Copy, Debug, PartialEq, Eq, Structural)]
pub enum OutputShape {
    /// `()`; the error type is that of the proof system.
    Void,
    /// `Result<Output, Error>`.
    Result,
}

/// What the check learned of an accepted harness signature: which bound of the
/// layouter's type is `Layouter<F>`, whether the injected IR is taken, and the output.
#[derive(Clone, Copy, Debug, PartialEq, Eq, Structural)]
pub struct HarnessSig {
    pub layouter_bound: usize,
    pub injected_ir: bool,
    pub output: OutputShape,
}

/// What the check learned of an accepted unit harness signature.
#[derive(Clone, Copy, Debug, PartialEq, Eq, Structural)]
pub struct UnitHarnessSig {
    pub layouter_bound: usize,
    pub injected_ir: bool,
}

/// What a parameter's type must be.
#[derive(Clone, Copy, Debug, PartialEq, Eq, Structural)]
pub enum RefCheck {
    Any,
    Ref,
    RefMut,
}

/// The arguments of the path's last segment, where its name is `name` and they stand
/// between angle brackets.
pub open spec fn spec_type_params(p: PathShape, name: Seq<char>) -> Option<Seq<GenericArgKind>> {
    match p.last {
        None => None,
        Some(seg) => if seg.ident@ == name {
            match seg.angle_args {
                Some(a) => Some(a@),
                None => None,
            }
        } else {
            None
        },
    }
}

/// The bound is `Layouter<X>` with exactly one argument.
pub open spec fn is_layouter_bound(b: BoundShape) -> bool {
    match b {
        BoundShape::Trait(p) => match spec_type_params(p, "Layouter"@) {
            Some(a) => a.len() == 1,
            None => false,
        },
        BoundShape::Other => false,
    }
}

/// The argument of a `Layouter<X>` bound.
pub open spec fn layouter_arg(b: BoundShape) -> GenericArgKind {
    match b {
        BoundShape::Trait(p) => spec_type_params(p, "Layouter"@).unwrap()[0],
        BoundShape::Other => GenericArgKind::Other,
    }
}

/// Index of the first `Layouter<X>` bound at or after index `k`.
pub open spec fn first_layouter(bounds: Seq<BoundShape>, k: int) -> Option<int>
    decreases bounds.len() - k,
{
    if k < 0 || k >= bounds.len() {
        None
    } else if is_layouter_bound(bounds[k]) {
        Some(k)
    } else {
        first_layouter(bounds, k + 1)
    }
}

/// The refusal of a parameter, if any: `self` is refused, then the type is checked.
pub open spec fn spec_param_error(p: ParamShape, i: usize, check: RefCheck) -> Option<SigError> {
    match p {
        ParamShape::Receiver => Some(SigError { kind: ErrorType::UnexpectedSelf, site: ErrorSite::Param(i) }),
        ParamShape::Typed(ty) => match check {
            RefCheck::Any => None,
            RefCheck::Ref => if ty is Reference {
                None
            } else {
                Some(SigError { kind: ErrorType::TypeNotReference, site: ErrorSite::ParamType(i) })
            },
            RefCheck::RefMut => match ty {
                TypeShape::Reference { mutable, .. } => if mutable {
                    None
                } else {
                    Some(SigError { kind: ErrorType::TypeNotMutReference, site: ErrorSite::ParamType(i) })
                },
                _ => Some(SigError { kind: ErrorType::TypeNotMutReference, site: ErrorSite::ParamType(i) }),
            },
        },
    }
}

/// The type of a parameter, for one that passed its check.
pub open spec fn param_type(p: ParamShape) -> TypeShape {
    match p {
        ParamShape::Typed(ty) => ty,
        ParamShape::Receiver => TypeShape::Other,
    }
}

/// The field type `F` of `&mut impl Layouter<F>` (the type of parameter `i`), as the index
/// of the bound that names it, or the refusal.
pub open spec fn spec_extract_field(ty: TypeShape, i: usize) -> Result<int, SigError> {
    match ty {
        TypeShape::Reference { elem, .. } => match *elem {
            TypeShape::ImplTrait(bounds) => match first_layouter(bounds@, 0) {
                None => Err(
                    SigError {
                        kind: ErrorType::FailedExtractLayouterParam("Was expecting trait Layouter<F>"),
                        site: ErrorSite::Bounds(i),
                    },
                ),
                Some(k) => if layouter_arg(bounds@[k]) == GenericArgKind::Type {
                    Ok(k)
                } else {
                    Err(
                        SigError {
                            kind: ErrorType::FailedExtractLayouterParam(
                                "Was expecting F in Layouter<F> to be a type",
                            ),
                            site: ErrorSite::Bounds(i),
                        },
                    )
                },
            },
            _ => Err(
                SigError {
                    kind: ErrorType::FailedExtractLayouterParam("Was expecting an implicit type parameter"),
                    site: ErrorSite::ParamType(i),
                },
            ),
        },
        _ => Err(
            SigError {
                kind: ErrorType::FailedExtractLayouterParam("Was expecting a reference type"),
                site: ErrorSite::ParamType(i),
            },
        ),
    }
}

/// The output of the declared return type: `()` or `Result<O, E>` with two types.
pub open spec fn spec_output(r: ReturnShape) -> Result<OutputShape, SigError> {
    match r {
        ReturnShape::Default => Ok(OutputShape::Void),
        ReturnShape::Type(TypeShape::Path(p)) => match spec_type_params(p, "Result"@) {
            Some(a) => if a.len() == 2 {
                if a[0] != GenericArgKind::Type {
                    Err(SigError { kind: ErrorType::ExpectedTypeInGeneric(0), site: ErrorSite::ReturnArg(0) })
                } else if a[1] != GenericArgKind::Type {
                    Err(SigError { kind: ErrorType::ExpectedTypeInGeneric(1), site: ErrorSite::ReturnArg(1) })
                } else {
                    Ok(OutputShape::Result)
                }
            } else {
                Err(SigError { kind: ErrorType::IncorrectReturnType, site: ErrorSite::Return })
            },
            None => Err(SigError { kind: ErrorType::IncorrectReturnType, site: ErrorSite::Return }),
        },
        ReturnShape::Type(_) => Err(SigError { kind: ErrorType::IncorrectReturnType, site: ErrorSite::Return }),
    }
}

/// The check of the leading parameters shared by both kinds of harness: the chip by
/// `&`, the layouter by `&mut impl Layouter<F>`; gives the index of the layouter bound.
pub open spec fn spec_chip_and_layouter(params: Seq<ParamShape>) -> Result<int, SigError> {
    match spec_param_error(params[0], 0, RefCheck::Ref) {
        Some(e) => Err(e),
        None => match spec_param_error(params[1], 1, RefCheck::RefMut) {
            Some(e) => Err(e),
            None => spec_extract_field(param_type(params[1]), 1),
        },
    }
}

/// The check of the parameters from index `i` on: those before `last` may be any typed
/// parameter; the one at `last`, where there is one, is the injected IR, taken by `&mut`.
pub open spec fn spec_tail_error(params: Seq<ParamShape>, i: int, last: int) -> Option<SigError>
    decreases last - i,
{
    if 0 <= i < last {
        match spec_param_error(params[i], i as usize, RefCheck::Any) {
            Some(e) => Some(e),
            None => spec_tail_error(params, i + 1, last),
        }
    } else if params.len() > last {
        spec_param_error(params[last], last as usize, RefCheck::RefMut)
    } else {
        None
    }
}

/// The check of a harness signature: three or four parameters (chip, layouter, input,
/// optional injected IR), checked in order, then the return type.
pub open spec fn spec_harness_sig(f: FnShape) -> Result<HarnessSig, SigError> {
    let params = f.params@;
    if !(3 <= params.len() <= 4) {
        Err(
            SigError {
                kind: ErrorType::UnexpectedParams { from: 3, to: 4, lst: "chip, layouter, input[, injected_ir]" },
                site: ErrorSite::Params,
            },
        )
    } else {
        match spec_chip_and_layouter(params) {
            Err(e) => Err(e),
            Ok(k) => match spec_tail_error(params, 2, 3) {
                Some(e) => Err(e),
                None => match spec_output(f.output) {
                    Err(e) => Err(e),
                    Ok(o) => Ok(HarnessSig { layouter_bound: k as usize, injected_ir: params.len() == 4, output: o }),
                },
            },
        }
    }
}

/// The check of a unit harness signature: four or five parameters (chip, layouter,
/// input, output, optional injected IR), checked in order.
pub open spec fn spec_unit_harness_sig(f: FnShape) -> Result<UnitHarnessSig, SigError> {
    let params = f.params@;
    if !(4 <= params.len() <= 5) {
        Err(
            SigError {
                kind: ErrorType::UnexpectedParams {
                    from: 4,
                    to: 5,
                    lst: "chip, layouter, input, output[, injected_ir]",
                },
                site: ErrorSite::Params,
            },
        )
    } else {
        match spec_chip_and_layouter(params) {
            Err(e) => Err(e),
            Ok(k) => match spec_tail_error(params, 2, 4) {
                Some(e) => Err(e),
                None => Ok(UnitHarnessSig { layouter_bound: k as usize, injected_ir: params.len() == 5 }),
            },
        }
    }
}


/// The arguments of the path's last segment, where its name is `name` and they stand
/// between angle brackets.
pub fn type_params_from_path<'p>(path: &'p PathShape, name: &str) -> (r: Option<&'p Vec<GenericArgKind>>)
    ensures
        match r {
            Some(a) => spec_type_params(*path, name@) == Some(a@),
            None => spec_type_params(*path, name@) is None,
        },
{
    match &path.last {
        None => None,
        Some(seg) => if str_eq(seg.ident.as_str(), name) {
            match &seg.angle_args {
                Some(a) => Some(a),
                None => None,
            }
        } else {
            None
        },
    }
}

/// The argument of the bound where it is `Layouter<X>`.
fn layouter_bound_arg(b: &BoundShape) -> (r: Option<GenericArgKind>)
    ensures
        is_layouter_bound(*b) <==> r is Some,
        r matches Some(k) ==> k == layouter_arg(*b),
{
    match b {
        BoundShape::Trait(p) => match type_params_from_path(p, "Layouter") {
            Some(a) => if a.len() == 1 {
                Some(a[0])
            } else {
                None
            },
            None => None,
        },
        BoundShape::Other => None,
    }
}

/// The parameter is typed, and its type passes the check.
fn get_arg(p: &ParamShape, i: usize, check: RefCheck) -> (r: Result<(), SigError>)
    ensures
        match spec_param_error(*p, i, check) {
            None => r is Ok,
            Some(e) => r == Err::<(), SigError>(e),
        },
{
    match p {
        ParamShape::Receiver => Err(SigError { kind: ErrorType::UnexpectedSelf, site: ErrorSite::Param(i) }),
        ParamShape::Typed(ty) => match check {
            RefCheck::Any => Ok(()),
            RefCheck::Ref => match ty {
                TypeShape::Reference { .. } => Ok(()),
                _ => Err(SigError { kind: ErrorType::TypeNotReference, site: ErrorSite::ParamType(i) }),
            },
            RefCheck::RefMut => match ty {
                TypeShape::Reference { mutable, .. } => if *mutable {
                    Ok(())
                } else {
                    Err(SigError { kind: ErrorType::TypeNotMutReference, site: ErrorSite::ParamType(i) })
                },
                _ => Err(SigError { kind: ErrorType::TypeNotMutReference, site: ErrorSite::ParamType(i) }),
            },
        },
    }
}

/// The field type of `&mut impl Layouter<F>`, the type of parameter `i`: the index of
/// the first bound that is `Layouter<X>` with one argument, which must be a type.
#[verifier::loop_isolation(false)]
pub fn extract_field(ty: &TypeShape, i: usize) -> (r: Result<usize, SigError>)
    ensures
        match spec_extract_field(*ty, i) {
            Ok(k) => r matches Ok(x) && x == k,
            Err(e) => r == Err::<usize, SigError>(e),
        },
{
    match ty {
        TypeShape::Reference { elem, .. } => match &**elem {
            TypeShape::ImplTrait(bounds) => {
                let n = bounds.len();
                let mut k: usize = 0;
                while k < n
                    invariant
                        k <= n,
                        n == bounds@.len(),
                        first_layouter(bounds@, 0) == first_layouter(bounds@, k as int),
                    decreases n - k,
                {
                    match layouter_bound_arg(&bounds[k]) {
                        Some(arg) => {
                            if arg == GenericArgKind::Type {
                                return Ok(k);
                            } else {
                                return Err(
                                    SigError {
                                        kind: ErrorType::FailedExtractLayouterParam(
                                            "Was expecting F in Layouter<F> to be a type",
                                        ),
                                        site: ErrorSite::Bounds(i),
                                    },
                                );
                            }
                        },
                        None => {},
                    }
                    k += 1;
                }
                Err(
                    SigError {
                        kind: ErrorType::FailedExtractLayouterParam("Was expecting trait Layouter<F>"),
                        site: ErrorSite::Bounds(i),
                    },
                )
            },
            _ => Err(
                SigError {
                    kind: ErrorType::FailedExtractLayouterParam("Was expecting an implicit type parameter"),
                    site: ErrorSite::ParamType(i),
                },
            ),
        },
        _ => Err(
            SigError {
                kind: ErrorType::FailedExtractLayouterParam("Was expecting a reference type"),
                site: ErrorSite::ParamType(i),
            },
        ),
    }
}

/// The output of the declared return type: `()`, or `Result<O, E>` whose two arguments
/// are types.
pub fn get_output(r: &ReturnShape) -> (o: Result<OutputShape, SigError>)
    ensures
        o == spec_output(*r),
{
    match r {
        ReturnShape::Default => Ok(OutputShape::Void),
        ReturnShape::Type(TypeShape::Path(p)) => match type_params_from_path(p, "Result") {
            Some(a) => if a.len() == 2 {
                if a[0] != GenericArgKind::Type {
                    Err(SigError { kind: ErrorType::ExpectedTypeInGeneric(0), site: ErrorSite::ReturnArg(0) })
                } else if a[1] != GenericArgKind::Type {
                    Err(SigError { kind: ErrorType::ExpectedTypeInGeneric(1), site: ErrorSite::ReturnArg(1) })
                } else {
                    Ok(OutputShape::Result)
                }
            } else {
                Err(SigError { kind: ErrorType::IncorrectReturnType, site: ErrorSite::Return })
            },
            None => Err(SigError { kind: ErrorType::IncorrectReturnType, site: ErrorSite::Return }),
        },
        ReturnShape::Type(_) => Err(SigError { kind: ErrorType::IncorrectReturnType, site: ErrorSite::Return }),
    }
}

/// The chip by `&` and the layouter by `&mut impl Layouter<F>`; the index of the bound
/// that names `F`.
fn chip_and_layouter(params: &Vec<ParamShape>) -> (r: Result<usize, SigError>)
    requires
        params.len() >= 2,
    ensures
        match spec_chip_and_layouter(params@) {
            Ok(k) => r matches Ok(x) && x == k,
            Err(e) => r == Err::<usize, SigError>(e),
        },
{
    match get_arg(&params[0], 0, RefCheck::Ref) {
        Err(e) => {
            return Err(e);
        },
        Ok(()) => {},
    }
    match get_arg(&params[1], 1, RefCheck::RefMut) {
        Err(e) => {
            return Err(e);
        },
        Ok(()) => {},
    }
    match &params[1] {
        ParamShape::Typed(ty) => extract_field(ty, 1),
        ParamShape::Receiver => Err(SigError { kind: ErrorType::UnexpectedSelf, site: ErrorSite::Param(1) }),
    }
}

/// The parameters from index `from` on: any typed ones before `last`, then the optional
/// injected IR by `&mut` at `last`.
fn tail_check(params: &Vec<ParamShape>, from: usize, last: usize) -> (r: Result<(), SigError>)
    requires
        from <= last,
        last <= params.len(),
    ensures
        match spec_tail_error(params@, from as int, last as int) {
            None => r is Ok,
            Some(e) => r == Err::<(), SigError>(e),
        },
{
    let mut i = from;
    while i < last
        invariant
            from <= i <= last,
            last <= params.len(),
            spec_tail_error(params@, from as int, last as int) == spec_tail_error(params@, i as int, last as int),
        decreases last - i,
    {
        match get_arg(&params[i], i, RefCheck::Any) {
            Err(e) => {
                return Err(e);
            },
            Ok(()) => {},
        }
        i += 1;
    }
    if params.len() > last {
        get_arg(&params[last], last, RefCheck::RefMut)
    } else {
        Ok(())
    }
}

/// The check of a harness signature: three or four parameters (chip by `&`, layouter by
/// `&mut impl Layouter<F>`, input, optional injected IR by `&mut`), then the return type.
pub fn harness_signature(f: &FnShape) -> (r: Result<HarnessSig, SigError>)
    ensures
        r == spec_harness_sig(*f),
{
    let n = f.params.len();
    if !(3 <= n && n <= 4) {
        return Err(
            SigError {
                kind: ErrorType::UnexpectedParams { from: 3, to: 4, lst: "chip, layouter, input[, injected_ir]" },
                site: ErrorSite::Params,
            },
        );
    }
    let k = match chip_and_layouter(&f.params) {
        Err(e) => {
            return Err(e);
        },
        Ok(k) => k,
    };
    match tail_check(&f.params, 2, 3) {
        Err(e) => {
            return Err(e);
        },
        Ok(()) => {},
    }
    match get_output(&f.output) {
        Err(e) => Err(e),
        Ok(o) => Ok(HarnessSig { layouter_bound: k, injected_ir: n == 4, output: o }),
    }
}

/// The check of a unit harness signature: four or five parameters (chip by `&`, layouter
/// by `&mut impl Layouter<F>`, input, output, optional injected IR by `&mut`).
pub fn unit_harness_signature(f: &FnShape) -> (r: Result<UnitHarnessSig, SigError>)
    ensures
        r == spec_unit_harness_sig(*f),
{
    let n = f.params.len();
    if !(4 <= n && n <= 5) {
        return Err(
            SigError {
                kind: ErrorType::UnexpectedParams {
                    from: 4,
                    to: 5,
                    lst: "chip, layouter, input, output[, injected_ir]",
                },
                site: ErrorSite::Params,
            },
        );
    }
    let k = match chip_and_layouter(&f.params) {
        Err(e) => {
            return Err(e);
        },
        Ok(k) => k,
    };
    match tail_check(&f.params, 2, 4) {
        Err(e) => Err(e),
        Ok(()) => Ok(UnitHarnessSig { layouter_bound: k, injected_ir: n == 5 }),
    }
}

} // verus!
