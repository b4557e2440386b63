use vstd::prelude::*;

use crate::literal::{decimal_u128, int_literal_of, parse_decimal, parse_int_literal};

verus! {

/// One attribute on a variant, by its shape: a bare path (`#[weight]`), a
/// path with a parenthesised token list (`#[weight(3)]`), or a name with a value
/// (`#[weight = 3]`, and doc comments).
#[derive(Clone, Debug, PartialEq, Eq)]
pub enum Attribute {
    Path { path: String },
    List { path: String, tokens: String },
    NameValue { path: String },
}

/// One declared variant: its name and its attributes, in source order.
#[derive(Clone, Debug, PartialEq, Eq)]
pub struct VariantDecl {
    pub name: String,
    pub attrs: Vec<Attribute>,
}

/// The body of a type declaration.
#[derive(Clone, Debug, PartialEq, Eq)]
pub enum DeclBody {
    Enum { variants: Vec<VariantDecl> },
    Struct,
    Union,
}

/// A type declaration that a sampler is asked for.
#[derive(Clone, Debug, PartialEq, Eq)]
pub struct Declaration {
    pub name: String,
    pub body: DeclBody,
}

/// Why a generation run failed. `variant` and `attr` are positions in the
/// declaration (0-based), which locate the offending token.
#[derive(Clone, Copy, Debug, PartialEq, Eq, Structural)]
pub enum GenError {
    NotAVariantType,
    MalformedWeightAnnotation { variant: usize, attr: usize },
    UnsupportedAnnotationShape { variant: usize, attr: usize },
    DuplicateWeightAnnotation { variant: usize, attr: usize },
    ConflictingWeightType { variant: usize, attr: usize },
    AllWeightsZero,
    ExternalCrateUnresolvable,
}

/// An explicit weight literal: its value, its type suffix (empty if none), and
/// the position of the attribute that carried it.
#[derive(Clone, Debug, PartialEq, Eq)]
pub struct WeightLit {
    pub value: u128,
    pub suffix: String,
    pub attr: usize,
}

/// A variant as the parser leaves it: its name and its explicit weight, if any.
#[derive(Clone, Debug, PartialEq, Eq)]
pub struct RawVariant {
    pub name: String,
    pub weight: Option<WeightLit>,
}

/// Value, suffix and attribute position of an explicit weight.
pub type LitModel = (u128, Seq<char>, usize);

/// Name and explicit weight of a parsed variant.
pub type RawModel = (Seq<char>, Option<LitModel>);

pub open spec fn lit_model(w: WeightLit) -> LitModel {
    (w.value, w.suffix@, w.attr)
}

pub open spec fn raw_model(r: RawVariant) -> RawModel {
    (
        r.name@,
        match r.weight {
            Some(w) => Some(lit_model(w)),
            None => None,
        },
    )
}

pub open spec fn raw_models(v: Seq<RawVariant>) -> Seq<RawModel> {
    v.map_values(|r: RawVariant| raw_model(r))
}

pub open spec fn weight_name() -> Seq<char> {
    "weight"@
}

/// The weight that a parsed literal (its base-ten value and its suffix, or
/// `None` when the text was no single integer literal) gives attribute `j` of
/// variant `v`.
pub open spec fn literal_outcome(lit: Option<(Seq<char>, Seq<char>)>, v: usize, j: usize) -> Result<
    LitModel,
    GenError,
> {
    match lit {
        Some(l) => match decimal_u128(l.0) {
            Some(n) => Ok((n, l.1, j)),
            None => Err(GenError::MalformedWeightAnnotation { variant: v, attr: j }),
        },
        None => Err(GenError::MalformedWeightAnnotation { variant: v, attr: j }),
    }
}

/// What attribute `j` of variant `v` gives: a weight for `weight(..)`, and an
/// error for an attribute of any other name or shape.
pub open spec fn attr_outcome(v: usize, a: Attribute, j: usize) -> Result<LitModel, GenError> {
    match a {
        Attribute::List { path, tokens } => {
            if path@ == weight_name() {
                literal_outcome(int_literal_of(tokens@), v, j)
            } else {
                Err(GenError::UnsupportedAnnotationShape { variant: v, attr: j })
            }
        },
        _ => Err(GenError::UnsupportedAnnotationShape { variant: v, attr: j }),
    }
}

/// The first error among the attributes in source order (a second `weight`
/// attribute being one), else the weight of the one `weight` attribute, else none.
pub open spec fn attrs_outcome(v: usize, attrs: Seq<Attribute>) -> Result<
    Option<LitModel>,
    GenError,
>
    decreases attrs.len(),
{
    if attrs.len() == 0 {
        Ok(None)
    } else {
        let j = (attrs.len() - 1) as usize;
        match attrs_outcome(v, attrs.drop_last()) {
            Err(e) => Err(e),
            Ok(w) => match attr_outcome(v, attrs.last(), j) {
                Err(e) => Err(e),
                Ok(x) => match w {
                    None => Ok(Some(x)),
                    Some(_) => Err(GenError::DuplicateWeightAnnotation { variant: v, attr: j }),
                },
            },
        }
    }
}

/// The variants in declared order with their explicit weights, or the first
/// error in source order.
pub open spec fn variants_outcome(vs: Seq<VariantDecl>) -> Result<Seq<RawModel>, GenError>
    decreases vs.len(),
{
    if vs.len() == 0 {
        Ok(Seq::empty())
    } else {
        match variants_outcome(vs.drop_last()) {
            Err(e) => Err(e),
            Ok(p) => match attrs_outcome((vs.len() - 1) as usize, vs.last().attrs@) {
                Err(e) => Err(e),
                Ok(w) => Ok(p.push((vs.last().name@, w))),
            },
        }
    }
}

pub open spec fn parse_outcome(d: Declaration) -> Result<Seq<RawModel>, GenError> {
    match d.body {
        DeclBody::Enum { variants } => variants_outcome(variants@),
        _ => Err(GenError::NotAVariantType),
    }
}

proof fn lemma_attrs_error_stays(v: usize, s: Seq<Attribute>, k: int)
    requires
        0 <= k <= s.len(),
        attrs_outcome(v, s.subrange(0, k)) is Err,
    ensures
        attrs_outcome(v, s) == attrs_outcome(v, s.subrange(0, k)),
    decreases s.len(),
{
    if k == s.len() {
        assert(s.subrange(0, k) =~= s);
    } else {
        assert(s.drop_last().subrange(0, k) =~= s.subrange(0, k));
        lemma_attrs_error_stays(v, s.drop_last(), k);
    }
}

proof fn lemma_variants_error_stays(s: Seq<VariantDecl>, k: int)
    requires
        0 <= k <= s.len(),
        variants_outcome(s.subrange(0, k)) is Err,
    ensures
        variants_outcome(s) == variants_outcome(s.subrange(0, k)),
    decreases s.len(),
{
    if k == s.len() {
        assert(s.subrange(0, k) =~= s);
    } else {
        assert(s.drop_last().subrange(0, k) =~= s.subrange(0, k));
        lemma_variants_error_stays(s.drop_last(), k);
    }
}

fn is_weight_name(p: &String) -> (r: bool)
    ensures
        r == (p@ == weight_name()),
{
    let w = String::from_str("weight");
    p.eq(&w)
}

pub open spec fn literal_model(lit: Option<(String, String)>) -> Option<(Seq<char>, Seq<char>)> {
    match lit {
        Some(l) => Some((l.0@, l.1@)),
        None => None,
    }
}

/// Turns the literal parsed from attribute `j` of variant `v` into its weight:
/// the value must be a base-ten number of at most `u128::MAX` (a negative
/// literal is not), else the annotation is malformed.
pub fn weight_from_literal(lit: Option<(String, String)>, v: usize, j: usize) -> (r: Result<
    WeightLit,
    GenError,
>)
    ensures
        match r {
            Ok(w) => literal_outcome(literal_model(lit), v, j) == Ok::<_, GenError>(lit_model(w)),
            Err(e) => literal_outcome(literal_model(lit), v, j) == Err::<LitModel, _>(e),
        },
{
    match lit {
        Some((digits, suffix)) => match parse_decimal(&digits) {
            Some(n) => Ok(WeightLit { value: n, suffix, attr: j }),
            None => Err(GenError::MalformedWeightAnnotation { variant: v, attr: j }),
        },
        None => Err(GenError::MalformedWeightAnnotation { variant: v, attr: j }),
    }
}

fn attr_weight(v: usize, a: &Attribute, j: usize) -> (r: Result<WeightLit, GenError>)
    ensures
        match r {
            Ok(w) => attr_outcome(v, *a, j) == Ok::<_, GenError>(lit_model(w)),
            Err(e) => attr_outcome(v, *a, j) == Err::<LitModel, _>(e),
        },
{
    match a {
        Attribute::List { path, tokens } => {
            if !is_weight_name(path) {
                return Err(GenError::UnsupportedAnnotationShape { variant: v, attr: j });
            }
            let lit = parse_int_literal(tokens.as_str());
            weight_from_literal(lit, v, j)
        },
        _ => Err(GenError::UnsupportedAnnotationShape { variant: v, attr: j }),
    }
}

fn variant_weight(v: usize, attrs: &Vec<Attribute>) -> (r: Result<Option<WeightLit>, GenError>)
    ensures
        match r {
            Ok(Some(w)) => attrs_outcome(v, attrs@) == Ok::<_, GenError>(Some(lit_model(w))),
            Ok(None) => attrs_outcome(v, attrs@) == Ok::<_, GenError>(None::<LitModel>),
            Err(e) => attrs_outcome(v, attrs@) == Err::<Option<LitModel>, _>(e),
        },
{
    let mut found: Option<WeightLit> = None;
    let mut j: usize = 0;
    while j < attrs.len()
        invariant
            j <= attrs@.len(),
            attrs_outcome(v, attrs@.subrange(0, j as int)) == Ok::<_, GenError>(
                match found {
                    Some(w) => Some(lit_model(w)),
                    None => None,
                },
            ),
        decreases attrs.len() - j,
    {
        proof {
            if j == 0 {
                assert(attrs@.subrange(0, 0) =~= Seq::<Attribute>::empty());
            }
        }
        assert(attrs@.subrange(0, j + 1).drop_last() =~= attrs@.subrange(0, j as int));
        match attr_weight(v, &attrs[j], j) {
            Err(e) => {
                proof {
                    lemma_attrs_error_stays(v, attrs@, j + 1);
                }
                return Err(e);
            },
            Ok(w) => {
                if found.is_some() {
                    proof {
                        lemma_attrs_error_stays(v, attrs@, j + 1);
                    }
                    return Err(GenError::DuplicateWeightAnnotation { variant: v, attr: j });
                }
                found = Some(w);
            },
        }
        j = j + 1;
    }
    assert(attrs@.subrange(0, attrs.len() as int) =~= attrs@);
    Ok(found)
}

/// Reads a declaration into its variants, in declared order, each with the
/// weight literal of its `weight(..)` attribute, if it has one. Fails on a
/// declaration that is not an enum, on a variant attribute other than
/// `weight(..)`, on a second `weight(..)` on one variant, and on a `weight(..)`
/// whose argument is not one integer literal of at most `u128::MAX`.
pub fn parse_declaration(decl: &Declaration) -> (r: Result<Vec<RawVariant>, GenError>)
    ensures
        match r {
            Ok(v) => parse_outcome(*decl) == Ok::<_, GenError>(raw_models(v@)),
            Err(e) => parse_outcome(*decl) == Err::<Seq<RawModel>, _>(e),
        },
{
    match &decl.body {
        DeclBody::Enum { variants } => {
            let mut out: Vec<RawVariant> = Vec::new();
            let mut i: usize = 0;
            assert(variants@.subrange(0, 0) =~= Seq::<VariantDecl>::empty());
            assert(raw_models(out@) =~= Seq::<RawModel>::empty());
            while i < variants.len()
                invariant
                    decl.body == (DeclBody::Enum { variants: *variants }),
                    i <= variants@.len(),
                    variants_outcome(variants@.subrange(0, i as int)) == Ok::<_, GenError>(
                        raw_models(out@),
                    ),
                decreases variants.len() - i,
            {
                assert(variants@.subrange(0, i + 1).drop_last() =~= variants@.subrange(
                    0,
                    i as int,
                ));
                let w = match variant_weight(i, &variants[i].attrs) {
                    Ok(w) => w,
                    Err(e) => {
                        proof {
                            let pre = variants@.subrange(0, i + 1);
                            assert(pre.last() == variants@[i as int]);
                            assert(variants_outcome(pre) == Err::<Seq<RawModel>, _>(e));
                            lemma_variants_error_stays(variants@, i + 1);
                            assert(variants_outcome(variants@) == Err::<Seq<RawModel>, _>(e));
                        }
                        return Err(e);
                    },
                };
                let ghost before = out@;
                out.push(RawVariant { name: variants[i].name.clone(), weight: w });
                assert(raw_models(out@) =~= raw_models(before).push(raw_model(out@.last())));
                i = i + 1;
            }
            assert(variants@.subrange(0, variants.len() as int) =~= variants@);
            Ok(out)
        },
        _ => Err(GenError::NotAVariantType),
    }
}

} // verus!
