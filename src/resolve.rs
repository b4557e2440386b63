use vstd::prelude::*;

use crate::decl::{raw_model, raw_models, GenError, RawModel, RawVariant};

verus! {

/// The integer type that all weights of one declaration share.
#[derive(Clone, Copy, Debug, PartialEq, Eq, Structural)]
pub enum IntType {
    I8,
    I16,
    I32,
    I64,
    I128,
    Isize,
    U8,
    U16,
    U32,
    U64,
    U128,
    Usize,
}

/// The suffix that names each integer type in a literal.
pub open spec fn int_type_name(t: IntType) -> Seq<char> {
    match t {
        IntType::I8 => "i8"@,
        IntType::I16 => "i16"@,
        IntType::I32 => "i32"@,
        IntType::I64 => "i64"@,
        IntType::I128 => "i128"@,
        IntType::Isize => "isize"@,
        IntType::U8 => "u8"@,
        IntType::U16 => "u16"@,
        IntType::U32 => "u32"@,
        IntType::U64 => "u64"@,
        IntType::U128 => "u128"@,
        IntType::Usize => "usize"@,
    }
}

/// The integer type that a literal suffix names, if any.
pub open spec fn suffix_type(s: Seq<char>) -> Option<IntType> {
    if s == int_type_name(IntType::I8) {
        Some(IntType::I8)
    } else if s == int_type_name(IntType::I16) {
        Some(IntType::I16)
    } else if s == int_type_name(IntType::I32) {
        Some(IntType::I32)
    } else if s == int_type_name(IntType::I64) {
        Some(IntType::I64)
    } else if s == int_type_name(IntType::I128) {
        Some(IntType::I128)
    } else if s == int_type_name(IntType::Isize) {
        Some(IntType::Isize)
    } else if s == int_type_name(IntType::U8) {
        Some(IntType::U8)
    } else if s == int_type_name(IntType::U16) {
        Some(IntType::U16)
    } else if s == int_type_name(IntType::U32) {
        Some(IntType::U32)
    } else if s == int_type_name(IntType::U64) {
        Some(IntType::U64)
    } else if s == int_type_name(IntType::U128) {
        Some(IntType::U128)
    } else if s == int_type_name(IntType::Usize) {
        Some(IntType::Usize)
    } else {
        None
    }
}

impl IntType {
    /// The suffix that names this type in a literal.
    pub fn name(&self) -> (r: &'static str)
        ensures
            r@ == int_type_name(*self),
    {
        match self {
            IntType::I8 => "i8",
            IntType::I16 => "i16",
            IntType::I32 => "i32",
            IntType::I64 => "i64",
            IntType::I128 => "i128",
            IntType::Isize => "isize",
            IntType::U8 => "u8",
            IntType::U16 => "u16",
            IntType::U32 => "u32",
            IntType::U64 => "u64",
            IntType::U128 => "u128",
            IntType::Usize => "usize",
        }
    }
}

fn names_type(s: &String, t: IntType) -> (r: bool)
    ensures
        r == (s@ == int_type_name(t)),
{
    let n = String::from_str(t.name());
    s.eq(&n)
}

/// The integer type that a literal suffix names, if any.
pub fn type_of_suffix(s: &String) -> (r: Option<IntType>)
    ensures
        r == suffix_type(s@),
{
    if names_type(s, IntType::I8) {
        Some(IntType::I8)
    } else if names_type(s, IntType::I16) {
        Some(IntType::I16)
    } else if names_type(s, IntType::I32) {
        Some(IntType::I32)
    } else if names_type(s, IntType::I64) {
        Some(IntType::I64)
    } else if names_type(s, IntType::I128) {
        Some(IntType::I128)
    } else if names_type(s, IntType::Isize) {
        Some(IntType::Isize)
    } else if names_type(s, IntType::U8) {
        Some(IntType::U8)
    } else if names_type(s, IntType::U16) {
        Some(IntType::U16)
    } else if names_type(s, IntType::U32) {
        Some(IntType::U32)
    } else if names_type(s, IntType::U64) {
        Some(IntType::U64)
    } else if names_type(s, IntType::U128) {
        Some(IntType::U128)
    } else if names_type(s, IntType::Usize) {
        Some(IntType::Usize)
    } else {
        None
    }
}

/// The explicit type suffixes in source order: the first one fixes the type,
/// a later one that names another type conflicts, and one that names no integer
/// type is malformed. `Ok(None)`: no literal carries a suffix.
pub open spec fn type_scan(raw: Seq<RawModel>) -> Result<Option<IntType>, GenError>
    decreases raw.len(),
{
    if raw.len() == 0 {
        Ok(None)
    } else {
        let v = (raw.len() - 1) as usize;
        match type_scan(raw.drop_last()) {
            Err(e) => Err(e),
            Ok(t) => match raw.last().1 {
                None => Ok(t),
                Some(lit) => if lit.1.len() == 0 {
                    Ok(t)
                } else {
                    match suffix_type(lit.1) {
                        None => Err(GenError::MalformedWeightAnnotation { variant: v, attr: lit.2 }),
                        Some(u) => match t {
                            None => Ok(Some(u)),
                            Some(t0) => if t0 == u {
                                Ok(t)
                            } else {
                                Err(GenError::ConflictingWeightType { variant: v, attr: lit.2 })
                            },
                        },
                    }
                },
            },
        }
    }
}

/// The weight type of a declaration without an explicit suffix.
pub open spec fn default_type() -> IntType {
    IntType::I32
}

pub open spec fn type_or_default(t: Option<IntType>) -> IntType {
    match t {
        Some(u) => u,
        None => default_type(),
    }
}

/// A variant's weight after defaulting: its literal's value, else 1.
pub open spec fn resolved_weight(m: RawModel) -> u128 {
    match m.1 {
        Some(lit) => lit.0,
        None => 1,
    }
}

/// The table of names and weights, in declared order.
pub open spec fn table_of(raw: Seq<RawModel>) -> Seq<(Seq<char>, u128)> {
    raw.map_values(|m: RawModel| (m.0, resolved_weight(m)))
}

/// Whether a variant's weight is written out as `1`, which the default already gives.
pub open spec fn is_redundant(m: RawModel) -> bool {
    match m.1 {
        Some(lit) => lit.0 == 1,
        None => false,
    }
}

/// The positions, in order, of the variants whose explicit weight is `1`.
pub open spec fn redundant_of(raw: Seq<RawModel>) -> Seq<usize>
    decreases raw.len(),
{
    if raw.len() == 0 {
        Seq::empty()
    } else if is_redundant(raw.last()) {
        redundant_of(raw.drop_last()).push((raw.len() - 1) as usize)
    } else {
        redundant_of(raw.drop_last())
    }
}

/// Some weight of the table is positive.
pub open spec fn has_positive(t: Seq<(Seq<char>, u128)>) -> bool {
    exists|i: int| 0 <= i < t.len() && #[trigger] t[i].1 > 0
}

/// Weight type, table and redundant positions of a parsed declaration, or why
/// there is none.
pub open spec fn resolve_outcome(raw: Seq<RawModel>) -> Result<
    (IntType, Seq<(Seq<char>, u128)>, Seq<usize>),
    GenError,
> {
    if !has_positive(table_of(raw)) {
        Err(GenError::AllWeightsZero)
    } else {
        match type_scan(raw) {
            Err(e) => Err(e),
            Ok(t) => Ok((type_or_default(t), table_of(raw), redundant_of(raw))),
        }
    }
}

/// One row of the sampling table.
#[derive(Clone, Debug, PartialEq, Eq)]
pub struct ResolvedVariant {
    pub name: String,
    pub weight: u128,
}

/// The resolved weights of a declaration: the shared weight type, the table in
/// declared order, and the positions of variants whose explicit weight is `1`.
#[derive(Clone, Debug, PartialEq, Eq)]
pub struct Resolved {
    pub weight_type: IntType,
    pub variants: Vec<ResolvedVariant>,
    pub redundant: Vec<usize>,
}

pub open spec fn table_model(v: Seq<ResolvedVariant>) -> Seq<(Seq<char>, u128)> {
    v.map_values(|x: ResolvedVariant| (x.name@, x.weight))
}

impl Resolved {
    pub open spec fn table(&self) -> Seq<(Seq<char>, u128)> {
        table_model(self.variants@)
    }

    pub open spec fn model(&self) -> (IntType, Seq<(Seq<char>, u128)>, Seq<usize>) {
        (self.weight_type, self.table(), self.redundant@)
    }

    /// At least one variant can be drawn.
    pub open spec fn wf(&self) -> bool {
        has_positive(self.table())
    }
}

proof fn lemma_type_error_stays(s: Seq<RawModel>, k: int)
    requires
        0 <= k <= s.len(),
        type_scan(s.subrange(0, k)) is Err,
    ensures
        type_scan(s) == type_scan(s.subrange(0, k)),
    decreases s.len(),
{
    if k == s.len() {
        assert(s.subrange(0, k) =~= s);
    } else {
        assert(s.drop_last().subrange(0, k) =~= s.subrange(0, k));
        lemma_type_error_stays(s.drop_last(), k);
    }
}

/// Resolves parsed variants: gives each variant without a literal the weight
/// `1`, records the variants whose explicit weight is `1`, fails when every
/// weight is `0`, then fixes the weight type from the first suffixed literal
/// (`i32` without one) and fails when a suffix names no integer type or two
/// suffixes disagree.
pub fn resolve_weights(raw: &Vec<RawVariant>) -> (r: Result<Resolved, GenError>)
    ensures
        match r {
            Ok(res) => resolve_outcome(raw_models(raw@)) == Ok::<_, GenError>(res.model())
                && res.wf(),
            Err(e) => resolve_outcome(raw_models(raw@)) == Err::<
                (IntType, Seq<(Seq<char>, u128)>, Seq<usize>),
                _,
            >(e),
        },
{
    let ghost rm = raw_models(raw@);
    let mut table: Vec<ResolvedVariant> = Vec::new();
    let mut redundant: Vec<usize> = Vec::new();
    let mut positive = false;
    let mut i: usize = 0;
    assert(rm.subrange(0, 0) =~= Seq::<RawModel>::empty());
    assert(table_model(table@) =~= table_of(rm.subrange(0, 0)));
    while i < raw.len()
        invariant
            rm == raw_models(raw@),
            i <= raw@.len(),
            table_model(table@) == table_of(rm.subrange(0, i as int)),
            redundant@ == redundant_of(rm.subrange(0, i as int)),
            positive == has_positive(table_model(table@)),
        decreases raw.len() - i,
    {
        let ghost pre = rm.subrange(0, i as int);
        let ghost cur = rm.subrange(0, i + 1);
        assert(cur.drop_last() =~= pre);
        assert(cur.last() == raw_model(raw@[i as int]));
        let rv = &raw[i];
        let weight: u128 = match &rv.weight {
            Some(lit) => {
                if lit.value == 1 {
                    redundant.push(i);
                }
                lit.value
            },
            None => 1,
        };
        let ghost before = table@;
        table.push(ResolvedVariant { name: rv.name.clone(), weight });
        assert(table_model(table@) =~= table_model(before).push((rv.name@, weight)));
        assert(table_of(cur) =~= table_of(pre).push((rv.name@, weight)));
        if weight > 0 {
            positive = true;
        }
        assert(positive == has_positive(table_model(table@))) by {
            let t = table_model(table@);
            if positive {
                if weight > 0 {
                    assert(t[i as int].1 > 0);
                } else {
                    let k = choose|k: int|
                        0 <= k < table_model(before).len() && #[trigger] table_model(before)[k].1
                            > 0;
                    assert(t[k].1 > 0);
                }
            } else {
                assert forall|k: int| 0 <= k < t.len() implies !(#[trigger] t[k].1 > 0) by {
                    if k < i {
                        assert(t[k] == table_model(before)[k]);
                    }
                }
            }
        }
        i = i + 1;
    }
    assert(rm.subrange(0, raw.len() as int) =~= rm);
    if !positive {
        return Err(GenError::AllWeightsZero);
    }
    let mut ty: Option<IntType> = None;
    let mut k: usize = 0;
    while k < raw.len()
        invariant
            rm == raw_models(raw@),
            k <= raw@.len(),
            has_positive(table_of(rm)),
            table_model(table@) == table_of(rm),
            redundant@ == redundant_of(rm),
            has_positive(table_model(table@)),
            type_scan(rm.subrange(0, k as int)) == Ok::<_, GenError>(ty),
        decreases raw.len() - k,
    {
        proof {
            if k == 0 {
                assert(rm.subrange(0, 0) =~= Seq::<RawModel>::empty());
            }
        }
        let ghost cur = rm.subrange(0, k + 1);
        assert(cur.drop_last() =~= rm.subrange(0, k as int));
        assert(cur.last() == raw_model(raw@[k as int]));
        if let Some(lit) = &raw[k].weight {
            if lit.suffix.as_str().unicode_len() != 0 {
                match type_of_suffix(&lit.suffix) {
                    None => {
                        proof {
                            lemma_type_error_stays(rm, k + 1);
                        }
                        return Err(GenError::MalformedWeightAnnotation { variant: k, attr: lit.attr });
                    },
                    Some(u) => match ty {
                        None => {
                            ty = Some(u);
                        },
                        Some(t0) => {
                            if t0 != u {
                                proof {
                                    lemma_type_error_stays(rm, k + 1);
                                }
                                return Err(
                                    GenError::ConflictingWeightType { variant: k, attr: lit.attr },
                                );
                            }
                        },
                    },
                }
            }
        }
        k = k + 1;
    }
    assert(rm.subrange(0, raw.len() as int) =~= rm);
    let weight_type = match ty {
        Some(t) => t,
        None => IntType::I32,
    };
    Ok(Resolved { weight_type, variants: table, redundant })
}

} // verus!
