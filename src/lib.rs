//! Compiles an enum declaration whose variants carry optional `weight(n)`
//! attributes into the source of a weighted sampler over that enum.
//!
//! The pass runs in three stages: [`decl::parse_declaration`] reads the variants
//! and their weight literals, [`resolve::resolve_weights`] fixes the shared
//! weight type, defaults and checks the weights, and [`emit::emit_sampler`] writes
//! the code. [`generate`] runs all three.
use vstd::prelude::*;

pub mod decl;
pub mod emit;
pub mod laws;
pub mod literal;
pub mod resolve;
pub mod sample;

use crate::decl::{parse_declaration, parse_outcome, Declaration, GenError};
use crate::emit::{emit_sampler, sampler_text};
use crate::resolve::{resolve_outcome, resolve_weights, IntType, Resolved};

verus! {

/// A successful run: the sampler's source and the table it was written from,
/// whose `redundant` positions are the variants that deserve a warning for an
/// explicit weight of `1`.
#[derive(Clone, Debug, PartialEq, Eq)]
pub struct Generated {
    pub code: String,
    pub resolved: Resolved,
}

/// What a run yields: the code with the resolved table, or the first failure.
/// `rand_path` is how the generated code reaches the random crate, `None` when
/// that crate could not be found.
pub open spec fn generate_outcome(decl: Declaration, rand_path: Option<Seq<char>>) -> Result<
    (Seq<char>, (IntType, Seq<(Seq<char>, u128)>, Seq<usize>)),
    GenError,
> {
    match rand_path {
        None => Err(GenError::ExternalCrateUnresolvable),
        Some(p) => match parse_outcome(decl) {
            Err(e) => Err(e),
            Ok(raw) => match resolve_outcome(raw) {
                Err(e) => Err(e),
                Ok(res) => Ok((sampler_text(p, decl.name@, res.0, res.1), res)),
            },
        },
    }
}

pub open spec fn path_model(p: Option<String>) -> Option<Seq<char>> {
    match p {
        Some(s) => Some(s@),
        None => None,
    }
}

/// One generation run over a declaration: parse, resolve, emit. Either the
/// whole sampler comes back or the first error does, nothing in between.
pub fn generate(decl: &Declaration, rand_path: Option<String>) -> (r: Result<Generated, GenError>)
    ensures
        match r {
            Ok(g) => generate_outcome(*decl, path_model(rand_path)) == Ok::<_, GenError>(
                (g.code@, g.resolved.model()),
            ) && g.resolved.wf(),
            Err(e) => generate_outcome(*decl, path_model(rand_path)) == Err::<
                (Seq<char>, (IntType, Seq<(Seq<char>, u128)>, Seq<usize>)),
                _,
            >(e),
        },
{
    let path = match rand_path {
        Some(p) => p,
        None => {
            return Err(GenError::ExternalCrateUnresolvable);
        },
    };
    let raw = match parse_declaration(decl) {
        Ok(raw) => raw,
        Err(e) => {
            return Err(e);
        },
    };
    let resolved = match resolve_weights(&raw) {
        Ok(res) => res,
        Err(e) => {
            return Err(e);
        },
    };
    let code = emit_sampler(path.as_str(), decl.name.as_str(), &resolved);
    Ok(Generated { code, resolved })
}

} // verus!
