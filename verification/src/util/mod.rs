//! Value utilities: decimal text, integer sets, ranges and the value
//! remapper; converting the entries of a list.

use vstd::prelude::*;
use vstd::std_specs::convert::TryFromSpec;

pub mod number;
pub mod range;
pub mod remap;
pub mod setformat;
pub mod smartset;
pub mod text;
pub mod time;

pub use range::Range;
pub use remap::Remapper;
pub use smartset::SmartSet;

verus! {

/// Whether `r` is what converting the entries of `v` in order comes to: all
/// the converted entries, or the error of the first entry that cannot be
/// converted.
pub open spec fn all_converted<S, D: TryFrom<S>>(v: Seq<S>, r: Result<Vec<D>, D::Error>) -> bool {
    match r {
        Ok(out) => out@.len() == v.len() && forall|i: int|
            0 <= i < v.len() ==> D::try_from_spec(#[trigger] v[i]) == Ok::<D, D::Error>(out@[i]),
        Err(e) => exists|i: int|
            0 <= i < v.len() && D::try_from_spec(#[trigger] v[i]) == Err::<D, D::Error>(e) && forall|
                j: int,
            |
                0 <= j < i ==> D::try_from_spec(#[trigger] v[j]) is Ok,
    }
}

/// Converts the entries of `v` in order, up to the first that cannot be
/// converted.
pub fn map_tryfrom<S, D>(v: Vec<S>) -> (r: Result<Vec<D>, <D as TryFrom<S>>::Error>) where
    D: TryFrom<S>,

    ensures
        D::obeys_try_from_spec() ==> all_converted::<S, D>(v@, r),
{
    broadcast use vstd::std_specs::vec::axiom_spec_into_iter;

    let ghost all = v@;
    let mut out: Vec<D> = Vec::new();
    for x in it: v.into_iter()
        invariant
            it.seq() == all,
            out@.len() == it.index(),
            D::obeys_try_from_spec() ==> forall|i: int|
                0 <= i < it.index() ==> D::try_from_spec(#[trigger] all[i]) == Ok::<D, D::Error>(
                    out@[i],
                ),
    {
        match D::try_from(x) {
            Ok(d) => {
                out.push(d);
            },
            Err(e) => {
                assert(D::obeys_try_from_spec() ==> D::try_from_spec(all[it.index() as int])
                    == Err::<D, D::Error>(e));
                return Err(e);
            },
        }
    }
    Ok(out)
}

/// Converts the entries of `v`, where there is a list.
pub fn map_opt_tryfrom<S, D>(v: Option<Vec<S>>) -> (r: Result<
    Option<Vec<D>>,
    <D as TryFrom<S>>::Error,
>) where D: TryFrom<S>
    ensures
        D::obeys_try_from_spec() ==> match v {
            Some(list) => match r {
                Ok(out) => out is Some && all_converted::<S, D>(list@, Ok(out.unwrap())),
                Err(e) => all_converted::<S, D>(list@, Err(e)),
            },
            None => r matches Ok(out) && out is None,
        },
{
    match v {
        Some(list) => match map_tryfrom(list) {
            Ok(out) => Ok(Some(out)),
            Err(e) => Err(e),
        },
        None => Ok(None),
    }
}

} // verus!
