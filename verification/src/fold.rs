//! The folds that the library provides.

use vstd::prelude::*;
use vstd::string::*;
use crate::parser::MpcFold;
use crate::value::{views_of, MpcVal, ValView};

verus! {

/// The texts among `xs`, concatenated in order; values that are no text add
/// nothing.
pub open spec fn concat_texts(xs: Seq<ValView>) -> Seq<char>
    decreases xs.len(),
{
    if xs.len() == 0 {
        Seq::empty()
    } else {
        concat_texts(xs.drop_last()) + match xs.last() {
            ValView::Str(s) => s,
            _ => Seq::empty(),
        }
    }
}

/// The first of `xs`, or the unit value where there is none.
pub open spec fn first_of(xs: Seq<ValView>) -> ValView {
    if xs.len() == 0 {
        ValView::Unit
    } else {
        xs[0]
    }
}

/// Concatenates the texts among `xs`.
pub fn mpcf_strfold(n: i32, xs: Vec<MpcVal>) -> (v: MpcVal)
    ensures
        v@ == ValView::Str(concat_texts(views_of(xs@))),
{
    let mut result = String::new();
    let mut i: usize = 0;
    assert(views_of(xs@).take(0) =~= Seq::empty());
    while i < xs.len()
        invariant
            0 <= i <= xs.len(),
            result@ == concat_texts(views_of(xs@).take(i as int)),
        decreases xs.len() - i,
    {
        assert(views_of(xs@).take(i + 1).drop_last() =~= views_of(xs@).take(i as int));
        match &xs[i] {
            MpcVal::Str(s) => {
                result.append(s.as_str());
            },
            _ => {
                assert(result@ + Seq::<char>::empty() =~= result@);
            },
        }
        i = i + 1;
    }
    assert(views_of(xs@).take(xs@.len() as int) =~= views_of(xs@));
    MpcVal::Str(result)
}

/// Yields the first of `xs`, or the unit value where there is none.
pub fn mpcf_fst(n: i32, xs: Vec<MpcVal>) -> (v: MpcVal)
    ensures
        v@ == first_of(views_of(xs@)),
{
    let mut xs = xs;
    if xs.len() == 0 {
        MpcVal::Unit
    } else {
        xs.swap_remove(0)
    }
}

/// Yields the unit value.
pub fn mpcf_null(n: i32, xs: Vec<MpcVal>) -> (v: MpcVal)
    ensures
        v@ == ValView::Unit,
{
    MpcVal::Unit
}

/// The fold that concatenates texts: [`mpcf_strfold`].
pub struct StrFold;

/// The fold that keeps the first value: [`mpcf_fst`].
pub struct FstFold;

/// The fold that yields the unit value: [`mpcf_null`].
pub struct NullFold;

impl MpcFold for StrFold {
    open spec fn folded(&self, n: i32, xs: Seq<ValView>) -> ValView {
        ValView::Str(concat_texts(xs))
    }

    fn fold(&self, n: i32, xs: Vec<MpcVal>) -> (v: MpcVal) {
        mpcf_strfold(n, xs)
    }
}

impl MpcFold for FstFold {
    open spec fn folded(&self, n: i32, xs: Seq<ValView>) -> ValView {
        first_of(xs)
    }

    fn fold(&self, n: i32, xs: Vec<MpcVal>) -> (v: MpcVal) {
        mpcf_fst(n, xs)
    }
}

impl MpcFold for NullFold {
    open spec fn folded(&self, n: i32, xs: Seq<ValView>) -> ValView {
        ValView::Unit
    }

    fn fold(&self, n: i32, xs: Vec<MpcVal>) -> (v: MpcVal) {
        mpcf_null(n, xs)
    }
}

} // verus!
