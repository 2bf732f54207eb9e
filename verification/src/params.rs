//! Scalar parameter values of a strategy axis.
//!
//! A value is an integer, a fixed-point number scaled by `1e5`, a piece
//! of text, or a flag; the shapes a JSON scalar can take once floats are
//! replaced by fixed-point numbers.

use vstd::prelude::*;

verus! {

/// One scalar parameter value.
#[derive(Debug)]
pub enum ParamValue {
    /// A whole number.
    Int(i64),
    /// A fixed-point number, scaled by `1e5`.
    Fixed(i64),
    /// A piece of text.
    Text(String),
    /// A boolean flag.
    Flag(bool),
}

impl Clone for ParamValue {
    fn clone(&self) -> (r: Self)
        ensures
            r == *self,
    {
        match self {
            ParamValue::Int(v) => ParamValue::Int(*v),
            ParamValue::Fixed(v) => ParamValue::Fixed(*v),
            ParamValue::Text(s) => ParamValue::Text(s.clone()),
            ParamValue::Flag(b) => ParamValue::Flag(*b),
        }
    }
}

/// Clones a list of named parameter values.
pub fn clone_named_values(src: &Vec<(String, ParamValue)>) -> (r: Vec<(String, ParamValue)>)
    ensures
        r@ == src@,
{
    let mut out: Vec<(String, ParamValue)> = Vec::new();
    let mut i: usize = 0;
    while i < src.len()
        invariant
            i <= src@.len(),
            out@ == src@.take(i as int),
        decreases src@.len() - i,
    {
        out.push((src[i].0.clone(), src[i].1.clone()));
        proof {
            assert(out@ =~= src@.take(i + 1));
        }
        i = i + 1;
    }
    proof {
        assert(src@.take(src@.len() as int) =~= src@);
    }
    out
}

/// Clones a list of parameter values; the result's view equals the
/// source's.
pub fn clone_values(src: &Vec<ParamValue>) -> (r: Vec<ParamValue>)
    ensures
        r@ == src@,
{
    let r = src.clone();
    proof {
        assert(r@ =~= src@);
    }
    r
}

/// Two axis lists that hold the same names and the same values.
pub open spec fn axes_equal(
    a: Seq<(String, Vec<ParamValue>)>,
    b: Seq<(String, Vec<ParamValue>)>,
) -> bool {
    &&& a.len() == b.len()
    &&& forall|i: int|
        0 <= i < a.len() ==> #[trigger] a[i].0 == b[i].0 && a[i].1@ == b[i].1@
}

/// Clones a list of axes, each a name with its list of values.
pub fn clone_axes(src: &Vec<(String, Vec<ParamValue>)>) -> (r: Vec<(String, Vec<ParamValue>)>)
    ensures
        axes_equal(r@, src@),
{
    let mut out: Vec<(String, Vec<ParamValue>)> = Vec::new();
    let mut i: usize = 0;
    while i < src.len()
        invariant
            i <= src@.len(),
            out@.len() == i,
            forall|k: int|
                0 <= k < i ==> #[trigger] out@[k].0 == src@[k].0 && out@[k].1@ == src@[k].1@,
        decreases src@.len() - i,
    {
        out.push((src[i].0.clone(), clone_values(&src[i].1)));
        i = i + 1;
    }
    out
}

} // verus!
