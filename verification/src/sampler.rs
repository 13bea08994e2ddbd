//! The sampling pass: one evaluation per grid position across the visible
//! domain, gathered into a sequence of points and gaps.
//!
//! The grid and the evaluator are the host's: `grid` gives the coordinate of a
//! position, `evaluate` what the equation makes of a coordinate. The pass
//! decides what each outcome becomes and when the whole pass is given up.

use vstd::prelude::*;

verus! {

/// What evaluating an equation at one coordinate gave.
#[derive(Debug)]
pub enum Evaluation<Y> {
    /// A number.
    Value(Y),
    /// The equation divides by zero there.
    DivideByZero,
    /// The equation names a symbol that nothing defines.
    UnknownSymbol(String),
}

/// Why a sampling pass was given up.
#[derive(Debug)]
pub enum SampleError {
    /// The equation names a symbol that nothing defines.
    UnknownSymbol(String),
}

/// What one evaluation becomes: a point, a gap, or the end of the pass.
pub open spec fn sample_of<X, Y>(x: X, evaluation: Evaluation<Y>) -> Result<
    Option<(X, Y)>,
    SampleError,
> {
    match evaluation {
        Evaluation::Value(y) => Ok(Some((x, y))),
        Evaluation::DivideByZero => Ok(None),
        Evaluation::UnknownSymbol(name) => Err(SampleError::UnknownSymbol(name)),
    }
}

/// Turns the outcome of evaluating at `x` into a sample: a value into the point
/// `(x, y)`, a division by zero into a gap, an unknown symbol into the error
/// that ends the pass.
pub fn classify<X, Y>(x: X, evaluation: Evaluation<Y>) -> (sample: Result<
    Option<(X, Y)>,
    SampleError,
>)
    ensures
        sample == sample_of(x, evaluation),
{
    match evaluation {
        Evaluation::Value(y) => Ok(Some((x, y))),
        Evaluation::DivideByZero => Ok(None),
        Evaluation::UnknownSymbol(name) => Err(SampleError::UnknownSymbol(name)),
    }
}

/// Whether `sample` is what position `i` can give: the point of a coordinate
/// of `grid` at `i` and a value of `evaluate` there, or a gap where `evaluate`
/// reports a division by zero.
pub open spec fn sampled_at<X, Y, Grid: Fn(u32) -> X, Eval: Fn(&X) -> Evaluation<Y>>(
    grid: Grid,
    evaluate: Eval,
    i: u32,
    sample: Option<(X, Y)>,
) -> bool {
    match sample {
        Some((x, y)) => grid.ensures((i,), x) && evaluate.ensures((&x,), Evaluation::Value(y)),
        None => exists|x: X| #[trigger]
            grid.ensures((i,), x) && evaluate.ensures((&x,), Evaluation::DivideByZero),
    }
}

/// Whether `evaluate` can report the unknown symbol `name` at position `i`.
pub open spec fn aborted_at<X, Y, Grid: Fn(u32) -> X, Eval: Fn(&X) -> Evaluation<Y>>(
    grid: Grid,
    evaluate: Eval,
    i: u32,
    name: String,
) -> bool {
    exists|x: X| #[trigger]
        grid.ensures((i,), x) && evaluate.ensures((&x,), Evaluation::UnknownSymbol(name))
}

/// Whether `samples` holds what the positions `0 .. samples.len()` give, in
/// order.
pub open spec fn sampled_through<X, Y, Grid: Fn(u32) -> X, Eval: Fn(&X) -> Evaluation<Y>>(
    grid: Grid,
    evaluate: Eval,
    samples: Seq<Option<(X, Y)>>,
) -> bool {
    forall|i: int|
        0 <= i < samples.len() ==> sampled_at(grid, evaluate, i as u32, #[trigger] samples[i])
}

/// Samples an equation at the positions `0 .. resolution` of the grid.
///
/// The pass asks `grid` for the coordinate of each position in turn and
/// `evaluate` for the equation's outcome there. A value gives a point, a
/// division by zero a gap. The result has one sample per position, in the
/// order of the positions. The first unknown symbol ends the pass: nothing is
/// evaluated after it, and the error carries the symbol's name.
pub fn points<X, Y, Grid, Eval>(resolution: u32, grid: Grid, evaluate: Eval) -> (pass: Result<
    Vec<Option<(X, Y)>>,
    SampleError,
>) where Grid: Fn(u32) -> X, Eval: Fn(&X) -> Evaluation<Y>
    requires
        forall|i: u32| i < resolution ==> grid.requires((i,)),
        forall|i: u32, x: X|
            i < resolution && #[trigger] grid.ensures((i,), x) ==> evaluate.requires((&x,)),
    ensures
        match pass {
            Ok(samples) => samples@.len() == resolution && sampled_through(
                grid,
                evaluate,
                samples@,
            ),
            Err(SampleError::UnknownSymbol(name)) => exists|done: Seq<Option<(X, Y)>>|
                #![trigger sampled_through(grid, evaluate, done)]
                done.len() < resolution && sampled_through(grid, evaluate, done) && aborted_at(
                    grid,
                    evaluate,
                    done.len() as u32,
                    name,
                ),
        },
{
    let mut samples: Vec<Option<(X, Y)>> = Vec::new();
    let mut i: u32 = 0;
    while i < resolution
        invariant
            0 <= i <= resolution,
            samples@.len() == i,
            sampled_through(grid, evaluate, samples@),
            forall|k: u32| k < resolution ==> grid.requires((k,)),
            forall|k: u32, x: X|
                k < resolution && #[trigger] grid.ensures((k,), x) ==> evaluate.requires((&x,)),
        decreases resolution - i,
    {
        let x = grid(i);
        let evaluation = evaluate(&x);
        match classify(x, evaluation) {
            Ok(sample) => {
                assert(sampled_at(grid, evaluate, i, sample));
                samples.push(sample);
            },
            Err(error) => {
                assert(aborted_at(grid, evaluate, i, error->UnknownSymbol_0));
                return Err(error);
            },
        }
        i = i + 1;
    }
    Ok(samples)
}

} // verus!
