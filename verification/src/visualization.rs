//! Choosing the neurons to draw from coordinate arrays, drawing each of
//! them with a function of the caller, laying the results out in rows, and
//! the record in which a drawing is reported.

use vstd::prelude::*;
use vstd::string::*;
use rayon::iter::{IntoParallelRefIterator, ParallelIterator};

verus! {

/// The lattice position of one neuron.
pub type Lattice = (u32, u32, u32);

/// Why coordinate arrays cannot be drawn.
#[derive(Clone, Copy, Debug, PartialEq, Eq, Structural)]
pub enum ArrayError {
    /// The three arrays differ in length.
    SizeMismatch,
    /// The arrays hold no neuron.
    Empty,
}

impl ArrayError {
    /// The words in which this error is reported.
    pub open spec fn text(self) -> Seq<char> {
        match self {
            ArrayError::SizeMismatch => "Array size mismatch"@,
            ArrayError::Empty => "Empty arrays"@,
        }
    }

    /// The words in which this error is reported.
    pub fn message(&self) -> (words: String)
        ensures
            words@ == self.text(),
            words@.len() > 0,
    {
        proof {
            reveal_strlit("Array size mismatch");
            reveal_strlit("Empty arrays");
        }
        match self {
            ArrayError::SizeMismatch => String::from_str("Array size mismatch"),
            ArrayError::Empty => String::from_str("Empty arrays"),
        }
    }
}

/// A signed coordinate as a lattice coordinate: the same 32 bits read as an
/// unsigned number.
pub open spec fn lattice(v: i32) -> u32 {
    if v < 0 {
        (v + 0x1_0000_0000) as u32
    } else {
        v as u32
    }
}

/// Reads the 32 bits of a signed coordinate as an unsigned number.
pub fn to_lattice(v: i32) -> (u: u32)
    ensures
        u == lattice(v),
{
    if v < 0 {
        let low: u32 = (v - i32::MIN) as u32;
        low + 0x8000_0000
    } else {
        v as u32
    }
}

/// The lattice positions that three parallel arrays give.
pub open spec fn zipped(x: Seq<i32>, y: Seq<i32>, z: Seq<i32>) -> Seq<Lattice> {
    Seq::new(x.len(), |i: int| (lattice(x[i]), lattice(y[i]), lattice(z[i])))
}

/// What is wrong with three coordinate arrays of these lengths, if
/// anything.
pub open spec fn array_error(x_len: int, y_len: int, z_len: int) -> Option<ArrayError> {
    if x_len != y_len || x_len != z_len {
        Some(ArrayError::SizeMismatch)
    } else {
        None
    }
}

/// The first `count` lattice positions of three parallel arrays.
pub fn zip_coordinates(x: &[i32], y: &[i32], z: &[i32], count: usize) -> (row: Vec<Lattice>)
    requires
        x@.len() == y@.len() == z@.len(),
        count <= x@.len(),
    ensures
        row@ == zipped(x@, y@, z@).take(count as int),
{
    let mut row: Vec<Lattice> = Vec::with_capacity(count);
    let mut i: usize = 0;
    while i < count
        invariant
            i <= count <= x@.len(),
            x@.len() == y@.len() == z@.len(),
            row@ == zipped(x@, y@, z@).take(i as int),
        decreases count - i,
    {
        row.push((to_lattice(x[i]), to_lattice(y[i]), to_lattice(z[i])));
        i = i + 1;
        assert(row@ =~= zipped(x@, y@, z@).take(i as int));
    }
    row
}

/// How many of `available` neurons are drawn under the cap `max_neurons`:
/// all of them unless the cap is positive and smaller.
pub open spec fn drawn(available: int, max_neurons: int) -> int {
    if 0 < max_neurons < available {
        max_neurons
    } else {
        available
    }
}

/// How many of `available` neurons are drawn under the cap `max_neurons`.
pub fn process_count(available: usize, max_neurons: i32) -> (count: usize)
    ensures
        count == drawn(available as int, max_neurons as int),
{
    if max_neurons > 0 && (max_neurons as usize) < available {
        max_neurons as usize
    } else {
        available
    }
}

/// What was drawn for one neuron: its transform and its colour.
pub type Drawn<T> = ([T; 12], [T; 4]);

/// What is written into an instanced mesh for three coordinate arrays.
#[derive(Clone, Debug, PartialEq)]
pub struct MeshUpdate<T> {
    /// Whether the arrays could be used.
    pub success: bool,
    /// The instance count to set on the mesh.
    pub instance_count: usize,
    /// The transform and the colour of each instance, by instance index.
    pub instances: Vec<([T; 12], [T; 4])>,
    /// Why the arrays could not be used.
    pub error: Option<ArrayError>,
}

/// Values in the transform of one neuron: a matrix of three rows and four
/// columns, row by row.
pub const TRANSFORM_LEN: usize = 12;

/// Values in the colour of one neuron: red, green, blue and alpha.
pub const COLOR_LEN: usize = 4;

/// The transforms of the first `n` neurons in one row, neuron after neuron.
pub open spec fn transforms_upto<T>(drawn: Seq<([T; 12], [T; 4])>, n: int) -> Seq<T>
    decreases n,
{
    if n <= 0 {
        Seq::empty()
    } else {
        transforms_upto(drawn, n - 1) + drawn[n - 1].0@
    }
}

/// The colours of the first `n` neurons in one row, neuron after neuron.
pub open spec fn colors_upto<T>(drawn: Seq<([T; 12], [T; 4])>, n: int) -> Seq<T>
    decreases n,
{
    if n <= 0 {
        Seq::empty()
    } else {
        colors_upto(drawn, n - 1) + drawn[n - 1].1@
    }
}

/// The transforms of all neurons in one row.
pub open spec fn all_transforms<T>(drawn: Seq<([T; 12], [T; 4])>) -> Seq<T> {
    transforms_upto(drawn, drawn.len() as int)
}

/// The colours of all neurons in one row.
pub open spec fn all_colors<T>(drawn: Seq<([T; 12], [T; 4])>) -> Seq<T> {
    colors_upto(drawn, drawn.len() as int)
}

/// The rows hold twelve and four values for each neuron, and neuron `i` has
/// its values at the places that its index gives.
pub proof fn lemma_places<T>(drawn: Seq<([T; 12], [T; 4])>, n: int, i: int)
    requires
        0 <= i < n <= drawn.len(),
    ensures
        transforms_upto(drawn, n).len() == 12 * n,
        colors_upto(drawn, n).len() == 4 * n,
        forall|k: int| 0 <= k < 12 ==> transforms_upto(drawn, n)[12 * i + k] == drawn[i].0@[k],
        forall|k: int| 0 <= k < 4 ==> colors_upto(drawn, n)[4 * i + k] == drawn[i].1@[k],
    decreases n,
{
    lemma_lengths(drawn, n - 1);
    if i < n - 1 {
        lemma_places(drawn, n - 1, i);
    }
}

/// The rows hold twelve and four values for each neuron.
pub proof fn lemma_lengths<T>(drawn: Seq<([T; 12], [T; 4])>, n: int)
    requires
        0 <= n <= drawn.len(),
    ensures
        transforms_upto(drawn, n).len() == 12 * n,
        colors_upto(drawn, n).len() == 4 * n,
    decreases n,
{
    if n > 0 {
        lemma_lengths(drawn, n - 1);
    }
}

/// Draws one position with `draw`.
pub fn draw_at<T, F: Fn(u32, u32, u32) -> ([T; 12], [T; 4])>(draw: &F, at: &Lattice) -> (drawn: (
    [T; 12],
    [T; 4],
))
    requires
        call_requires(*draw, (at.0, at.1, at.2)),
    ensures
        call_ensures(*draw, (at.0, at.1, at.2), drawn),
{
    draw(at.0, at.1, at.2)
}

/// Draws each position with `draw`, one position after the other, and
/// gives what was drawn in the order of the positions.
pub fn draw_each<T, F: Fn(u32, u32, u32) -> ([T; 12], [T; 4])>(coords: &[Lattice], draw: F) -> (drawn:
    Vec<([T; 12], [T; 4])>)
    requires
        forall|i: int|
            0 <= i < coords@.len() ==> call_requires(
                draw,
                ((#[trigger] coords@[i]).0, coords@[i].1, coords@[i].2),
            ),
    ensures
        drawn@.len() == coords@.len(),
        forall|i: int|
            0 <= i < coords@.len() ==> call_ensures(
                draw,
                (coords@[i].0, coords@[i].1, coords@[i].2),
                #[trigger] drawn@[i],
            ),
{
    let mut drawn: Vec<([T; 12], [T; 4])> = Vec::with_capacity(coords.len());
    let mut i: usize = 0;
    while i < coords.len()
        invariant
            i <= coords@.len(),
            drawn@.len() == i,
            forall|j: int|
                0 <= j < coords@.len() ==> call_requires(
                    draw,
                    ((#[trigger] coords@[j]).0, coords@[j].1, coords@[j].2),
                ),
            forall|j: int|
                0 <= j < i ==> call_ensures(
                    draw,
                    (coords@[j].0, coords@[j].1, coords@[j].2),
                    #[trigger] drawn@[j],
                ),
        decreases coords@.len() - i,
    {
        drawn.push(draw_at(&draw, &coords[i]));
        i = i + 1;
    }
    drawn
}

/// Trusted: rayon's `par_iter`, `map` and `collect` over the positions,
/// with [`draw_at`] as the function that is mapped. As rayon documents of
/// collecting into a `Vec`, the results come in the order of the positions,
/// each one a result of `draw` on its position; which thread draws which
/// position is left open, and so is the order in which the calls are made.
#[verifier::external_body]
pub(crate) fn draw_in_parallel<T: Send, F: Fn(u32, u32, u32) -> ([T; 12], [T; 4]) + Sync + Send>(
    coords: &[Lattice],
    draw: F,
) -> (drawn: Vec<([T; 12], [T; 4])>)
    requires
        forall|i: int|
            0 <= i < coords@.len() ==> call_requires(
                draw,
                ((#[trigger] coords@[i]).0, coords@[i].1, coords@[i].2),
            ),
    ensures
        drawn@.len() == coords@.len(),
        forall|i: int|
            0 <= i < coords@.len() ==> call_ensures(
                draw,
                (coords@[i].0, coords@[i].1, coords@[i].2),
                #[trigger] drawn@[i],
            ),
{
    coords.par_iter().map(|at| draw_at(&draw, at)).collect()
}

/// Draws each position with `draw` and gives what was drawn in the order
/// of the positions. The positions are drawn in parallel if `parallel` is
/// set and one after the other if it is not; what is promised of the
/// result is the same.
pub fn dispatch<T: Send, F: Fn(u32, u32, u32) -> ([T; 12], [T; 4]) + Sync + Send>(
    coords: &[Lattice],
    draw: F,
    parallel: bool,
) -> (drawn: Vec<([T; 12], [T; 4])>)
    requires
        forall|i: int|
            0 <= i < coords@.len() ==> call_requires(
                draw,
                ((#[trigger] coords@[i]).0, coords@[i].1, coords@[i].2),
            ),
    ensures
        drawn@.len() == coords@.len(),
        forall|i: int|
            0 <= i < coords@.len() ==> call_ensures(
                draw,
                (coords@[i].0, coords@[i].1, coords@[i].2),
                #[trigger] drawn@[i],
            ),
{
    if parallel {
        draw_in_parallel(coords, draw)
    } else {
        draw_each(coords, draw)
    }
}

/// `draw` is a function: two results for one position are the same.
pub open spec fn is_function<T, F: Fn(u32, u32, u32) -> ([T; 12], [T; 4])>(draw: F) -> bool {
    forall|at: (u32, u32, u32), r1: ([T; 12], [T; 4]), r2: ([T; 12], [T; 4])|
        call_ensures(draw, at, r1) && call_ensures(draw, at, r2) ==> r1 == r2
}

/// `drawn` is what `draw` gives for `coords`, position by position.
pub open spec fn drawn_by<T, F: Fn(u32, u32, u32) -> ([T; 12], [T; 4])>(
    draw: F,
    coords: Seq<Lattice>,
    drawn: Seq<([T; 12], [T; 4])>,
) -> bool {
    &&& drawn.len() == coords.len()
    &&& forall|i: int|
        0 <= i < coords.len() ==> call_ensures(
            draw,
            (coords[i].0, coords[i].1, coords[i].2),
            #[trigger] drawn[i],
        )
}

/// However the positions are drawn, in parallel or one after the other,
/// once or again: if the drawing of one position is a function, the same
/// positions give the same transforms and the same colours, value for value
/// and in the same order.
pub proof fn law_dispatch_is_determined<T, F: Fn(u32, u32, u32) -> ([T; 12], [T; 4])>(
    draw: F,
    coords: Seq<Lattice>,
    first: Seq<([T; 12], [T; 4])>,
    second: Seq<([T; 12], [T; 4])>,
)
    requires
        is_function(draw),
        drawn_by(draw, coords, first),
        drawn_by(draw, coords, second),
    ensures
        first == second,
        all_transforms(first) == all_transforms(second),
        all_colors(first) == all_colors(second),
{
    assert forall|i: int| 0 <= i < coords.len() implies first[i] == second[i] by {
        let at = (coords[i].0, coords[i].1, coords[i].2);
        assert(call_ensures(draw, at, first[i]) && call_ensures(draw, at, second[i]));
    }
    assert(first =~= second);
}

/// Lays what was computed for each neuron out in two rows, one of
/// transforms and one of colours, neuron after neuron in the order given.
pub fn flatten_rows<T: Copy>(drawn: &[([T; 12], [T; 4])]) -> (rows: (Vec<T>, Vec<T>))
    ensures
        rows.0@ == all_transforms(drawn@),
        rows.1@ == all_colors(drawn@),
        rows.0@.len() == 12 * drawn@.len(),
        rows.1@.len() == 4 * drawn@.len(),
{
    let mut transforms: Vec<T> = Vec::new();
    let mut colors: Vec<T> = Vec::new();
    let mut i: usize = 0;
    while i < drawn.len()
        invariant
            i <= drawn@.len(),
            transforms@ == transforms_upto(drawn@, i as int),
            colors@ == colors_upto(drawn@, i as int),
        decreases drawn@.len() - i,
    {
        let ghost before_t = transforms@;
        let ghost before_c = colors@;
        let mut k: usize = 0;
        while k < TRANSFORM_LEN
            invariant
                i < drawn@.len(),
                k <= 12,
                transforms@ == before_t + drawn@[i as int].0@.take(k as int),
            decreases 12 - k,
        {
            transforms.push(drawn[i].0[k]);
            k = k + 1;
            assert(transforms@ =~= before_t + drawn@[i as int].0@.take(k as int));
        }
        let mut c: usize = 0;
        while c < COLOR_LEN
            invariant
                i < drawn@.len(),
                c <= 4,
                colors@ == before_c + drawn@[i as int].1@.take(c as int),
            decreases 4 - c,
        {
            colors.push(drawn[i].1[c]);
            c = c + 1;
            assert(colors@ =~= before_c + drawn@[i as int].1@.take(c as int));
        }
        assert(drawn@[i as int].0@.take(12) =~= drawn@[i as int].0@);
        assert(drawn@[i as int].1@.take(4) =~= drawn@[i as int].1@);
        i = i + 1;
    }
    proof {
        lemma_lengths(drawn@, drawn@.len() as int);
    }
    (transforms, colors)
}

/// The record in which a drawing is reported.
#[derive(Clone, Debug, PartialEq)]
pub struct VisualizationResult<T> {
    /// Whether there is a drawing.
    pub success: bool,
    /// Twelve values per neuron.
    pub transforms: Vec<T>,
    /// Four values per neuron.
    pub colors: Vec<T>,
    /// How many neurons were drawn.
    pub neuron_count: usize,
    /// The time that the caller measured, in microseconds.
    pub processing_time_us: i64,
    /// Why there is no drawing; empty on success.
    pub error: String,
}

/// `out` reports the drawing of `coords` with `draw`: twelve and four
/// values for each position, in the order of the positions.
pub open spec fn is_drawing<T, F: Fn(u32, u32, u32) -> ([T; 12], [T; 4])>(
    out: VisualizationResult<T>,
    draw: F,
    coords: Seq<Lattice>,
) -> bool {
    &&& out.success
    &&& out.error@.len() == 0
    &&& out.neuron_count == coords.len()
    &&& exists|drawn: Seq<([T; 12], [T; 4])>| #[trigger]
        drawn_by(draw, coords, drawn) && out.transforms@ == all_transforms(drawn) && out.colors@
            == all_colors(drawn)
}

/// `out` reports a failure in the words `text`: nothing drawn, a count of
/// zero.
pub open spec fn is_failure<T>(out: VisualizationResult<T>, text: Seq<char>) -> bool {
    &&& !out.success
    &&& out.transforms@.len() == 0
    &&& out.colors@.len() == 0
    &&& out.neuron_count == 0
    &&& out.error@ == text
}

/// Two reports of drawing the same positions with the same function hold
/// the same transforms and the same colours, however each drawing was
/// dispatched.
pub proof fn law_drawings_agree<T, F: Fn(u32, u32, u32) -> ([T; 12], [T; 4])>(
    first: VisualizationResult<T>,
    second: VisualizationResult<T>,
    draw: F,
    coords: Seq<Lattice>,
)
    requires
        is_function(draw),
        is_drawing(first, draw, coords),
        is_drawing(second, draw, coords),
    ensures
        first.transforms@ == second.transforms@,
        first.colors@ == second.colors@,
        first.neuron_count == second.neuron_count,
        first.transforms@.len() == 12 * coords.len(),
        first.colors@.len() == 4 * coords.len(),
{
    let a = choose|drawn: Seq<([T; 12], [T; 4])>| #[trigger]
        drawn_by(draw, coords, drawn) && first.transforms@ == all_transforms(drawn)
            && first.colors@ == all_colors(drawn);
    let b = choose|drawn: Seq<([T; 12], [T; 4])>| #[trigger]
        drawn_by(draw, coords, drawn) && second.transforms@ == all_transforms(drawn)
            && second.colors@ == all_colors(drawn);
    law_dispatch_is_determined(draw, coords, a, b);
    lemma_lengths(a, a.len() as int);
}

/// Reports a drawing: the count is the number of transforms and the error
/// is empty.
pub fn visualization_success<T>(transforms: Vec<T>, colors: Vec<T>, processing_time_us: i64) -> (out:
    VisualizationResult<T>)
    ensures
        out.success,
        out.transforms == transforms,
        out.colors == colors,
        out.neuron_count == transforms@.len() / 12,
        out.processing_time_us == processing_time_us,
        out.error@.len() == 0,
{
    let neuron_count: usize = transforms.len() / TRANSFORM_LEN;
    VisualizationResult {
        success: true,
        transforms,
        colors,
        neuron_count,
        processing_time_us,
        error: String::new(),
    }
}

/// Reports a failure: no transform, no colour, a count of zero and the
/// error in words.
pub fn visualization_failure<T>(error: String, processing_time_us: i64) -> (out:
    VisualizationResult<T>)
    ensures
        !out.success,
        out.transforms@.len() == 0,
        out.colors@.len() == 0,
        out.neuron_count == 0,
        out.processing_time_us == processing_time_us,
        out.error == error,
{
    VisualizationResult {
        success: false,
        transforms: Vec::new(),
        colors: Vec::new(),
        neuron_count: 0,
        processing_time_us,
        error,
    }
}

/// Reports that coordinate arrays could not be drawn.
pub fn array_failure<T>(e: ArrayError, processing_time_us: i64) -> (out: VisualizationResult<T>)
    ensures
        !out.success,
        out.transforms@.len() == 0,
        out.colors@.len() == 0,
        out.neuron_count == 0,
        out.processing_time_us == processing_time_us,
        out.error@ == e.text(),
        out.error@.len() > 0,
{
    visualization_failure(e.message(), processing_time_us)
}

} // verus!
