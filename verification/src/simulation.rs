//! A whole run: the generations of a grid and the report of them in one of
//! the three print modes. The report is made of parts, one before the first
//! generation, one for each generation and one after the last, so that a
//! caller can print each part as soon as it is there.

use crate::grid::Grid;
use crate::grid::GridView;
use crate::text::append_decimal;
use crate::text::decimal;
use crate::text::same_text;
use vstd::prelude::*;

verus! {

/// The report of the grid before the first generation.
pub open spec fn initial_report(g: GridView) -> Seq<char> {
    "Initial state:\n"@ + g.rendered() + "\n"@
}

/// The report of `g` as generation `number`.
pub open spec fn generation_report(g: GridView, number: nat) -> Seq<char> {
    "Generation "@ + decimal(number) + ":\n"@ + g.rendered() + "\n"@
}

/// The report of `g` as the last of `iterations` generations.
pub open spec fn final_report(g: GridView, iterations: nat) -> Seq<char> {
    "Final state after "@ + decimal(iterations) + " generations:\n"@ + g.rendered() + "\n"@
}

/// What is printed before the first generation: the initial grid in mode
/// `all`, nothing in any other mode.
pub open spec fn initial_output(mode: Seq<char>, g: GridView) -> Seq<char> {
    if mode == "all"@ {
        initial_report(g)
    } else {
        Seq::empty()
    }
}

/// What is printed when `g` has been computed as generation `number`: its
/// report in mode `all`, nothing in any other mode.
pub open spec fn step_output(mode: Seq<char>, g: GridView, number: nat) -> Seq<char> {
    if mode == "all"@ {
        generation_report(g, number)
    } else {
        Seq::empty()
    }
}

/// What is printed for generations 1 to `count` of `g`, in order.
pub open spec fn steps_output(mode: Seq<char>, g: GridView, count: nat) -> Seq<char>
    decreases count,
{
    if count == 0 {
        Seq::empty()
    } else {
        steps_output(mode, g, (count - 1) as nat) + step_output(mode, g.generation(count), count)
    }
}

/// What is printed after the last generation, `g`: its report in mode
/// `final`, nothing in any other mode.
pub open spec fn final_output(mode: Seq<char>, g: GridView, iterations: nat) -> Seq<char> {
    if mode == "final"@ {
        final_report(g, iterations)
    } else {
        Seq::empty()
    }
}

/// Everything a run prints. Mode `all` reports the initial grid and every
/// generation, mode `final` the last generation only; any other mode prints
/// nothing.
pub open spec fn run_output(mode: Seq<char>, g: GridView, iterations: nat) -> Seq<char> {
    initial_output(mode, g) + steps_output(mode, g, iterations) + final_output(
        mode,
        g.generation(iterations),
        iterations,
    )
}

/// The part of the report that comes before the first generation.
pub fn report_initial(print_mode: &str, grid: &Grid) -> (output: String)
    requires
        grid.wf(),
    ensures
        output@ == initial_output(print_mode@, grid@),
{
    let mut output = String::new();
    if same_text(print_mode, "all") {
        output.append("Initial state:\n");
        output.append(grid.render().as_str());
        output.append("\n");
    }
    output
}

/// Computes the generation that follows `grid`, which is generation
/// `number` of the run, and the part of the report that comes with it.
pub fn advance(print_mode: &str, grid: &Grid, number: usize) -> (step: (Grid, String))
    requires
        grid.wf(),
    ensures
        step.0.wf(),
        step.0@ == grid@.next(),
        step.1@ == step_output(print_mode@, grid@.next(), number as nat),
{
    let next = grid.next_generation();
    let mut output = String::new();
    if same_text(print_mode, "all") {
        output.append("Generation ");
        append_decimal(&mut output, number as u64);
        output.append(":\n");
        output.append(next.render().as_str());
        output.append("\n");
    }
    (next, output)
}

/// The part of the report that comes after the last generation, `grid`.
pub fn report_final(print_mode: &str, grid: &Grid, iterations: usize) -> (output: String)
    requires
        grid.wf(),
    ensures
        output@ == final_output(print_mode@, grid@, iterations as nat),
{
    let mut output = String::new();
    if same_text(print_mode, "final") {
        output.append("Final state after ");
        append_decimal(&mut output, iterations as u64);
        output.append(" generations:\n");
        output.append(grid.render().as_str());
        output.append("\n");
    }
    output
}

/// Computes `iterations` generations of `grid` and returns what the run
/// prints in the given mode: the parts above, in order.
pub fn run(print_mode: &str, grid: Grid, iterations: usize) -> (output: String)
    requires
        grid.wf(),
    ensures
        output@ == run_output(print_mode@, grid@, iterations as nat),
{
    let ghost start = grid@;
    let mut output = report_initial(print_mode, &grid);
    let mut current = grid;
    let mut done: usize = 0;
    while done < iterations
        invariant
            done <= iterations,
            current.wf(),
            current@ == start.generation(done as nat),
            output@ == initial_output(print_mode@, start) + steps_output(
                print_mode@,
                start,
                done as nat,
            ),
        decreases iterations - done,
    {
        let ghost before = output@;
        done += 1;
        let (next, text) = advance(print_mode, &current, done);
        output.append(text.as_str());
        current = next;
        assert(output@ =~= initial_output(print_mode@, start) + steps_output(
            print_mode@,
            start,
            done as nat,
        ));
    }
    let last = report_final(print_mode, &current, iterations);
    output.append(last.as_str());
    output
}

} // verus!
