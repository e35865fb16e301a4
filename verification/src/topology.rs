use vstd::prelude::*;

verus! {

/// Number of outputs of a network that steers a snake: one per direction.
pub const DECISIONS: usize = 4;

/// What can go wrong when a network is asked for a decision.
#[derive(Clone, Copy, Debug, PartialEq, Eq, Structural)]
pub enum EngineError {
    /// The input does not have one value per input node.
    ShapeMismatch { expected: usize, found: usize },
}

/// The shape of a network with one hidden layer: how many input, hidden
/// and output nodes it has. It is fixed when the network is made.
#[derive(Clone, Copy, Debug, PartialEq, Eq, Structural)]
pub struct Topology {
    pub nb_inputs: usize,
    pub nb_hidden: usize,
    pub nb_outputs: usize,
}

impl Topology {
    /// The shape with the given numbers of nodes.
    pub fn new(nb_inputs: usize, nb_hidden: usize, nb_outputs: usize) -> (t: Topology)
        ensures
            t.nb_inputs == nb_inputs,
            t.nb_hidden == nb_hidden,
            t.nb_outputs == nb_outputs,
    {
        Topology { nb_inputs, nb_hidden, nb_outputs }
    }

    /// The shape of a network that reads a grid of side `cell_nb`: one
    /// input per cell and one output per direction.
    pub fn for_grid(cell_nb: i32, nb_hidden: usize) -> (t: Topology)
        requires
            cell_nb >= 0,
            cell_nb * cell_nb <= usize::MAX,
        ensures
            t.nb_inputs == cell_nb * cell_nb,
            t.nb_hidden == nb_hidden,
            t.nb_outputs == DECISIONS,
    {
        let side: usize = cell_nb as usize;
        Topology { nb_inputs: side * side, nb_hidden, nb_outputs: DECISIONS }
    }

    /// Accepts an input of exactly one value per input node, and refuses
    /// every other length with both lengths in the error.
    pub fn check_input(&self, len: usize) -> (r: Result<(), EngineError>)
        ensures
            r is Ok <==> len == self.nb_inputs,
            r is Err ==> r == Err::<(), EngineError>(
                EngineError::ShapeMismatch { expected: self.nb_inputs, found: len },
            ),
    {
        if len == self.nb_inputs {
            Ok(())
        } else {
            Err(EngineError::ShapeMismatch { expected: self.nb_inputs, found: len })
        }
    }
}

} // verus!
