use vstd::prelude::*;

use crate::grid_config::GridConfig;
use crate::neural_network::output_neuron::OutputNeuron;
use crate::random::random_u32;

verus! {

/// Where an agent stands, whether it lives, and how it is coloured.
#[derive(Clone, Copy, Debug, PartialEq, Eq, Structural)]
pub struct Body {
    pub x: u32,
    pub y: u32,
    pub is_alive: bool,
    /// Place on the colour gradient, in millionths.
    pub color_gradient_index: i64,
}

/// The step that a draw stands for where the action is `MoveRandom`; any
/// other action is its own step.
pub open spec fn direction_of(action: OutputNeuron, draw: u32) -> OutputNeuron {
    if action == OutputNeuron::MoveRandom {
        if draw % 4 == 0 {
            OutputNeuron::MoveLeft
        } else if draw % 4 == 1 {
            OutputNeuron::MoveRight
        } else if draw % 4 == 2 {
            OutputNeuron::MoveUp
        } else {
            OutputNeuron::MoveDown
        }
    } else {
        action
    }
}

/// A body after one step. A step that would leave the grid is not taken,
/// and neither `Stay` nor `MoveRandom` moves by itself.
pub open spec fn moved(body: Body, step: OutputNeuron, grid: GridConfig) -> Body {
    match step {
        OutputNeuron::MoveLeft => if body.x > 0 {
            Body { x: (body.x - 1) as u32, ..body }
        } else {
            body
        },
        OutputNeuron::MoveRight => if body.x + 1 < grid.width {
            Body { x: (body.x + 1) as u32, ..body }
        } else {
            body
        },
        OutputNeuron::MoveUp => if body.y > 0 {
            Body { y: (body.y - 1) as u32, ..body }
        } else {
            body
        },
        OutputNeuron::MoveDown => if body.y + 1 < grid.height {
            Body { y: (body.y + 1) as u32, ..body }
        } else {
            body
        },
        _ => body,
    }
}

/// The step that a draw stands for where the action is `MoveRandom`; any
/// other action is its own step.
pub fn resolve_direction(action: OutputNeuron, draw: u32) -> (step: OutputNeuron)
    ensures
        step == direction_of(action, draw),
        step != OutputNeuron::MoveRandom,
{
    match action {
        OutputNeuron::MoveRandom => {
            let direction = draw % 4;
            if direction == 0 {
                OutputNeuron::MoveLeft
            } else if direction == 1 {
                OutputNeuron::MoveRight
            } else if direction == 2 {
                OutputNeuron::MoveUp
            } else {
                OutputNeuron::MoveDown
            }
        },
        other => other,
    }
}

impl Body {
    /// A living body.
    pub fn new(x: u32, y: u32, color_gradient_index: i64) -> (body: Self)
        ensures
            body == (Body { x, y, is_alive: true, color_gradient_index }),
    {
        Self { x, y, is_alive: true, color_gradient_index }
    }

    /// Takes one step, unless it would leave the grid.
    pub fn step(&mut self, step: OutputNeuron, grid_config: &GridConfig)
        ensures
            *final(self) == moved(*old(self), step, *grid_config),
    {
        match step {
            OutputNeuron::MoveLeft => {
                if self.x > 0 {
                    self.x -= 1;
                }
            },
            OutputNeuron::MoveRight => {
                if self.x < u32::MAX && self.x + 1 < grid_config.width {
                    self.x += 1;
                }
            },
            OutputNeuron::MoveUp => {
                if self.y > 0 {
                    self.y -= 1;
                }
            },
            OutputNeuron::MoveDown => {
                if self.y < u32::MAX && self.y + 1 < grid_config.height {
                    self.y += 1;
                }
            },
            _ => {},
        }
    }

    /// Carries out a decision. `MoveRandom` becomes one of the four steps,
    /// drawn at random.
    pub fn update(&mut self, decision: OutputNeuron, grid_config: &GridConfig)
        ensures
            decision != OutputNeuron::MoveRandom ==> *final(self) == moved(
                *old(self),
                decision,
                *grid_config,
            ),
            decision == OutputNeuron::MoveRandom ==> exists|draw: u32|
                *final(self) == moved(*old(self), #[trigger] direction_of(decision, draw), *grid_config),
    {
        let draw: u32 = match decision {
            OutputNeuron::MoveRandom => random_u32(),
            _ => 0,
        };
        let step = resolve_direction(decision, draw);
        self.step(step, grid_config);
    }

    /// Shifts the colour along the gradient; the index stops at the ends of
    /// its range.
    pub fn mutate_color(&mut self, mutation_amount: i64)
        ensures
            final(self).x == old(self).x,
            final(self).y == old(self).y,
            final(self).is_alive == old(self).is_alive,
            final(self).color_gradient_index == if old(self).color_gradient_index
                + mutation_amount > i64::MAX {
                i64::MAX as int
            } else if old(self).color_gradient_index + mutation_amount < i64::MIN {
                i64::MIN as int
            } else {
                old(self).color_gradient_index + mutation_amount
            },
    {
        let sum: i128 = self.color_gradient_index as i128 + mutation_amount as i128;
        self.color_gradient_index = if sum > i64::MAX as i128 {
            i64::MAX
        } else if sum < i64::MIN as i128 {
            i64::MIN
        } else {
            sum as i64
        };
    }

    /// The body stays on the grid.
    pub proof fn step_stays_on_grid(self, step: OutputNeuron, grid: GridConfig)
        requires
            self.x < grid.width,
            self.y < grid.height,
        ensures
            moved(self, step, grid).x < grid.width,
            moved(self, step, grid).y < grid.height,
            moved(self, step, grid).is_alive == self.is_alive,
    {
    }
}

} // verus!
