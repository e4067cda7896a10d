use vstd::prelude::*;

verus! {

/// Most genes that a random genome may aim at hidden neurons: instances are
/// numbered in sixteen bits.
pub const MAX_HIDDEN_GENES: usize = 65536;

/// Shape of freshly generated genomes, and how often a child's genome
/// mutates.
#[derive(Clone, Copy, Debug)]
pub struct NeuralNetworkConfig {
    pub hidden_layer_width: usize,
    pub hidden_layer_depth: usize,
    /// Probability that a child's genome mutates, in parts per million.
    pub mutation_rate: u32,
}

impl NeuralNetworkConfig {
    /// A random genome can be generated: there is at least one hidden
    /// layer, and the hidden neurons can be numbered.
    pub open spec fn supports_generation(self) -> bool {
        &&& self.hidden_layer_depth >= 1
        &&& self.hidden_layer_width * self.hidden_layer_depth <= MAX_HIDDEN_GENES
    }

    /// Tests whether a random genome can be generated.
    pub fn can_generate(&self) -> (answer: bool)
        ensures
            answer == self.supports_generation(),
    {
        if self.hidden_layer_depth == 0 {
            return false;
        }
        if self.hidden_layer_width > MAX_HIDDEN_GENES {
            assert(self.hidden_layer_width * self.hidden_layer_depth > MAX_HIDDEN_GENES)
                by (nonlinear_arith)
                requires
                    self.hidden_layer_width > MAX_HIDDEN_GENES,
                    self.hidden_layer_depth >= 1,
            ;
            return false;
        }
        if self.hidden_layer_depth > MAX_HIDDEN_GENES {
            if self.hidden_layer_width == 0 {
                assert(self.hidden_layer_width * self.hidden_layer_depth == 0) by (nonlinear_arith)
                    requires
                        self.hidden_layer_width == 0,
                ;
                return true;
            }
            assert(self.hidden_layer_width * self.hidden_layer_depth > MAX_HIDDEN_GENES)
                by (nonlinear_arith)
                requires
                    self.hidden_layer_width >= 1,
                    self.hidden_layer_depth > MAX_HIDDEN_GENES,
            ;
            return false;
        }
        assert(self.hidden_layer_width * self.hidden_layer_depth <= 65536 * 65536)
            by (nonlinear_arith)
            requires
                self.hidden_layer_width <= 65536,
                self.hidden_layer_depth <= 65536,
        ;
        let product: u64 = self.hidden_layer_width as u64 * self.hidden_layer_depth as u64;
        product <= MAX_HIDDEN_GENES as u64
    }
}

} // verus!
