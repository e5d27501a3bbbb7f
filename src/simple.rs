use vstd::prelude::*;

verus! {

/// Direct (simple) sampling configuration: the model to sample and how many
/// independent samples to draw.
pub struct Simple<DS> {
    /// the model that is sampled
    model: DS,
    /// how many values to sample
    iterations: usize,
}

impl<DS> Simple<DS> {
    /// How many samples the configuration draws.
    pub closed spec fn sample_count(&self) -> nat {
        self.iterations as nat
    }

    /// The model that the configuration samples.
    pub closed spec fn sampled(&self) -> DS {
        self.model
    }

    /// Starts a configuration that draws a single sample.
    pub fn new(model: DS) -> (r: Self)
        ensures
            r.sample_count() == 1,
            r.sampled() == model,
    {
        Simple { model, iterations: 1 }
    }

    /// Sets the number of samples to draw; it must be positive.
    pub fn iterations(&mut self, iterations: usize)
        requires
            iterations > 0,
        ensures
            final(self).sample_count() == iterations,
            final(self).sampled() == old(self).sampled(),
    {
        self.iterations = iterations;
    }

    /// The number of samples to draw.
    pub fn num_iterations(&self) -> (r: usize)
        ensures
            r == self.sample_count(),
    {
        self.iterations
    }

    /// The sampled model.
    pub fn model(&self) -> (r: &DS)
        ensures
            *r == self.sampled(),
    {
        &self.model
    }

    /// Gives the sampled model back, for the sampling loop to drive.
    pub fn into_model(self) -> (r: DS)
        ensures
            r == self.sampled(),
    {
        self.model
    }
}

} // verus!
