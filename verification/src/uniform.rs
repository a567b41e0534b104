//! The block of uniforms that every draw of a frame reads.

use vstd::prelude::*;
use crate::memory::{in_memory_order, words_as_bytes};

verus! {

/// Bytes in the uniform block.
pub const UNIFORM_BLOCK_LEN: usize = 192;

/// Three 4×4 matrices, each as sixteen binary32 bit patterns in column
/// order.
#[derive(Clone, Copy, Debug, PartialEq, Eq)]
pub struct UniformBuffer {
    pub projection_matrix: [u32; 16],
    pub view_matrix: [u32; 16],
    pub model_matrix: [u32; 16],
}

impl UniformBuffer {
    /// The words of the block in buffer order: projection, view, model.
    pub open spec fn words(self) -> Seq<u32> {
        self.projection_matrix@ + self.view_matrix@ + self.model_matrix@
    }

    /// A block that holds the three matrices.
    pub fn new(projection_matrix: [u32; 16], view_matrix: [u32; 16], model_matrix: [u32; 16]) -> (block:
        UniformBuffer)
        ensures
            block.projection_matrix == projection_matrix,
            block.view_matrix == view_matrix,
            block.model_matrix == model_matrix,
    {
        UniformBuffer { projection_matrix, view_matrix, model_matrix }
    }

    /// Replaces all three matrices.
    pub fn update(
        &mut self,
        projection_matrix: [u32; 16],
        view_matrix: [u32; 16],
        model_matrix: [u32; 16],
    )
        ensures
            final(self).projection_matrix == projection_matrix,
            final(self).view_matrix == view_matrix,
            final(self).model_matrix == model_matrix,
    {
        self.projection_matrix = projection_matrix;
        self.view_matrix = view_matrix;
        self.model_matrix = model_matrix;
    }

    /// Replaces the view matrix, and leaves the other two as they are.
    pub fn update_view(&mut self, view: [u32; 16])
        ensures
            final(self).view_matrix == view,
            final(self).projection_matrix == old(self).projection_matrix,
            final(self).model_matrix == old(self).model_matrix,
    {
        self.view_matrix = view;
    }

    /// Replaces the model matrix, and leaves the other two as they are.
    pub fn update_model(&mut self, model: [u32; 16])
        ensures
            final(self).model_matrix == model,
            final(self).projection_matrix == old(self).projection_matrix,
            final(self).view_matrix == old(self).view_matrix,
    {
        self.model_matrix = model;
    }

    /// The contents of the uniform buffer: the 48 words of the block in the
    /// byte order of the machine.
    pub fn to_bytes(&self) -> (bytes: Vec<u8>)
        ensures
            bytes@.len() == UNIFORM_BLOCK_LEN,
            in_memory_order(bytes@, self.words()),
    {
        let mut words: Vec<u32> = Vec::new();
        let mut k: usize = 0;
        while k < 16
            invariant
                k <= 16,
                words@ == self.projection_matrix@.take(k as int),
            decreases 16 - k,
        {
            words.push(self.projection_matrix[k]);
            k += 1;
        }
        k = 0;
        while k < 16
            invariant
                k <= 16,
                words@ == self.projection_matrix@ + self.view_matrix@.take(k as int),
            decreases 16 - k,
        {
            words.push(self.view_matrix[k]);
            k += 1;
        }
        k = 0;
        while k < 16
            invariant
                k <= 16,
                words@ == self.projection_matrix@ + self.view_matrix@ + self.model_matrix@.take(
                    k as int,
                ),
            decreases 16 - k,
        {
            words.push(self.model_matrix[k]);
            k += 1;
        }
        assert(words@ == self.words());
        words_as_bytes(&words)
    }
}

} // verus!
