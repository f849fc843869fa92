//! The metadata array a command queue uploads as the dispatch-parameter
//! buffer, and the traits op parameters use to write themselves into it.

use vstd::prelude::*;

verus! {

use crate::layout::Layout;

/// Conversion of an op parameter into the 32-bit word the shader reads.
pub trait ToU32 {
    spec fn to_u32_spec(&self) -> u32;

    fn to_u32(&self) -> (r: u32)
        ensures
            r == self.to_u32_spec(),
    ;
}

impl ToU32 for u32 {
    open spec fn to_u32_spec(&self) -> u32 {
        *self
    }

    fn to_u32(&self) -> u32 {
        *self
    }
}

impl ToU32 for bool {
    open spec fn to_u32_spec(&self) -> u32 {
        if *self {
            1
        } else {
            0
        }
    }

    fn to_u32(&self) -> u32 {
        if *self {
            1
        } else {
            0
        }
    }
}

/// Helper type for constructing the metadata buffer.
#[derive(Debug)]
pub struct MetaArray(pub Vec<u32>);

/// A parameter that contributes words to a dispatch's metadata record.
pub trait KernelParameterMeta {
    spec fn meta_words_of(&self) -> Seq<u32>;

    fn write_meta(&self, meta: &mut MetaArray)
        ensures
            final(meta).0@ == old(meta).0@ + self.meta_words_of(),
    ;
}

impl<T: ToU32 + Copy> KernelParameterMeta for T {
    open spec fn meta_words_of(&self) -> Seq<u32> {
        seq![self.to_u32_spec()]
    }

    fn write_meta(&self, meta: &mut MetaArray) {
        meta.0.push(self.to_u32());
        proof {
            assert(meta.0@ =~= old(meta).0@ + self.meta_words_of());
        }
    }
}

impl MetaArray {
    pub fn new(capacity: u32) -> (r: MetaArray)
        ensures
            r.0@ == Seq::<u32>::empty(),
    {
        let r = MetaArray(Vec::with_capacity(capacity as usize));
        proof {
            assert(r.0@ =~= Seq::<u32>::empty());
        }
        r
    }

    /// Appends the metadata words of one parameter.
    pub fn add<T: KernelParameterMeta>(&mut self, value: T)
        ensures
            final(self).0@ == old(self).0@ + value.meta_words_of(),
    {
        value.write_meta(self);
    }

    /// Appends the canonical encoding of a layout: rank, shape words, stride
    /// words, start offset.
    pub fn add_layout(&mut self, layout: &Layout)
        requires
            layout.wf(),
        ensures
            final(self).0@ == old(self).0@ + layout.meta_words(),
    {
        let ghost orig = self.0@;
        self.0.push(layout.shape.len() as u32);
        let mut i: usize = 0;
        while i < layout.shape.len()
            invariant
                0 <= i <= layout.shape@.len(),
                self.0@ == orig + seq![layout.shape@.len() as u32] + layout.shape@.take(i as int),
            decreases layout.shape@.len() - i,
        {
            self.0.push(layout.shape[i]);
            proof {
                assert(layout.shape@.take(i as int + 1) =~= layout.shape@.take(i as int).push(
                    layout.shape@[i as int],
                ));
                assert(self.0@ =~= orig + seq![layout.shape@.len() as u32] + layout.shape@.take(
                    i as int + 1,
                ));
            }
            i += 1;
        }
        proof {
            assert(layout.shape@.take(layout.shape@.len() as int) =~= layout.shape@);
        }
        let mut i: usize = 0;
        while i < layout.stride.len()
            invariant
                0 <= i <= layout.stride@.len(),
                self.0@ == orig + seq![layout.shape@.len() as u32] + layout.shape@
                    + layout.stride@.take(i as int),
            decreases layout.stride@.len() - i,
        {
            self.0.push(layout.stride[i]);
            proof {
                assert(layout.stride@.take(i as int + 1) =~= layout.stride@.take(i as int).push(
                    layout.stride@[i as int],
                ));
                assert(self.0@ =~= orig + seq![layout.shape@.len() as u32] + layout.shape@
                    + layout.stride@.take(i as int + 1));
            }
            i += 1;
        }
        proof {
            assert(layout.stride@.take(layout.stride@.len() as int) =~= layout.stride@);
        }
        self.0.push(layout.start_offset);
        proof {
            assert(self.0@ =~= orig + layout.meta_words());
        }
    }
}

} // verus!
