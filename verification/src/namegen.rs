//! Fresh-name generation: a pass-local counter appended to a fixed prefix.
//! Each pass owns its own generator, so counters never leak across passes.

use vstd::prelude::*;
use vstd::string::*;
use crate::numfmt::dec_chars;
use crate::numfmt::lemma_dec_chars_injective;
use crate::numfmt::u64_to_dec;

verus! {

/// The name produced for a given prefix and counter value.
pub open spec fn gen_name(prefix: Seq<char>, index: nat) -> Seq<char> {
    prefix + dec_chars(index)
}

/// Names generated from the same prefix with distinct counters are distinct.
pub proof fn lemma_gen_name_injective(prefix: Seq<char>, i: nat, j: nat)
    requires
        gen_name(prefix, i) == gen_name(prefix, j),
    ensures
        i == j,
{
    let di = dec_chars(i);
    let dj = dec_chars(j);
    assert((prefix + di).len() == prefix.len() + di.len());
    assert((prefix + dj).len() == prefix.len() + dj.len());
    assert(di.len() == dj.len());
    assert(di =~= dj) by {
        assert forall|k: int| 0 <= k < di.len() implies di[k] == dj[k] by {
            assert((prefix + di)[prefix.len() + k] == di[k]);
            assert((prefix + dj)[prefix.len() + k] == dj[k]);
        }
    }
    lemma_dec_chars_injective(i, j);
}

/// A monotonic source of fresh names sharing one prefix.
pub struct NameGenerator {
    pub prefix: String,
    pub index: u64,
}

impl NameGenerator {
    pub fn new(prefix: String) -> (generator: Self)
        ensures
            generator.prefix@ == prefix@,
            generator.index == 0,
    {
        Self { prefix, index: 0 }
    }

    /// Returns the next fresh name and advances the counter.
    pub fn generate(&mut self) -> (name: String)
        requires
            old(self).index < u64::MAX,
        ensures
            name@ == gen_name(old(self).prefix@, old(self).index as nat),
            final(self).prefix == old(self).prefix,
            final(self).index == old(self).index + 1,
    {
        let mut name = self.prefix.clone();
        let digits = u64_to_dec(self.index);
        name.append(digits.as_str());
        self.index = self.index + 1;
        name
    }
}

} // verus!
