use vstd::prelude::*;

verus! {

/// The bit that stands for a disabled collision response.
pub const DISABLE_COLLISION_RESPONSE: u8 = 1;

/// The choices that govern how a body reacts to a collision.
#[derive(Clone, Copy, Debug, PartialEq, Eq, Structural)]
pub struct CollisionFlags {
    /// The body is not pushed out of what it touches, yet it still records the contact.
    pub disable_collision_response: bool,
}

impl CollisionFlags {
    pub open spec fn spec_none() -> CollisionFlags {
        CollisionFlags { disable_collision_response: false }
    }

    /// The bit pattern under which the flags are stored.
    pub open spec fn spec_bits(&self) -> u8 {
        if self.disable_collision_response {
            DISABLE_COLLISION_RESPONSE
        } else {
            0
        }
    }

    /// The flags that a bit pattern stands for; `None` where a bit of it stands
    /// for no flag.
    pub open spec fn spec_from_bits(bits: u8) -> Option<CollisionFlags> {
        if bits == 0 {
            Some(CollisionFlags { disable_collision_response: false })
        } else if bits == DISABLE_COLLISION_RESPONSE {
            Some(CollisionFlags { disable_collision_response: true })
        } else {
            None
        }
    }

    /// Whether every flag that is set in `other` is set in `self`.
    pub open spec fn spec_contains(&self, other: &CollisionFlags) -> bool {
        other.disable_collision_response ==> self.disable_collision_response
    }

    #[verifier::when_used_as_spec(spec_none)]
    pub fn none() -> (r: CollisionFlags)
        ensures
            r == CollisionFlags::spec_none(),
    {
        CollisionFlags { disable_collision_response: false }
    }

    pub fn response_disabled() -> (r: CollisionFlags)
        ensures
            r == (CollisionFlags { disable_collision_response: true }),
    {
        CollisionFlags { disable_collision_response: true }
    }

    #[verifier::when_used_as_spec(spec_bits)]
    pub fn bits(&self) -> (r: u8)
        ensures
            r == self.spec_bits(),
    {
        if self.disable_collision_response {
            DISABLE_COLLISION_RESPONSE
        } else {
            0
        }
    }

    /// Reads flags back from a bit pattern. A pattern with a bit that stands for no
    /// flag is refused.
    pub fn from_bits(bits: u8) -> (r: Option<CollisionFlags>)
        ensures
            r == CollisionFlags::spec_from_bits(bits),
            r.is_some() <==> bits <= DISABLE_COLLISION_RESPONSE,
            r.is_some() ==> r.unwrap().spec_bits() == bits,
    {
        if bits == 0 {
            Some(CollisionFlags { disable_collision_response: false })
        } else if bits == DISABLE_COLLISION_RESPONSE {
            Some(CollisionFlags { disable_collision_response: true })
        } else {
            None
        }
    }

    #[verifier::when_used_as_spec(spec_contains)]
    pub fn contains(&self, other: &CollisionFlags) -> (r: bool)
        ensures
            r == self.spec_contains(other),
    {
        !other.disable_collision_response || self.disable_collision_response
    }
}

/// Flags that were written as a bit pattern are read back unchanged, and no two
/// sets of flags share a pattern.
pub proof fn lemma_bits_round_trip(flags: CollisionFlags, other: CollisionFlags)
    ensures
        CollisionFlags::spec_from_bits(flags.spec_bits()) == Some(flags),
        flags.spec_bits() == other.spec_bits() ==> flags == other,
{
}

} // verus!
