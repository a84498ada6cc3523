use vstd::prelude::*;
use crate::contact::Contact;
use crate::fixed::ONE;
use crate::flags::CollisionFlags;
use crate::rigid_body::{spec_clamp_friction, BodyView, Friction, RigidBody};
use crate::shape::ConvexShape;
use crate::vec3::Vec3;

verus! {

/// What is kept of a body when it is stored: every field, in the order in which
/// it is written. The shape comes first, then the numbers and vectors, then the
/// contacts, then the flags as bit patterns.
#[derive(Debug)]
pub struct BodyRecord {
    pub shape: ConvexShape,
    pub position: Vec3,
    pub last_position: Vec3,
    pub acceleration: Vec3,
    pub friction: i64,
    pub gravity: Vec3,
    pub speed_limit: i64,
    pub lifetime: Option<i64>,
    pub contacts: Vec<Contact>,
    pub user_flags: u64,
    pub collision_group: u64,
    pub collision_mask: u64,
    /// The collision flags as a bit pattern.
    pub collision_flags: u8,
}

/// A record as a value, with the contacts as a sequence.
pub ghost struct RecordView {
    pub shape: ConvexShape,
    pub position: Vec3,
    pub last_position: Vec3,
    pub acceleration: Vec3,
    pub friction: i64,
    pub gravity: Vec3,
    pub speed_limit: i64,
    pub lifetime: Option<i64>,
    pub contacts: Seq<Contact>,
    pub user_flags: u64,
    pub collision_group: u64,
    pub collision_mask: u64,
    pub collision_flags: u8,
}

impl View for BodyRecord {
    type V = RecordView;

    open spec fn view(&self) -> RecordView {
        RecordView {
            shape: self.shape,
            position: self.position,
            last_position: self.last_position,
            acceleration: self.acceleration,
            friction: self.friction,
            gravity: self.gravity,
            speed_limit: self.speed_limit,
            lifetime: self.lifetime,
            contacts: self.contacts@,
            user_flags: self.user_flags,
            collision_group: self.collision_group,
            collision_mask: self.collision_mask,
            collision_flags: self.collision_flags,
        }
    }
}

/// Why a record cannot be a body.
#[derive(Clone, Copy, Debug, PartialEq, Eq)]
pub enum RecordError {
    /// A bit of the stored collision flags stands for no flag: the record is
    /// damaged, or of another version.
    UnknownCollisionFlags { bits: u8 },
}

impl BodyView {
    /// What is stored of the body.
    pub open spec fn recorded(self) -> RecordView {
        RecordView {
            shape: self.shape,
            position: self.position,
            last_position: self.last_position,
            acceleration: self.acceleration,
            friction: self.friction,
            gravity: self.gravity,
            speed_limit: self.speed_limit,
            lifetime: self.lifetime,
            contacts: self.contacts,
            user_flags: self.user_flags,
            collision_group: self.collision_group,
            collision_mask: self.collision_mask,
            collision_flags: self.collision_flags.spec_bits(),
        }
    }
}

impl RecordView {
    /// The body that the record describes, with the friction brought into its
    /// range. `None` where the stored collision flags are not known.
    pub open spec fn restored(self) -> Option<BodyView> {
        match CollisionFlags::spec_from_bits(self.collision_flags) {
            Some(collision_flags) => Some(
                BodyView {
                    position: self.position,
                    shape: self.shape,
                    last_position: self.last_position,
                    acceleration: self.acceleration,
                    contacts: self.contacts,
                    friction: spec_clamp_friction(self.friction),
                    gravity: self.gravity,
                    speed_limit: self.speed_limit,
                    lifetime: self.lifetime,
                    user_flags: self.user_flags,
                    collision_group: self.collision_group,
                    collision_mask: self.collision_mask,
                    collision_flags,
                },
            ),
            None => None,
        }
    }
}

fn copy_contacts(contacts: &Vec<Contact>) -> (r: Vec<Contact>)
    ensures
        r@ == contacts@,
{
    let mut copy: Vec<Contact> = Vec::new();
    let mut i: usize = 0;
    while i < contacts.len()
        invariant
            i <= contacts.len(),
            copy@ == contacts@.subrange(0, i as int),
        decreases contacts.len() - i,
    {
        copy.push(contacts[i]);
        i += 1;
        assert(copy@ =~= contacts@.subrange(0, i as int));
    }
    assert(contacts@.subrange(0, i as int) =~= contacts@);
    copy
}

impl RigidBody {
    /// What is to be stored of the body.
    pub fn to_record(&self) -> (r: BodyRecord)
        ensures
            r@ == self@.recorded(),
    {
        BodyRecord {
            shape: self.shape,
            position: self.position,
            last_position: self.last_position,
            acceleration: self.acceleration,
            friction: self.friction.get(),
            gravity: self.gravity,
            speed_limit: self.speed_limit,
            lifetime: self.lifetime,
            contacts: copy_contacts(&self.contacts),
            user_flags: self.user_flags,
            collision_group: self.collision_group,
            collision_mask: self.collision_mask,
            collision_flags: self.collision_flags.bits(),
        }
    }

    /// The body that a record describes. A record whose collision flags hold an
    /// unknown bit is refused.
    pub fn from_record(record: BodyRecord) -> (r: Result<RigidBody, RecordError>)
        ensures
            match r {
                Ok(body) => record@.restored() == Some(body@) && body.wf(),
                Err(error) => {
                    &&& record@.restored() is None
                    &&& error == (RecordError::UnknownCollisionFlags {
                        bits: record.collision_flags,
                    })
                },
            },
    {
        match CollisionFlags::from_bits(record.collision_flags) {
            Some(collision_flags) => {
                let body = RigidBody {
                    position: record.position,
                    shape: record.shape,
                    last_position: record.last_position,
                    acceleration: record.acceleration,
                    contacts: record.contacts,
                    friction: Friction::new(record.friction),
                    gravity: record.gravity,
                    speed_limit: record.speed_limit,
                    lifetime: record.lifetime,
                    user_flags: record.user_flags,
                    collision_group: record.collision_group,
                    collision_mask: record.collision_mask,
                    collision_flags,
                };
                Ok(body)
            },
            None => Err(RecordError::UnknownCollisionFlags { bits: record.collision_flags }),
        }
    }
}

/// A body that is stored and read back is the body that was stored, in every
/// field.
pub proof fn lemma_record_round_trip(body: BodyView)
    requires
        0 <= body.friction <= ONE,
    ensures
        body.recorded().restored() == Some(body),
{
}

} // verus!
