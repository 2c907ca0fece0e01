use vstd::prelude::*;
use bevy::ecs::entity::Entity;

verus! {

/// The 64-bit value made of a high and a low 32-bit half.
pub open spec fn join_bits(hi: u32, lo: u32) -> u64 {
    (hi as int * 0x1_0000_0000 + lo as int) as u64
}

/// The high half of a 64-bit value.
pub open spec fn high_half(bits: u64) -> u32 {
    (bits as int / 0x1_0000_0000) as u32
}

/// The low half of a 64-bit value.
pub open spec fn low_half(bits: u64) -> u32 {
    (bits as int % 0x1_0000_0000) as u32
}

/// Entity bits name an entity exactly when their low half is not zero
/// (bevy stores the index inverted, so an all-zero slot names nothing).
pub open spec fn entity_bits_valid(bits: u64) -> bool {
    low_half(bits) != 0
}

/// `Entity::try_from_bits` of bevy_ecs, reduced to whether it succeeds.
/// It succeeds exactly when the low 32 bits, taken as the stored entity
/// index, are not zero; the generation in the high half is not checked.
#[verifier::external_body]
fn entity_bits_are_valid(bits: u64) -> (valid: bool)
    ensures
        valid == (bits as u32 != 0u32),
{
    Entity::try_from_bits(bits).is_some()
}

/// Combine two 32-bit halves into 64 bits.
pub fn combine_halves(hi: u32, lo: u32) -> (bits: u64)
    ensures
        bits == join_bits(hi, lo),
        high_half(bits) == hi,
        low_half(bits) == lo,
{
    let bits: u64 = ((hi as u64) << 32u64) | (lo as u64);
    assert(bits == (hi as u64) * 0x1_0000_0000u64 + (lo as u64)) by (bit_vector)
        requires
            bits == ((hi as u64) << 32u64) | (lo as u64),
    ;
    bits
}

/// Decode entity bits; `None` where they name no entity.
pub fn decode_entity(bits: u64) -> (ent: Option<u64>)
    ensures
        ent == (if entity_bits_valid(bits) { Some(bits) } else { None::<u64> }),
{
    let valid = entity_bits_are_valid(bits);
    assert((bits as u32) == (bits % 0x1_0000_0000u64) as u32) by (bit_vector);
    if valid {
        Some(bits)
    } else {
        None
    }
}

/// The entity half of one simulation slot: the entity's bits split in two.
#[derive(Clone, Copy, PartialEq, Eq, Structural, Debug)]
pub struct PointIdentity {
    pub ent_hi: u32,
    pub ent_lo: u32,
}

impl PointIdentity {
    /// The full 64 bits of the slot's entity.
    pub open spec fn bits(self) -> u64 {
        join_bits(self.ent_hi, self.ent_lo)
    }

    /// The identity of a slot that holds the entity with these bits.
    pub fn with_entity(bits: u64) -> (id: Self)
        ensures
            id.ent_hi == high_half(bits),
            id.ent_lo == low_half(bits),
            id.bits() == bits,
    {
        let hi: u32 = (bits >> 32u64) as u32;
        let lo: u32 = bits as u32;
        assert(hi == (bits / 0x1_0000_0000u64) as u32 && lo == (bits % 0x1_0000_0000u64) as u32)
            by (bit_vector)
            requires
                hi == (bits >> 32u64) as u32,
                lo == bits as u32,
        ;
        PointIdentity { ent_hi: hi, ent_lo: lo }
    }

    /// The slot's entity, or `None` for an unassigned slot.
    pub fn try_get_entity(&self) -> (ent: Option<u64>)
        ensures
            ent == (if self.ent_lo != 0 { Some(self.bits()) } else { None::<u64> }),
    {
        let bits = combine_halves(self.ent_hi, self.ent_lo);
        decode_entity(bits)
    }
}

/// Splitting bits into a slot identity and reading them back returns the
/// same entity, for every value that names an entity; a value that names
/// none reads back as an unassigned slot.
pub proof fn law_slot_identity_round_trip(bits: u64)
    ensures
        join_bits(high_half(bits), low_half(bits)) == bits,
        (PointIdentity { ent_hi: high_half(bits), ent_lo: low_half(bits) }).bits() == bits,
        (low_half(bits) != 0) == entity_bits_valid(bits),
{
}

/// Joining two halves and splitting the result gives the halves back.
pub proof fn law_halves_round_trip(hi: u32, lo: u32)
    ensures
        high_half(join_bits(hi, lo)) == hi,
        low_half(join_bits(hi, lo)) == lo,
{
}

/// The halves are the machine halves of the 64-bit value: the low half is
/// its low 32 bits and the high half the 32 bits above them.
pub proof fn law_halves_are_the_machine_halves(bits: u64)
    ensures
        low_half(bits) == bits as u32,
        high_half(bits) == (bits >> 32u64) as u32,
{
    assert(bits as u32 == (bits % 0x1_0000_0000u64) as u32 && (bits >> 32u64) as u32 == (bits
        / 0x1_0000_0000u64) as u32) by (bit_vector);
}

/// A collision reported by the compute pass: two entities, each as a low and
/// a high half (`x`, `y` for the first, `z`, `w` for the second).
#[derive(Clone, Copy, PartialEq, Eq, Structural, Debug)]
pub struct CollisionRecord {
    pub x: u32,
    pub y: u32,
    pub z: u32,
    pub w: u32,
}

/// The entity pair a collision record names, if both halves name entities.
pub open spec fn collision_pair(c: CollisionRecord) -> Option<(u64, u64)> {
    if c.x != 0 && c.z != 0 {
        Some((join_bits(c.y, c.x), join_bits(c.w, c.z)))
    } else {
        None
    }
}

/// The entity pairs of the records, in order, leaving out records that do
/// not name two entities.
pub open spec fn collision_pairs(s: Seq<CollisionRecord>) -> Seq<(u64, u64)>
    decreases s.len(),
{
    if s.len() == 0 {
        Seq::empty()
    } else {
        let rest = collision_pairs(s.drop_last());
        match collision_pair(s.last()) {
            Some(p) => rest.push(p),
            None => rest,
        }
    }
}

/// Decoding never yields more pairs than there are records.
pub proof fn law_collision_pairs_are_bounded(s: Seq<CollisionRecord>)
    ensures
        collision_pairs(s).len() <= s.len(),
    decreases s.len(),
{
    if s.len() > 0 {
        law_collision_pairs_are_bounded(s.drop_last());
    }
}

/// Decoding the records one after another: no records give no pairs, and
/// one more record adds its two entities (first from `y`:`x`, second from
/// `w`:`z`) exactly when both low halves name entities, and nothing otherwise.
pub proof fn law_collision_pairs_step(s: Seq<CollisionRecord>, c: CollisionRecord)
    ensures
        collision_pair(c) == (if c.x != 0 && c.z != 0 {
            Some((join_bits(c.y, c.x), join_bits(c.w, c.z)))
        } else {
            None::<(u64, u64)>
        }),
        collision_pairs(Seq::<CollisionRecord>::empty()) == Seq::<(u64, u64)>::empty(),
        c.x != 0 && c.z != 0 ==> collision_pairs(s.push(c)) == collision_pairs(s).push(
            (join_bits(c.y, c.x), join_bits(c.w, c.z)),
        ),
        !(c.x != 0 && c.z != 0) ==> collision_pairs(s.push(c)) == collision_pairs(s),
{
    assert(s.push(c).drop_last() =~= s);
}

/// Every record that names two entities is reported, and every reported
/// pair comes from such a record.
pub proof fn law_collision_pairs_report_every_named_pair(s: Seq<CollisionRecord>)
    ensures
        forall|i: int|
            0 <= i < s.len() && s[i].x != 0 && s[i].z != 0 ==> collision_pairs(s).contains(
                (join_bits(#[trigger] s[i].y, s[i].x), join_bits(s[i].w, s[i].z)),
            ),
        forall|k: int|
            0 <= k < collision_pairs(s).len() ==> exists|i: int|
                0 <= i < s.len() && s[i].x != 0 && s[i].z != 0 && #[trigger] collision_pairs(s)[k]
                    == (join_bits(s[i].y, s[i].x), join_bits(s[i].w, s[i].z)),
    decreases s.len(),
{
    if s.len() > 0 {
        let init = s.drop_last();
        law_collision_pairs_report_every_named_pair(init);
        let rest = collision_pairs(init);
        let all = collision_pairs(s);
        let c = s.last();
        assert forall|i: int|
            0 <= i < s.len() && s[i].x != 0 && s[i].z != 0 implies all.contains(
                (join_bits(#[trigger] s[i].y, s[i].x), join_bits(s[i].w, s[i].z)),
            ) by {
            let p = (join_bits(s[i].y, s[i].x), join_bits(s[i].w, s[i].z));
            if i < s.len() - 1 {
                assert(init[i] == s[i]);
                assert(rest.contains((join_bits(init[i].y, init[i].x), join_bits(init[i].w, init[i].z))));
                let k = choose|k: int| 0 <= k < rest.len() && rest[k] == p;
                if c.x != 0 && c.z != 0 {
                    assert(all[k] == p);
                } else {
                    assert(all[k] == p);
                }
            } else {
                assert(all[all.len() - 1] == p);
            }
        }
        assert forall|k: int| 0 <= k < all.len() implies exists|i: int|
            0 <= i < s.len() && s[i].x != 0 && s[i].z != 0 && #[trigger] all[k]
                == (join_bits(s[i].y, s[i].x), join_bits(s[i].w, s[i].z)) by {
            if k < rest.len() {
                assert(all[k] == rest[k]);
                let i = choose|i: int|
                    0 <= i < init.len() && init[i].x != 0 && init[i].z != 0 && #[trigger] rest[k]
                        == (join_bits(init[i].y, init[i].x), join_bits(init[i].w, init[i].z));
                assert(init[i] == s[i]);
            } else {
                assert(s[s.len() - 1] == c);
            }
        }
    }
}

/// Decode one collision record.
pub fn decode_collision(c: &CollisionRecord) -> (pair: Option<(u64, u64)>)
    ensures
        pair == collision_pair(*c),
{
    let first = combine_halves(c.y, c.x);
    let second = combine_halves(c.w, c.z);
    match decode_entity(first) {
        None => None,
        Some(a) => match decode_entity(second) {
            None => None,
            Some(b) => Some((a, b)),
        },
    }
}

/// The collisions to report: the first `count` records (or all of them, if
/// there are fewer), decoded, leaving out those that do not name two entities.
pub fn collisions_to_report(records: &Vec<CollisionRecord>, count: u32) -> (pairs: Vec<(u64, u64)>)
    ensures
        pairs@ == collision_pairs(
            records@.take(if (count as int) < records@.len() { count as int } else { records@.len() as int }),
        ),
{
    let n: usize = if (count as usize) < records.len() { count as usize } else { records.len() };
    let mut pairs: Vec<(u64, u64)> = Vec::new();
    let mut i: usize = 0;
    while i < n
        invariant
            n <= records.len(),
            n == (if (count as int) < records@.len() { count as int } else { records@.len() as int }),
            i <= n,
            pairs@ == collision_pairs(records@.take(i as int)),
        decreases n - i,
    {
        let pair = decode_collision(&records[i]);
        assert(records@.take(i as int + 1).drop_last() =~= records@.take(i as int));
        match pair {
            Some(p) => pairs.push(p),
            None => {},
        }
        i = i + 1;
    }
    assert(records@.take(n as int) =~= records@.take(n as int));
    pairs
}

} // verus!
