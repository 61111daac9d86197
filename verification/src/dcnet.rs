//! Dining-cryptographers broadcast round.
//!
//! Each participant holds a pairwise shared secret with every other
//! participant and contributes the XOR of all its secrets; the sender
//! additionally XORs the message in. Because every secret appears in
//! exactly two contributions, the XOR of all contributions reveals the
//! message without revealing who sent it.

use vstd::prelude::*;

use crate::bytes::{xor_in_place, xor_with, zero_vec, zeros};

verus! {

/// The XOR of all shared secrets in `secrets`, over a message width of
/// `size` bytes.
pub open spec fn xor_all(secrets: Seq<(u32, Seq<u8>)>, size: nat) -> Seq<u8>
    decreases secrets.len(),
{
    if secrets.len() == 0 {
        zeros(size)
    } else {
        xor_with(xor_all(secrets.drop_last(), size), secrets.last().1)
    }
}

/// A participant's round contribution: the XOR of its secrets, with the
/// message XORed in when this participant is the sender.
pub open spec fn contribution_of(
    secrets: Seq<(u32, Seq<u8>)>,
    size: nat,
    message: Option<Seq<u8>>,
) -> Seq<u8> {
    match message {
        Option::None => xor_all(secrets, size),
        Option::Some(m) => xor_with(xor_all(secrets, size), m),
    }
}

/// The XOR of all contributions, over a message width of `size` bytes.
pub open spec fn aggregate_of(contributions: Seq<Seq<u8>>, size: nat) -> Seq<u8>
    decreases contributions.len(),
{
    if contributions.len() == 0 {
        zeros(size)
    } else {
        xor_with(aggregate_of(contributions.drop_last(), size), contributions.last())
    }
}

/// True when some entry of `secrets` carries the participant id `id`.
pub open spec fn has_id(secrets: Seq<(u32, Seq<u8>)>, id: u32) -> bool {
    exists|j: int| 0 <= j < secrets.len() && secrets[j].0 == id
}

/// A participant in the DC-net room.
pub struct DcNetParticipant {
    pub id: u32,
    shared_secrets: Vec<(u32, Vec<u8>)>,
    message_size: usize,
}

impl DcNetParticipant {
    /// This participant's own id.
    pub closed spec fn spec_id(&self) -> u32 {
        self.id
    }

    /// The shared secrets, keyed by the id of the other participant.
    pub closed spec fn spec_secrets(&self) -> Seq<(u32, Seq<u8>)> {
        self.shared_secrets@.map_values(|p: (u32, Vec<u8>)| (p.0, p.1@))
    }

    /// The fixed message width of this participant's rounds.
    pub closed spec fn spec_message_size(&self) -> usize {
        self.message_size
    }

    /// Every secret is one message wide, and no other participant appears
    /// twice.
    pub open spec fn wf(&self) -> bool {
        &&& forall|j: int|
            0 <= j < self.spec_secrets().len() ==> (#[trigger] self.spec_secrets()[j]).1.len()
                == self.spec_message_size()
        &&& forall|j: int, k: int|
            #![trigger self.spec_secrets()[j], self.spec_secrets()[k]]
            0 <= j < k < self.spec_secrets().len() ==> self.spec_secrets()[j].0
                != self.spec_secrets()[k].0
    }

    pub fn new(id: u32, message_size: usize) -> (p: Self)
        ensures
            p.spec_id() == id,
            p.spec_message_size() == message_size,
            p.spec_secrets() == Seq::<(u32, Seq<u8>)>::empty(),
            p.wf(),
    {
        let p = Self { id, shared_secrets: Vec::new(), message_size };
        proof {
            assert(p.spec_secrets() =~= Seq::<(u32, Seq<u8>)>::empty());
        }
        p
    }

    /// Records the secret shared with participant `other_id`, replacing any
    /// secret already held for that participant.
    pub fn add_shared_secret(&mut self, other_id: u32, secret: Vec<u8>)
        requires
            old(self).wf(),
            secret@.len() == old(self).spec_message_size(),
        ensures
            final(self).wf(),
            final(self).spec_id() == old(self).spec_id(),
            final(self).spec_message_size() == old(self).spec_message_size(),
            !has_id(old(self).spec_secrets(), other_id) ==> final(self).spec_secrets() == old(
                self,
            ).spec_secrets().push((other_id, secret@)),
            has_id(old(self).spec_secrets(), other_id) ==> exists|j: int|
                0 <= j < old(self).spec_secrets().len() && old(self).spec_secrets()[j].0
                    == other_id && final(self).spec_secrets() == old(
                    self,
                ).spec_secrets().update(j, (other_id, secret@)),
    {
        let n = self.shared_secrets.len();
        let mut i: usize = 0;
        while i < n
            invariant
                n == self.shared_secrets@.len(),
                i <= n,
                *self == *old(self),
                old(self).wf(),
                secret@.len() == old(self).spec_message_size(),
                forall|j: int| 0 <= j < i ==> #[trigger] self.spec_secrets()[j].0 != other_id,
            decreases n - i,
        {
            if self.shared_secrets[i].0 == other_id {
                self.shared_secrets.set(i, (other_id, secret));
                proof {
                    assert(old(self).spec_secrets()[i as int].0 == other_id);
                    assert(has_id(old(self).spec_secrets(), other_id));
                    assert(self.spec_secrets() =~= old(self).spec_secrets().update(
                        i as int,
                        (other_id, secret@),
                    ));
                    assert forall|j: int, k: int|
                        0 <= j < k < self.spec_secrets().len() implies self.spec_secrets()[j].0
                        != self.spec_secrets()[k].0 by {
                        assert(self.spec_secrets()[j].0 == old(self).spec_secrets()[j].0);
                        assert(self.spec_secrets()[k].0 == old(self).spec_secrets()[k].0);
                        assert(old(self).spec_secrets()[j].0 != old(self).spec_secrets()[k].0);
                    }
                }
                return ;
            }
            i = i + 1;
        }
        self.shared_secrets.push((other_id, secret));
        proof {
            assert(self.spec_secrets() =~= old(self).spec_secrets().push((other_id, secret@)));
        }
    }

    /// Computes the local contribution for a round: the XOR of all shared
    /// secrets, with `message` XORed in when this participant sends.
    pub fn compute_contribution(&self, message: Option<&[u8]>) -> (r: Vec<u8>)
        requires
            self.wf(),
            message matches Option::Some(m) ==> m@.len() == self.spec_message_size(),
        ensures
            r@.len() == self.spec_message_size(),
            r@ == contribution_of(
                self.spec_secrets(),
                self.spec_message_size() as nat,
                match message {
                    Option::Some(m) => Option::Some(m@),
                    Option::None => Option::None,
                },
            ),
    {
        let mut contribution = zero_vec(self.message_size);
        let n = self.shared_secrets.len();
        let mut i: usize = 0;
        while i < n
            invariant
                n == self.shared_secrets@.len(),
                i <= n,
                contribution@.len() == self.spec_message_size(),
                contribution@ == xor_all(
                    self.spec_secrets().take(i as int),
                    self.spec_message_size() as nat,
                ),
            decreases n - i,
        {
            xor_in_place(&mut contribution, self.shared_secrets[i].1.as_slice());
            proof {
                assert(self.spec_secrets().take(i + 1).drop_last() =~= self.spec_secrets().take(
                    i as int,
                ));
                assert(self.spec_secrets().take(i + 1).last() == self.spec_secrets()[i as int]);
            }
            i = i + 1;
        }
        proof {
            assert(self.spec_secrets().take(n as int) =~= self.spec_secrets());
        }
        match message {
            Option::Some(msg) => {
                xor_in_place(&mut contribution, msg);
            },
            Option::None => {},
        }
        contribution
    }
}

/// The DC-net room aggregator: combines every participant's contribution
/// to reveal the round's message.
pub struct DcNetRoom {
    pub participants: Vec<u32>,
    pub message_size: usize,
}

impl DcNetRoom {
    pub fn new(message_size: usize) -> (r: Self)
        ensures
            r.participants@ == Seq::<u32>::empty(),
            r.message_size == message_size,
    {
        let r = Self { participants: Vec::new(), message_size };
        proof {
            assert(r.participants@ =~= Seq::<u32>::empty());
        }
        r
    }

    /// XORs all contributions together; where every pairwise secret appears
    /// exactly twice, only the transmitted message survives.
    pub fn aggregate(&self, contributions: &[Vec<u8>]) -> (r: Vec<u8>)
        ensures
            r@.len() == self.message_size,
            r@ == aggregate_of(contributions.deep_view(), self.message_size as nat),
    {
        let mut result = zero_vec(self.message_size);
        let n = contributions.len();
        let mut i: usize = 0;
        while i < n
            invariant
                n == contributions@.len(),
                i <= n,
                result@.len() == self.message_size,
                result@ == aggregate_of(
                    contributions.deep_view().take(i as int),
                    self.message_size as nat,
                ),
            decreases n - i,
        {
            xor_in_place(&mut result, contributions[i].as_slice());
            proof {
                assert(contributions.deep_view().take(i + 1).drop_last()
                    =~= contributions.deep_view().take(i as int));
                assert(contributions.deep_view().take(i + 1).last() == contributions@[
                i as int]@);
            }
            i = i + 1;
        }
        proof {
            assert(contributions.deep_view().take(n as int) =~= contributions.deep_view());
        }
        result
    }
}

} // verus!
