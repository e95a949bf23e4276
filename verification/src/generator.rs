//! The generator: its configuration, its two counters, and the single step
//! that turns one clock reading into an identifier or into a request to wait.

use vstd::prelude::*;
use crate::layout::{
    compose, node_field, node_span, pack, sequence_field, sequence_span, timestamp_field,
    timestamp_span, MAX_NODE_ID, MAX_TIMESTAMP,
};

verus! {

/// Why a generator could not be built or a clock reading could not be used.
#[derive(Clone, Copy, Debug, PartialEq, Eq, Structural)]
pub enum Error {
    /// The node number does not fit in 10 bits.
    InvalidConfiguration,
    /// The clock reading lies before the generator's epoch.
    ClockRegression,
    /// The clock reading lies so far after the epoch that the elapsed
    /// milliseconds do not fit in 42 bits.
    TimestampOverflow,
}

/// What one accepted clock reading led to.
#[derive(Clone, Copy, Debug, PartialEq, Eq, Structural)]
pub enum Outcome {
    /// An identifier was issued.
    Issued(u64),
    /// All 4096 sequence numbers of this millisecond are used up. No
    /// identifier was issued: wait, read the clock again and retry.
    Exhausted,
}

/// The mathematical state of a generator. All of a generator's behaviour is
/// stated over this model.
pub struct Model {
    /// Reference instant, in milliseconds.
    pub epoch: nat,
    /// Number of this generator among its peers.
    pub node_id: nat,
    /// Milliseconds since the epoch at the last accepted reading; `None`
    /// as long as no reading has been accepted.
    pub last_timestamp: Option<nat>,
    /// The sequence counter as the last accepted reading left it.
    pub sequence: nat,
}

impl Model {
    /// The node number and both counters fit their fields.
    pub open spec fn wf(self) -> bool {
        &&& self.node_id < node_span()
        &&& self.last_timestamp matches Some(t) ==> t < timestamp_span()
        &&& self.sequence < sequence_span()
    }

    /// A generator as it is built: no millisecond seen yet, the sequence
    /// counter at zero.
    pub open spec fn fresh(epoch: nat, node_id: nat) -> Model {
        Model { epoch, node_id, last_timestamp: None, sequence: 0 }
    }

    /// The reading is not before the epoch, and the milliseconds elapsed
    /// since the epoch fit in 42 bits.
    pub open spec fn accepts(self, now_ms: nat) -> bool {
        self.epoch <= now_ms < self.epoch + timestamp_span()
    }

    /// Milliseconds from the epoch to the reading.
    pub open spec fn elapsed(self, now_ms: nat) -> nat {
        (now_ms - self.epoch) as nat
    }

    /// The reading falls into the millisecond that was seen last. Before the
    /// first accepted reading no millisecond is the same.
    pub open spec fn same_millisecond(self, now_ms: nat) -> bool {
        self.last_timestamp == Some(self.elapsed(now_ms))
    }

    /// The sequence counter after an accepted reading: one more, wrapping
    /// at 4096, within the same millisecond; zero in another one.
    pub open spec fn next_sequence(self, now_ms: nat) -> nat {
        if self.same_millisecond(now_ms) {
            (self.sequence + 1) % sequence_span()
        } else {
            0
        }
    }

    /// The reading is accepted and the sequence counter does not wrap on it.
    pub open spec fn issues(self, now_ms: nat) -> bool {
        &&& self.accepts(now_ms)
        &&& !(self.same_millisecond(now_ms) && self.next_sequence(now_ms) == 0)
    }

    /// The identifier that an issuing reading gives.
    pub open spec fn issued_id(self, now_ms: nat) -> nat {
        pack(self.elapsed(now_ms), self.node_id, self.next_sequence(now_ms))
    }

    /// The state after a reading. A rejected reading leaves it as it was.
    pub open spec fn after(self, now_ms: nat) -> Model {
        if self.accepts(now_ms) {
            Model {
                last_timestamp: Some(self.elapsed(now_ms)),
                sequence: self.next_sequence(now_ms),
                ..self
            }
        } else {
            self
        }
    }

    /// What a reading is answered with.
    pub open spec fn answer(self, now_ms: nat) -> Result<Outcome, Error> {
        if now_ms < self.epoch {
            Err(Error::ClockRegression)
        } else if !self.accepts(now_ms) {
            Err(Error::TimestampOverflow)
        } else if self.issues(now_ms) {
            Ok(Outcome::Issued(self.issued_id(now_ms) as u64))
        } else {
            Ok(Outcome::Exhausted)
        }
    }
}

/// A generator of identifiers for one node.
pub struct Snowflake {
    epoch: u128,
    node_id: u16,
    last_timestamp: Option<u64>,
    sequence: u16,
}

impl View for Snowflake {
    type V = Model;

    closed spec fn view(&self) -> Model {
        Model {
            epoch: self.epoch as nat,
            node_id: self.node_id as nat,
            last_timestamp: match self.last_timestamp {
                Some(t) => Some(t as nat),
                None => None,
            },
            sequence: self.sequence as nat,
        }
    }
}

impl Snowflake {
    #[verifier::type_invariant]
    spec fn inv(self) -> bool {
        self@.wf()
    }

    /// Builds a generator for the node `node_id` that counts milliseconds
    /// from `epoch`. A node number over 1023 is refused.
    pub fn new(epoch: u128, node_id: u16) -> (result: Result<Snowflake, Error>)
        ensures
            node_id as nat >= node_span() <==> result == Err::<Snowflake, Error>(
                Error::InvalidConfiguration,
            ),
            (node_id as nat) < node_span() <==> result is Ok,
            result is Ok ==> result->Ok_0@ == Model::fresh(epoch as nat, node_id as nat),
            result is Ok ==> result->Ok_0@.wf(),
    {
        if node_id > MAX_NODE_ID {
            return Err(Error::InvalidConfiguration);
        }
        Ok(Snowflake { epoch, node_id, last_timestamp: None, sequence: 0 })
    }

    /// Takes one clock reading, in milliseconds, and answers it.
    ///
    /// A reading before the epoch, or one whose distance from the epoch does
    /// not fit in 42 bits, is an error and changes nothing. Any other reading
    /// becomes the last one seen. In a new millisecond, and on the first
    /// accepted reading of a generator, the sequence counter is set to zero
    /// and an identifier is issued. In the same millisecond the counter goes
    /// up by one; when that wraps to zero nothing is issued and the caller is
    /// told to wait.
    pub fn generate(&mut self, now_ms: u128) -> (result: Result<Outcome, Error>)
        ensures
            old(self)@.wf(),
            final(self)@.wf(),
            final(self)@ == old(self)@.after(now_ms as nat),
            result == old(self)@.answer(now_ms as nat),
            result matches Ok(Outcome::Issued(id)) ==> {
                &&& timestamp_field(id as nat) == now_ms - old(self)@.epoch
                &&& node_field(id as nat) == old(self)@.node_id
                &&& sequence_field(id as nat) == final(self)@.sequence
            },
    {
        proof {
            use_type_invariant(&*self);
        }
        if now_ms < self.epoch {
            return Err(Error::ClockRegression);
        }
        let elapsed: u128 = now_ms - self.epoch;
        if elapsed > MAX_TIMESTAMP as u128 {
            return Err(Error::TimestampOverflow);
        }
        let timestamp: u64 = elapsed as u64;
        let same_millisecond: bool = match self.last_timestamp {
            Some(previous) => previous == timestamp,
            None => false,
        };
        self.last_timestamp = Some(timestamp);
        if same_millisecond {
            let current: u16 = self.sequence;
            assert((current + 1) as u16 & 4095 == (current + 1) % 4096) by (bit_vector)
                requires
                    current < 4096,
            ;
            let sequence: u16 = (current + 1) & 4095;
            self.sequence = sequence;
            if sequence != 0 {
                Ok(Outcome::Issued(compose(timestamp, self.node_id, sequence)))
            } else {
                Ok(Outcome::Exhausted)
            }
        } else {
            self.sequence = 0;
            Ok(Outcome::Issued(compose(timestamp, self.node_id, 0)))
        }
    }
}

} // verus!
