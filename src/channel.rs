//! Channel parameters and states, their validation against signatures, and
//! the dispute and conclusion of a channel.
use vstd::prelude::*;

use crate::crypto::{sha512_of, verifies_strictly, L2Account, L2Signature};
use crate::encoding::{
    bool_bytes, concat_bytes, len_bytes, push_bool, push_bytes, push_len, push_u64, push_u64s,
    u64_bytes, u64s_bytes, TAG_PARAMS, TAG_STATE, TAG_WITHDRAWAL,
};
use crate::error::Error;

verus! {

/// An amount of a currency.
pub type Amount = u64;

/// Duration in nanoseconds.
pub type Duration = u64;

/// Timestamp in nanoseconds.
pub type Timestamp = u64;

/// Unique channel identifier: the digest of the channel's parameters.
pub type ChannelId = crate::crypto::Hash;

/// A channel's unique nonce.
pub type Nonce = crate::crypto::Hash;

/// Channel state version.
pub type Version = u64;

/// The encoded keys of a list of accounts, in order.
pub open spec fn keys_of(accounts: Seq<L2Account>) -> Seq<Seq<u8>> {
    accounts.map_values(|a: L2Account| a@)
}

/// The exact sum of a sequence of amounts.
pub open spec fn sum(xs: Seq<u64>) -> int
    decreases xs.len(),
{
    if xs.len() == 0 {
        0
    } else {
        sum(xs.drop_last()) + xs.last()
    }
}

/// The immutable parameters of a channel.
#[derive(Debug, Clone)]
pub struct Params {
    /// The channel's unique nonce, protecting against replays.
    pub nonce: Nonce,
    /// The participants' layer-2 identities, in their fixed order.
    pub participants: Vec<L2Account>,
    /// How long a dispute waits for a newer state.
    pub challenge_duration: Duration,
}

impl Params {
    /// The canonical encoding of the parameters.
    pub open spec fn encoding(&self) -> Seq<u8> {
        seq![TAG_PARAMS] + self.nonce@ + len_bytes(self.participants@.len()) + concat_bytes(
            keys_of(self.participants@),
        ) + u64_bytes(self.challenge_duration)
    }

    /// The channel id that the parameters determine.
    pub open spec fn spec_id(&self) -> Seq<u8> {
        sha512_of(self.encoding())
    }

    /// Encodes the parameters canonically.
    pub fn encode(&self) -> (r: Vec<u8>)
        ensures
            r@ == self.encoding(),
    {
        let mut out: Vec<u8> = Vec::new();
        out.push(TAG_PARAMS);
        push_bytes(&mut out, self.nonce.0.as_slice());
        push_len(&mut out, self.participants.len());
        let ghost start = out@;
        let ghost keys = keys_of(self.participants@);
        let mut i: usize = 0;
        while i < self.participants.len()
            invariant
                i <= self.participants@.len(),
                keys == keys_of(self.participants@),
                out@ == start + concat_bytes(keys.take(i as int)),
            decreases self.participants@.len() - i,
        {
            push_bytes(&mut out, self.participants[i].0.as_slice());
            proof {
                assert(keys.take(i + 1).drop_last() =~= keys.take(i as int));
            }
            i = i + 1;
        }
        assert(keys.take(keys.len() as int) =~= keys);
        push_u64(&mut out, self.challenge_duration);
        assert(out@ =~= self.encoding());
        out
    }

    /// The channel id: the digest of the canonical encoding.
    pub fn id(&self) -> (r: ChannelId)
        ensures
            r@ == self.spec_id(),
    {
        let enc = self.encode();
        crate::crypto::Hash::digest(enc.as_slice())
    }
}

/// A snapshot of a channel.
#[derive(Debug, Clone)]
pub struct State {
    /// The channel's identifier.
    pub channel: ChannelId,
    /// The state's revision number.
    pub version: Version,
    /// Each participant's balance, in the order of the participants.
    pub allocation: Vec<Amount>,
    /// Whether no more updates can be made and funds can be withdrawn at once.
    pub finalized: bool,
}

impl State {
    /// The canonical encoding of the state, the message that participants sign.
    pub open spec fn encoding(&self) -> Seq<u8> {
        seq![TAG_STATE] + self.channel@ + u64_bytes(self.version) + len_bytes(
            self.allocation@.len(),
        ) + u64s_bytes(self.allocation@) + bool_bytes(self.finalized)
    }

    /// Whether `sig` is `pk`'s signature on this state.
    pub open spec fn signed_by(&self, sig: L2Signature, pk: L2Account) -> bool {
        verifies_strictly(pk@, self.encoding(), sig@)
    }

    /// Encodes the state canonically.
    pub fn encode(&self) -> (r: Vec<u8>)
        ensures
            r@ == self.encoding(),
    {
        let mut out: Vec<u8> = Vec::new();
        out.push(TAG_STATE);
        push_bytes(&mut out, self.channel.0.as_slice());
        push_u64(&mut out, self.version);
        push_len(&mut out, self.allocation.len());
        push_u64s(&mut out, &self.allocation);
        push_bool(&mut out, self.finalized);
        assert(out@ =~= self.encoding());
        out
    }

    /// Checks that `sig` is `pk`'s signature on this state.
    pub fn validate_sig(&self, sig: &L2Signature, pk: &L2Account) -> (r: Result<(), Error>)
        ensures
            r == (if self.signed_by(*sig, *pk) {
                Ok::<(), Error>(())
            } else {
                Err(Error::Authentication)
            }),
    {
        let enc = self.encode();
        if pk.verify(enc.as_slice(), sig) {
            Ok(())
        } else {
            Err(Error::Authentication)
        }
    }

    /// The total funds of the channel: the exact sum of the allocation.
    pub fn total(&self) -> (r: u128)
        ensures
            r == sum(self.allocation@),
    {
        let mut acc: u128 = 0;
        let mut i: usize = 0;
        while i < self.allocation.len()
            invariant
                i <= self.allocation@.len(),
                acc == sum(self.allocation@.take(i as int)),
                acc <= i * (u64::MAX as int),
            decreases self.allocation@.len() - i,
        {
            let x = self.allocation[i];
            assert(self.allocation@.take(i + 1).drop_last() =~= self.allocation@.take(i as int));
            assert(acc + x <= (i + 1) * (u64::MAX as int)) by (nonlinear_arith)
                requires
                    acc <= i * (u64::MAX as int),
                    x <= u64::MAX,
            ;
            assert((i + 1) * (u64::MAX as int) <= (u64::MAX as int) * (u64::MAX as int))
                by (nonlinear_arith)
                requires
                    i + 1 <= u64::MAX,
            ;
            acc = acc + x as u128;
            i = i + 1;
        }
        assert(self.allocation@.take(i as int) =~= self.allocation@);
        acc
    }

    /// A channel in its initial state may not be fully funded yet, but may
    /// already be registered for a dispute.
    pub fn may_be_underfunded(&self) -> (r: bool)
        ensures
            r == (self.version == 0 && !self.finalized),
    {
        self.version == 0 && !self.finalized
    }
}

/// A channel state with one signature per participant, in participant order.
#[derive(Debug, Clone)]
pub struct FullySignedState {
    /// The channel's state.
    pub state: State,
    /// The participants' signatures on the state.
    pub sigs: Vec<L2Signature>,
}

impl FullySignedState {
    /// The state belongs to the channel of `params`, and there is one
    /// signature and one balance per participant.
    pub open spec fn matches_params(&self, params: &Params) -> bool {
        &&& self.state.channel@ == params.spec_id()
        &&& self.sigs@.len() == params.participants@.len()
        &&& self.sigs@.len() == self.state.allocation@.len()
    }

    /// Every participant signed the state.
    pub open spec fn all_signed(&self, params: &Params) -> bool {
        forall|i: int|
            0 <= i < self.sigs@.len() ==> #[trigger] self.state.signed_by(
                self.sigs@[i],
                params.participants@[i],
            )
    }

    /// The verdict of validating the signed state against `params`.
    pub open spec fn validation(&self, params: &Params) -> Result<(), Error> {
        if !self.matches_params(params) {
            Err(Error::InvalidInput)
        } else if !self.all_signed(params) {
            Err(Error::Authentication)
        } else {
            Ok(())
        }
    }

    /// The verdict of validating a final state against `params`.
    pub open spec fn final_validation(&self, params: &Params) -> Result<(), Error> {
        if !self.state.finalized {
            Err(Error::NotFinalized)
        } else {
            self.validation(params)
        }
    }

    /// Checks that the state belongs to the channel of `params` and carries a
    /// valid signature of every participant.
    pub fn validate(&self, params: &Params) -> (r: Result<(), Error>)
        ensures
            r == self.validation(params),
    {
        let id = params.id();
        if !self.state.channel.equals(&id) {
            return Err(Error::InvalidInput);
        }
        if self.sigs.len() != params.participants.len() {
            return Err(Error::InvalidInput);
        }
        if self.sigs.len() != self.state.allocation.len() {
            return Err(Error::InvalidInput);
        }
        let enc = self.state.encode();
        let mut i: usize = 0;
        while i < params.participants.len()
            invariant
                i <= params.participants@.len(),
                self.matches_params(params),
                enc@ == self.state.encoding(),
                forall|j: int|
                    0 <= j < i ==> #[trigger] self.state.signed_by(
                        self.sigs@[j],
                        params.participants@[j],
                    ),
            decreases params.participants@.len() - i,
        {
            if !params.participants[i].verify(enc.as_slice(), &self.sigs[i]) {
                assert(!self.state.signed_by(self.sigs@[i as int], params.participants@[i as int]));
                return Err(Error::Authentication);
            }
            i = i + 1;
        }
        Ok(())
    }

    /// Checks that the state is finalized, then validates it.
    pub fn validate_final(&self, params: &Params) -> (r: Result<(), Error>)
        ensures
            r == self.final_validation(params),
    {
        if !self.state.finalized {
            return Err(Error::NotFinalized);
        }
        self.validate(params)
    }
}

/// A channel state registered by a conclusion or a dispute. The timeout and
/// the state's finality decide when its funds can be withdrawn.
#[derive(Debug, Clone)]
pub struct RegisteredState {
    /// The registered state.
    pub state: State,
    /// The end of the challenge window; ignored for finalized states.
    pub timeout: Timestamp,
}

impl RegisteredState {
    /// The outcome of concluding a signed final state.
    pub open spec fn concluded(signed: FullySignedState, params: &Params) -> Result<
        RegisteredState,
        Error,
    > {
        match signed.final_validation(params) {
            Ok(_) => Ok(RegisteredState { state: signed.state, timeout: 0 }),
            Err(e) => Err(e),
        }
    }

    /// The outcome of disputing with a signed state at time `now`.
    pub open spec fn disputed(signed: FullySignedState, params: &Params, now: Timestamp) -> Result<
        RegisteredState,
        Error,
    > {
        match signed.validation(params) {
            Ok(_) => Ok(
                RegisteredState {
                    state: signed.state,
                    timeout: (now + params.challenge_duration) as u64,
                },
            ),
            Err(e) => Err(e),
        }
    }

    /// Whether the funds are withdrawable at time `now`.
    pub open spec fn is_settled(&self, now: Timestamp) -> bool {
        self.state.finalized || now >= self.timeout
    }

    /// Registers a final state signed by all participants; it is settled at
    /// once.
    pub fn conclude(state: FullySignedState, params: &Params) -> (r: Result<Self, Error>)
        ensures
            r == Self::concluded(state, params),
    {
        match state.validate_final(params) {
            Ok(()) => Ok(RegisteredState { state: state.state, timeout: 0 }),
            Err(e) => Err(e),
        }
    }

    /// Registers a state signed by all participants at time `now`, opening a
    /// challenge window of the channel's challenge duration.
    pub fn dispute(state: FullySignedState, params: &Params, now: Timestamp) -> (r: Result<
        Self,
        Error,
    >)
        requires
            now + params.challenge_duration <= u64::MAX,
        ensures
            r == Self::disputed(state, params, now),
    {
        match state.validate(params) {
            Ok(()) => Ok(
                RegisteredState { state: state.state, timeout: now + params.challenge_duration },
            ),
            Err(e) => Err(e),
        }
    }

    /// Whether the funds are withdrawable at time `now`: the state is final or
    /// its challenge window has elapsed.
    pub fn settled(&self, now: Timestamp) -> (r: bool)
        ensures
            r == self.is_settled(now),
    {
        self.state.finalized || now >= self.timeout
    }
}

/// The funds of one participant within one channel.
#[derive(Debug, Clone, Copy, PartialEq, Eq, Hash)]
pub struct Funding {
    /// The channel's identifier.
    pub channel: ChannelId,
    /// The owner's layer-2 identity within the channel.
    pub participant: L2Account,
}

impl Funding {
    /// The funds of `participant` in `channel`.
    pub fn new(channel: ChannelId, participant: L2Account) -> (r: Self)
        ensures
            r.channel == channel,
            r.participant == participant,
    {
        Funding { channel, participant }
    }
}

/// A payable layer-1 account, user or canister, as the bytes of its principal.
#[derive(Debug, Clone, PartialEq, Eq, Hash)]
pub struct L1Account(pub Vec<u8>);

impl View for L1Account {
    type V = Seq<u8>;

    open spec fn view(&self) -> Seq<u8> {
        self.0@
    }
}

/// A request to pay a participant's funds out to a layer-1 account; the
/// participant's signature on it authorizes it.
#[derive(Debug, Clone)]
pub struct WithdrawalRequest {
    /// The funds to withdraw.
    pub funding: Funding,
    /// Where to send the funds.
    pub receiver: L1Account,
}

impl WithdrawalRequest {
    /// The canonical encoding of the request, the message that its
    /// participant signs.
    pub open spec fn encoding(&self) -> Seq<u8> {
        seq![TAG_WITHDRAWAL] + self.funding.channel@ + self.funding.participant@ + len_bytes(
            self.receiver@.len(),
        ) + self.receiver@
    }

    /// A request to send `funding` to `receiver`.
    pub fn new(funding: Funding, receiver: L1Account) -> (r: Self)
        ensures
            r.funding == funding,
            r.receiver == receiver,
    {
        WithdrawalRequest { funding, receiver }
    }

    /// Encodes the request canonically.
    pub fn encode(&self) -> (r: Vec<u8>)
        ensures
            r@ == self.encoding(),
    {
        let mut out: Vec<u8> = Vec::new();
        out.push(TAG_WITHDRAWAL);
        push_bytes(&mut out, self.funding.channel.0.as_slice());
        push_bytes(&mut out, self.funding.participant.0.as_slice());
        push_len(&mut out, self.receiver.0.len());
        push_bytes(&mut out, self.receiver.0.as_slice());
        assert(out@ =~= self.encoding());
        out
    }

    /// Checks that `sig` is the funding participant's signature on the request.
    pub fn validate_sig(&self, sig: &L2Signature) -> (r: Result<(), Error>)
        ensures
            r == (if verifies_strictly(self.funding.participant@, self.encoding(), sig@) {
                Ok::<(), Error>(())
            } else {
                Err(Error::Authentication)
            }),
    {
        let enc = self.encode();
        if self.funding.participant.verify(enc.as_slice(), sig) {
            Ok(())
        } else {
            Err(Error::Authentication)
        }
    }
}

} // verus!
