//! Properties that relate the channel operations to each other.
use vstd::prelude::*;

use crate::channel::{keys_of, FullySignedState, Params, RegisteredState, State, WithdrawalRequest};
use crate::encoding::{
    bool_bytes, concat_bytes, lemma_concat_fixed, lemma_len_bytes, lemma_split, lemma_u64_bytes,
    lemma_u64s_bytes, len_bytes, u64_bytes, u64s_bytes,
};
use crate::error::Error;

verus! {

/// Accounts with equal keys are equal.
proof fn lemma_accounts_from_keys(a1: Seq<crate::crypto::L2Account>, a2: Seq<crate::crypto::L2Account>)
    requires
        keys_of(a1) == keys_of(a2),
    ensures
        a1 == a2,
{
    assert(keys_of(a1).len() == a1.len());
    assert forall|i: int| 0 <= i < a1.len() implies a1[i] == a2[i] by {
        assert(keys_of(a1)[i] == a1[i]@);
        assert(keys_of(a2)[i] == a2[i]@);
        assert(a1[i].0 =~= a2[i].0);
    }
    assert(a1 =~= a2);
}

/// Every key of a list of accounts has 32 bytes.
proof fn lemma_keys_width(a: Seq<crate::crypto::L2Account>)
    ensures
        forall|i: int| 0 <= i < keys_of(a).len() ==> #[trigger] keys_of(a)[i].len() == 32,
{
    assert forall|i: int| 0 <= i < keys_of(a).len() implies #[trigger] keys_of(a)[i].len() == 32 by {
        assert(keys_of(a)[i] == a[i]@);
    }
}

/// A channel id is the digest of an encoding that determines the parameters:
/// two parameter sets are encoded alike exactly when they agree in nonce,
/// participants (in order) and challenge duration, and equal parameters give
/// equal channel ids.
pub proof fn lemma_params_encoding_injective(p1: Params, p2: Params)
    requires
        p1.participants@.len() <= u64::MAX,
        p2.participants@.len() <= u64::MAX,
    ensures
        (p1.encoding() == p2.encoding()) <==> (p1.nonce == p2.nonce && p1.participants@
            == p2.participants@ && p1.challenge_duration == p2.challenge_duration),
        (p1.nonce == p2.nonce && p1.participants@ == p2.participants@ && p1.challenge_duration
            == p2.challenge_duration) ==> p1.spec_id() == p2.spec_id(),
{
    if p1.encoding() == p2.encoding() {
        let t = seq![crate::encoding::TAG_PARAMS];
        let k1 = keys_of(p1.participants@);
        let k2 = keys_of(p2.participants@);
        lemma_u64_bytes(p1.challenge_duration, p2.challenge_duration);
        lemma_u64_bytes(p2.challenge_duration, p1.challenge_duration);
        lemma_len_bytes(p1.participants@.len(), p2.participants@.len());
        lemma_len_bytes(p2.participants@.len(), p1.participants@.len());
        let x1 = t + p1.nonce@ + len_bytes(p1.participants@.len()) + concat_bytes(k1);
        let x2 = t + p2.nonce@ + len_bytes(p2.participants@.len()) + concat_bytes(k2);
        assert(p1.encoding() == x1 + u64_bytes(p1.challenge_duration));
        assert(p2.encoding() == x2 + u64_bytes(p2.challenge_duration));
        assert(x1.len() == x2.len());
        lemma_split(
            t + p1.nonce@ + len_bytes(p1.participants@.len()) + concat_bytes(k1),
            u64_bytes(p1.challenge_duration),
            t + p2.nonce@ + len_bytes(p2.participants@.len()) + concat_bytes(k2),
            u64_bytes(p2.challenge_duration),
        );
        lemma_split(
            t + p1.nonce@ + len_bytes(p1.participants@.len()),
            concat_bytes(k1),
            t + p2.nonce@ + len_bytes(p2.participants@.len()),
            concat_bytes(k2),
        );
        lemma_split(
            t + p1.nonce@,
            len_bytes(p1.participants@.len()),
            t + p2.nonce@,
            len_bytes(p2.participants@.len()),
        );
        lemma_split(t, p1.nonce@, t, p2.nonce@);
        assert(p1.nonce.0 =~= p2.nonce.0);
        lemma_keys_width(p1.participants@);
        lemma_keys_width(p2.participants@);
        lemma_concat_fixed(k1, k2, 32);
        lemma_accounts_from_keys(p1.participants@, p2.participants@);
    }
}

/// A state is encoded, and so signed, as no other state is: two states are
/// encoded alike exactly when all their fields agree.
pub proof fn lemma_state_encoding_injective(s1: State, s2: State)
    requires
        s1.allocation@.len() <= u64::MAX,
        s2.allocation@.len() <= u64::MAX,
    ensures
        (s1.encoding() == s2.encoding()) <==> (s1.channel == s2.channel && s1.version
            == s2.version && s1.allocation@ == s2.allocation@ && s1.finalized == s2.finalized),
{
    if s1.encoding() == s2.encoding() {
        let t = seq![crate::encoding::TAG_STATE];
        let a1 = s1.allocation@;
        let a2 = s2.allocation@;
        lemma_u64_bytes(s1.version, s2.version);
        lemma_u64_bytes(s2.version, s1.version);
        lemma_len_bytes(a1.len(), a2.len());
        lemma_len_bytes(a2.len(), a1.len());
        lemma_u64s_bytes(a1, a2);
        lemma_u64s_bytes(a2, a1);
        let x1 = t + s1.channel@ + u64_bytes(s1.version) + len_bytes(a1.len()) + u64s_bytes(a1);
        let x2 = t + s2.channel@ + u64_bytes(s2.version) + len_bytes(a2.len()) + u64s_bytes(a2);
        assert(s1.encoding() == x1 + bool_bytes(s1.finalized));
        assert(s2.encoding() == x2 + bool_bytes(s2.finalized));
        assert(x1.len() == x2.len());
        lemma_split(
            t + s1.channel@ + u64_bytes(s1.version) + len_bytes(a1.len()) + u64s_bytes(a1),
            bool_bytes(s1.finalized),
            t + s2.channel@ + u64_bytes(s2.version) + len_bytes(a2.len()) + u64s_bytes(a2),
            bool_bytes(s2.finalized),
        );
        assert(x1 =~= (t + s1.channel@ + u64_bytes(s1.version)) + (len_bytes(a1.len())
            + u64s_bytes(a1)));
        assert(x2 =~= (t + s2.channel@ + u64_bytes(s2.version)) + (len_bytes(a2.len())
            + u64s_bytes(a2)));
        lemma_split(
            t + s1.channel@ + u64_bytes(s1.version),
            len_bytes(a1.len()) + u64s_bytes(a1),
            t + s2.channel@ + u64_bytes(s2.version),
            len_bytes(a2.len()) + u64s_bytes(a2),
        );
        lemma_split(len_bytes(a1.len()), u64s_bytes(a1), len_bytes(a2.len()), u64s_bytes(a2));
        lemma_split(t + s1.channel@, u64_bytes(s1.version), t + s2.channel@, u64_bytes(s2.version));
        lemma_split(t, s1.channel@, t, s2.channel@);
        assert(s1.channel.0 =~= s2.channel.0);
        assert(bool_bytes(s1.finalized)[0] == bool_bytes(s2.finalized)[0]);
    }
}

/// A withdrawal request is encoded, and so signed, as no other request is:
/// two requests are encoded alike exactly when they name the same funding and
/// the same receiver.
pub proof fn lemma_withdrawal_encoding_injective(w1: WithdrawalRequest, w2: WithdrawalRequest)
    requires
        w1.receiver@.len() <= u64::MAX,
        w2.receiver@.len() <= u64::MAX,
    ensures
        (w1.encoding() == w2.encoding()) <==> (w1.funding == w2.funding && w1.receiver@
            == w2.receiver@),
{
    if w1.encoding() == w2.encoding() {
        let t = seq![crate::encoding::TAG_WITHDRAWAL];
        let r1 = w1.receiver@;
        let r2 = w2.receiver@;
        lemma_len_bytes(r1.len(), r2.len());
        lemma_len_bytes(r2.len(), r1.len());
        let c1 = w1.funding.channel@;
        let c2 = w2.funding.channel@;
        let k1 = w1.funding.participant@;
        let k2 = w2.funding.participant@;
        assert(w1.encoding() =~= (t + c1 + k1) + (len_bytes(r1.len()) + r1));
        assert(w2.encoding() =~= (t + c2 + k2) + (len_bytes(r2.len()) + r2));
        lemma_split(t + c1 + k1, len_bytes(r1.len()) + r1, t + c2 + k2, len_bytes(r2.len()) + r2);
        lemma_split(len_bytes(r1.len()), r1, len_bytes(r2.len()), r2);
        lemma_split(t + c1, k1, t + c2, k2);
        lemma_split(t, c1, t, c2);
        assert(w1.funding.channel.0 =~= w2.funding.channel.0);
        assert(w1.funding.participant.0 =~= w2.funding.participant.0);
    }
}

/// Parameters, states and withdrawal requests are never encoded alike, so a
/// signature on one kind of message never authorizes another kind.
pub proof fn lemma_message_kinds_disjoint(p: Params, s: State, w: WithdrawalRequest)
    ensures
        p.encoding() != s.encoding(),
        p.encoding() != w.encoding(),
        s.encoding() != w.encoding(),
{
    assert(p.encoding()[0] == crate::encoding::TAG_PARAMS);
    assert(s.encoding()[0] == crate::encoding::TAG_STATE);
    assert(w.encoding()[0] == crate::encoding::TAG_WITHDRAWAL);
}

/// A signed state validates exactly when it belongs to the channel, its
/// lengths match and every signature is valid; a structural mismatch fails
/// with `InvalidInput`, and otherwise a single bad signature fails with
/// `Authentication`.
pub proof fn lemma_validation_verdicts(fs: FullySignedState, p: Params)
    ensures
        fs.validation(&p) is Ok <==> (fs.state.channel@ == p.spec_id() && fs.sigs@.len()
            == p.participants@.len() && fs.sigs@.len() == fs.state.allocation@.len() && forall|
            i: int,
        |
            0 <= i < fs.sigs@.len() ==> #[trigger] fs.state.signed_by(
                fs.sigs@[i],
                p.participants@[i],
            )),
        fs.validation(&p) == Err::<(), Error>(Error::InvalidInput) <==> !fs.matches_params(&p),
        fs.validation(&p) == Err::<(), Error>(Error::Authentication) <==> (fs.matches_params(&p)
            && exists|i: int|
            0 <= i < fs.sigs@.len() && !#[trigger] fs.state.signed_by(
                fs.sigs@[i],
                p.participants@[i],
            )),
{
}

/// Final validation succeeds exactly when validation succeeds and the state is
/// finalized; a validly signed state that is not finalized fails with
/// `NotFinalized`.
pub proof fn lemma_final_validation(fs: FullySignedState, p: Params)
    ensures
        fs.final_validation(&p) is Ok <==> (fs.validation(&p) is Ok && fs.state.finalized),
        (fs.validation(&p) is Ok && !fs.state.finalized) ==> fs.final_validation(&p) == Err::<
            (),
            Error,
        >(Error::NotFinalized),
{
}

/// Concluding a validly signed final state registers it with no timeout, and
/// the registration is settled at every time, time zero included.
pub proof fn lemma_concluded_always_settled(fs: FullySignedState, p: Params, now: u64)
    requires
        fs.final_validation(&p) is Ok,
    ensures
        RegisteredState::concluded(fs, &p) is Ok,
        RegisteredState::concluded(fs, &p)->Ok_0.state == fs.state,
        RegisteredState::concluded(fs, &p)->Ok_0.is_settled(now),
        RegisteredState::concluded(fs, &p)->Ok_0.is_settled(0),
{
}

/// Disputing with a validly signed, non-finalized state at time `t` opens a
/// window that ends at `t` plus the challenge duration: the registration is
/// unsettled before that time and settled from it on.
pub proof fn lemma_dispute_window(fs: FullySignedState, p: Params, t: u64, later: u64)
    requires
        fs.validation(&p) is Ok,
        !fs.state.finalized,
        t + p.challenge_duration <= u64::MAX,
    ensures
        RegisteredState::disputed(fs, &p, t) is Ok,
        RegisteredState::disputed(fs, &p, t)->Ok_0.timeout == t + p.challenge_duration,
        RegisteredState::disputed(fs, &p, t)->Ok_0.is_settled(later) <==> later >= t
            + p.challenge_duration,
{
}

} // verus!
