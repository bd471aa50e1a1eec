use ed25519_dalek::{Keypair, PublicKey, SecretKey, Signer};
use perun::channel::{FullySignedState, Funding, L1Account, Params, RegisteredState, State, WithdrawalRequest};
use perun::crypto::{L2Account, L2Signature};
use perun::error::Error;

fn keypair(seed: u8) -> Keypair {
    let secret = SecretKey::from_bytes(&[seed; 32]).unwrap();
    let public: PublicKey = (&secret).into();
    Keypair { secret, public }
}

fn account(kp: &Keypair) -> L2Account {
    L2Account::from_bytes(&kp.public.to_bytes()).unwrap()
}

fn sign(kp: &Keypair, msg: &[u8]) -> L2Signature {
    L2Signature::from_bytes(&kp.sign(msg).to_bytes()).unwrap()
}

fn nonce(b: u8) -> perun::crypto::Hash {
    perun::crypto::Hash([b; 64])
}

fn params(duration: u64) -> (Params, Keypair, Keypair) {
    let a = keypair(1);
    let b = keypair(2);
    let p = Params {
        nonce: nonce(7),
        participants: vec![account(&a), account(&b)],
        challenge_duration: duration,
    };
    (p, a, b)
}

fn signed(p: &Params, a: &Keypair, b: &Keypair, version: u64, alloc: Vec<u64>, finalized: bool) -> FullySignedState {
    let state = State { channel: p.id(), version, allocation: alloc, finalized };
    let enc = state.encode();
    let sigs = vec![sign(a, &enc), sign(b, &enc)];
    FullySignedState { state, sigs }
}

#[test]
fn params_id_is_deterministic() {
    let (p, _, _) = params(100);
    let q = p.clone();
    assert_eq!(p.id(), q.id());
    assert_eq!(p.id(), p.id());
}

#[test]
fn params_id_distinguishes_every_field() {
    let (p, a, b) = params(100);
    let mut other_nonce = p.clone();
    other_nonce.nonce = nonce(8);
    let mut swapped = p.clone();
    swapped.participants = vec![account(&b), account(&a)];
    let mut fewer = p.clone();
    fewer.participants = vec![account(&a)];
    let mut longer = p.clone();
    longer.challenge_duration = 101;
    let ids = [p.id(), other_nonce.id(), swapped.id(), fewer.id(), longer.id()];
    for i in 0..ids.len() {
        for j in 0..ids.len() {
            if i != j {
                assert_ne!(ids[i], ids[j]);
            }
        }
    }
}

#[test]
fn validate_accepts_fully_signed_state() {
    let (p, a, b) = params(100);
    let fs = signed(&p, &a, &b, 1, vec![50, 50], false);
    assert_eq!(fs.validate(&p), Ok(()));
}

#[test]
fn validate_rejects_flipped_signature() {
    let (p, a, b) = params(100);
    let mut fs = signed(&p, &a, &b, 1, vec![50, 50], false);
    fs.sigs[1].0[0] ^= 1;
    assert_eq!(fs.validate(&p), Err(Error::Authentication));
}

#[test]
fn validate_rejects_swapped_signatures() {
    let (p, a, b) = params(100);
    let mut fs = signed(&p, &a, &b, 1, vec![50, 50], false);
    fs.sigs.swap(0, 1);
    assert_eq!(fs.validate(&p), Err(Error::Authentication));
}

#[test]
fn validate_rejects_truncated_signatures() {
    let (p, a, b) = params(100);
    let mut fs = signed(&p, &a, &b, 1, vec![50, 50], false);
    fs.sigs.pop();
    assert_eq!(fs.validate(&p), Err(Error::InvalidInput));
}

#[test]
fn validate_rejects_altered_channel() {
    let (p, a, b) = params(100);
    let mut fs = signed(&p, &a, &b, 1, vec![50, 50], false);
    fs.state.channel.0[3] ^= 0xff;
    assert_eq!(fs.validate(&p), Err(Error::InvalidInput));
}

#[test]
fn validate_rejects_allocation_length_mismatch() {
    let (p, a, b) = params(100);
    let fs = signed(&p, &a, &b, 1, vec![50, 25, 25], false);
    assert_eq!(fs.validate(&p), Err(Error::InvalidInput));
}

#[test]
fn validate_rejects_state_changed_after_signing() {
    let (p, a, b) = params(100);
    let mut fs = signed(&p, &a, &b, 1, vec![50, 50], false);
    fs.state.allocation[0] = 51;
    assert_eq!(fs.validate(&p), Err(Error::Authentication));
}

#[test]
fn validate_final_requires_finalized() {
    let (p, a, b) = params(100);
    let fs = signed(&p, &a, &b, 1, vec![50, 50], false);
    assert_eq!(fs.validate(&p), Ok(()));
    assert_eq!(fs.validate_final(&p), Err(Error::NotFinalized));
    let fin = signed(&p, &a, &b, 2, vec![30, 70], true);
    assert_eq!(fin.validate_final(&p), Ok(()));
}

#[test]
fn validate_final_reports_bad_signature() {
    let (p, a, b) = params(100);
    let mut fin = signed(&p, &a, &b, 2, vec![30, 70], true);
    fin.sigs[0].0[5] ^= 2;
    assert_eq!(fin.validate_final(&p), Err(Error::Authentication));
}

#[test]
fn conclude_is_settled_at_any_time() {
    let (p, a, b) = params(100);
    let fin = signed(&p, &a, &b, 2, vec![30, 70], true);
    let reg = RegisteredState::conclude(fin, &p).unwrap();
    assert_eq!(reg.timeout, 0);
    assert!(reg.settled(0));
    assert!(reg.settled(1));
    assert!(reg.settled(u64::MAX));
}

#[test]
fn conclude_rejects_non_final_state() {
    let (p, a, b) = params(100);
    let fs = signed(&p, &a, &b, 1, vec![50, 50], false);
    assert_eq!(RegisteredState::conclude(fs, &p).err(), Some(Error::NotFinalized));
}

#[test]
fn dispute_opens_challenge_window() {
    let (p, a, b) = params(100);
    let fs = signed(&p, &a, &b, 1, vec![50, 50], false);
    let reg = RegisteredState::dispute(fs, &p, 5000).unwrap();
    assert_eq!(reg.timeout, 5100);
    assert!(!reg.settled(0));
    assert!(!reg.settled(5099));
    assert!(reg.settled(5100));
    assert!(reg.settled(5101));
}

#[test]
fn dispute_rejects_unsigned_state() {
    let (p, a, b) = params(100);
    let mut fs = signed(&p, &a, &b, 1, vec![50, 50], false);
    fs.sigs[0] = fs.sigs[1];
    assert_eq!(RegisteredState::dispute(fs, &p, 10).err(), Some(Error::Authentication));
}

#[test]
fn dispute_of_final_state_is_settled_at_once() {
    let (p, a, b) = params(100);
    let fin = signed(&p, &a, &b, 3, vec![30, 70], true);
    let reg = RegisteredState::dispute(fin, &p, 10).unwrap();
    assert_eq!(reg.timeout, 110);
    assert!(reg.settled(0));
}

#[test]
fn total_is_exact_sum() {
    let s = State { channel: nonce(0), version: 0, allocation: vec![50, 25, 7], finalized: false };
    assert_eq!(s.total(), 82);
    let empty = State { channel: nonce(0), version: 0, allocation: vec![], finalized: false };
    assert_eq!(empty.total(), 0);
}

#[test]
fn total_exceeds_single_amount_range() {
    let s = State { channel: nonce(0), version: 0, allocation: vec![u64::MAX, u64::MAX, 2], finalized: false };
    assert_eq!(s.total(), 2 * (u64::MAX as u128) + 2);
}

#[test]
fn may_be_underfunded_only_initial_open_state() {
    let mk = |version: u64, finalized: bool| State { channel: nonce(0), version, allocation: vec![1], finalized };
    assert!(mk(0, false).may_be_underfunded());
    assert!(!mk(0, true).may_be_underfunded());
    assert!(!mk(1, false).may_be_underfunded());
    assert!(!mk(1, true).may_be_underfunded());
}

fn request(p: &Params, kp: &Keypair, receiver: Vec<u8>) -> WithdrawalRequest {
    WithdrawalRequest::new(Funding::new(p.id(), account(kp)), L1Account(receiver))
}

#[test]
fn withdrawal_signed_by_participant_validates() {
    let (p, a, _) = params(100);
    let req = request(&p, &a, vec![1, 2, 3]);
    let sig = sign(&a, &req.encode());
    assert_eq!(req.validate_sig(&sig), Ok(()));
    assert_eq!(req.funding.participant, account(&a));
    assert_eq!(req.receiver, L1Account(vec![1, 2, 3]));
}

#[test]
fn withdrawal_signed_by_other_key_fails() {
    let (p, a, b) = params(100);
    let req = request(&p, &a, vec![1, 2, 3]);
    let sig = sign(&b, &req.encode());
    assert_eq!(req.validate_sig(&sig), Err(Error::Authentication));
}

#[test]
fn withdrawal_mutated_after_signing_fails() {
    let (p, a, _) = params(100);
    let req = request(&p, &a, vec![1, 2, 3]);
    let sig = sign(&a, &req.encode());
    let mut other_receiver = req.clone();
    other_receiver.receiver = L1Account(vec![1, 2, 4]);
    assert_eq!(other_receiver.validate_sig(&sig), Err(Error::Authentication));
    let mut other_channel = req.clone();
    other_channel.funding.channel = nonce(9);
    assert_eq!(other_channel.validate_sig(&sig), Err(Error::Authentication));
}

#[test]
fn state_signature_is_not_a_withdrawal_signature() {
    let (p, a, b) = params(100);
    let fs = signed(&p, &a, &b, 1, vec![50, 50], false);
    let req = request(&p, &a, vec![9]);
    assert_eq!(req.validate_sig(&fs.sigs[0]), Err(Error::Authentication));
    assert_eq!(fs.state.validate_sig(&fs.sigs[0], &account(&a)), Ok(()));
    assert_eq!(fs.state.validate_sig(&fs.sigs[0], &account(&b)), Err(Error::Authentication));
}

#[test]
fn end_to_end_dispute_then_conclude() {
    let (p, a, b) = params(100);
    let id = p.id();
    let fs = signed(&p, &a, &b, 1, vec![50, 50], false);
    assert_eq!(fs.state.channel, id);
    let disputed = RegisteredState::dispute(fs, &p, 1000).unwrap();
    assert_eq!(disputed.timeout, 1100);
    assert!(!disputed.settled(1099));
    assert!(disputed.settled(1100));
    let fin = signed(&p, &a, &b, 2, vec![30, 70], true);
    let concluded = RegisteredState::conclude(fin, &p).unwrap();
    assert!(concluded.settled(0));
    assert_eq!(concluded.state.version, 2);
    assert_eq!(concluded.state.allocation, vec![30, 70]);
}
