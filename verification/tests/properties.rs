//! Concrete checks of the library's stated laws, its error taxonomy, and
//! the crypto round trip.
use std::collections::hash_map::DefaultHasher;
use std::hash::Hash;
use std::hash::Hasher;

use rsa::RsaPrivateKey;
use rsa::RsaPublicKey;

use science_game::codec::decode_message;
use science_game::codec::encode_message;
use science_game::codec::Message;
use science_game::crypto::decrypt_message;
use science_game::crypto::encrypt_message;
use science_game::game::AccountData;
use science_game::game::Effect;
use science_game::game::Event;
use science_game::game::GameEvent;
use science_game::game::GameStage;
use science_game::game::PlayerJoin;
use science_game::game::ScienceGame;
use science_game::game::ACTION_TIMEOUT;
use science_game::HandleError;

fn hash_content(content: &str) -> String {
    let mut hasher = DefaultHasher::new();
    content.hash(&mut hasher);
    hasher.finish().to_string()
}

/// A session without any cryptographic material: submit is content-blind,
/// and evaluate receives already-decrypted messages.
fn plain_game(reward: u64, names: &[&str]) -> ScienceGame {
    ScienceGame::init_state(
        AccountData {
            coin_assigned: reward,
            public_key: String::new(),
            encrypt_solutions: Vec::new(),
        },
        names
            .iter()
            .map(|n| PlayerJoin { addr: n.to_string(), balance: 0 })
            .collect(),
    )
}

fn submit(state: &mut ScienceGame, effect: &mut Effect, sender: &str, ct: &[u8]) -> Result<(), HandleError> {
    let raw = GameEvent::Submit(ct.to_vec()).serialize().unwrap();
    state.handle_event(effect, Event::Custom { sender: sender.to_string(), raw })
}

fn evaluate(state: &mut ScienceGame, effect: &mut Effect, sender: &str, content: &str) -> Result<(), HandleError> {
    let m = Message { sender: sender.to_string(), content: content.to_string() };
    let raw = GameEvent::Evaluate(m).serialize().unwrap();
    state.handle_event(effect, Event::Custom { sender: "transactor".to_string(), raw })
}

#[test]
fn duplicate_rejection_is_idempotent() {
    let mut state = plain_game(5, &["alice", "bob"]);
    let mut effect = Effect::new();

    submit(&mut state, &mut effect, "alice", b"ct-1").unwrap();
    evaluate(&mut state, &mut effect, "alice", "key-1").unwrap();
    assert_eq!(state.players[0].balance, 5);

    let ledger_before = state.encrypt_solutions.clone();
    let caches_before: Vec<_> =
        state.players.iter().map(|p| p.local_encrypt_solutions.clone()).collect();
    let timeouts_before = effect.action_timeouts.clone();

    // A second evaluation of the same key is a successful no-op.
    submit(&mut state, &mut effect, "bob", b"ct-2").unwrap();
    evaluate(&mut state, &mut effect, "bob", "key-1").unwrap();

    assert_eq!(state.encrypt_solutions, ledger_before);
    assert_eq!(state.players[0].balance, 5);
    assert_eq!(state.players[1].balance, 0);
    for (p, before) in state.players.iter().zip(caches_before.iter()) {
        assert_eq!(&p.local_encrypt_solutions, before);
    }
    assert_eq!(effect.action_timeouts, timeouts_before);
    assert_eq!(state.stage, GameStage::Waiting);
}

#[test]
fn caches_converge_after_evaluation() {
    let mut state = plain_game(1, &["alice", "bob", "carol"]);
    let mut effect = Effect::new();

    submit(&mut state, &mut effect, "bob", b"ct").unwrap();
    evaluate(&mut state, &mut effect, "bob", "result-key").unwrap();

    assert_eq!(state.encrypt_solutions, vec![("result-key".to_string(), "bob".to_string())]);
    for p in &state.players {
        assert_eq!(p.local_encrypt_solutions, state.encrypt_solutions);
    }
}

#[test]
fn queue_is_consumed_in_fifo_order() {
    let mut state = plain_game(1, &["alice", "bob"]);
    let mut effect = Effect::new();

    submit(&mut state, &mut effect, "alice", b"first").unwrap();
    submit(&mut state, &mut effect, "bob", b"second").unwrap();
    assert_eq!(state.tmp_solutions, vec![b"first".to_vec(), b"second".to_vec()]);

    evaluate(&mut state, &mut effect, "alice", "k1").unwrap();
    assert_eq!(state.tmp_solutions, vec![b"second".to_vec()]);

    evaluate(&mut state, &mut effect, "bob", "k2").unwrap();
    assert!(state.tmp_solutions.is_empty());
}

#[test]
fn rewards_grow_by_exactly_the_fixed_amount() {
    let mut state = plain_game(7, &["alice", "bob"]);
    let mut effect = Effect::new();

    submit(&mut state, &mut effect, "alice", b"ct-a").unwrap();
    evaluate(&mut state, &mut effect, "alice", "k-a").unwrap();
    assert_eq!(state.players[0].balance, 7);
    assert_eq!(state.players[1].balance, 0);
    assert_eq!(effect.action_timeouts, vec![("alice".to_string(), ACTION_TIMEOUT)]);

    submit(&mut state, &mut effect, "alice", b"ct-b").unwrap();
    evaluate(&mut state, &mut effect, "alice", "k-b").unwrap();
    assert_eq!(state.players[0].balance, 14);
    assert_eq!(state.players[1].balance, 0);
}

#[test]
fn joining_snapshots_the_ledger() {
    let mut state = plain_game(1, &["alice"]);
    let mut effect = Effect::new();

    submit(&mut state, &mut effect, "alice", b"c1").unwrap();
    evaluate(&mut state, &mut effect, "alice", "k1").unwrap();
    submit(&mut state, &mut effect, "alice", b"c2").unwrap();
    evaluate(&mut state, &mut effect, "alice", "k2").unwrap();

    let joined = Event::Sync {
        new_players: vec![PlayerJoin { addr: "late".to_string(), balance: 3 }],
    };
    state.handle_event(&mut effect, joined).unwrap();

    let late = state.players.last().unwrap();
    assert_eq!(late.addr, "late");
    assert_eq!(late.balance, 3);
    assert_eq!(late.local_encrypt_solutions.len(), 2);
    assert_eq!(late.local_encrypt_solutions, state.encrypt_solutions);
}

#[test]
fn crypto_round_trip() {
    let mut rng = rand::rngs::OsRng;
    let private_key = RsaPrivateKey::new(&mut rng, 1024).unwrap();
    let public_key = RsaPublicKey::from(&private_key);

    let m = Message { sender: "alice".to_string(), content: "crème brûlée".to_string() };
    let c1 = encrypt_message(&m, &public_key).unwrap();
    let c2 = encrypt_message(&m, &public_key).unwrap();
    // The scheme is randomized: the same message encrypts differently.
    assert_ne!(c1, c2);

    let back = decrypt_message(&c1, &private_key).unwrap();
    assert_eq!(back.sender, m.sender);
    assert_eq!(back.content, m.content);
    let back = decrypt_message(&c2, &private_key).unwrap();
    assert_eq!(back.sender, m.sender);
    assert_eq!(back.content, m.content);
}

#[test]
fn message_encoding_round_trip() {
    let m = Message { sender: "player-√2".to_string(), content: String::new() };
    let bytes = encode_message(&m).unwrap();
    let back = decode_message(&bytes).unwrap();
    assert_eq!(back.sender, m.sender);
    assert_eq!(back.content, m.content);

    // Not the encoding of any message.
    assert!(matches!(decode_message(b"xyz"), Err(HandleError::EncodingError)));
    assert!(matches!(
        decode_message(&[255, 255, 255, 255, 0, 0, 0, 0]),
        Err(HandleError::EncodingError)
    ));
}

#[test]
fn event_encoding_round_trip() {
    let raw = GameEvent::Submit(vec![9, 8, 7]).serialize().unwrap();
    match GameEvent::try_parse(&raw).unwrap() {
        GameEvent::Submit(ct) => assert_eq!(ct, vec![9, 8, 7]),
        GameEvent::Evaluate(_) => panic!("wrong event variant"),
    }

    let m = Message { sender: "a".to_string(), content: "b".to_string() };
    let raw = GameEvent::Evaluate(m).serialize().unwrap();
    match GameEvent::try_parse(&raw).unwrap() {
        GameEvent::Evaluate(m) => {
            assert_eq!(m.sender, "a");
            assert_eq!(m.content, "b");
        },
        GameEvent::Submit(_) => panic!("wrong event variant"),
    }
}

#[test]
fn error_taxonomy() {
    let mut state = plain_game(1, &["alice"]);
    let mut effect = Effect::new();

    // A stranger cannot submit.
    assert_eq!(
        submit(&mut state, &mut effect, "mallory", b"ct"),
        Err(HandleError::UnknownParticipant)
    );
    assert!(state.tmp_solutions.is_empty());

    // An evaluation for an unregistered claimant aborts with nothing changed.
    submit(&mut state, &mut effect, "alice", b"ct").unwrap();
    assert_eq!(
        evaluate(&mut state, &mut effect, "mallory", "k"),
        Err(HandleError::UnknownParticipant)
    );
    assert_eq!(state.tmp_solutions.len(), 1);
    assert!(state.encrypt_solutions.is_empty());

    // Malformed payloads are rejected before any state change.
    let queue_before = state.tmp_solutions.clone();
    for raw in [Vec::new(), vec![7u8, 0, 0]] {
        assert_eq!(
            state.handle_event(
                &mut effect,
                Event::Custom { sender: "alice".to_string(), raw },
            ),
            Err(HandleError::DecodeError)
        );
    }
    assert_eq!(state.tmp_solutions, queue_before);

    // Garbage never decrypts; a decrypted non-message never decodes.
    let mut rng = rand::rngs::OsRng;
    let private_key = RsaPrivateKey::new(&mut rng, 1024).unwrap();
    let public_key = RsaPublicKey::from(&private_key);
    assert!(matches!(
        decrypt_message(&[1, 2, 3, 4], &private_key),
        Err(HandleError::CryptoError)
    ));
    let not_a_message = public_key
        .encrypt(&mut rng, rsa::Pkcs1v15Encrypt, b"not a message")
        .unwrap();
    assert!(matches!(
        decrypt_message(&not_a_message, &private_key),
        Err(HandleError::EncodingError)
    ));
}

#[test]
fn reward_scenario_with_duplicate_second_claim() {
    let mut rng = rand::rngs::OsRng;
    let private_key = RsaPrivateKey::new(&mut rng, 1024).unwrap();
    let public_key = RsaPublicKey::from(&private_key);

    let mut state = ScienceGame::init_state(
        AccountData {
            coin_assigned: 1,
            public_key: String::new(),
            encrypt_solutions: Vec::new(),
        },
        vec![
            PlayerJoin { addr: "A".to_string(), balance: 0 },
            PlayerJoin { addr: "B".to_string(), balance: 0 },
        ],
    );
    let mut effect = Effect::new();

    // A submits a ciphertext of {A, "x"}; the evaluator decrypts, hashes,
    // and evaluates {A, hash("x")}.
    let m = Message { sender: "A".to_string(), content: "x".to_string() };
    let ct = encrypt_message(&m, &public_key).unwrap();
    submit(&mut state, &mut effect, "A", &ct).unwrap();
    assert_eq!(state.stage, GameStage::Submitted);

    let decrypted = decrypt_message(&state.tmp_solutions[0], &private_key).unwrap();
    let key = hash_content(&decrypted.content);
    evaluate(&mut state, &mut effect, &decrypted.sender, &key).unwrap();

    assert_eq!(state.encrypt_solutions, vec![(key.clone(), "A".to_string())]);
    assert_eq!(state.players[0].balance, 1);
    assert_eq!(state.stage, GameStage::Submitted);

    // B's submission hashes to the same key: the evaluation is a no-op.
    let m = Message { sender: "B".to_string(), content: "x".to_string() };
    let ct = encrypt_message(&m, &public_key).unwrap();
    submit(&mut state, &mut effect, "B", &ct).unwrap();
    let decrypted = decrypt_message(&state.tmp_solutions[0], &private_key).unwrap();
    let key2 = hash_content(&decrypted.content);
    assert_eq!(key2, key);
    evaluate(&mut state, &mut effect, &decrypted.sender, &key2).unwrap();

    assert_eq!(state.encrypt_solutions, vec![(key, "A".to_string())]);
    assert_eq!(state.players[1].balance, 0);
    assert_eq!(state.stage, GameStage::Waiting);
}
