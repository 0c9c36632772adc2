//! The game session and its state machine.
//!
//! A session owns an ordered registry of participants, a FIFO queue of
//! not-yet-evaluated ciphertexts, and the authoritative ledger of accepted
//! results.  Two domain actions (submit and evaluate) and a join action
//! mutate it; every transition's exact effect is stated against the spec
//! transitions below, and the laws at the end of the module are proved from
//! those.
use vstd::prelude::*;

use crate::codec::decode_message;
use crate::codec::spec_decode_message;
use crate::codec::spec_encode_message;
use crate::codec::spec_message_encodable;
use crate::codec::encode_message;
use crate::codec::lemma_message_round_trip;
use crate::codec::Message;
use crate::codec::MessageV;
use crate::HandleError;
use vstd::slice::slice_subrange;
use vstd::slice::slice_to_vec;

verus! {

/// How long (in milliseconds) the reaction window armed after an accepted
/// evaluation stays open.
pub const ACTION_TIMEOUT: u64 = 30_000;

/// Whether the most recent submission of the session has been picked up for
/// evaluation.  A coarse liveness signal; the pending queue, not the stage,
/// tracks per-submission state.
#[derive(Debug, PartialEq, Eq, Structural)]
pub enum GameStage {
    Waiting,
    Submitted,
    Evaluated,
}

/// One participant: identity, balance, and a locally cached copy of the
/// accepted-result ledger.
pub struct Player {
    pub addr: String,
    pub balance: u64,
    pub local_encrypt_solutions: Vec<(String, String)>,
}

/// A newly admitted participant, as the surrounding runtime announces it.
pub struct PlayerJoin {
    pub addr: String,
    pub balance: u64,
}

/// The payload the session is created from: the reward per accepted result,
/// the evaluator's public key in PEM form, and the initial result ledger.
pub struct AccountData {
    pub coin_assigned: u64,
    pub public_key: String,
    pub encrypt_solutions: Vec<(String, String)>,
}

/// The two domain actions.  A submission carries an opaque ciphertext; an
/// evaluation carries the already-decrypted message.
pub enum GameEvent {
    Submit(Vec<u8>),
    Evaluate(Message),
}

/// An action as the surrounding runtime delivers it: a raw custom payload
/// from a sender, or a batch of newly joining participants.
pub enum Event {
    Custom { sender: String, raw: Vec<u8> },
    Sync { new_players: Vec<PlayerJoin> },
}

/// The external actions a transition asks the runtime to perform: one armed
/// reaction window per accepted evaluation, keyed by participant identity.
pub struct Effect {
    pub action_timeouts: Vec<(String, u64)>,
}

/// The full live state of one session.
pub struct ScienceGame {
    pub players: Vec<Player>,
    pub stage: GameStage,
    pub coin_assigned: u64,
    pub public_key: String,
    pub encrypt_solutions: Vec<(String, String)>,
    pub tmp_solutions: Vec<Vec<u8>>,
}

/// The session exposes no durable cross-session state: its checkpoint
/// marker is empty.
#[derive(PartialEq, Eq, Structural)]
pub struct ScienceGameCheckpoint {}

// ---------------------------------------------------------------------------
// Mathematical views
// ---------------------------------------------------------------------------
/// A ledger (or a cached copy of one) as a sequence of key/claimant pairs of
/// character sequences, in insertion order.
pub open spec fn ledger_view(l: Seq<(String, String)>) -> Seq<(Seq<char>, Seq<char>)> {
    l.map_values(|p: (String, String)| (p.0@, p.1@))
}

#[verifier::ext_equal]
pub ghost struct PlayerV {
    pub addr: Seq<char>,
    pub balance: u64,
    pub local_encrypt_solutions: Seq<(Seq<char>, Seq<char>)>,
}

#[verifier::ext_equal]
pub ghost struct PlayerJoinV {
    pub addr: Seq<char>,
    pub balance: u64,
}

#[verifier::ext_equal]
pub ghost struct AccountDataV {
    pub coin_assigned: u64,
    pub public_key: Seq<char>,
    pub encrypt_solutions: Seq<(Seq<char>, Seq<char>)>,
}

#[verifier::ext_equal]
pub ghost struct GameV {
    pub players: Seq<PlayerV>,
    pub stage: GameStage,
    pub coin_assigned: u64,
    pub public_key: Seq<char>,
    pub encrypt_solutions: Seq<(Seq<char>, Seq<char>)>,
    pub tmp_solutions: Seq<Seq<u8>>,
}

#[verifier::ext_equal]
pub ghost enum GameEventV {
    Submit(Seq<u8>),
    Evaluate(MessageV),
}

impl View for Player {
    type V = PlayerV;

    open spec fn view(&self) -> PlayerV {
        PlayerV {
            addr: self.addr@,
            balance: self.balance,
            local_encrypt_solutions: ledger_view(self.local_encrypt_solutions@),
        }
    }
}

impl View for PlayerJoin {
    type V = PlayerJoinV;

    open spec fn view(&self) -> PlayerJoinV {
        PlayerJoinV { addr: self.addr@, balance: self.balance }
    }
}

impl View for AccountData {
    type V = AccountDataV;

    open spec fn view(&self) -> AccountDataV {
        AccountDataV {
            coin_assigned: self.coin_assigned,
            public_key: self.public_key@,
            encrypt_solutions: ledger_view(self.encrypt_solutions@),
        }
    }
}

impl View for GameEvent {
    type V = GameEventV;

    open spec fn view(&self) -> GameEventV {
        match self {
            GameEvent::Submit(ct) => GameEventV::Submit(ct@),
            GameEvent::Evaluate(m) => GameEventV::Evaluate(m@),
        }
    }
}

impl View for Effect {
    type V = Seq<(Seq<char>, u64)>;

    open spec fn view(&self) -> Seq<(Seq<char>, u64)> {
        self.action_timeouts@.map_values(|t: (String, u64)| (t.0@, t.1))
    }
}

impl View for ScienceGame {
    type V = GameV;

    open spec fn view(&self) -> GameV {
        GameV {
            players: self.players@.map_values(|p: Player| p@),
            stage: self.stage,
            coin_assigned: self.coin_assigned,
            public_key: self.public_key@,
            encrypt_solutions: ledger_view(self.encrypt_solutions@),
            tmp_solutions: self.tmp_solutions@.map_values(|s: Vec<u8>| s@),
        }
    }
}

// ---------------------------------------------------------------------------
// Spec-level state machine
// ---------------------------------------------------------------------------
/// A key is present in a ledger.
pub open spec fn ledger_has_key(l: Seq<(Seq<char>, Seq<char>)>, k: Seq<char>) -> bool {
    exists|i: int| 0 <= i < l.len() && l[i].0 == k
}

/// A well-formed ledger maps each key at most once: a key, once present, is
/// never overwritten.
pub open spec fn ledger_wf(l: Seq<(Seq<char>, Seq<char>)>) -> bool {
    forall|i: int, j: int| 0 <= i < j < l.len() ==> l[i].0 != l[j].0
}

/// An identity is registered.
pub open spec fn has_player(ps: Seq<PlayerV>, addr: Seq<char>) -> bool {
    exists|i: int| 0 <= i < ps.len() && ps[i].addr == addr
}

/// The index of the first participant with the given identity, if any.
pub open spec fn spec_find_player(ps: Seq<PlayerV>, addr: Seq<char>) -> Option<int>
    decreases ps.len(),
{
    if ps.len() == 0 {
        None
    } else if ps[0].addr == addr {
        Some(0)
    } else {
        match spec_find_player(ps.drop_first(), addr) {
            None => None,
            Some(i) => Some(i + 1),
        }
    }
}

/// The queue with its oldest entry consumed (unchanged when empty).
pub open spec fn pop_front(q: Seq<Seq<u8>>) -> Seq<Seq<u8>> {
    if q.len() == 0 {
        q
    } else {
        q.drop_first()
    }
}

/// The session invariant: the result ledger never holds a key twice.
pub open spec fn game_wf(g: GameV) -> bool {
    ledger_wf(g.encrypt_solutions)
}

/// The one balance a domain action can credit must have room for the fixed
/// reward: a machine limit, demanded only where a fresh evaluation would
/// credit a registered claimant.
pub open spec fn credit_headroom(g: GameV, e: GameEventV) -> bool {
    match e {
        GameEventV::Submit(_) => true,
        GameEventV::Evaluate(m) => !ledger_has_key(g.encrypt_solutions, m.content)
            ==> match spec_find_player(g.players, m.sender) {
            Some(i) => g.players[i].balance + g.coin_assigned <= u64::MAX,
            None => true,
        },
    }
}

/// [`credit_headroom`] for a runtime event: only the action a custom
/// payload parses to can credit anyone.
pub open spec fn event_headroom(g: GameV, event: Event) -> bool {
    match event {
        Event::Custom { sender, raw } => match spec_parse_event(raw@) {
            Some(e) => credit_headroom(g, e),
            None => true,
        },
        Event::Sync { .. } => true,
    }
}

/// Submit: the ciphertext joins the tail of the pending queue and the stage
/// records that a submission is in flight.
pub open spec fn submit_post(g: GameV, ct: Seq<u8>) -> GameV {
    GameV { tmp_solutions: g.tmp_solutions.push(ct), stage: GameStage::Submitted, ..g }
}

/// Evaluate of an already-present key: the queue slot is consumed and the
/// stage resets; nothing else moves.  A recognized no-op, not an error.
pub open spec fn duplicate_post(g: GameV) -> GameV {
    GameV { tmp_solutions: pop_front(g.tmp_solutions), stage: GameStage::Waiting, ..g }
}

/// Evaluate of a fresh key: the queue slot is consumed, the first
/// participant with the sender's identity is credited the fixed reward, the
/// key is recorded against the sender, and every participant's cache is
/// overwritten with the updated ledger.
pub open spec fn evaluate_post(g: GameV, sender: Seq<char>, content: Seq<char>) -> GameV {
    let i = spec_find_player(g.players, sender)->Some_0;
    let nl = g.encrypt_solutions.push((content, sender));
    GameV {
        players: Seq::new(
            g.players.len(),
            |j: int|
                PlayerV {
                    addr: g.players[j].addr,
                    balance: if j == i {
                        (g.players[j].balance + g.coin_assigned) as u64
                    } else {
                        g.players[j].balance
                    },
                    local_encrypt_solutions: nl,
                },
        ),
        encrypt_solutions: nl,
        tmp_solutions: pop_front(g.tmp_solutions),
        ..g
    }
}

/// Join: each newcomer is appended with a cache initialized to a copy of the
/// ledger as it stands at join time.
pub open spec fn sync_post(g: GameV, new_players: Seq<PlayerJoinV>) -> GameV {
    GameV {
        players: g.players + new_players.map_values(
            |p: PlayerJoinV|
                PlayerV {
                    addr: p.addr,
                    balance: p.balance,
                    local_encrypt_solutions: g.encrypt_solutions,
                },
        ),
        ..g
    }
}

/// The session as first constructed: the given participants, each with a
/// cache equal to the initial ledger, an empty queue, and the waiting stage.
pub open spec fn init_post(data: AccountDataV, joins: Seq<PlayerJoinV>) -> GameV {
    GameV {
        players: joins.map_values(
            |p: PlayerJoinV|
                PlayerV {
                    addr: p.addr,
                    balance: p.balance,
                    local_encrypt_solutions: data.encrypt_solutions,
                },
        ),
        stage: GameStage::Waiting,
        coin_assigned: data.coin_assigned,
        public_key: data.public_key,
        encrypt_solutions: data.encrypt_solutions,
        tmp_solutions: Seq::empty(),
    }
}

/// Whether a domain action succeeds.  A submission needs a registered
/// sender; an evaluation succeeds on a duplicate key (the no-op) or on a
/// registered claimant.
pub open spec fn custom_ok(g: GameV, sender: Seq<char>, e: GameEventV) -> bool {
    match e {
        GameEventV::Submit(_) => has_player(g.players, sender),
        GameEventV::Evaluate(m) => ledger_has_key(g.encrypt_solutions, m.content) || has_player(
            g.players,
            m.sender,
        ),
    }
}

/// The state after a domain action.  A failed precondition leaves the state
/// exactly as it was: transitions are atomic.
pub open spec fn custom_post(g: GameV, sender: Seq<char>, e: GameEventV) -> GameV {
    match e {
        GameEventV::Submit(ct) => if has_player(g.players, sender) {
            submit_post(g, ct)
        } else {
            g
        },
        GameEventV::Evaluate(m) => if ledger_has_key(g.encrypt_solutions, m.content) {
            duplicate_post(g)
        } else if has_player(g.players, m.sender) {
            evaluate_post(g, m.sender, m.content)
        } else {
            g
        },
    }
}

/// The timers armed by a domain action: one bounded reaction window, keyed
/// to the claimant, after each accepted (non-duplicate) evaluation.
pub open spec fn custom_timeouts(
    t: Seq<(Seq<char>, u64)>,
    g: GameV,
    e: GameEventV,
) -> Seq<(Seq<char>, u64)> {
    match e {
        GameEventV::Submit(_) => t,
        GameEventV::Evaluate(m) => if !ledger_has_key(g.encrypt_solutions, m.content)
            && has_player(g.players, m.sender) {
            t.push((m.sender, ACTION_TIMEOUT))
        } else {
            t
        },
    }
}

/// How `spec_find_player` relates to `has_player`: it returns the first
/// matching index, and returns one exactly when the identity is registered.
pub proof fn lemma_find_player_props(ps: Seq<PlayerV>, addr: Seq<char>)
    ensures
        spec_find_player(ps, addr) is Some <==> has_player(ps, addr),
        spec_find_player(ps, addr) matches Some(i) ==> 0 <= i < ps.len() && ps[i].addr == addr
            && (forall|j: int| 0 <= j < i ==> ps[j].addr != addr),
    decreases ps.len(),
{
    if ps.len() > 0 && ps[0].addr != addr {
        lemma_find_player_props(ps.drop_first(), addr);
        assert(forall|j: int| 0 < j < ps.len() ==> ps[j] == ps.drop_first()[j - 1]);
        if has_player(ps, addr) {
            let w = choose|i: int| 0 <= i < ps.len() && ps[i].addr == addr;
            assert(ps.drop_first()[w - 1].addr == addr);
        }
        match spec_find_player(ps.drop_first(), addr) {
            Some(i) => {
                assert(ps[i + 1].addr == addr);
            },
            None => {},
        }
    }
}

// ---------------------------------------------------------------------------
// Executable helpers
// ---------------------------------------------------------------------------
/// Whether a key is already present in a ledger.
pub fn ledger_contains_key(l: &Vec<(String, String)>, key: &String) -> (r: bool)
    ensures
        r == ledger_has_key(ledger_view(l@), key@),
{
    let mut i: usize = 0;
    while i < l.len()
        invariant
            i <= l.len(),
            forall|j: int| 0 <= j < i ==> ledger_view(l@)[j].0 != key@,
        decreases l.len() - i,
    {
        if l[i].0 == *key {
            assert(ledger_view(l@)[i as int].0 == key@);
            return true;
        }
        i += 1;
    }
    false
}

/// An owned copy of a ledger, entry by entry.
pub fn clone_ledger(src: &Vec<(String, String)>) -> (r: Vec<(String, String)>)
    ensures
        r@ == src@,
{
    let mut r: Vec<(String, String)> = Vec::new();
    let mut i: usize = 0;
    while i < src.len()
        invariant
            i <= src.len(),
            r@ =~= src@.take(i as int),
        decreases src.len() - i,
    {
        let k = src[i].0.clone();
        let v = src[i].1.clone();
        r.push((k, v));
        i += 1;
    }
    proof {
        assert(r@ =~= src@);
    }
    r
}

/// Looks a participant up by identity; the first match wins.
///
/// Fails with `UnknownParticipant` exactly when no participant has that
/// identity.
pub fn find_player(players: &Vec<Player>, addr: &String) -> (r: Result<usize, HandleError>)
    ensures
        match r {
            Ok(i) => spec_find_player(players@.map_values(|p: Player| p@), addr@) == Some(i as int),
            Err(e) => !has_player(players@.map_values(|p: Player| p@), addr@) && e
                == HandleError::UnknownParticipant,
        },
{
    let ghost ps = players@.map_values(|p: Player| p@);
    let mut i: usize = 0;
    while i < players.len()
        invariant
            i <= players.len(),
            forall|j: int| 0 <= j < i ==> ps[j].addr != addr@,
        decreases players.len() - i,
    {
        if players[i].addr == *addr {
            proof {
                lemma_find_player_props(ps, addr@);
                assert(ps[i as int].addr == addr@);
            }
            return Ok(i);
        }
        i += 1;
    }
    proof {
        lemma_find_player_props(ps, addr@);
    }
    Err(HandleError::UnknownParticipant)
}

/// The byte encoding of a domain action: a tag byte, then either the raw
/// ciphertext (submit) or the canonical message encoding (evaluate).
pub open spec fn spec_event_bytes(e: GameEventV) -> Seq<u8> {
    match e {
        GameEventV::Submit(ct) => seq![0u8] + ct,
        GameEventV::Evaluate(m) => seq![1u8] + spec_encode_message(m),
    }
}

/// The inverse reading of a domain action; `None` on any malformed payload.
pub open spec fn spec_parse_event(b: Seq<u8>) -> Option<GameEventV> {
    if b.len() < 1 {
        None
    } else if b[0] == 0u8 {
        Some(GameEventV::Submit(b.drop_first()))
    } else if b[0] == 1u8 {
        match spec_decode_message(b.drop_first()) {
            Some(m) => Some(GameEventV::Evaluate(m)),
            None => None,
        }
    } else {
        None
    }
}

impl GameEvent {
    /// Reads a domain action back from a raw payload.
    ///
    /// Fails with `DecodeError` exactly when the payload is not the encoding
    /// of one, before any state is touched.
    pub fn try_parse(raw: &[u8]) -> (r: Result<GameEvent, HandleError>)
        ensures
            match r {
                Ok(e) => spec_parse_event(raw@) == Some(e@),
                Err(err) => spec_parse_event(raw@) is None && err == HandleError::DecodeError,
            },
    {
        if raw.len() < 1 {
            return Err(HandleError::DecodeError);
        }
        let tag = raw[0];
        let rest = slice_subrange(raw, 1, raw.len());
        proof {
            assert(rest@ =~= raw@.drop_first());
        }
        if tag == 0 {
            Ok(GameEvent::Submit(slice_to_vec(rest)))
        } else if tag == 1 {
            match decode_message(rest) {
                Ok(m) => Ok(GameEvent::Evaluate(m)),
                Err(_) => Err(HandleError::DecodeError),
            }
        } else {
            Err(HandleError::DecodeError)
        }
    }

    /// Writes a domain action as a raw payload.
    ///
    /// Fails with `EncodingError` exactly when an evaluation's message does
    /// not fit the wire format.
    pub fn serialize(&self) -> (r: Result<Vec<u8>, HandleError>)
        ensures
            match r {
                Ok(b) => b@ == spec_event_bytes(self@),
                Err(e) => (self@ matches GameEventV::Evaluate(m) && !spec_message_encodable(m))
                    && e == HandleError::EncodingError,
            },
    {
        match self {
            GameEvent::Submit(ct) => {
                let mut out: Vec<u8> = Vec::new();
                out.push(0u8);
                let mut i: usize = 0;
                while i < ct.len()
                    invariant
                        i <= ct.len(),
                        out@ =~= seq![0u8] + ct@.take(i as int),
                    decreases ct.len() - i,
                {
                    out.push(ct[i]);
                    i += 1;
                }
                proof {
                    assert(out@ =~= spec_event_bytes(self@));
                }
                Ok(out)
            },
            GameEvent::Evaluate(m) => {
                let mut body = match encode_message(m) {
                    Ok(b) => b,
                    Err(e) => {
                        return Err(e);
                    },
                };
                let mut out: Vec<u8> = Vec::new();
                out.push(1u8);
                out.append(&mut body);
                proof {
                    assert(out@ =~= spec_event_bytes(self@));
                }
                Ok(out)
            },
        }
    }
}

/// Law: parsing is the exact inverse of writing.  Every action whose message
/// fits the wire format comes back unchanged from its own payload.
pub proof fn lemma_event_round_trip(e: GameEventV)
    requires
        e matches GameEventV::Evaluate(m) ==> spec_message_encodable(m),
    ensures
        spec_parse_event(spec_event_bytes(e)) == Some(e),
{
    match e {
        GameEventV::Submit(ct) => {
            assert((seq![0u8] + ct).drop_first() =~= ct);
        },
        GameEventV::Evaluate(m) => {
            lemma_message_round_trip(m);
            assert((seq![1u8] + spec_encode_message(m)).drop_first() =~= spec_encode_message(m));
        },
    }
}

impl Effect {
    /// An effect with nothing requested yet.
    pub fn new() -> (r: Effect)
        ensures
            r@ == Seq::<(Seq<char>, u64)>::empty(),
    {
        let r = Effect { action_timeouts: Vec::new() };
        proof {
            assert(r@ =~= Seq::<(Seq<char>, u64)>::empty());
        }
        r
    }

    /// Asks the runtime to arm a bounded timer keyed to a participant.
    pub fn action_timeout(&mut self, addr: String, timeout_ms: u64)
        ensures
            final(self)@ == old(self)@.push((addr@, timeout_ms)),
    {
        let ghost pre = self@;
        self.action_timeouts.push((addr, timeout_ms));
        proof {
            assert(self@ =~= pre.push((addr@, timeout_ms)));
        }
    }
}

impl ScienceGame {
    /// Builds the session from its initialization payload: every initial
    /// participant starts with a cache equal to the initial ledger, the
    /// queue is empty, and the stage is waiting.
    pub fn init_state(init_account: AccountData, init_players: Vec<PlayerJoin>) -> (r: ScienceGame)
        requires
            ledger_wf(init_account@.encrypt_solutions),
        ensures
            r@ == init_post(init_account@, init_players@.map_values(|p: PlayerJoin| p@)),
            game_wf(r@),
    {
        let ghost accv = init_account@;
        let ghost joinsv = init_players@.map_values(|p: PlayerJoin| p@);
        let mut players: Vec<Player> = Vec::new();
        let mut i: usize = 0;
        while i < init_players.len()
            invariant
                i <= init_players.len(),
                players@.len() == i,
                forall|k: int|
                    0 <= k < i ==> players@.map_values(|p: Player| p@)[k] == (PlayerV {
                        addr: joinsv[k].addr,
                        balance: joinsv[k].balance,
                        local_encrypt_solutions: accv.encrypt_solutions,
                    }),
            decreases init_players.len() - i,
        {
            let cache = clone_ledger(&init_account.encrypt_solutions);
            let p = Player {
                addr: init_players[i].addr.clone(),
                balance: init_players[i].balance,
                local_encrypt_solutions: cache,
            };
            players.push(p);
            i += 1;
        }
        let r = ScienceGame {
            players,
            stage: GameStage::Waiting,
            coin_assigned: init_account.coin_assigned,
            public_key: init_account.public_key,
            encrypt_solutions: init_account.encrypt_solutions,
            tmp_solutions: Vec::new(),
        };
        proof {
            assert(r@ =~~= init_post(accv, joinsv));
        }
        r
    }

    /// Handles one domain action.
    ///
    /// The new state is exactly `custom_post` of the old one, the armed
    /// timers exactly `custom_timeouts`, success exactly `custom_ok`, and
    /// the only error is an unregistered identity.  A failed action leaves
    /// everything unchanged.
    pub fn custom_handle_event(
        &mut self,
        effect: &mut Effect,
        sender: String,
        event: GameEvent,
    ) -> (r: Result<(), HandleError>)
        requires
            game_wf(old(self)@),
            credit_headroom(old(self)@, event@),
        ensures
            game_wf(final(self)@),
            final(self)@ == custom_post(old(self)@, sender@, event@),
            final(effect)@ == custom_timeouts(old(effect)@, old(self)@, event@),
            r is Ok <==> custom_ok(old(self)@, sender@, event@),
            r is Err ==> r == Err::<(), HandleError>(HandleError::UnknownParticipant),
    {
        match event {
            GameEvent::Submit(encrypt_solution) => {
                let mut found = false;
                let mut i: usize = 0;
                while i < self.players.len()
                    invariant
                        i <= self.players.len(),
                        found <==> exists|j: int|
                            0 <= j < i && old(self)@.players[j].addr == sender@,
                    decreases self.players.len() - i,
                {
                    if sender == self.players[i].addr {
                        found = true;
                        proof {
                            assert(old(self)@.players[i as int].addr == sender@);
                        }
                    }
                    i += 1;
                }
                if !found {
                    return Err(HandleError::UnknownParticipant);
                }
                self.tmp_solutions.push(encrypt_solution);
                self.stage = GameStage::Submitted;
                proof {
                    assert(self@ =~~= submit_post(old(self)@, encrypt_solution@));
                }
                Ok(())
            },
            GameEvent::Evaluate(message) => {
                let Message { sender: msg_sender, content } = message;
                if ledger_contains_key(&self.encrypt_solutions, &content) {
                    if self.tmp_solutions.len() > 0 {
                        let _ = self.tmp_solutions.remove(0);
                    }
                    self.stage = GameStage::Waiting;
                    proof {
                        assert(self@.tmp_solutions =~= pop_front(old(self)@.tmp_solutions));
                        assert(self@ =~~= duplicate_post(old(self)@));
                    }
                    return Ok(());
                }
                let idx = match find_player(&self.players, &msg_sender) {
                    Ok(i) => i,
                    Err(e) => {
                        return Err(e);
                    },
                };
                proof {
                    lemma_find_player_props(old(self)@.players, msg_sender@);
                    assert(old(self)@.players[idx as int].balance + old(self)@.coin_assigned
                        <= u64::MAX);
                }
                if self.tmp_solutions.len() > 0 {
                    let _ = self.tmp_solutions.remove(0);
                }
                let ghost contentv = content@;
                let claimant = self.players[idx].addr.clone();
                self.encrypt_solutions.push((content, claimant));
                proof {
                    assert(self@.encrypt_solutions =~= old(self)@.encrypt_solutions.push(
                        (contentv, msg_sender@),
                    ));
                }
                let reaction_addr = self.players[idx].addr.clone();
                effect.action_timeout(reaction_addr, ACTION_TIMEOUT);
                let reward = self.coin_assigned;
                let ghost mid = self@;
                let n = self.players.len();
                let mut j: usize = 0;
                while j < n
                    invariant
                        j <= n,
                        idx < n,
                        n == mid.players.len(),
                        self.players@.len() == n,
                        self@.encrypt_solutions == mid.encrypt_solutions,
                        self@.stage == mid.stage,
                        self@.coin_assigned == mid.coin_assigned,
                        self@.public_key == mid.public_key,
                        self@.tmp_solutions == mid.tmp_solutions,
                        forall|k: int| j <= k < n ==> self@.players[k] == mid.players[k],
                        forall|k: int|
                            0 <= k < j ==> self@.players[k] == (PlayerV {
                                addr: mid.players[k].addr,
                                balance: if k == idx {
                                    (mid.players[k].balance + reward) as u64
                                } else {
                                    mid.players[k].balance
                                },
                                local_encrypt_solutions: mid.encrypt_solutions,
                            }),
                    decreases n - j,
                {
                    let cache = clone_ledger(&self.encrypt_solutions);
                    let bal = if j == idx {
                        self.players[j].balance + reward
                    } else {
                        self.players[j].balance
                    };
                    let addr_c = self.players[j].addr.clone();
                    let p = Player { addr: addr_c, balance: bal, local_encrypt_solutions: cache };
                    let ghost pre_players = self.players@;
                    let ghost pv = p@;
                    self.players[j] = p;
                    proof {
                        assert(self.players@ == pre_players.update(j as int, p));
                        assert(self@.players =~~= pre_players.map_values(|q: Player| q@).update(
                            j as int,
                            pv,
                        ));
                        assert(pv.addr == mid.players[j as int].addr);
                        assert(pv.local_encrypt_solutions == mid.encrypt_solutions);
                    }
                    j += 1;
                }
                proof {
                    assert(self@ =~~= evaluate_post(old(self)@, msg_sender@, contentv));
                }
                Ok(())
            },
        }
    }

    /// Routes one runtime event: a custom payload is parsed and handled as a
    /// domain action (a malformed one is rejected with `DecodeError` before
    /// any state change), and a join batch appends each newcomer with a
    /// cache equal to the ledger at join time.
    pub fn handle_event(&mut self, effect: &mut Effect, event: Event) -> (r: Result<
        (),
        HandleError,
    >)
        requires
            game_wf(old(self)@),
            event_headroom(old(self)@, event),
        ensures
            game_wf(final(self)@),
            match event {
                Event::Custom { sender, raw } => match spec_parse_event(raw@) {
                    Some(e) => final(self)@ == custom_post(old(self)@, sender@, e)
                        && final(effect)@ == custom_timeouts(old(effect)@, old(self)@, e)
                        && (r is Ok <==> custom_ok(old(self)@, sender@, e))
                        && (r is Err ==> r == Err::<(), HandleError>(HandleError::UnknownParticipant)),
                    None => r == Err::<(), HandleError>(HandleError::DecodeError) && final(self)@
                        == old(self)@ && final(effect)@ == old(effect)@,
                },
                Event::Sync { new_players } => r is Ok && final(self)@ == sync_post(
                    old(self)@,
                    new_players@.map_values(|p: PlayerJoin| p@),
                ) && final(effect)@ == old(effect)@,
            },
    {
        match event {
            Event::Custom { sender, raw } => {
                let ge = match GameEvent::try_parse(raw.as_slice()) {
                    Ok(g) => g,
                    Err(e) => {
                        return Err(e);
                    },
                };
                self.custom_handle_event(effect, sender, ge)
            },
            Event::Sync { new_players } => {
                let ghost joinsv = new_players@.map_values(|p: PlayerJoin| p@);
                let ghost pre = self@;
                let n = new_players.len();
                let mut k: usize = 0;
                while k < n
                    invariant
                        k <= n,
                        n == new_players@.len(),
                        self@.stage == pre.stage,
                        self@.coin_assigned == pre.coin_assigned,
                        self@.public_key == pre.public_key,
                        self@.encrypt_solutions == pre.encrypt_solutions,
                        self@.tmp_solutions == pre.tmp_solutions,
                        self@.players.len() == pre.players.len() + k,
                        forall|t: int|
                            0 <= t < pre.players.len() ==> self@.players[t] == pre.players[t],
                        forall|t: int|
                            0 <= t < k ==> self@.players[pre.players.len() + t] == (PlayerV {
                                addr: joinsv[t].addr,
                                balance: joinsv[t].balance,
                                local_encrypt_solutions: pre.encrypt_solutions,
                            }),
                    decreases n - k,
                {
                    let cache = clone_ledger(&self.encrypt_solutions);
                    let p = Player {
                        addr: new_players[k].addr.clone(),
                        balance: new_players[k].balance,
                        local_encrypt_solutions: cache,
                    };
                    self.players.push(p);
                    k += 1;
                }
                proof {
                    assert(self@ =~~= sync_post(pre, joinsv));
                }
                Ok(())
            },
        }
    }

    /// Consumes the session into its (empty) checkpoint marker.
    pub fn into_checkpoint(self) -> (r: ScienceGameCheckpoint)
        ensures
            r == (ScienceGameCheckpoint {  }),
    {
        ScienceGameCheckpoint {  }
    }
}

// ---------------------------------------------------------------------------
// Laws
// ---------------------------------------------------------------------------
/// Law: duplicate rejection is idempotent.  Evaluating a message whose key
/// is already in the ledger succeeds, leaves the ledger, every balance and
/// every cache unchanged, arms no timer, and resets the stage to waiting.
pub proof fn lemma_duplicate_rejection(
    g: GameV,
    t: Seq<(Seq<char>, u64)>,
    sender: Seq<char>,
    m: MessageV,
)
    requires
        ledger_has_key(g.encrypt_solutions, m.content),
    ensures
        custom_ok(g, sender, GameEventV::Evaluate(m)),
        custom_timeouts(t, g, GameEventV::Evaluate(m)) == t,
        ({
            let p = custom_post(g, sender, GameEventV::Evaluate(m));
            &&& p.encrypt_solutions == g.encrypt_solutions
            &&& p.players.len() == g.players.len()
            &&& forall|i: int| 0 <= i < g.players.len() ==> p.players[i] == g.players[i]
            &&& p.stage == GameStage::Waiting
        }),
{
}

/// Law: cache convergence.  After any successful non-duplicate evaluation,
/// every participant's local cache equals the result ledger exactly.
pub proof fn lemma_cache_convergence(g: GameV, sender: Seq<char>, m: MessageV)
    requires
        !ledger_has_key(g.encrypt_solutions, m.content),
        has_player(g.players, m.sender),
    ensures
        ({
            let p = custom_post(g, sender, GameEventV::Evaluate(m));
            forall|i: int|
                0 <= i < p.players.len() ==> p.players[i].local_encrypt_solutions
                    == p.encrypt_solutions
        }),
{
}

/// Law: strict FIFO, in general.  A submission that takes effect appends
/// its ciphertext at the tail and nothing else of the queue moves; an
/// evaluation that takes effect (fresh or duplicate) consumes exactly the
/// oldest entry; a failed action leaves the queue untouched.
pub proof fn lemma_fifo_general(g: GameV, sender: Seq<char>, e: GameEventV)
    ensures
        ({
            let q = custom_post(g, sender, e).tmp_solutions;
            &&& (e matches GameEventV::Submit(ct) ==> (custom_ok(g, sender, e) ==> q
                == g.tmp_solutions.push(ct)))
            &&& (e is Evaluate && custom_ok(g, sender, e) ==> q == pop_front(g.tmp_solutions))
            &&& (!custom_ok(g, sender, e) ==> q == g.tmp_solutions)
        }),
{
}

/// Law: FIFO consumption.  After two submissions into an empty queue, the
/// queue holds them in arrival order; the first successful evaluation
/// consumes the first submission's slot, the second the second's.
pub proof fn lemma_fifo_consumption(
    g: GameV,
    s1: Seq<char>,
    s2: Seq<char>,
    c1: Seq<u8>,
    c2: Seq<u8>,
    t1: Seq<char>,
    t2: Seq<char>,
    m1: MessageV,
    m2: MessageV,
)
    requires
        g.tmp_solutions.len() == 0,
        has_player(g.players, s1),
        has_player(g.players, s2),
    ensures
        ({
            let g1 = custom_post(g, s1, GameEventV::Submit(c1));
            let g2 = custom_post(g1, s2, GameEventV::Submit(c2));
            let g3 = custom_post(g2, t1, GameEventV::Evaluate(m1));
            let g4 = custom_post(g3, t2, GameEventV::Evaluate(m2));
            &&& g2.tmp_solutions == seq![c1, c2]
            &&& (custom_ok(g2, t1, GameEventV::Evaluate(m1)) ==> g3.tmp_solutions == seq![c2])
            &&& (custom_ok(g2, t1, GameEventV::Evaluate(m1)) && custom_ok(
                g3,
                t2,
                GameEventV::Evaluate(m2),
            ) ==> g4.tmp_solutions == Seq::<Seq<u8>>::empty())
        }),
{
    let g1 = custom_post(g, s1, GameEventV::Submit(c1));
    let g2 = custom_post(g1, s2, GameEventV::Submit(c2));
    assert(g1.tmp_solutions =~= seq![c1]);
    assert(g2.tmp_solutions =~= seq![c1, c2]);
    let g3 = custom_post(g2, t1, GameEventV::Evaluate(m1));
    if custom_ok(g2, t1, GameEventV::Evaluate(m1)) {
        if has_player(g2.players, m1.sender) && !ledger_has_key(g2.encrypt_solutions, m1.content) {
            lemma_find_player_props(g2.players, m1.sender);
        }
        assert(g3.tmp_solutions =~= seq![c2]);
        let g4 = custom_post(g3, t2, GameEventV::Evaluate(m2));
        if custom_ok(g3, t2, GameEventV::Evaluate(m2)) {
            assert(g4.tmp_solutions =~= Seq::<Seq<u8>>::empty());
        }
    }
}

/// Law: reward monotonicity.  No domain action ever lowers a balance, and a
/// balance changes only when a successful non-duplicate evaluation credits
/// that very participant, by exactly the fixed reward.
pub proof fn lemma_reward_monotonic(g: GameV, sender: Seq<char>, e: GameEventV)
    requires
        credit_headroom(g, e),
    ensures
        ({
            let p = custom_post(g, sender, e);
            &&& p.players.len() == g.players.len()
            &&& forall|i: int|
                0 <= i < g.players.len() ==> p.players[i].balance >= g.players[i].balance
            &&& forall|i: int|
                0 <= i < g.players.len() && p.players[i].balance != g.players[i].balance ==> {
                    &&& e matches GameEventV::Evaluate(m)
                    &&& !ledger_has_key(g.encrypt_solutions, e->Evaluate_0.content)
                    &&& spec_find_player(g.players, e->Evaluate_0.sender) == Some(i)
                    &&& p.players[i].balance == g.players[i].balance + g.coin_assigned
                }
        }),
{
    match e {
        GameEventV::Submit(_) => {
        },
        GameEventV::Evaluate(m) => {
            if !ledger_has_key(g.encrypt_solutions, m.content) && has_player(g.players, m.sender) {
                lemma_find_player_props(g.players, m.sender);
            }
        },
    }
}

/// Law: join snapshot correctness.  Joining appends each newcomer with a
/// cache holding exactly the ledger entries accepted so far, and leaves
/// every existing participant, the ledger, the queue and the stage alone.
pub proof fn lemma_join_snapshot(g: GameV, new_players: Seq<PlayerJoinV>)
    ensures
        ({
            let p = sync_post(g, new_players);
            &&& p.players.len() == g.players.len() + new_players.len()
            &&& forall|i: int| 0 <= i < g.players.len() ==> p.players[i] == g.players[i]
            &&& forall|t: int|
                0 <= t < new_players.len() ==> p.players[g.players.len() + t] == (PlayerV {
                    addr: new_players[t].addr,
                    balance: new_players[t].balance,
                    local_encrypt_solutions: g.encrypt_solutions,
                })
            &&& p.encrypt_solutions == g.encrypt_solutions
            &&& p.tmp_solutions == g.tmp_solutions
            &&& p.stage == g.stage
        }),
{
}

} // verus!
