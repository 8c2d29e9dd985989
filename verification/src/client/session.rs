use vstd::prelude::*;
use crate::triple_ratchet::triple_ratchet_impl::{TripleRatchetState, copy_of, fresh_initiator_tr, fresh_responder_tr};
use crate::util::expand_pqxdh_keys::{expand_pqxdh_sk, spec_expand_pqxdh};
use crate::util::keys;
use crate::util::messages::{MessageType, same_message};
use crate::util::user_map::{UserId, UserMap, clone_id, key_view};

verus! {

/// A conversation with one peer: the triple ratchet, the associated data
/// of the session, the messages exchanged, and whether the peer has
/// answered the initial message yet (until then, the initial message goes
/// along with every message).
pub struct Session {
    pub state: TripleRatchetState,
    pub ad: [u8; 64],
    pub messages: Vec<(UserId, String)>,
    pub received_initial_message: bool,
    pub initial_message: Option<MessageType>,
}

/// `c` is a copy of `s`: the same ratchet contents, associated data,
/// messages and initial-message status.
pub open spec fn session_copy(c: Session, s: Session) -> bool {
    &&& copy_of(c.state, s.state)
    &&& c.ad == s.ad
    &&& c.messages@ == s.messages@
    &&& c.received_initial_message == s.received_initial_message
    &&& match s.initial_message {
        Some(m) => c.initial_message matches Some(m2) && same_message(m2, m),
        None => c.initial_message is None,
    }
}

impl Clone for Session {
    fn clone(&self) -> (res: Self)
        ensures
            session_copy(res, *self),
    {
        let mut messages: Vec<(UserId, String)> = Vec::new();
        let mut i: usize = 0;
        while i < self.messages.len()
            invariant
                i <= self.messages@.len(),
                messages@ == self.messages@.take(i as int),
            decreases self.messages@.len() - i,
        {
            let m = &self.messages[i];
            messages.push((clone_id(&m.0), m.1.clone()));
            i = i + 1;
            proof {
                assert(messages@ =~= self.messages@.take(i as int));
            }
        }
        proof {
            assert(self.messages@.take(self.messages@.len() as int) =~= self.messages@);
        }
        let initial_message = match &self.initial_message {
            Some(m) => Some(m.clone()),
            None => None,
        };
        Session {
            state: self.state.clone(),
            ad: self.ad,
            messages,
            received_initial_message: self.received_initial_message,
            initial_message,
        }
    }
}

/// The sessions of a user, by peer.
pub struct SessionStore {
    pub sessions: UserMap<Session>,
}

impl SessionStore {
    pub open spec fn wf(&self) -> bool {
        &&& self.sessions.wf()
        &&& forall|k: (Seq<char>, u8)| #[trigger] self.view().contains_key(k) ==> self.view()[k].state.wf()
    }

    pub open spec fn view(&self) -> Map<(Seq<char>, u8), Session> {
        self.sessions.view()
    }

    /// No sessions.
    pub fn new() -> (res: Self)
        ensures
            res.wf(),
            res.view() == Map::<(Seq<char>, u8), Session>::empty(),
    {
        Self { sessions: UserMap::new() }
    }

    /// Stores the session with `peer_id`, replacing any earlier one.
    pub fn insert_session(&mut self, peer_id: UserId, session: Session)
        requires
            old(self).wf(),
            session.state.wf(),
        ensures
            final(self).wf(),
            final(self).view() == old(self).view().insert(key_view(peer_id), session),
    {
        self.sessions.insert(peer_id, session);
    }

    /// A copy of the session with `peer_id`; fails when there is none.
    pub fn get_session<'a>(&self, peer_id: &UserId) -> (res: Result<Session, &'a str>)
        requires
            self.wf(),
        ensures
            res is Ok <==> self.view().contains_key(key_view(*peer_id)),
            res matches Ok(s) ==> session_copy(s, self.view()[key_view(*peer_id)]),
    {
        match self.sessions.get(peer_id) {
            Some(session) => Ok(session.clone()),
            None => Err("Couldn't get the session"),
        }
    }
}

/// A session that has just been set up: no messages yet, the initial
/// message not yet answered.
pub open spec fn fresh_session(s: Session, ad: [u8; 64]) -> bool {
    &&& s.ad == ad
    &&& s.messages@.len() == 0
    &&& !s.received_initial_message
    &&& s.initial_message is None
    &&& s.state.wf()
}

/// The bytes a session takes.
pub open spec fn session_size_spec(s: Session) -> int {
    crate::double_ratchet::ratchet_state::dr_size(s.state.ec_state) + crate::spqr::spqr_impl::spqr_size(s.state.spqr_state)
        + 66 + match s.initial_message {
        Some(msg) => vstd::layout::spec_size_of_val(&msg) as int,
        None => 0int,
    }
}

impl Session {
    /// Sets up the initiator's session with `initiator_id` (the peer) from
    /// the PQXDH secret: the secret is expanded into the two ratchets'
    /// secrets. Fails where the Diffie-Hellman ratchet cannot start; the
    /// store is then unchanged.
    pub fn new_initiator<'a>(
        initiator_id: &UserId,
        sk: keys::RootChainKey,
        peer_spk_pub: keys::X25519PublicKey,
        session_store: &mut SessionStore,
        ad: [u8; 64],
    ) -> (res: Result<(), &'a str>)
        requires
            old(session_store).wf(),
        ensures
            final(session_store).wf(),
            match res {
                Ok(()) => {
                    let s = final(session_store).view()[key_view(*initiator_id)];
                    &&& final(session_store).view() == old(session_store).view().insert(key_view(*initiator_id), s)
                    &&& fresh_session(s, ad)
                    &&& fresh_initiator_tr(s.state, spec_expand_pqxdh(sk.0@).subrange(0, 32),
                        spec_expand_pqxdh(sk.0@).subrange(32, 64), peer_spk_pub)
                },
                Err(_) => *final(session_store) == *old(session_store)
                    && exists|k: Seq<u8>| crate::util::libcrux_wrap::spec_x25519_derive(peer_spk_pub.0@, k) is None,
            },
    {
        let (ec_sk, scka_sk) = expand_pqxdh_sk(sk.0);
        let state = match TripleRatchetState::rathet_init_initiator_tr(ec_sk, scka_sk, peer_spk_pub) {
            Ok(s) => s,
            Err(e) => return Err(e),
        };
        let init_ses = Session {
            state,
            ad,
            messages: Vec::new(),
            received_initial_message: false,
            initial_message: None,
        };
        session_store.insert_session(clone_id(initiator_id), init_ses);
        Ok(())
    }

    /// Sets up the responder's session with `responder_id` (the peer) from
    /// the PQXDH secret, with the own signed prekey pair as the first
    /// ratchet key pair.
    pub fn new_responder(
        responder_id: &UserId,
        sk: keys::RootChainKey,
        own_spk_keypair: keys::X25519KeyPair,
        session_store: &mut SessionStore,
        ad: [u8; 64],
    )
        requires
            old(session_store).wf(),
        ensures
            final(session_store).wf(),
            ({
                let s = final(session_store).view()[key_view(*responder_id)];
                &&& final(session_store).view() == old(session_store).view().insert(key_view(*responder_id), s)
                &&& fresh_session(s, ad)
                &&& fresh_responder_tr(s.state, spec_expand_pqxdh(sk.0@).subrange(0, 32),
                    spec_expand_pqxdh(sk.0@).subrange(32, 64), own_spk_keypair)
            }),
    {
        let (ec_sk, scka_sk) = expand_pqxdh_sk(sk.0);
        let init_res_ses = Session {
            state: TripleRatchetState::rathet_init_responder_tr(ec_sk, scka_sk, own_spk_keypair),
            ad,
            messages: Vec::new(),
            received_initial_message: false,
            initial_message: None,
        };
        session_store.insert_session(clone_id(responder_id), init_res_ses);
    }

    /// Approximate memory footprint in bytes: the ratchets, the associated
    /// data, the flag, and the initial message if kept.
    pub fn session_size(&self) -> (res: usize)
        requires
            session_size_spec(*self) <= usize::MAX,
        ensures
            res == session_size_spec(*self),
    {
        proof {
            crate::spqr::spqr_impl::lemma_spqr_size_nonneg(self.state.spqr_state);
            crate::double_ratchet::ratchet_state::lemma_dr_size_nonneg(self.state.ec_state);
        }
        let msg_size: usize = match &self.initial_message {
            Some(msg) => std::mem::size_of_val(msg),
            None => 0,
        };
        self.state.state_size() + 64 + 1 + 1 + msg_size
    }

    /// Whether the peer has answered the initial message.
    pub fn get_received_initial_message(&mut self) -> (res: bool)
        ensures
            res == old(self).received_initial_message,
            *final(self) == *old(self),
    {
        self.received_initial_message
    }

    /// Records whether the peer has answered the initial message.
    pub fn set_received_initial_message(&mut self, have_received: bool)
        ensures
            *final(self) == (Session { received_initial_message: have_received, ..*old(self) }),
    {
        self.received_initial_message = have_received;
    }
}

} // verus!
