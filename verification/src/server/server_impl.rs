use vstd::prelude::*;
use crate::util::keys::{FetchedBundle, PrekeyBundle, PrekeyBundleView};
use crate::util::messages::MessageType;
use crate::util::user_map::{UserId, UserMap, clone_id, key_view};

verus! {

/// A user identifier as a mathematical value.
pub type UserKey = (Seq<char>, u8);

/// The relay server: the prekey bundle of each registered user, a message
/// queue per user, and the uploads of new one-time prekeys that it has yet
/// to apply.
pub struct Server {
    pub names_keybundles: UserMap<PrekeyBundle>,
    pub user_message_queue: UserMap<Vec<MessageType>>,
    pub server_internal_queue: Vec<MessageType>,
}

/// A map of users to bundles, taken by value.
pub open spec fn bundles_view(m: Map<UserKey, PrekeyBundle>) -> Map<UserKey, PrekeyBundleView> {
    m.map_values(|b: PrekeyBundle| b.view())
}

/// A map of users to message queues, taken by value.
pub open spec fn queues_view(m: Map<UserKey, Vec<MessageType>>) -> Map<UserKey, Seq<MessageType>> {
    m.map_values(|q: Vec<MessageType>| q@)
}

/// What the server applies for one queued upload: the uploaded one-time
/// prekeys are appended to the user's bundle. `None` where the message is
/// no upload or the user has no bundle.
pub open spec fn apply_upload(names: Map<UserKey, PrekeyBundleView>, m: MessageType) -> Option<Map<UserKey, PrekeyBundleView>> {
    match m {
        MessageType::UploadOpks { upload_opks_user_id, opks } => {
            let k = key_view(upload_opks_user_id);
            if names.contains_key(k) {
                Some(names.insert(k, PrekeyBundleView { opks: names[k].opks + opks@, ..names[k] }))
            } else {
                None
            }
        },
        MessageType::UploadPQOpks { upload_pqopks_user_id, pq_opks } => {
            let k = key_view(upload_pqopks_user_id);
            if names.contains_key(k) {
                Some(names.insert(k, PrekeyBundleView { pq_s_opks: names[k].pq_s_opks + pq_opks@, ..names[k] }))
            } else {
                None
            }
        },
        _ => None,
    }
}

/// The uploads applied in order: the bundles after the last one that
/// applied, and whether all of them did.
pub open spec fn apply_uploads(names: Map<UserKey, PrekeyBundleView>, ms: Seq<MessageType>) -> (Map<UserKey, PrekeyBundleView>, bool)
    decreases ms.len(),
{
    if ms.len() == 0 {
        (names, true)
    } else {
        let (n, ok) = apply_uploads(names, ms.drop_last());
        if !ok {
            (n, false)
        } else {
            match apply_upload(n, ms.last()) {
                Some(n2) => (n2, true),
                None => (n, false),
            }
        }
    }
}

/// Whether a message is an upload of one-time prekeys.
pub open spec fn is_upload(m: MessageType) -> bool {
    m is UploadOpks || m is UploadPQOpks
}

/// A bundle after one fetch: the last one-time prekeys of each kind are
/// handed out, the rest is kept.
pub open spec fn bundle_after_fetch(b: PrekeyBundleView) -> PrekeyBundleView {
    PrekeyBundleView {
        opks: if b.opks.len() > 0 { b.opks.drop_last() } else { b.opks },
        pq_s_opks: if b.pq_s_opks.len() > 0 { b.pq_s_opks.drop_last() } else { b.pq_s_opks },
        ..b
    }
}

/// The bundle handed to an initiator: the fixed keys, the last ML-KEM
/// one-time prekey (also as the prekey to encapsulate to, with its number)
/// or else the signed ML-KEM prekey, and the last X25519 one-time prekey.
pub open spec fn fetched_from(b: PrekeyBundleView, fb: FetchedBundle) -> bool {
    &&& fb.ik_dh_pub == b.ik_dh_pub
    &&& fb.ik_dsa_pub == b.ik_dsa_pub
    &&& fb.spk_pub == b.spk_pub
    &&& fb.spk_sig == b.spk_sig
    &&& fb.spk_id == b.spk_id
    &&& fb.pqspk_sig == b.pqspk_sig
    &&& if b.pq_s_opks.len() > 0 {
        &&& fb.pq_opk == Some(b.pq_s_opks.last())
        &&& fb.pqspk_pub == Some(b.pq_s_opks.last().0)
        &&& fb.pqspk_id == Some(b.pq_s_opks.last().1)
    } else {
        &&& fb.pq_opk is None
        &&& fb.pqspk_pub == Some(b.pqspk_pub)
        &&& fb.pqspk_id == Some(b.pqspk_id)
    }
    &&& if b.opks.len() > 0 {
        fb.opk == Some(b.opks.last())
    } else {
        fb.opk is None
    }
}

/// The requests to the bundle's owner that a fetch queues: more ML-KEM
/// one-time prekeys, then more X25519 ones, for each kind that ran out.
pub open spec fn refill_requests(b: PrekeyBundleView) -> Seq<MessageType> {
    (if b.pq_s_opks.len() == 0 { seq![MessageType::MakePQOneTimePreKey] } else { Seq::empty() })
        + (if b.opks.len() == 0 { seq![MessageType::MakeOneTimePreKey] } else { Seq::empty() })
}

/// Once an upload fails to apply, the later ones change nothing.
proof fn lemma_uploads_stop(names: Map<UserKey, PrekeyBundleView>, ms: Seq<MessageType>, i: int)
    requires
        0 <= i < ms.len(),
        apply_uploads(names, ms.take(i)).1,
        apply_upload(apply_uploads(names, ms.take(i)).0, ms[i]) is None,
    ensures
        apply_uploads(names, ms) == (apply_uploads(names, ms.take(i)).0, false),
    decreases ms.len(),
{
    if i == ms.len() - 1 {
        assert(ms.drop_last() =~= ms.take(i));
    } else {
        assert(ms.drop_last().take(i) =~= ms.take(i));
        lemma_uploads_stop(names, ms.drop_last(), i);
    }
}

/// A user's bundle registered: a user registered already keeps its
/// bundle; a new one gets `b`, and an empty queue where it has none.
pub open spec fn bundle_registered(old: Server, new: Server, user: UserId, b: PrekeyBundleView) -> bool {
    &&& new.server_internal_queue@ == old.server_internal_queue@
    &&& old.bundles().contains_key(key_view(user)) ==> new.bundles() == old.bundles() && new.queues() == old.queues()
    &&& !old.bundles().contains_key(key_view(user)) ==> {
        &&& new.bundles() == old.bundles().insert(key_view(user), b)
        &&& new.queues() == if old.queues().contains_key(key_view(user)) {
            old.queues()
        } else {
            old.queues().insert(key_view(user), Seq::empty())
        }
    }
}

/// A message from `user`'s side taken in: an upload waits in the internal
/// queue, anything else joins `user`'s queue (or is refused where `user`
/// has none); then the pending uploads are applied.
pub open spec fn message_registered<'a>(old: Server, new: Server, user: UserId, message: MessageType, res: Result<(), &'a str>) -> bool {
    let k = key_view(user);
    if is_upload(message) {
        let pending = old.server_internal_queue@.push(message);
        let (names, ok) = apply_uploads(old.bundles(), pending);
        &&& new.queues() == old.queues()
        &&& new.bundles() == names
        &&& new.server_internal_queue@ == if ok { Seq::empty() } else { pending }
        &&& res is Ok <==> ok
    } else if !old.queues().contains_key(k) {
        &&& res is Err
        &&& new.bundles() == old.bundles()
        &&& new.queues() == old.queues()
        &&& new.server_internal_queue@ == old.server_internal_queue@
    } else {
        let pending = old.server_internal_queue@;
        let (names, ok) = apply_uploads(old.bundles(), pending);
        &&& new.queues() == old.queues().insert(k, old.queues()[k].push(message))
        &&& new.bundles() == names
        &&& new.server_internal_queue@ == if ok { Seq::empty() } else { pending }
        &&& res is Ok <==> ok
    }
}

/// A bundle of `user`'s handed out (`fb`), or `None`, changing nothing,
/// where the user has none: the one-time prekeys handed out leave the
/// bundle, and the requests for more join the user's queue.
pub open spec fn bundle_fetched(old: Server, user: UserId, new: Server, fb: Option<FetchedBundle>) -> bool {
    let k = key_view(user);
    let b = old.bundles()[k];
    &&& new.server_internal_queue@ == old.server_internal_queue@
    &&& fb is Some <==> old.bundles().contains_key(k)
    &&& fb is None ==> new.bundles() == old.bundles() && new.queues() == old.queues()
    &&& fb matches Some(f) ==> {
        &&& fetched_from(b, f)
        &&& new.bundles() == old.bundles().insert(k, bundle_after_fetch(b))
        &&& new.queues() == old.queues().insert(k, old.queues()[k] + refill_requests(b))
    }
}

impl Server {
    /// The maps are keyed without repeats, every registered user has a
    /// queue, and only uploads wait in the internal queue.
    pub open spec fn wf(&self) -> bool {
        &&& self.names_keybundles.wf()
        &&& self.user_message_queue.wf()
        &&& self.names_keybundles.view().dom().subset_of(self.user_message_queue.view().dom())
        &&& forall|i: int| 0 <= i < self.server_internal_queue@.len() ==> is_upload(#[trigger] self.server_internal_queue@[i])
    }

    pub open spec fn bundles(&self) -> Map<UserKey, PrekeyBundleView> {
        bundles_view(self.names_keybundles.view())
    }

    pub open spec fn queues(&self) -> Map<UserKey, Seq<MessageType>> {
        queues_view(self.user_message_queue.view())
    }

    /// A server with no user.
    pub fn new() -> (res: Self)
        ensures
            res.wf(),
            res.bundles() == Map::<UserKey, PrekeyBundleView>::empty(),
            res.queues() == Map::<UserKey, Seq<MessageType>>::empty(),
            res.server_internal_queue@.len() == 0,
    {
        let res = Server {
            names_keybundles: UserMap::new(),
            user_message_queue: UserMap::new(),
            server_internal_queue: Vec::new(),
        };
        assert(res.bundles() =~= Map::<UserKey, PrekeyBundleView>::empty());
        assert(res.queues() =~= Map::<UserKey, Seq<MessageType>>::empty());
        res
    }

    /// Registers a user's bundle, with an empty queue where the user has
    /// none. A user that is registered already keeps the bundle it has.
    pub fn register_bundle(&mut self, user_id: UserId, bundle: PrekeyBundle)
        requires
            old(self).wf(),
        ensures
            final(self).wf(),
            final(self).server_internal_queue@ == old(self).server_internal_queue@,
            bundle_registered(*old(self), *final(self), user_id, bundle.view()),
    {
        if self.names_keybundles.contains_key(&user_id) {
            return;
        }
        let ghost b0 = self.names_keybundles.view();
        let ghost q0 = self.user_message_queue.view();
        self.names_keybundles.insert(clone_id(&user_id), bundle);
        proof {
            assert(self.bundles() =~= bundles_view(b0).insert(key_view(user_id), bundle.view()));
        }
        if !self.user_message_queue.contains_key(&user_id) {
            let empty: Vec<MessageType> = Vec::new();
            self.user_message_queue.insert(user_id, empty);
            proof {
                assert(self.queues() =~= queues_view(q0).insert(key_view(user_id), Seq::empty()));
            }
        }
    }

    /// Hands a user the messages queued for it and empties its queue.
    pub fn user_fetch_messages(&mut self, my_id: UserId) -> (res: Vec<MessageType>)
        requires
            old(self).wf(),
        ensures
            final(self).wf(),
            final(self).bundles() == old(self).bundles(),
            final(self).server_internal_queue@ == old(self).server_internal_queue@,
            if old(self).queues().contains_key(key_view(my_id)) {
                &&& res@ == old(self).queues()[key_view(my_id)]
                &&& final(self).queues() == old(self).queues().insert(key_view(my_id), Seq::empty())
            } else {
                &&& res@.len() == 0
                &&& final(self).queues() == old(self).queues()
            },
    {
        let ghost q0 = self.user_message_queue.view();
        match self.user_message_queue.remove(&my_id) {
            Some(messages) => {
                let empty: Vec<MessageType> = Vec::new();
                self.user_message_queue.insert(my_id, empty);
                proof {
                    assert(self.user_message_queue.view() =~= q0.insert(key_view(my_id), empty));
                    assert(self.queues() =~= queues_view(q0).insert(key_view(my_id), Seq::empty()));
                }
                messages
            },
            None => {
                assert(self.user_message_queue.view() =~= q0);
                Vec::new()
            },
        }
    }

    /// Hands an initiator a bundle of the responder's: the last one-time
    /// prekey of each kind is taken off the responder's bundle; for each
    /// kind that has run out the responder is asked for more, and the
    /// signed ML-KEM prekey stands in for the missing one. Fails where the
    /// responder is not registered.
    pub fn fetch_bundle<'a>(&mut self, responder_id: UserId) -> (res: Result<FetchedBundle, &'a str>)
        requires
            old(self).wf(),
        ensures
            final(self).wf(),
            bundle_fetched(*old(self), responder_id, *final(self), match res {
                Ok(fb) => Some(fb),
                Err(_) => None,
            }),
            res matches Err(e) ==> e@ == "No matching responder ID"@,
    {
        let ghost k = key_view(responder_id);
        let ghost b0 = self.names_keybundles.view();
        let ghost q0 = self.user_message_queue.view();
        if !self.names_keybundles.contains_key(&responder_id) {
            return Err("No matching responder ID");
        }
        let mut resp_pkb = match self.names_keybundles.remove(&responder_id) {
            Some(b) => b,
            None => return Err("No matching responder ID"),
        };
        let ghost bv = resp_pkb.view();
        assert(bv == bundles_view(b0)[k]);
        let pq_s_opk = resp_pkb.pq_s_opks.pop();
        let mut message_queue = match self.user_message_queue.remove(&responder_id) {
            Some(mq) => mq,
            None => {
                assert(false);
                return Err("Could not find the user in the message queue when fetching the bundle");
            },
        };
        let ghost mq0 = message_queue@;
        let (pqspk_pub, pqspk_id) = match pq_s_opk {
            Some((pq_s_opk_pub, pq_s_opk_id, _pq_s_opk_sig)) => (Some(pq_s_opk_pub), Some(pq_s_opk_id)),
            None => {
                message_queue.push(MessageType::MakePQOneTimePreKey);
                (Some(resp_pkb.pqspk_pub), Some(resp_pkb.pqspk_id))
            },
        };
        let opk = match resp_pkb.opks.pop() {
            Some(o) => Some(o),
            None => {
                message_queue.push(MessageType::MakeOneTimePreKey);
                None
            },
        };
        let resp_fetch_bundle = FetchedBundle {
            ik_dh_pub: resp_pkb.ik_dh_pub,
            ik_dsa_pub: resp_pkb.ik_dsa_pub,
            spk_pub: resp_pkb.spk_pub,
            spk_sig: resp_pkb.spk_sig,
            spk_id: resp_pkb.spk_id,
            pqspk_pub,
            pqspk_sig: resp_pkb.pqspk_sig,
            pqspk_id,
            opk,
            pq_opk: pq_s_opk,
        };
        proof {
            assert(message_queue@ =~= mq0 + refill_requests(bv));
            assert(resp_pkb.view() =~= bundle_after_fetch(bv));
        }
        self.user_message_queue.insert(clone_id(&responder_id), message_queue);
        self.names_keybundles.insert(responder_id, resp_pkb);
        proof {
            assert(self.bundles() =~= bundles_view(b0).insert(k, bundle_after_fetch(bv)));
            assert(self.queues() =~= queues_view(q0).insert(k, queues_view(q0)[k] + refill_requests(bv)));
        }
        Ok(resp_fetch_bundle)
    }

    /// Takes a message from `user_id`'s side: an upload of one-time
    /// prekeys waits in the internal queue, anything else joins `user_id`'s
    /// queue (failing, with nothing changed, where `user_id` has none).
    /// Then the internal queue is worked off.
    pub fn register_message<'a>(&mut self, user_id: &UserId, message: MessageType) -> (res: Result<(), &'a str>)
        requires
            old(self).wf(),
        ensures
            final(self).wf(),
            message_registered(*old(self), *final(self), *user_id, message, res),
    {
        let ghost q0 = self.user_message_queue.view();
        match message {
            MessageType::UploadOpks { .. } | MessageType::UploadPQOpks { .. } => {
                self.server_internal_queue.push(message);
            },
            _ => {
                let mut message_queue = match self.user_message_queue.remove(user_id) {
                    Some(mq) => mq,
                    None => {
                        assert(self.user_message_queue.view() =~= q0);
                        return Err("Could not find the user in the message queue when fetching the bundle");
                    },
                };
                message_queue.push(message);
                self.user_message_queue.insert(clone_id(user_id), message_queue);
                proof {
                    assert(self.queues() =~= queues_view(q0).insert(key_view(*user_id),
                        queues_view(q0)[key_view(*user_id)].push(message)));
                }
            },
        }
        self.server_fetch_internal_queue()
    }

    /// Applies the queued uploads in order and empties the queue. Stops at
    /// the first upload that cannot be applied (its user has no bundle): the
    /// uploads before it stay applied and the queue is kept.
    pub fn server_fetch_internal_queue<'a>(&mut self) -> (res: Result<(), &'a str>)
        requires
            old(self).wf(),
        ensures
            final(self).wf(),
            final(self).queues() == old(self).queues(),
            ({
                let (names, ok) = apply_uploads(old(self).bundles(), old(self).server_internal_queue@);
                &&& final(self).bundles() == names
                &&& final(self).server_internal_queue@ == if ok { Seq::empty() } else { old(self).server_internal_queue@ }
                &&& res is Ok <==> ok
            }),
    {
        let ghost names0 = self.bundles();
        let ghost pending = self.server_internal_queue@;
        let mut message_queue: Vec<MessageType> = Vec::new();
        std::mem::swap(&mut message_queue, &mut self.server_internal_queue);
        let mut i: usize = 0;
        while i < message_queue.len()
            invariant
                i <= message_queue.len(),
                message_queue@ == pending,
                self.names_keybundles.wf(),
                self.user_message_queue.wf(),
                self.user_message_queue.view() == old(self).user_message_queue.view(),
                self.names_keybundles.view().dom() == old(self).names_keybundles.view().dom(),
                self.server_internal_queue@.len() == 0,
                apply_uploads(names0, pending.take(i as int)) == (self.bundles(), true),
                old(self).wf(),
                names0 == old(self).bundles(),
                pending == old(self).server_internal_queue@,
                forall|j: int| 0 <= j < pending.len() ==> is_upload(#[trigger] pending[j]),
            decreases message_queue.len() - i,
        {
            proof {
                assert(pending.take(i + 1).drop_last() =~= pending.take(i as int));
                assert(is_upload(pending[i as int]));
            }
            let ghost before = self.bundles();
            let ghost bmap = self.names_keybundles.view();
            match &message_queue[i] {
                MessageType::UploadOpks { upload_opks_user_id: user_id, opks } => {
                    let mut pkb = match self.names_keybundles.remove(user_id) {
                        Some(pkb) => pkb,
                        None => {
                            assert(self.names_keybundles.view() =~= bmap);
                            self.server_internal_queue = message_queue;
                            proof {
                                assert(!before.contains_key(key_view(*user_id)));
                                assert(apply_upload(before, pending[i as int]) is None);
                                lemma_uploads_stop(names0, pending, i as int);
                            }
                            return Err("Could not find the prekey");
                        },
                    };
                    let ghost p0 = pkb.opks@;
                    let mut j: usize = 0;
                    while j < opks.len()
                        invariant
                            j <= opks.len(),
                            pkb.opks@ == p0 + opks@.take(j as int),
                            pkb.view() == (PrekeyBundleView { opks: pkb.opks@, ..bmap[key_view(*user_id)].view() }),
                        decreases opks.len() - j,
                    {
                        pkb.opks.push(opks[j]);
                        j = j + 1;
                        proof {
                            assert(p0 + opks@.take(j as int) =~= (p0 + opks@.take(j - 1)).push(opks@[j - 1]));
                        }
                    }
                    proof {
                        assert(opks@.take(opks@.len() as int) =~= opks@);
                    }
                    self.names_keybundles.insert(clone_id(user_id), pkb);
                    proof {
                        let k = key_view(*user_id);
                        assert(self.bundles() =~= before.insert(k, PrekeyBundleView { opks: before[k].opks + opks@, ..before[k] }));
                        assert(apply_upload(before, pending[i as int]) == Some(self.bundles()));
                    }
                },
                MessageType::UploadPQOpks { upload_pqopks_user_id: user_id, pq_opks } => {
                    let mut pkb = match self.names_keybundles.remove(user_id) {
                        Some(pkb) => pkb,
                        None => {
                            assert(self.names_keybundles.view() =~= bmap);
                            self.server_internal_queue = message_queue;
                            proof {
                                assert(!before.contains_key(key_view(*user_id)));
                                assert(apply_upload(before, pending[i as int]) is None);
                                lemma_uploads_stop(names0, pending, i as int);
                            }
                            return Err("Could not find the prekey");
                        },
                    };
                    let ghost p0 = pkb.pq_s_opks@;
                    let mut j: usize = 0;
                    while j < pq_opks.len()
                        invariant
                            j <= pq_opks.len(),
                            pkb.pq_s_opks@ == p0 + pq_opks@.take(j as int),
                            pkb.view() == (PrekeyBundleView { pq_s_opks: pkb.pq_s_opks@, ..bmap[key_view(*user_id)].view() }),
                        decreases pq_opks.len() - j,
                    {
                        let (pk, id, sig) = pq_opks[j];
                        pkb.pq_s_opks.push((pk, id, sig));
                        j = j + 1;
                        proof {
                            assert(p0 + pq_opks@.take(j as int) =~= (p0 + pq_opks@.take(j - 1)).push(pq_opks@[j - 1]));
                        }
                    }
                    proof {
                        assert(pq_opks@.take(pq_opks@.len() as int) =~= pq_opks@);
                    }
                    self.names_keybundles.insert(clone_id(user_id), pkb);
                    proof {
                        let k = key_view(*user_id);
                        assert(self.bundles() =~= before.insert(k, PrekeyBundleView { pq_s_opks: before[k].pq_s_opks + pq_opks@, ..before[k] }));
                        assert(apply_upload(before, pending[i as int]) == Some(self.bundles()));
                    }
                },
                _ => {
                    assert(false);
                    self.server_internal_queue = message_queue;
                    return Err("Server should only apply uploads of prekeys");
                },
            }
            i = i + 1;
        }
        proof {
            assert(pending.take(pending.len() as int) =~= pending);
        }
        Ok(())
    }
}


/// Delivery: a message taken in for a user who has a queue comes out of
/// that user's next fetch, last, after the messages queued before it.
pub proof fn law_registered_message_delivered<'a>(
    s0: Server,
    s1: Server,
    user: UserId,
    message: MessageType,
    r: Result<(), &'a str>,
)
    requires
        message_registered(s0, s1, user, message, r),
        !is_upload(message),
        s0.queues().contains_key(key_view(user)),
    ensures
        s1.queues().contains_key(key_view(user)),
        s1.queues()[key_view(user)] == s0.queues()[key_view(user)].push(message),
{
}

/// A one-time prekey is handed out once: two fetches in a row of a bundle
/// whose one-time prekeys are distinct hand out different ones.
pub proof fn law_one_time_prekeys_handed_out_once(b: PrekeyBundleView, fb1: FetchedBundle, fb2: FetchedBundle)
    requires
        b.opks.no_duplicates(),
        b.pq_s_opks.no_duplicates(),
        fetched_from(b, fb1),
        fetched_from(bundle_after_fetch(b), fb2),
    ensures
        fb1.opk matches Some(k1) ==> fb2.opk != Some(k1),
        fb1.pq_opk matches Some(k1) ==> fb2.pq_opk != Some(k1),
{
    if b.opks.len() > 1 {
        assert(b.opks.drop_last().last() == b.opks[b.opks.len() - 2]);
    }
    if b.pq_s_opks.len() > 1 {
        assert(b.pq_s_opks.drop_last().last() == b.pq_s_opks[b.pq_s_opks.len() - 2]);
    }
}

} // verus!
