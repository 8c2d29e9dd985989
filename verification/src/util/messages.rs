use vstd::prelude::*;
use crate::util::keys::{EncapsulationKey, ML_KEM_768_CT_SIZE, MLDSA_65_SIGNATURE_KEY_SIZE, X25519PublicKey, X25519KeyPair};
use crate::util::helper_func::{lemma_ascii_utf8, lemma_decode_utf8_concat, push_str, string_of_utf8, append_bytes, ascii_chars, ascii_string, concat, lemma_ascii_literal, lemma_decimal_ascii, push_decimal, spec_decimal, spec_u32_be, spec_u64_be, u32_to_be_bytes, u64_to_be_bytes};
use vstd::string::StringSliceAdditionalSpecFns;

verus! {

broadcast use vstd::array::group_array_axioms;

/// One piece of a braid message, with its position in the message.
#[derive(PartialEq, Debug)]
pub struct Chunk {
    pub index: u32,
    pub data: Vec<u8>,
}

impl Clone for Chunk {
    fn clone(&self) -> (res: Self)
        ensures
            res.index == self.index,
            res.data@ == self.data@,
    {
        let data = self.data.clone();
        assert(data@ =~= self.data@);
        Chunk { index: self.index, data }
    }
}

impl Chunk {
    /// The chunk as (position, bytes).
    pub open spec fn view_pair(self) -> (nat, Seq<u8>) {
        (self.index as nat, self.data@)
    }
}

/// Which of a user's prekeys an initiator used.
#[derive(Clone, Copy, Debug)]
pub enum IDUseNameKey {
    PQOPK { pqopk_id: u32 },
    PQSPK { pqspk_id: u32 },
    OPK { opk_id: u32 },
    SPK { spk_id: u32 },
}

/// How a prekey identifier reads, as in `OPK(7)`.
pub open spec fn id_describe_bytes(k: IDUseNameKey) -> Seq<u8> {
    let (name, id) = match k {
        IDUseNameKey::PQOPK { pqopk_id } => ("PQOPK(", pqopk_id),
        IDUseNameKey::PQSPK { pqspk_id } => ("PQSPK(", pqspk_id),
        IDUseNameKey::OPK { opk_id } => ("OPK(", opk_id),
        IDUseNameKey::SPK { spk_id } => ("SPK(", spk_id),
    };
    name.spec_bytes() + spec_decimal(id as nat) + ")".spec_bytes()
}

impl IDUseNameKey {
    /// The kind of prekey and its number, as in `OPK(7)`.
    pub fn describe(&self) -> (res: String)
        ensures
            res@ == ascii_chars(id_describe_bytes(*self)),
    {
        let (name, id): (&str, u32) = match self {
            IDUseNameKey::PQOPK { pqopk_id } => ("PQOPK(", *pqopk_id),
            IDUseNameKey::PQSPK { pqspk_id } => ("PQSPK(", *pqspk_id),
            IDUseNameKey::OPK { opk_id } => ("OPK(", *opk_id),
            IDUseNameKey::SPK { spk_id } => ("SPK(", *spk_id),
        };
        proof {
            reveal_strlit("PQOPK(");
            reveal_strlit("PQSPK(");
            reveal_strlit("OPK(");
            reveal_strlit("SPK(");
            reveal_strlit(")");
            lemma_ascii_literal(name);
            lemma_ascii_literal(")");
            lemma_decimal_ascii(id as nat);
        }
        let mut out: Vec<u8> = Vec::new();
        append_bytes(&mut out, name.as_bytes());
        push_decimal(id as u64, &mut out);
        append_bytes(&mut out, ")".as_bytes());
        assert(out@ =~= id_describe_bytes(*self));
        ascii_string(out)
    }
}

/// Messages exchanged between clients through the server.
#[derive(Debug)]
pub enum MessageType {
    MakeOneTimePreKey,
    MakePQOneTimePreKey,
    NewMessage {
        from: (String, [u8; 1]),
        payload: (TRHeader, Vec<u8>),
        retry_init: Option<Box<MessageType>>,
    },
    UploadOpks { upload_opks_user_id: (String, [u8; 1]), opks: Vec<(X25519PublicKey, u32)> },
    UploadPQOpks {
        upload_pqopks_user_id: (String, [u8; 1]),
        pq_opks: Vec<(EncapsulationKey, u32, [u8; MLDSA_65_SIGNATURE_KEY_SIZE])>,
    },
    InitialMessage {
        ik_pub: X25519PublicKey,
        ek: X25519PublicKey,
        pq_ct: [u8; ML_KEM_768_CT_SIZE],
        pre_key_ids: Vec<IDUseNameKey>,
        init_ct: [u8; 32],
        init_ct_tag: [u8; 16],
        init_ct_nonce: [u8; 12],
        salt: [u8; 32],
        initiator_id: (String, [u8; 1]),
        ad: [u8; 64],
    },
}

/// Copies a user identifier.
pub fn clone_user_id(id: &(String, [u8; 1])) -> (res: (String, [u8; 1]))
    ensures
        res == *id,
{
    (id.0.clone(), id.1)
}

/// `c` is a copy of `m`: the same kind of message with the same contents.
pub open spec fn same_message(c: MessageType, m: MessageType) -> bool
    decreases m,
{
    match m {
        MessageType::InitialMessage {
            ik_pub, ek, pq_ct, pre_key_ids, init_ct, init_ct_tag, init_ct_nonce, salt, initiator_id, ad,
        } => c matches MessageType::InitialMessage {
            ik_pub: ik_pub2, ek: ek2, pq_ct: pq_ct2, pre_key_ids: ids2, init_ct: init_ct2, init_ct_tag: tag2,
            init_ct_nonce: nonce2, salt: salt2, initiator_id: iid2, ad: ad2,
        } && ik_pub2 == ik_pub && ek2 == ek && pq_ct2 == pq_ct && ids2@ == pre_key_ids@ && init_ct2 == init_ct
            && tag2 == init_ct_tag && nonce2 == init_ct_nonce && salt2 == salt && iid2 == initiator_id && ad2 == ad,
        MessageType::MakeOneTimePreKey => c is MakeOneTimePreKey,
        MessageType::MakePQOneTimePreKey => c is MakePQOneTimePreKey,
        MessageType::NewMessage { from, payload, retry_init } => c matches MessageType::NewMessage {
            from: f2, payload: p2, retry_init: r2,
        } && f2 == from && same_header(p2.0, payload.0) && p2.1@ == payload.1@ && match retry_init {
            Some(inner) => r2 matches Some(inner2) && same_message(*inner2, *inner),
            None => r2 is None,
        },
        MessageType::UploadOpks { upload_opks_user_id, opks } => c matches MessageType::UploadOpks {
            upload_opks_user_id: u2, opks: o2 } && u2 == upload_opks_user_id && o2@ == opks@,
        MessageType::UploadPQOpks { upload_pqopks_user_id, pq_opks } => c matches MessageType::UploadPQOpks {
            upload_pqopks_user_id: u2, pq_opks: o2 } && u2 == upload_pqopks_user_id && o2@ == pq_opks@,
    }
}

/// A copy of a copy is a copy.
pub proof fn lemma_same_message_trans(a: MessageType, b: MessageType, c: MessageType)
    requires
        same_message(a, b),
        same_message(b, c),
    ensures
        same_message(a, c),
    decreases c,
{
    match c {
        MessageType::NewMessage { retry_init: Some(ic), .. } => {
            let ib = b->retry_init.unwrap();
            let ia = a->retry_init.unwrap();
            lemma_same_message_trans(*ia, *ib, *ic);
        },
        _ => {},
    }
}

/// A copy of a vector of plain values.
fn copy_vec<T: Copy>(v: &Vec<T>) -> (res: Vec<T>)
    ensures
        res@ == v@,
{
    let mut res: Vec<T> = Vec::new();
    let mut i: usize = 0;
    while i < v.len()
        invariant
            i <= v.len(),
            res@ == v@.take(i as int),
        decreases v.len() - i,
    {
        res.push(v[i]);
        i = i + 1;
        assert(res@ =~= v@.take(i as int));
    }
    assert(v@.take(v.len() as int) =~= v@);
    res
}

/// What `Debug` prints for a user identifier `(name, [byte])`.
pub uninterp spec fn spec_debug_user_id(name: Seq<char>, byte: u8) -> Seq<char>;

/// Formats a user identifier with `format!("{:?}", ..)`, that is std's
/// `Debug` for `(String, [u8; 1])`: `("name", [byte])`, the name escaped as
/// `str::escape_debug` does. The result is named: it depends on the
/// identifier alone.
#[verifier::external_body]
fn debug_user_id(id: &(String, [u8; 1])) -> (res: String)
    ensures
        res@ == spec_debug_user_id(id.0@, id.1[0]),
{
    format!("{:?}", id)
}

/// How a message reads: its kind and, where it has one, the user it
/// concerns (as `Debug` prints it) and how many keys it carries.
pub open spec fn msg_describe(m: MessageType) -> Seq<char> {
    match m {
        MessageType::MakeOneTimePreKey => "MakeOneTimePreKey"@,
        MessageType::MakePQOneTimePreKey => "MakePQOneTimePreKey"@,
        MessageType::NewMessage { from, .. } => "NewMessage {from: "@ + spec_debug_user_id(from.0@, from.1[0]) + " }"@,
        MessageType::UploadOpks { upload_opks_user_id, opks } => "UploadOpks { user_id: "@
            + spec_debug_user_id(upload_opks_user_id.0@, upload_opks_user_id.1[0]) + ", count: "@
            + ascii_chars(spec_decimal(opks@.len())) + " }"@,
        MessageType::UploadPQOpks { upload_pqopks_user_id, pq_opks } => "UploadPQOpks { user_id: "@
            + spec_debug_user_id(upload_pqopks_user_id.0@, upload_pqopks_user_id.1[0]) + ", count: "@
            + ascii_chars(spec_decimal(pq_opks@.len())) + " }"@,
        MessageType::InitialMessage { initiator_id, .. } => "InitialMessage { from: "@
            + spec_debug_user_id(initiator_id.0@, initiator_id.1[0]) + " }"@,
    }
}

/// The decimal digits of a count, as characters, and their bytes.
fn decimal_bytes(n: usize) -> (res: Vec<u8>)
    ensures
        res@ == spec_decimal(n as nat),
        vstd::utf8::valid_utf8(res@),
        vstd::utf8::decode_utf8(res@) == ascii_chars(spec_decimal(n as nat)),
{
    let mut out: Vec<u8> = Vec::new();
    push_decimal(n as u64, &mut out);
    proof {
        assert(out@ =~= spec_decimal(n as nat));
        lemma_decimal_ascii(n as nat);
        lemma_ascii_utf8(out@);
    }
    out
}

/// Bytes of a string that decode back to it.
proof fn lemma_str_bytes(s: Seq<char>)
    ensures
        vstd::utf8::valid_utf8(vstd::utf8::encode_utf8(s)),
        vstd::utf8::decode_utf8(vstd::utf8::encode_utf8(s)) == s,
{
    vstd::utf8::encode_utf8_valid_utf8(s);
    vstd::utf8::encode_utf8_decode_utf8(s);
}

/// `a`, then `b`, then `c`, as one string.
fn join3(a: &str, b: &str, c: &str) -> (res: String)
    ensures
        res@ == a@ + b@ + c@,
{
    let mut out: Vec<u8> = Vec::new();
    push_str(&mut out, a);
    push_str(&mut out, b);
    push_str(&mut out, c);
    proof {
        lemma_str_bytes(a@);
        lemma_str_bytes(b@);
        lemma_str_bytes(c@);
        assert(out@ =~= a.spec_bytes() + b.spec_bytes() + c.spec_bytes());
        lemma_decode_utf8_concat(a.spec_bytes(), b.spec_bytes());
        lemma_decode_utf8_concat(a.spec_bytes() + b.spec_bytes(), c.spec_bytes());
    }
    string_of_utf8(out)
}

/// `a`, `b`, `c`, the decimal digits of `n`, then `d`, as one string.
fn join_count(a: &str, b: &str, c: &str, n: usize, d: &str) -> (res: String)
    ensures
        res@ == a@ + b@ + c@ + ascii_chars(spec_decimal(n as nat)) + d@,
{
    let digits = decimal_bytes(n);
    let mut out: Vec<u8> = Vec::new();
    push_str(&mut out, a);
    push_str(&mut out, b);
    push_str(&mut out, c);
    append_bytes(&mut out, digits.as_slice());
    push_str(&mut out, d);
    proof {
        lemma_str_bytes(a@);
        lemma_str_bytes(b@);
        lemma_str_bytes(c@);
        lemma_str_bytes(d@);
        let ab = a.spec_bytes() + b.spec_bytes();
        let abc = ab + c.spec_bytes();
        let abcn = abc + digits@;
        assert(out@ =~= abcn + d.spec_bytes());
        lemma_decode_utf8_concat(a.spec_bytes(), b.spec_bytes());
        lemma_decode_utf8_concat(ab, c.spec_bytes());
        lemma_decode_utf8_concat(abc, digits@);
        lemma_decode_utf8_concat(abcn, d.spec_bytes());
    }
    string_of_utf8(out)
}

impl MessageType {
    /// The message's kind and, where it has one, the user it concerns and
    /// how many keys it carries.
    pub fn describe(&self) -> (res: String)
        ensures
            res@ == msg_describe(*self),
    {
        match self {
            MessageType::MakeOneTimePreKey => "MakeOneTimePreKey".to_string(),
            MessageType::MakePQOneTimePreKey => "MakePQOneTimePreKey".to_string(),
            MessageType::NewMessage { from, .. } => {
                let d = debug_user_id(from);
                join3("NewMessage {from: ", d.as_str(), " }")
            },
            MessageType::UploadOpks { upload_opks_user_id, opks } => {
                let d = debug_user_id(upload_opks_user_id);
                join_count("UploadOpks { user_id: ", d.as_str(), ", count: ", opks.len(), " }")
            },
            MessageType::UploadPQOpks { upload_pqopks_user_id, pq_opks } => {
                let d = debug_user_id(upload_pqopks_user_id);
                join_count("UploadPQOpks { user_id: ", d.as_str(), ", count: ", pq_opks.len(), " }")
            },
            MessageType::InitialMessage { initiator_id, .. } => {
                let d = debug_user_id(initiator_id);
                join3("InitialMessage { from: ", d.as_str(), " }")
            },
        }
    }
}

impl Clone for MessageType {
    fn clone(&self) -> (res: Self)
        ensures
            same_message(res, *self),
        decreases self,
    {
        match self {
            MessageType::MakeOneTimePreKey => MessageType::MakeOneTimePreKey,
            MessageType::MakePQOneTimePreKey => MessageType::MakePQOneTimePreKey,
            MessageType::NewMessage { from, payload, retry_init } => {
                let retry = match retry_init {
                    Some(b) => Some(Box::new((**b).clone())),
                    None => None,
                };
                let bytes = copy_vec(&payload.1);
                MessageType::NewMessage {
                    from: clone_user_id(from),
                    payload: (payload.0.clone(), bytes),
                    retry_init: retry,
                }
            },
            MessageType::UploadOpks { upload_opks_user_id, opks } => MessageType::UploadOpks {
                upload_opks_user_id: clone_user_id(upload_opks_user_id),
                opks: copy_vec(opks),
            },
            MessageType::UploadPQOpks { upload_pqopks_user_id, pq_opks } => MessageType::UploadPQOpks {
                upload_pqopks_user_id: clone_user_id(upload_pqopks_user_id),
                pq_opks: copy_vec(pq_opks),
            },
            MessageType::InitialMessage {
                ik_pub, ek, pq_ct, pre_key_ids, init_ct, init_ct_tag, init_ct_nonce, salt, initiator_id, ad,
            } => MessageType::InitialMessage {
                ik_pub: *ik_pub,
                ek: *ek,
                pq_ct: *pq_ct,
                pre_key_ids: pre_key_ids.clone(),
                init_ct: *init_ct,
                init_ct_tag: *init_ct_tag,
                init_ct_nonce: *init_ct_nonce,
                salt: *salt,
                initiator_id: clone_user_id(initiator_id),
                ad: *ad,
            },
        }
    }
}

/// Kinds of braid messages.
#[derive(PartialEq, Debug, Clone, Copy)]
pub enum SCKAMessageType {
    Hdr,
    Ek,
    EkCt1Ack,
    Ct1Ack,
    Ct1,
    Ct2,
}

/// A braid message: its epoch, its kind (if any) and a chunk (if any).
#[derive(PartialEq, Debug)]
pub struct SCKAMessage {
    pub epoch: u64,
    pub message_type: Option<SCKAMessageType>,
    pub data: Option<Chunk>,
}

/// `c` holds what the braid message `m` holds: epoch, kind, and the chunk's
/// index and bytes.
pub open spec fn same_scka(c: SCKAMessage, m: SCKAMessage) -> bool {
    &&& c.epoch == m.epoch
    &&& c.message_type == m.message_type
    &&& match m.data {
        Some(d) => c.data matches Some(d2) && d2.index == d.index && d2.data@ == d.data@,
        None => c.data is None,
    }
}

impl Clone for SCKAMessage {
    fn clone(&self) -> (res: Self)
        ensures
            same_scka(res, *self),
    {
        let data = match &self.data {
            Some(c) => Some(c.clone()),
            None => None,
        };
        SCKAMessage { epoch: self.epoch, message_type: self.message_type, data }
    }
}

/// A braid message with the number of the message it travels with.
#[derive(Debug)]
pub struct SCKAMessageHeader {
    pub message: SCKAMessage,
    pub pn: u64,
}

impl Clone for SCKAMessageHeader {
    fn clone(&self) -> (res: Self)
        ensures
            res.pn == self.pn,
            same_scka(res.message, self.message),
    {
        SCKAMessageHeader { message: self.message.clone(), pn: self.pn }
    }
}

impl SCKAMessageHeader {
    pub fn new(msg: SCKAMessage, pn: u64) -> (res: Self)
        ensures
            res.message == msg,
            res.pn == pn,
    {
        Self { message: msg, pn }
    }

    /// The header of an empty message at epoch 0 with number 0.
    pub fn default() -> (res: Self)
        ensures
            res.message == SCKAMessage::spec_default_msg(),
            res.pn == 0,
    {
        Self { message: SCKAMessage::default_msg(), pn: 0 }
    }
}

impl SCKAMessage {
    pub open spec fn spec_default_msg() -> SCKAMessage {
        SCKAMessage { epoch: 0, message_type: None, data: None }
    }

    /// The empty message at epoch 0.
    pub fn default_msg() -> (res: Self)
        ensures
            res == Self::spec_default_msg(),
    {
        Self { epoch: 0, message_type: None, data: None }
    }
}

/// Header of a triple ratchet message.
#[derive(Debug)]
pub struct TRHeader {
    pub ec_header: ECHeader,
    pub scka_header: SCKAMessageHeader,
}

/// `c` holds what the header `h` holds.
pub open spec fn same_header(c: TRHeader, h: TRHeader) -> bool {
    &&& c.ec_header == h.ec_header
    &&& c.scka_header.pn == h.scka_header.pn
    &&& same_scka(c.scka_header.message, h.scka_header.message)
}

impl Clone for TRHeader {
    fn clone(&self) -> (res: Self)
        ensures
            same_header(res, *self),
    {
        TRHeader { ec_header: self.ec_header, scka_header: self.scka_header.clone() }
    }
}

/// Header of a double ratchet message.
#[derive(Clone, Copy, Debug, Default)]
pub struct ECHeader {
    pub dh_pub: X25519PublicKey,
    /// Length of the previous sending chain.
    pub pn: u64,
    /// Number of the message in the current sending chain.
    pub n: u64,
}

/// The bytes of a double ratchet header: `dh_pub || be64(pn) || be64(n)`.
pub open spec fn ec_header_bytes(h: ECHeader) -> Seq<u8> {
    h.dh_pub.0@ + spec_u64_be(h.pn) + spec_u64_be(h.n)
}

impl ECHeader {
    /// The header of message `n` of a sending chain whose predecessor had
    /// `pn` messages, carrying the sender's current ratchet public key.
    pub fn header<'a>(dh_pair: Option<X25519KeyPair>, pn: u64, n: u64) -> (res: Result<Self, &'a str>)
        requires
            dh_pair is Some,
        ensures
            res matches Ok(h) && h.dh_pub == dh_pair->0.public_key && h.pn == pn && h.n == n,
    {
        let dh_pair_n = match dh_pair {
            Some(p) => p,
            None => return Err("There is no dh_pair for making of header"),
        };
        Ok(Self { dh_pub: dh_pair_n.public_key, pn, n })
    }

    /// The associated data of a double ratchet message: the length of `ad`
    /// (64) as four big-endian bytes, `ad`, then the header's bytes.
    pub fn concat_with_ad(&self, ad: &[u8; 64]) -> (res: [u8; 116])
        ensures
            res@ == spec_u32_be(64) + ad@ + ec_header_bytes(*self),
    {
        let len_bytes = u32_to_be_bytes(64);
        let a: [u8; 68] = concat(len_bytes, *ad);
        let header = self.header_to_bytes();
        let res: [u8; 116] = concat(a, header);
        assert(res@ =~= spec_u32_be(64) + ad@ + ec_header_bytes(*self));
        res
    }

    /// The header's bytes: `dh_pub || be64(pn) || be64(n)`.
    pub fn header_to_bytes(&self) -> (res: [u8; 48])
        ensures
            res@ == ec_header_bytes(*self),
    {
        let pn_bytes = u64_to_be_bytes(self.pn);
        let n_bytes = u64_to_be_bytes(self.n);
        let a: [u8; 40] = concat(self.dh_pub.0, pn_bytes);
        let res: [u8; 48] = concat(a, n_bytes);
        assert(res@ =~= ec_header_bytes(*self));
        res
    }
}

} // verus!
