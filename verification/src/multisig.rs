//! M-of-N threshold signing: group policies, partial signature slots, and
//! the validated merge of independently collected partial signatures.

use vstd::prelude::*;

use crate::address::{Address, Ed25519PublicKey, Signature};
use crate::crypto::sha512_256_of;
use crate::errors::AlgorandError;

verus! {

/// A group signing policy: an ordered list of member keys, a scheme
/// version and a threshold. Member order is significant and must be
/// identical across all participants.
#[derive(Debug, Clone, PartialEq, Eq)]
pub struct MultisigAddress {
    pub version: u8,
    pub threshold: u8,
    pub public_keys: Vec<Ed25519PublicKey>,
}

/// One member's slot inside an aggregated signature: the member's key and
/// that member's signature, if the member has signed.
#[derive(Debug, Clone, Copy, PartialEq, Eq)]
pub struct MultisigSubsig {
    pub key: Ed25519PublicKey,
    pub sig: Option<Signature>,
}

/// An aggregated group signature: one slot per policy member, in the
/// policy's member order.
#[derive(Debug, PartialEq, Eq)]
pub struct MultisigSignature {
    pub version: u8,
    pub threshold: u8,
    pub subsigs: Vec<MultisigSubsig>,
}

/// Mathematical model of a policy.
#[verifier::ext_equal]
pub struct MultisigAddressView {
    pub version: u8,
    pub threshold: u8,
    pub public_keys: Seq<Seq<u8>>,
}

/// Mathematical model of one slot.
#[verifier::ext_equal]
pub struct MultisigSubsigView {
    pub key: Seq<u8>,
    pub sig: Option<Seq<u8>>,
}

/// Mathematical model of an aggregated signature.
#[verifier::ext_equal]
pub struct MultisigSignatureView {
    pub version: u8,
    pub threshold: u8,
    pub subsigs: Seq<MultisigSubsigView>,
}

impl View for MultisigAddress {
    type V = MultisigAddressView;

    open spec fn view(&self) -> MultisigAddressView {
        MultisigAddressView {
            version: self.version,
            threshold: self.threshold,
            public_keys: Seq::new(self.public_keys@.len(), |i: int| self.public_keys@[i]@),
        }
    }
}

impl View for MultisigSubsig {
    type V = MultisigSubsigView;

    open spec fn view(&self) -> MultisigSubsigView {
        MultisigSubsigView {
            key: self.key@,
            sig: match self.sig {
                Some(s) => Some(s@),
                None => None,
            },
        }
    }
}

impl View for MultisigSignature {
    type V = MultisigSignatureView;

    open spec fn view(&self) -> MultisigSignatureView {
        MultisigSignatureView {
            version: self.version,
            threshold: self.threshold,
            subsigs: Seq::new(self.subsigs@.len(), |i: int| self.subsigs@[i]@),
        }
    }
}

/// The fixed prefix of a multisig address derivation: the ASCII bytes of
/// "MultisigAddr".
pub open spec fn msig_prefix() -> Seq<u8> {
    seq![77u8, 117u8, 108u8, 116u8, 105u8, 115u8, 105u8, 103u8, 65u8, 100u8, 100u8, 114u8]
}

/// The member keys of a policy, concatenated in order.
pub open spec fn concat_keys(keys: Seq<Seq<u8>>) -> Seq<u8>
    decreases keys.len(),
{
    if keys.len() == 0 {
        Seq::empty()
    } else {
        keys[0] + concat_keys(keys.skip(1))
    }
}

/// The bytes a policy's address is derived from: prefix, version,
/// threshold, then every member key in order.
pub open spec fn msig_preimage(m: MultisigAddressView) -> Seq<u8> {
    msig_prefix() + seq![m.version, m.threshold] + concat_keys(m.public_keys)
}

pub proof fn lemma_concat_keys_push(keys: Seq<Seq<u8>>, x: Seq<u8>)
    ensures
        concat_keys(keys.push(x)) == concat_keys(keys) + x,
    decreases keys.len(),
{
    if keys.len() == 0 {
        assert(keys.push(x).skip(1) =~= Seq::<Seq<u8>>::empty());
        assert(keys.push(x)[0] == x);
        assert(concat_keys(keys.push(x)) == x + concat_keys(Seq::<Seq<u8>>::empty()));
        assert(concat_keys(keys.push(x)) =~= concat_keys(keys) + x);
    } else {
        assert(keys.push(x).skip(1) =~= keys.skip(1).push(x));
        lemma_concat_keys_push(keys.skip(1), x);
        assert(concat_keys(keys.push(x)) =~= concat_keys(keys) + x);
    }
}

impl MultisigAddress {
    /// Whether `key` is one of the policy's members.
    pub fn contains_key(&self, key: &Ed25519PublicKey) -> (r: bool)
        ensures
            r == self@.public_keys.contains(key@),
    {
        let n = self.public_keys.len();
        let mut i: usize = 0;
        while i < n
            invariant
                n == self.public_keys@.len(),
                i <= n,
                forall|k: int| 0 <= k < i ==> self@.public_keys[k] != key@,
            decreases n - i,
        {
            if self.public_keys[i].matches(key) {
                assert(self@.public_keys[i as int] == key@);
                return true;
            }
            i += 1;
        }
        assert(!self@.public_keys.contains(key@));
        false
    }

    /// The address this policy signs as: the truncated 512-bit digest of
    /// the policy's preimage bytes.
    pub fn address(&self) -> (r: Address)
        ensures
            r@ == sha512_256_of(msig_preimage(self@)),
    {
        let mut buf: Vec<u8> = Vec::new();
        buf.push(77u8);
        buf.push(117u8);
        buf.push(108u8);
        buf.push(116u8);
        buf.push(105u8);
        buf.push(115u8);
        buf.push(105u8);
        buf.push(103u8);
        buf.push(65u8);
        buf.push(100u8);
        buf.push(100u8);
        buf.push(114u8);
        buf.push(self.version);
        buf.push(self.threshold);
        assert(buf@ =~= msig_prefix() + seq![self.version, self.threshold]);
        let ghost head: Seq<u8> = buf@;
        let n = self.public_keys.len();
        let mut i: usize = 0;
        while i < n
            invariant
                n == self.public_keys@.len(),
                i <= n,
                buf@ == head + concat_keys(self@.public_keys.take(i as int)),
            decreases n - i,
        {
            let key = &self.public_keys[i];
            let ghost before: Seq<u8> = buf@;
            let mut j: usize = 0;
            while j < 32
                invariant
                    j <= 32,
                    buf@ == before + key@.take(j as int),
                    key@.len() == 32,
                decreases 32 - j,
            {
                buf.push(key.0[j]);
                j += 1;
                assert(buf@ =~= before + key@.take(j as int));
            }
            assert(buf@ =~= before + key@);
            proof {
                lemma_concat_keys_push(self@.public_keys.take(i as int), self@.public_keys[i as int]);
                assert(self@.public_keys.take(i as int).push(self@.public_keys[i as int]) =~= self@
                    .public_keys
                    .take(i + 1));
            }
            i += 1;
        }
        assert(self@.public_keys.take(n as int) =~= self@.public_keys);
        assert(buf@ =~= msig_preimage(self@));
        let digest = crate::crypto::sha512_256(buf.as_slice());
        Address(digest)
    }
}

/// The rejection, if any, that a single slot raises during a merge: the
/// member keys must agree, and two present signatures must be equal.
pub open spec fn subsig_slot_err(a: MultisigSubsigView, b: MultisigSubsigView) -> Option<
    AlgorandError,
> {
    if a.key != b.key {
        Some(AlgorandError::InvalidPublicKeyInMultisig)
    } else if a.sig is Some && b.sig is Some && a.sig != b.sig {
        Some(AlgorandError::MismatchingSignatures)
    } else {
        None
    }
}

/// The merged value of one slot: an empty accumulator slot adopts the
/// incoming signature, a filled one is kept.
pub open spec fn merged_subsig(a: MultisigSubsigView, b: MultisigSubsigView) -> MultisigSubsigView {
    MultisigSubsigView {
        key: a.key,
        sig: if a.sig is None {
            b.sig
        } else {
            a.sig
        },
    }
}

/// Slot-by-slot merge of two slot lists, walking in member order and
/// reporting the first slot's rejection.
pub open spec fn merge_subsigs(a: Seq<MultisigSubsigView>, b: Seq<MultisigSubsigView>) -> Result<
    Seq<MultisigSubsigView>,
    AlgorandError,
>
    recommends
        a.len() == b.len(),
    decreases a.len(),
{
    if a.len() == 0 {
        Ok(Seq::empty())
    } else {
        match subsig_slot_err(a[0], b[0]) {
            Some(e) => Err(e),
            None => match merge_subsigs(a.skip(1), b.skip(1)) {
                Ok(rest) => Ok(seq![merged_subsig(a[0], b[0])] + rest),
                Err(e) => Err(e),
            },
        }
    }
}

/// Merge of two aggregated signatures: the slot counts must agree; the
/// version and threshold of the accumulator are kept.
pub open spec fn merge_msig_pair(a: MultisigSignatureView, b: MultisigSignatureView) -> Result<
    MultisigSignatureView,
    AlgorandError,
> {
    if a.subsigs.len() != b.subsigs.len() {
        Err(AlgorandError::InvalidNumberOfSubsignatures)
    } else {
        match merge_subsigs(a.subsigs, b.subsigs) {
            Ok(s) => Ok(
                MultisigSignatureView {
                    version: a.version,
                    threshold: a.threshold,
                    subsigs: s,
                },
            ),
            Err(e) => Err(e),
        }
    }
}

/// Left fold of the pairwise merge over a list of aggregated signatures.
pub open spec fn merge_msig_fold(acc: MultisigSignatureView, rest: Seq<MultisigSignatureView>) -> Result<
    MultisigSignatureView,
    AlgorandError,
>
    decreases rest.len(),
{
    if rest.len() == 0 {
        Ok(acc)
    } else {
        match merge_msig_pair(acc, rest[0]) {
            Ok(m) => merge_msig_fold(m, rest.skip(1)),
            Err(e) => Err(e),
        }
    }
}

/// The model of a fallible operation that yields an aggregated signature.
pub open spec fn msig_result_view(r: Result<MultisigSignature, AlgorandError>) -> Result<
    MultisigSignatureView,
    AlgorandError,
> {
    match r {
        Ok(m) => Ok(m@),
        Err(e) => Err(e),
    }
}

pub proof fn lemma_merge_subsigs_ok(a: Seq<MultisigSubsigView>, b: Seq<MultisigSubsigView>)
    requires
        a.len() == b.len(),
        forall|k: int| 0 <= k < a.len() ==> subsig_slot_err(a[k], b[k]) is None,
    ensures
        merge_subsigs(a, b) == Ok::<_, AlgorandError>(
            Seq::new(a.len(), |k: int| merged_subsig(a[k], b[k])),
        ),
    decreases a.len(),
{
    let expect = Seq::new(a.len(), |k: int| merged_subsig(a[k], b[k]));
    if a.len() == 0 {
        assert(expect =~= Seq::<MultisigSubsigView>::empty());
    } else {
        lemma_merge_subsigs_ok(a.skip(1), b.skip(1));
        let rest = Seq::new(a.skip(1).len(), |k: int| merged_subsig(a.skip(1)[k], b.skip(1)[k]));
        assert(seq![merged_subsig(a[0], b[0])] + rest =~= expect);
    }
}

pub proof fn lemma_merge_subsigs_err(a: Seq<MultisigSubsigView>, b: Seq<MultisigSubsigView>, i: int)
    requires
        a.len() == b.len(),
        0 <= i < a.len(),
        forall|k: int| 0 <= k < i ==> subsig_slot_err(a[k], b[k]) is None,
        subsig_slot_err(a[i], b[i]) is Some,
    ensures
        merge_subsigs(a, b) == Err::<Seq<MultisigSubsigView>, _>(
            subsig_slot_err(a[i], b[i]).unwrap(),
        ),
    decreases i,
{
    if i == 0 {
    } else {
        lemma_merge_subsigs_err(a.skip(1), b.skip(1), i - 1);
    }
}

impl MultisigSignature {
    /// Merge `other` into this aggregated signature, slot by slot: the
    /// slot counts and member order must agree, a filled slot is kept, an
    /// empty one adopts the incoming signature, and two different filled
    /// signatures for one slot are rejected.
    pub fn merged_with(&self, other: &MultisigSignature) -> (r: Result<
        MultisigSignature,
        AlgorandError,
    >)
        ensures
            msig_result_view(r) == merge_msig_pair(self@, other@),
    {
        if self.subsigs.len() != other.subsigs.len() {
            return Err(AlgorandError::InvalidNumberOfSubsignatures);
        }
        let n = self.subsigs.len();
        let mut subsigs: Vec<MultisigSubsig> = Vec::new();
        let mut i: usize = 0;
        while i < n
            invariant
                n == self.subsigs@.len() == other.subsigs@.len(),
                i <= n,
                subsigs@.len() == i,
                forall|k: int| 0 <= k < i ==> subsig_slot_err(self@.subsigs[k], other@.subsigs[k]) is None,
                forall|k: int|
                    0 <= k < i ==> #[trigger] subsigs@[k]@ == merged_subsig(
                        self@.subsigs[k],
                        other@.subsigs[k],
                    ),
            decreases n - i,
        {
            let sa = &self.subsigs[i];
            let sb = &other.subsigs[i];
            if !sa.key.matches(&sb.key) {
                proof {
                    lemma_merge_subsigs_err(self@.subsigs, other@.subsigs, i as int);
                }
                return Err(AlgorandError::InvalidPublicKeyInMultisig);
            }
            let conflict = match (&sa.sig, &sb.sig) {
                (Some(x), Some(y)) => !x.matches(y),
                _ => false,
            };
            if conflict {
                proof {
                    lemma_merge_subsigs_err(self@.subsigs, other@.subsigs, i as int);
                }
                return Err(AlgorandError::MismatchingSignatures);
            }
            let merged = match sa.sig {
                None => MultisigSubsig { key: sa.key, sig: sb.sig },
                Some(_) => MultisigSubsig { key: sa.key, sig: sa.sig },
            };
            subsigs.push(merged);
            i += 1;
        }
        proof {
            lemma_merge_subsigs_ok(self@.subsigs, other@.subsigs);
        }
        let r = MultisigSignature { version: self.version, threshold: self.threshold, subsigs };
        assert(r@.subsigs =~= Seq::new(
            self@.subsigs.len(),
            |k: int| merged_subsig(self@.subsigs[k], other@.subsigs[k]),
        ));
        assert(merge_msig_pair(self@, other@) == Ok::<_, AlgorandError>(r@)) by {
            assert(merge_msig_pair(self@, other@).unwrap() =~= r@);
        }
        Ok(r)
    }
}

/// Merging a list of slots with itself changes nothing.
pub proof fn lemma_merge_subsigs_self(a: Seq<MultisigSubsigView>)
    ensures
        merge_subsigs(a, a) == Ok::<_, AlgorandError>(a),
    decreases a.len(),
{
    if a.len() == 0 {
        assert(a =~= Seq::<MultisigSubsigView>::empty());
    } else {
        lemma_merge_subsigs_self(a.skip(1));
        assert(merged_subsig(a[0], a[0]) =~= a[0]);
        assert(seq![a[0]] + a.skip(1) =~= a);
    }
}

/// Slot-list merge does not depend on the order of its two arguments.
pub proof fn lemma_merge_subsigs_comm(a: Seq<MultisigSubsigView>, b: Seq<MultisigSubsigView>)
    requires
        a.len() == b.len(),
    ensures
        merge_subsigs(a, b) == merge_subsigs(b, a),
    decreases a.len(),
{
    if a.len() == 0 {
    } else {
        lemma_merge_subsigs_comm(a.skip(1), b.skip(1));
        if subsig_slot_err(a[0], b[0]) is None {
            assert(merged_subsig(a[0], b[0]) =~= merged_subsig(b[0], a[0]));
        }
    }
}

/// Merging a slot list once more into an already merged list changes
/// nothing.
pub proof fn lemma_merge_subsigs_idem(
    a: Seq<MultisigSubsigView>,
    b: Seq<MultisigSubsigView>,
    m: Seq<MultisigSubsigView>,
)
    requires
        a.len() == b.len(),
        merge_subsigs(a, b) == Ok::<_, AlgorandError>(m),
    ensures
        merge_subsigs(m, a) == Ok::<_, AlgorandError>(m),
    decreases a.len(),
{
    if a.len() == 0 {
        assert(m =~= Seq::<MultisigSubsigView>::empty());
    } else {
        let rest = merge_subsigs(a.skip(1), b.skip(1)).unwrap();
        assert(m == seq![merged_subsig(a[0], b[0])] + rest);
        assert(m[0] == merged_subsig(a[0], b[0]));
        assert(m.skip(1) =~= rest);
        lemma_merge_subsigs_idem(a.skip(1), b.skip(1), rest);
        assert(subsig_slot_err(m[0], a[0]) is None);
        assert(merged_subsig(m[0], a[0]) =~= m[0]);
        assert(seq![m[0]] + m.skip(1) =~= m);
    }
}

/// Merging an aggregated signature with itself changes nothing.
pub proof fn lemma_merge_pair_self(a: MultisigSignatureView)
    ensures
        merge_msig_pair(a, a) == Ok::<_, AlgorandError>(a),
{
    lemma_merge_subsigs_self(a.subsigs);
    assert(merge_msig_pair(a, a).unwrap() =~= a);
}

/// Pairwise merge of two aggregated signatures over one policy does not
/// depend on the order of its arguments.
pub proof fn lemma_merge_pair_comm(a: MultisigSignatureView, b: MultisigSignatureView)
    requires
        a.version == b.version,
        a.threshold == b.threshold,
    ensures
        merge_msig_pair(a, b) == merge_msig_pair(b, a),
{
    if a.subsigs.len() == b.subsigs.len() {
        lemma_merge_subsigs_comm(a.subsigs, b.subsigs);
        if merge_subsigs(a.subsigs, b.subsigs) is Ok {
            assert(merge_msig_pair(a, b).unwrap() =~= merge_msig_pair(b, a).unwrap());
        }
    }
}

/// Merging one of its inputs once more into a merged aggregated signature
/// changes nothing.
pub proof fn lemma_merge_pair_idem(
    a: MultisigSignatureView,
    b: MultisigSignatureView,
    m: MultisigSignatureView,
)
    requires
        merge_msig_pair(a, b) == Ok::<_, AlgorandError>(m),
    ensures
        merge_msig_pair(m, a) == Ok::<_, AlgorandError>(m),
{
    let s = merge_subsigs(a.subsigs, b.subsigs).unwrap();
    assert(m.subsigs == s);
    lemma_merge_subsigs_len(a.subsigs, b.subsigs);
    lemma_merge_subsigs_idem(a.subsigs, b.subsigs, s);
    assert(merge_msig_pair(m, a).unwrap() =~= m);
}

/// A successful slot-list merge keeps the slot count.
pub proof fn lemma_merge_subsigs_len(a: Seq<MultisigSubsigView>, b: Seq<MultisigSubsigView>)
    requires
        a.len() == b.len(),
        merge_subsigs(a, b) is Ok,
    ensures
        merge_subsigs(a, b).unwrap().len() == a.len(),
    decreases a.len(),
{
    if a.len() == 0 {
    } else {
        lemma_merge_subsigs_len(a.skip(1), b.skip(1));
    }
}

} // verus!

