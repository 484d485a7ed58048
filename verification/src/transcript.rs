use vstd::prelude::*;

use crate::codec::{
    copy_bytes, dec_bytes, enc_bytes, fits_wire_len, lemma_rt_bytes, spec_dec_bytes,
    spec_enc_bytes, WireCode,
};
use crate::crypto::{hmac_sha256, hmac_sha256_of, sha256, sha256_of, to_hex, CipherSuite};

verus! {

// The transcript chain binds every commit to all prior epochs:
// interim_n = Hash(confirmed_n || confirmation_tag_n) and
// confirmed_{n+1} = Hash(interim_n || commit_content_{n+1}).

/// Why a confirmation tag could not be produced or checked.
#[derive(Clone, Copy, Debug, PartialEq, Eq, Structural)]
pub enum ConfirmationTagError {
    CipherSuiteProviderError,
}

/// The running digest over everything the group has confirmed.
#[derive(Clone, Debug, PartialEq, Eq)]
pub struct ConfirmedTranscriptHash {
    pub bytes: Vec<u8>,
}

impl View for ConfirmedTranscriptHash {
    type V = Seq<u8>;

    open spec fn view(&self) -> Seq<u8> {
        self.bytes@
    }
}

impl From<Vec<u8>> for ConfirmedTranscriptHash {
    fn from(bytes: Vec<u8>) -> (r: ConfirmedTranscriptHash) {
        ConfirmedTranscriptHash { bytes }
    }
}

impl vstd::std_specs::convert::FromSpecImpl<Vec<u8>> for ConfirmedTranscriptHash {
    open spec fn obeys_from_spec() -> bool {
        true
    }

    open spec fn from_spec(bytes: Vec<u8>) -> ConfirmedTranscriptHash {
        ConfirmedTranscriptHash { bytes }
    }
}

/// The digest that already folds in the latest confirmation tag, waiting for
/// the next commit.
#[derive(Clone, Debug, PartialEq, Eq)]
pub struct InterimTranscriptHash {
    pub bytes: Vec<u8>,
}

impl View for InterimTranscriptHash {
    type V = Seq<u8>;

    open spec fn view(&self) -> Seq<u8> {
        self.bytes@
    }
}

/// The next confirmed transcript hash: the old interim hash with the new
/// commit's content folded in.
pub open spec fn spec_confirmed_next(interim: Seq<u8>, commit_content: Seq<u8>) -> Seq<u8> {
    sha256_of(interim + commit_content)
}

/// The next interim transcript hash: the new confirmed hash with the new
/// confirmation tag folded in.
pub open spec fn spec_interim_next(confirmed: Seq<u8>, tag: Seq<u8>) -> Seq<u8> {
    sha256_of(confirmed + tag)
}

/// Computes the next confirmed transcript hash.
pub fn confirmed_next(interim: &Vec<u8>, commit_content: &Vec<u8>) -> (r: Vec<u8>)
    ensures
        r@ == spec_confirmed_next(interim@, commit_content@),
        r@.len() == 32,
{
    let mut input = copy_bytes(interim);
    let mut k: usize = 0;
    while k < commit_content.len()
        invariant
            k <= commit_content.len(),
            input@ == interim@ + commit_content@.subrange(0, k as int),
        decreases commit_content.len() - k,
    {
        input.push(commit_content[k]);
        proof {
            assert(input@ =~= interim@ + commit_content@.subrange(0, k + 1 as int));
        }
        k = k + 1;
    }
    proof {
        assert(commit_content@.subrange(0, commit_content@.len() as int) =~= commit_content@);
    }
    sha256(input.as_slice())
}

/// Computes the next interim transcript hash.
pub fn interim_next(confirmed: &Vec<u8>, tag: &Vec<u8>) -> (r: Vec<u8>)
    ensures
        r@ == spec_interim_next(confirmed@, tag@),
        r@.len() == 32,
{
    let mut input = copy_bytes(confirmed);
    let mut k: usize = 0;
    while k < tag.len()
        invariant
            k <= tag.len(),
            input@ == confirmed@ + tag@.subrange(0, k as int),
        decreases tag.len() - k,
    {
        input.push(tag[k]);
        proof {
            assert(input@ =~= confirmed@ + tag@.subrange(0, k + 1 as int));
        }
        k = k + 1;
    }
    proof {
        assert(tag@.subrange(0, tag@.len() as int) =~= tag@);
    }
    sha256(input.as_slice())
}

/// The tag a correct committer computes over a confirmed transcript hash.
pub open spec fn spec_confirmation_tag(confirmation_key: Seq<u8>, confirmed: Seq<u8>) -> Seq<u8> {
    hmac_sha256_of(confirmation_key, confirmed)
}

/// The proof a committer gives that it computed the new epoch's transcript
/// and secrets: a keyed tag over the confirmed transcript hash.
#[derive(Clone, Debug, PartialEq, Eq)]
pub struct ConfirmationTag {
    pub bytes: Vec<u8>,
}

impl View for ConfirmationTag {
    type V = Seq<u8>;

    open spec fn view(&self) -> Seq<u8> {
        self.bytes@
    }
}

impl ConfirmationTag {
    /// Computes the tag for a confirmed transcript hash under the epoch's
    /// confirmation key.
    pub fn create(
        confirmation_key: &Vec<u8>,
        confirmed_transcript_hash: &ConfirmedTranscriptHash,
        cipher_suite_provider: CipherSuite,
    ) -> (r: Result<ConfirmationTag, ConfirmationTagError>)
        ensures
            match r {
                Ok(t) => t@ == spec_confirmation_tag(
                    confirmation_key@,
                    confirmed_transcript_hash@,
                ),
                Err(_) => false,
            },
    {
        let _ = cipher_suite_provider;
        let bytes = hmac_sha256(
            confirmation_key.as_slice(),
            confirmed_transcript_hash.bytes.as_slice(),
        );
        Ok(ConfirmationTag { bytes })
    }

    /// Whether this tag is the one a correct committer would have computed:
    /// the recomputed tag, compared byte for byte.
    pub fn matches(
        &self,
        confirmation_key: &Vec<u8>,
        confirmed_transcript_hash: &ConfirmedTranscriptHash,
        cipher_suite_provider: CipherSuite,
    ) -> (r: Result<bool, ConfirmationTagError>)
        ensures
            r == Ok::<bool, ConfirmationTagError>(
                self@ == spec_confirmation_tag(confirmation_key@, confirmed_transcript_hash@),
            ),
    {
        let tag = match ConfirmationTag::create(
            confirmation_key,
            confirmed_transcript_hash,
            cipher_suite_provider,
        ) {
            Ok(t) => t,
            Err(e) => return Err(e),
        };
        Ok(crate::codec::bytes_eq(&tag.bytes, &self.bytes))
    }

    /// The tag over an empty transcript under an all-zero key; a fixed value
    /// useful as a starting point.
    pub fn empty(cipher_suite_provider: CipherSuite) -> (r: ConfirmationTag)
        ensures
            r@ == hmac_sha256_of(Seq::new(32, |i: int| 0u8), Seq::empty()),
    {
        let mut zero_key: Vec<u8> = Vec::new();
        let mut k: usize = 0;
        let n = cipher_suite_provider.kdf_extract_size();
        while k < n
            invariant
                k <= n,
                n == 32,
                zero_key@ == Seq::new(k as nat, |i: int| 0u8),
            decreases n - k,
        {
            zero_key.push(0);
            proof {
                assert(zero_key@ =~= Seq::new((k + 1) as nat, |i: int| 0u8));
            }
            k = k + 1;
        }
        let empty_data: Vec<u8> = Vec::new();
        let bytes = hmac_sha256(zero_key.as_slice(), empty_data.as_slice());
        ConfirmationTag { bytes }
    }

    /// The tag's bytes as lowercase hex digits.
    pub fn to_hex_string(&self) -> (r: String)
        ensures
            r@.len() == 2 * self@.len(),
    {
        to_hex(self.bytes.as_slice())
    }
}

impl WireCode for ConfirmationTag {
    open spec fn spec_enc(m: Seq<u8>) -> Seq<u8> {
        spec_enc_bytes(m)
    }

    open spec fn spec_dec(s: Seq<u8>, i: int) -> Option<(Seq<u8>, int)> {
        spec_dec_bytes(s, i)
    }

    open spec fn wire_wf(m: Seq<u8>) -> bool {
        fits_wire_len(m.len())
    }

    proof fn lemma_rt(pre: Seq<u8>, m: Seq<u8>, suf: Seq<u8>) {
        lemma_rt_bytes(pre, m, suf);
    }

    proof fn lemma_wf(&self) {
        crate::codec::lemma_vec_fits(&self.bytes);
    }

    fn dup(&self) -> (r: Self) {
        ConfirmationTag { bytes: copy_bytes(&self.bytes) }
    }

    fn encode(&self, out: &mut Vec<u8>) {
        enc_bytes(out, &self.bytes);
    }

    fn decode(s: &Vec<u8>, i: usize) -> (r: Option<(Self, usize)>) {
        match dec_bytes(s, i) {
            Some((bytes, j)) => Some((ConfirmationTag { bytes }, j)),
            None => None,
        }
    }
}

/// No false accept on a tampered tag: a carried tag that differs from the
/// true tag in even a single byte fails the byte-for-byte comparison that
/// `matches` performs.
pub proof fn lemma_tag_no_false_accept(
    confirmation_key: Seq<u8>,
    confirmed: Seq<u8>,
    carried: Seq<u8>,
    i: int,
)
    requires
        0 <= i < carried.len(),
        carried.len() == spec_confirmation_tag(confirmation_key, confirmed).len(),
        carried[i] != spec_confirmation_tag(confirmation_key, confirmed)[i],
    ensures
        carried != spec_confirmation_tag(confirmation_key, confirmed),
{
}

} // verus!
