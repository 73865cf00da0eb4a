use vstd::prelude::*;

use crate::alpn::{advertised_protocols, alpn_bytes, alpn_wire};

verus! {

/// A TLS protocol version that a context may be bounded by.
#[derive(Clone, Copy, Debug, PartialEq, Eq, Structural)]
pub enum TlsVersion {
    Tls1,
    Tls1_1,
    Tls1_2,
    Tls1_3,
}

/// A certificate-compression algorithm that the client offers to decompress.
#[derive(Clone, Copy, Debug, PartialEq, Eq, Structural)]
pub enum CertCompression {
    Zlib,
}

/// The handshake parameters of one browser. The three name lists keep the
/// order and the duplicates of the browser's own lists: they are never sorted
/// or deduplicated.
pub struct TlsParameterSet {
    pub ciphers: Vec<&'static str>,
    pub sigalgs: Vec<&'static str>,
    pub curves: Vec<&'static str>,
    pub min_version: TlsVersion,
    pub max_version: Option<TlsVersion>,
    pub cert_compression: Vec<CertCompression>,
    pub no_session_ticket: bool,
    pub ocsp_stapling: bool,
    pub signed_cert_timestamps: bool,
    pub grease: bool,
}

/// The names of a list, as character sequences.
pub open spec fn names(v: Seq<&'static str>) -> Seq<Seq<char>> {
    v.map_values(|s: &'static str| s@)
}

/// The names joined in order, one ':' between neighbours.
pub open spec fn join_colon(parts: Seq<Seq<char>>) -> Seq<char>
    decreases parts.len(),
{
    if parts.len() == 0 {
        Seq::empty()
    } else if parts.len() == 1 {
        parts[0]
    } else {
        join_colon(parts.drop_last()) + seq![':'] + parts.last()
    }
}

/// Some cipher of the list names ECDHE key exchange.
pub open spec fn has_ecdhe(ciphers: Seq<Seq<char>>) -> bool {
    exists|i: int, j: int|
        0 <= i < ciphers.len() && 0 <= j && j + 5 <= ciphers[i].len() && #[trigger] ciphers[i].subrange(
            j,
            j + 5,
        ) == "ECDHE"@
}

impl TlsParameterSet {
    /// The cipher and signature-algorithm lists are never empty, and an
    /// ECDHE cipher comes with at least one curve.
    pub open spec fn wf(&self) -> bool {
        &&& self.ciphers@.len() > 0
        &&& self.sigalgs@.len() > 0
        &&& has_ecdhe(names(self.ciphers@)) ==> self.curves@.len() > 0
    }
}

/// A TLS client context configuration, as plain values, ready to be applied
/// to the TLS engine one setter at a time.
pub struct TlsContextConfig {
    pub load_default_trust_roots: bool,
    pub no_session_ticket: bool,
    pub grease: bool,
    pub ocsp_stapling: bool,
    pub signed_cert_timestamps: bool,
    pub cipher_list: String,
    pub sigalgs_list: String,
    pub curves_list: String,
    pub alpn: Vec<u8>,
    pub cert_compression: Vec<CertCompression>,
    pub min_version: TlsVersion,
    pub max_version: Option<TlsVersion>,
}

/// What the configuration built from `params` holds, field by field.
pub open spec fn config_of(
    c: TlsContextConfig,
    params: TlsParameterSet,
    negotiate_http2: bool,
) -> bool {
    &&& c.load_default_trust_roots
    &&& c.no_session_ticket == params.no_session_ticket
    &&& c.grease == params.grease
    &&& c.ocsp_stapling == params.ocsp_stapling
    &&& c.signed_cert_timestamps == params.signed_cert_timestamps
    &&& c.cipher_list@ == join_colon(names(params.ciphers@))
    &&& c.sigalgs_list@ == join_colon(names(params.sigalgs@))
    &&& c.curves_list@ == join_colon(names(params.curves@))
    &&& c.alpn@ == alpn_wire(advertised_protocols(negotiate_http2))
    &&& c.cert_compression@ == params.cert_compression@
    &&& c.min_version == params.min_version
    &&& c.max_version == params.max_version
}

pub open spec fn no_colon(s: Seq<char>) -> bool {
    forall|i: int| 0 <= i < s.len() ==> s[i] != ':'
}

/// Reads a ':'-separated list from the left: `cur` is the name being read,
/// `done` the names already complete.
pub open spec fn split_from(s: Seq<char>, cur: Seq<char>, done: Seq<Seq<char>>) -> Seq<Seq<char>>
    decreases s.len(),
{
    if s.len() == 0 {
        done.push(cur)
    } else if s[0] == ':' {
        split_from(s.drop_first(), Seq::empty(), done.push(cur))
    } else {
        split_from(s.drop_first(), cur.push(s[0]), done)
    }
}

/// The names of a ':'-separated list, in order.
pub open spec fn split_colon(s: Seq<char>) -> Seq<Seq<char>> {
    split_from(s, Seq::empty(), Seq::empty())
}

proof fn lemma_split_name(p: Seq<char>, rest: Seq<char>, cur: Seq<char>, done: Seq<Seq<char>>)
    requires
        no_colon(p),
    ensures
        split_from(p + rest, cur, done) == split_from(rest, cur + p, done),
    decreases p.len(),
{
    if p.len() == 0 {
        assert(p + rest =~= rest);
        assert(cur + p =~= cur);
    } else {
        assert((p + rest)[0] == p[0]);
        assert((p + rest).drop_first() =~= p.drop_first() + rest);
        lemma_split_name(p.drop_first(), rest, cur.push(p[0]), done);
        assert(cur.push(p[0]) + p.drop_first() =~= cur + p);
    }
}

proof fn lemma_split_joined_prefix(parts: Seq<Seq<char>>, rest: Seq<char>, done: Seq<Seq<char>>)
    requires
        parts.len() > 0,
        forall|i: int| 0 <= i < parts.len() ==> no_colon(#[trigger] parts[i]),
    ensures
        split_from(join_colon(parts) + seq![':'] + rest, Seq::empty(), done) == split_from(
            rest,
            Seq::empty(),
            done + parts,
        ),
    decreases parts.len(),
{
    let tail = seq![':'] + rest;
    assert(tail[0] == ':');
    assert(tail.drop_first() =~= rest);
    if parts.len() == 1 {
        assert(join_colon(parts) + seq![':'] + rest =~= parts[0] + tail);
        lemma_split_name(parts[0], tail, Seq::empty(), done);
        assert(Seq::<char>::empty() + parts[0] =~= parts[0]);
        assert(done.push(parts[0]) =~= done + parts);
    } else {
        let init = parts.drop_last();
        let last = parts.last();
        assert(no_colon(parts[parts.len() - 1]));
        assert forall|i: int| 0 <= i < init.len() implies no_colon(#[trigger] init[i]) by {
            assert(init[i] == parts[i]);
        }
        let rest2 = last + tail;
        assert(join_colon(parts) + seq![':'] + rest =~= join_colon(init) + seq![':'] + rest2);
        lemma_split_joined_prefix(init, rest2, done);
        lemma_split_name(last, tail, Seq::empty(), done + init);
        assert(Seq::<char>::empty() + last =~= last);
        assert((done + init).push(last) =~= done + parts);
    }
}

/// Joining keeps the order of the list: reading the joined text back at the
/// ':' separators gives the same names, in the same order, duplicates kept.
pub proof fn lemma_join_keeps_order(parts: Seq<Seq<char>>)
    requires
        parts.len() > 0,
        forall|i: int| 0 <= i < parts.len() ==> no_colon(#[trigger] parts[i]),
    ensures
        split_colon(join_colon(parts)) == parts,
{
    let e = Seq::<Seq<char>>::empty();
    if parts.len() == 1 {
        assert(join_colon(parts) =~= parts[0] + Seq::<char>::empty());
        lemma_split_name(parts[0], Seq::empty(), Seq::empty(), e);
        assert(Seq::<char>::empty() + parts[0] =~= parts[0]);
        assert(e.push(parts[0]) =~= parts);
    } else {
        let init = parts.drop_last();
        let last = parts.last();
        assert(no_colon(parts[parts.len() - 1]));
        assert forall|i: int| 0 <= i < init.len() implies no_colon(#[trigger] init[i]) by {
            assert(init[i] == parts[i]);
        }
        lemma_split_joined_prefix(init, last, e);
        assert(last + Seq::<char>::empty() =~= last);
        lemma_split_name(last, Seq::empty(), Seq::empty(), e + init);
        assert(Seq::<char>::empty() + last =~= last);
        assert((e + init).push(last) =~= parts);
    }
}

/// Joins names with ':' in list order, keeping every entry.
pub fn join_names(parts: &Vec<&'static str>) -> (r: String)
    ensures
        r@ == join_colon(names(parts@)),
{
    let mut out = String::new();
    let mut i: usize = 0;
    proof {
        reveal_strlit(":");
        assert(names(parts@.subrange(0, 0)) =~= Seq::<Seq<char>>::empty());
    }
    while i < parts.len()
        invariant
            i <= parts.len(),
            out@ == join_colon(names(parts@.subrange(0, i as int))),
        decreases parts.len() - i,
    {
        let ghost prev = names(parts@.subrange(0, i as int));
        let ghost next = names(parts@.subrange(0, i + 1 as int));
        assert(next.drop_last() =~= prev);
        assert(next.last() == parts@[i as int]@);
        if i > 0 {
            out.append(":");
            proof {
                reveal_strlit(":");
                assert(":"@ =~= seq![':']);
            }
            assert(join_colon(next) == join_colon(prev) + seq![':'] + next.last());
        } else {
            assert(next.len() == 1);
            assert(join_colon(next) == next[0]);
        }
        out.append(parts[i]);
        assert(out@ =~= join_colon(next));
        i += 1;
    }
    assert(parts@.subrange(0, parts@.len() as int) =~= parts@);
    out
}

fn copy_compression(v: &Vec<CertCompression>) -> (r: Vec<CertCompression>)
    ensures
        r@ == v@,
{
    let mut out: Vec<CertCompression> = Vec::new();
    let mut i: usize = 0;
    while i < v.len()
        invariant
            i <= v.len(),
            out@ == v@.subrange(0, i as int),
        decreases v.len() - i,
    {
        out.push(v[i]);
        i += 1;
        assert(out@ =~= v@.subrange(0, i as int));
    }
    assert(v@.subrange(0, v@.len() as int) =~= v@);
    out
}

/// Builds the context configuration for one connection attempt, applying the
/// parameter set in full and choosing the ALPN list by `negotiate_http2`.
pub fn build_tls_config(params: &TlsParameterSet, negotiate_http2: bool) -> (r: TlsContextConfig)
    ensures
        config_of(r, *params, negotiate_http2),
{
    TlsContextConfig {
        load_default_trust_roots: true,
        no_session_ticket: params.no_session_ticket,
        grease: params.grease,
        ocsp_stapling: params.ocsp_stapling,
        signed_cert_timestamps: params.signed_cert_timestamps,
        cipher_list: join_names(&params.ciphers),
        sigalgs_list: join_names(&params.sigalgs),
        curves_list: join_names(&params.curves),
        alpn: alpn_bytes(negotiate_http2),
        cert_compression: copy_compression(&params.cert_compression),
        min_version: params.min_version,
        max_version: params.max_version,
    }
}

/// One setter of the TLS engine, in the order the configuration is applied.
#[derive(Clone, Copy, Debug, PartialEq, Eq, Structural)]
pub enum TlsStep {
    LoadTrustRoots,
    NoSessionTicket,
    Grease,
    OcspStapling,
    CipherList,
    SignatureAlgorithms,
    Curves,
    Alpn,
    SignedCertTimestamps,
    CertCompression(CertCompression),
    MinVersion,
    MaxVersion,
}

/// Why a profile could not be built. Every such failure is fatal.
#[derive(Clone, Copy, Debug, PartialEq, Eq, Structural)]
pub enum ProfileError {
    /// The platform's default trust roots could not be loaded.
    TrustStoreUnavailable,
    /// The TLS engine refused the value of the named setter.
    ConfigurationRejected(TlsStep),
    /// The TLS engine could not create a client context to configure.
    ContextUnavailable,
}

pub open spec fn when(b: bool, step: TlsStep) -> Seq<TlsStep> {
    if b {
        seq![step]
    } else {
        Seq::empty()
    }
}

pub open spec fn compression_steps(algs: Seq<CertCompression>) -> Seq<TlsStep> {
    algs.map_values(|a: CertCompression| TlsStep::CertCompression(a))
}

/// The setters that apply `c`, in order: trust roots, ticket suppression,
/// GREASE, OCSP stapling, the cipher, signature-algorithm and curve lists,
/// ALPN, SCT requests, each certificate-compression algorithm, and the
/// version bounds.
pub open spec fn steps_of(c: TlsContextConfig) -> Seq<TlsStep> {
    seq![TlsStep::LoadTrustRoots] + when(c.no_session_ticket, TlsStep::NoSessionTicket)
        + seq![TlsStep::Grease] + when(c.ocsp_stapling, TlsStep::OcspStapling)
        + seq![TlsStep::CipherList, TlsStep::SignatureAlgorithms, TlsStep::Curves, TlsStep::Alpn]
        + when(c.signed_cert_timestamps, TlsStep::SignedCertTimestamps)
        + compression_steps(c.cert_compression@) + seq![TlsStep::MinVersion]
        + when(c.max_version is Some, TlsStep::MaxVersion)
}

/// The error that a refused setter stands for.
pub open spec fn rejection(step: TlsStep) -> ProfileError {
    if step == TlsStep::LoadTrustRoots {
        ProfileError::TrustStoreUnavailable
    } else {
        ProfileError::ConfigurationRejected(step)
    }
}

/// The outcome of applying `steps` when the engine accepted each as
/// `accepted` says: the first refused setter fails the whole construction.
pub open spec fn outcome(steps: Seq<TlsStep>, accepted: Seq<bool>) -> Result<(), ProfileError>
    decreases accepted.len(),
{
    if accepted.len() == 0 || steps.len() == 0 {
        Ok(())
    } else if !accepted[0] {
        Err(rejection(steps[0]))
    } else {
        outcome(steps.drop_first(), accepted.drop_first())
    }
}

fn push_when(v: &mut Vec<TlsStep>, b: bool, step: TlsStep)
    ensures
        final(v)@ == old(v)@ + when(b, step),
{
    if b {
        v.push(step);
    }
    assert(final(v)@ =~= old(v)@ + when(b, step));
}

impl TlsContextConfig {
    /// The setters to apply, in order.
    pub fn steps(&self) -> (r: Vec<TlsStep>)
        ensures
            r@ == steps_of(*self),
    {
        let mut v: Vec<TlsStep> = Vec::new();
        v.push(TlsStep::LoadTrustRoots);
        push_when(&mut v, self.no_session_ticket, TlsStep::NoSessionTicket);
        v.push(TlsStep::Grease);
        push_when(&mut v, self.ocsp_stapling, TlsStep::OcspStapling);
        v.push(TlsStep::CipherList);
        v.push(TlsStep::SignatureAlgorithms);
        v.push(TlsStep::Curves);
        v.push(TlsStep::Alpn);
        push_when(&mut v, self.signed_cert_timestamps, TlsStep::SignedCertTimestamps);
        let ghost head = v@;
        let mut i: usize = 0;
        while i < self.cert_compression.len()
            invariant
                i <= self.cert_compression@.len(),
                v@ == head + compression_steps(self.cert_compression@.subrange(0, i as int)),
            decreases self.cert_compression.len() - i,
        {
            v.push(TlsStep::CertCompression(self.cert_compression[i]));
            i += 1;
            assert(v@ =~= head + compression_steps(self.cert_compression@.subrange(0, i as int)));
        }
        assert(self.cert_compression@.subrange(0, i as int) =~= self.cert_compression@);
        v.push(TlsStep::MinVersion);
        push_when(&mut v, self.max_version.is_some(), TlsStep::MaxVersion);
        assert(v@ =~= steps_of(*self));
        v
    }
}

/// The error for a setter that the engine refused.
pub fn rejection_of(step: TlsStep) -> (r: ProfileError)
    ensures
        r == rejection(step),
{
    match step {
        TlsStep::LoadTrustRoots => ProfileError::TrustStoreUnavailable,
        _ => ProfileError::ConfigurationRejected(step),
    }
}

/// Decides the construction from the engine's answer to each setter, in
/// order: `accepted[i]` says whether `steps[i]` was accepted. Nothing is
/// retried and no refused value is skipped.
pub fn settle(steps: &Vec<TlsStep>, accepted: &Vec<bool>) -> (r: Result<(), ProfileError>)
    requires
        accepted@.len() == steps@.len(),
    ensures
        r == outcome(steps@, accepted@),
        r is Ok <==> forall|i: int| 0 <= i < accepted@.len() ==> accepted@[i],
{
    let n = steps.len();
    let mut i: usize = 0;
    assert(steps@.subrange(0, n as int) =~= steps@);
    assert(accepted@.subrange(0, n as int) =~= accepted@);
    while i < n
        invariant
            n == steps@.len() == accepted@.len(),
            i <= n,
            forall|j: int| 0 <= j < i ==> accepted@[j],
            outcome(steps@, accepted@) == outcome(
                steps@.subrange(i as int, n as int),
                accepted@.subrange(i as int, n as int),
            ),
        decreases n - i,
    {
        let ghost s = steps@.subrange(i as int, n as int);
        let ghost a = accepted@.subrange(i as int, n as int);
        if !accepted[i] {
            proof {
                lemma_rejected_fails(steps@, accepted@, i as int);
            }
            return Err(rejection_of(steps[i]));
        }
        assert(s.drop_first() =~= steps@.subrange(i + 1 as int, n as int));
        assert(a.drop_first() =~= accepted@.subrange(i + 1 as int, n as int));
        i += 1;
    }
    assert(accepted@.subrange(n as int, n as int).len() == 0);
    Ok(())
}

/// A setter refused by the engine fails the construction: the outcome is the
/// error of the first refused setter, never a context with the value dropped.
pub proof fn lemma_rejected_fails(steps: Seq<TlsStep>, accepted: Seq<bool>, i: int)
    requires
        accepted.len() == steps.len(),
        0 <= i < accepted.len(),
        !accepted[i],
        forall|j: int| 0 <= j < i ==> accepted[j],
    ensures
        outcome(steps, accepted) == Err::<(), ProfileError>(rejection(steps[i])),
    decreases i,
{
    if i > 0 {
        lemma_rejected_fails(steps.drop_first(), accepted.drop_first(), i - 1);
    }
}

/// Whatever the engine answered to the other setters, a refused setter
/// anywhere in the list makes the construction fail.
pub proof fn lemma_any_rejection_fatal(steps: Seq<TlsStep>, accepted: Seq<bool>, i: int)
    requires
        accepted.len() == steps.len(),
        0 <= i < accepted.len(),
        !accepted[i],
    ensures
        outcome(steps, accepted) is Err,
    decreases i,
{
    if accepted[0] {
        lemma_any_rejection_fatal(steps.drop_first(), accepted.drop_first(), i - 1);
    }
}

} // verus!
