use vstd::prelude::*;

verus! {

/// The ALPN identifier of HTTP/2: the bytes of "h2".
pub open spec fn proto_h2() -> Seq<u8> {
    seq![0x68u8, 0x32u8]
}

/// The ALPN identifier of HTTP/1.1: the bytes of "http/1.1".
pub open spec fn proto_http11() -> Seq<u8> {
    seq![0x68u8, 0x74u8, 0x74u8, 0x70u8, 0x2fu8, 0x31u8, 0x2eu8, 0x31u8]
}

/// A protocol identifier fits the ALPN wire format: one to 255 bytes.
pub open spec fn valid_protocol(p: Seq<u8>) -> bool {
    1 <= p.len() <= 255
}

pub open spec fn valid_protocols(ps: Seq<Seq<u8>>) -> bool {
    forall|i: int| 0 <= i < ps.len() ==> #[trigger] valid_protocol(ps[i])
}

/// The ALPN wire format: each protocol identifier preceded by its length
/// byte, in order of preference.
pub open spec fn alpn_wire(ps: Seq<Seq<u8>>) -> Seq<u8>
    decreases ps.len(),
{
    if ps.len() == 0 {
        Seq::empty()
    } else {
        alpn_wire(ps.drop_last()) + seq![ps.last().len() as u8] + ps.last()
    }
}

/// The protocols advertised: HTTP/2 before HTTP/1.1 when HTTP/2 is
/// negotiated, HTTP/1.1 alone otherwise.
pub open spec fn advertised_protocols(negotiate_http2: bool) -> Seq<Seq<u8>> {
    if negotiate_http2 {
        seq![proto_h2(), proto_http11()]
    } else {
        seq![proto_http11()]
    }
}

/// Encodes an ordered list of protocol identifiers in the ALPN wire format.
pub fn encode_alpn(protocols: &Vec<Vec<u8>>) -> (r: Vec<u8>)
    requires
        valid_protocols(protocols.deep_view()),
    ensures
        r@ == alpn_wire(protocols.deep_view()),
{
    let mut out: Vec<u8> = Vec::new();
    let mut i: usize = 0;
    while i < protocols.len()
        invariant
            i <= protocols.len(),
            valid_protocols(protocols.deep_view()),
            out@ == alpn_wire(protocols.deep_view().subrange(0, i as int)),
        decreases protocols.len() - i,
    {
        let p = &protocols[i];
        assert(valid_protocol(protocols.deep_view()[i as int]));
        assert(p@ == protocols.deep_view()[i as int]);
        let ghost before = out@;
        out.push(p.len() as u8);
        let mut j: usize = 0;
        while j < p.len()
            invariant
                j <= p.len(),
                out@ == before + seq![p@.len() as u8] + p@.subrange(0, j as int),
            decreases p.len() - j,
        {
            out.push(p[j]);
            j += 1;
            assert(p@.subrange(0, j as int) == p@.subrange(0, j - 1 as int).push(p@[j - 1]));
        }
        assert(p@.subrange(0, p@.len() as int) == p@);
        let ghost next = protocols.deep_view().subrange(0, i + 1 as int);
        assert(next.drop_last() == protocols.deep_view().subrange(0, i as int));
        assert(next.last() == p@);
        i += 1;
    }
    assert(protocols.deep_view().subrange(0, protocols.len() as int) == protocols.deep_view());
    out
}

/// The identifiers advertised for the given negotiation choice.
pub fn alpn_protocols(negotiate_http2: bool) -> (r: Vec<Vec<u8>>)
    ensures
        r.deep_view() == advertised_protocols(negotiate_http2),
{
    let http11: Vec<u8> = vec![0x68u8, 0x74u8, 0x74u8, 0x70u8, 0x2fu8, 0x31u8, 0x2eu8, 0x31u8];
    assert(http11.deep_view() =~= proto_http11());
    let mut r: Vec<Vec<u8>> = Vec::new();
    if negotiate_http2 {
        let h2: Vec<u8> = vec![0x68u8, 0x32u8];
        assert(h2.deep_view() =~= proto_h2());
        r.push(h2);
    }
    r.push(http11);
    assert(r.deep_view().len() == advertised_protocols(negotiate_http2).len());
    assert(r.deep_view() =~= advertised_protocols(negotiate_http2));
    r
}

/// The ALPN bytes to configure for the given negotiation choice.
pub fn alpn_bytes(negotiate_http2: bool) -> (r: Vec<u8>)
    ensures
        r@ == alpn_wire(advertised_protocols(negotiate_http2)),
        negotiate_http2 ==> r@ == seq![2u8] + proto_h2() + seq![8u8] + proto_http11(),
        !negotiate_http2 ==> r@ == seq![8u8] + proto_http11(),
{
    let protocols = alpn_protocols(negotiate_http2);
    proof {
        lemma_advertised_valid(negotiate_http2);
        lemma_advertised_wire(negotiate_http2);
    }
    encode_alpn(&protocols)
}

pub proof fn lemma_advertised_valid(negotiate_http2: bool)
    ensures
        valid_protocols(advertised_protocols(negotiate_http2)),
{
}

/// The ALPN bytes are fixed by the negotiation choice alone: `h2` then
/// `http/1.1` when HTTP/2 is negotiated, `http/1.1` alone otherwise.
pub proof fn lemma_advertised_wire(negotiate_http2: bool)
    ensures
        negotiate_http2 ==> alpn_wire(advertised_protocols(negotiate_http2)) == seq![2u8]
            + proto_h2() + seq![8u8] + proto_http11(),
        !negotiate_http2 ==> alpn_wire(advertised_protocols(negotiate_http2)) == seq![8u8]
            + proto_http11(),
{
    let one = seq![proto_http11()];
    assert(one.drop_last() =~= Seq::<Seq<u8>>::empty());
    assert(alpn_wire(one.drop_last()) == Seq::<u8>::empty());
    assert(alpn_wire(one) =~= seq![8u8] + proto_http11());
    let h = seq![proto_h2()];
    assert(h.drop_last() =~= Seq::<Seq<u8>>::empty());
    assert(alpn_wire(h) =~= seq![2u8] + proto_h2());
    let two = seq![proto_h2(), proto_http11()];
    assert(two.drop_last() =~= h);
    assert(alpn_wire(two) =~= seq![2u8] + proto_h2() + seq![8u8] + proto_http11());
}

} // verus!
