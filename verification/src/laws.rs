//! The laws the redirect target obeys: how the constructed query splits into
//! parameters, and that exactly one of them is the `redirect_uri`, whose
//! percent-decoded value is the original callback URL.

use vstd::prelude::*;
use crate::bytes::is_prefix_of;
use crate::encoding::{
    decode_seq, encode_seq, lemma_encode_bytes_safe, lemma_encode_round_trip,
};
use crate::gate::{
    auth_query, callback_url, client_id_key, free_of, location_url, redirect_uri_key,
    response_type_param, scope_param, Config,
};

verus! {

/// The components of `q` between `&` separators, in order; a query with no
/// separator is one single component.
pub open spec fn split_amp(q: Seq<u8>) -> Seq<Seq<u8>>
    decreases q.len(),
{
    if q.len() == 0 {
        seq![Seq::<u8>::empty()]
    } else if q[0] == 38 {
        seq![Seq::<u8>::empty()] + split_amp(q.skip(1))
    } else {
        let r = split_amp(q.skip(1));
        seq![seq![q[0]] + r[0]] + r.skip(1)
    }
}

/// A separator-free sequence is one single component.
proof fn lemma_split_amp_free(a: Seq<u8>)
    requires
        free_of(a, 38),
    ensures
        split_amp(a) == seq![a],
    decreases a.len(),
{
    if a.len() == 0 {
        assert(a =~= Seq::<u8>::empty());
    } else {
        assert(free_of(a.skip(1), 38));
        lemma_split_amp_free(a.skip(1));
        assert(seq![a[0]] + a.skip(1) =~= a);
        assert(split_amp(a) =~~= seq![a]);
    }
}

/// Splitting distributes over a separator that follows a separator-free
/// component.
proof fn lemma_split_amp_concat(a: Seq<u8>, b: Seq<u8>)
    requires
        free_of(a, 38),
    ensures
        split_amp(a + seq![38u8] + b) == seq![a] + split_amp(b),
    decreases a.len(),
{
    let q = a + seq![38u8] + b;
    if a.len() == 0 {
        assert(q =~= seq![38u8] + b);
        assert(q[0] == 38);
        assert(q.skip(1) =~= b);
        assert(a =~= Seq::<u8>::empty());
        assert(split_amp(q) =~~= seq![a] + split_amp(b));
    } else {
        assert(q[0] == a[0] && a[0] != 38);
        assert(q.skip(1) =~= a.skip(1) + seq![38u8] + b);
        assert(free_of(a.skip(1), 38));
        lemma_split_amp_concat(a.skip(1), b);
        let r = split_amp(q.skip(1));
        assert(r == seq![a.skip(1)] + split_amp(b));
        assert(r[0] == a.skip(1));
        assert(seq![q[0]] + r[0] =~= a);
        assert(r.skip(1) =~~= split_amp(b));
        assert(split_amp(q) =~~= seq![a] + split_amp(b));
    }
}

/// Of every constructed redirect: the `Location` URL is the identity
/// provider's endpoint followed by one query; that query splits into exactly
/// four parameters; exactly one of them carries the `redirect_uri` key; and
/// the percent-decoded value of that parameter is the callback URL built
/// from the original request's path.
pub proof fn lemma_location_unique_redirect_uri(cfg: Config, hs: Seq<(Seq<u8>, Seq<u8>)>)
    requires
        cfg.wf(),
    ensures
        location_url(cfg, hs) == cfg.idp_auth_base@ + seq![63u8] + auth_query(cfg, hs),
        free_of(cfg.idp_auth_base@, 63),
        split_amp(auth_query(cfg, hs)).len() == 4,
        is_prefix_of(redirect_uri_key(), split_amp(auth_query(cfg, hs))[3]),
        decode_seq(split_amp(auth_query(cfg, hs))[3].skip(redirect_uri_key().len() as int))
            == callback_url(cfg, hs),
        forall|i: int|
            0 <= i < 3 ==> !is_prefix_of(redirect_uri_key(), split_amp(auth_query(cfg, hs))[i]),
{
    reveal_strlit("client_id=");
    reveal_strlit("response_type=code");
    reveal_strlit("scope=openid");
    reveal_strlit("redirect_uri=");
    let q = auth_query(cfg, hs);
    let enc = encode_seq(callback_url(cfg, hs));
    let p0 = client_id_key() + cfg.client_id@;
    let p1 = response_type_param();
    let p2 = scope_param();
    let p3 = redirect_uri_key() + enc;
    lemma_encode_bytes_safe(callback_url(cfg, hs));
    assert(free_of(enc, 38));
    assert(free_of(client_id_key(), 38));
    assert(free_of(p0, 38));
    assert(free_of(p1, 38));
    assert(free_of(p2, 38));
    assert(free_of(redirect_uri_key(), 38));
    assert(free_of(p3, 38));
    assert(q =~= p0 + seq![38u8] + (p1 + seq![38u8] + (p2 + seq![38u8] + p3)));
    lemma_split_amp_concat(p0, p1 + seq![38u8] + (p2 + seq![38u8] + p3));
    lemma_split_amp_concat(p1, p2 + seq![38u8] + p3);
    lemma_split_amp_concat(p2, p3);
    lemma_split_amp_free(p3);
    let parts = split_amp(q);
    assert(parts =~~= seq![p0, p1, p2, p3]);
    assert(is_prefix_of(redirect_uri_key(), p3));
    assert(p3.skip(redirect_uri_key().len() as int) =~= enc);
    lemma_encode_round_trip(callback_url(cfg, hs));
    assert(redirect_uri_key()[0] == 114);
    assert(p0[0] == 99);
    assert(!is_prefix_of(redirect_uri_key(), p0));
    assert(p1[2] == 115 && redirect_uri_key()[2] == 100);
    assert(!is_prefix_of(redirect_uri_key(), p1));
    assert(p2[0] == 115);
    assert(!is_prefix_of(redirect_uri_key(), p2));
}

} // verus!
