//! Rules of the stream transports: peer identities and the short site ids
//! taken from them, which side of a pair dials, which duplicate connection
//! goes, and the named sockets of same-machine peers.
use vstd::prelude::*;
use vstd::string::StrSliceExecFns;
use vstd::string::StringExecFns;
use crate::datagram::{be_value, be_bytes, push_be32, read_be32, lemma_be_round_trip};
use crate::text::{decimal, decimal_text, parse_u32, parsed_u32};

verus! {

/// A peer's 32-byte public identity on the overlay.
pub type Identity = [u8; 32];

/// The short site id of an identity: its first four bytes, big-endian.
pub fn endpoint_id_to_site_id(id: &Identity) -> (r: u32)
    ensures
        r == be_value(id@.subrange(0, 4)),
{
    read_be32(id.as_slice(), 0)
}

/// Byte-wise order of identities, the first differing byte deciding.
pub open spec fn lex_less(a: Seq<u8>, b: Seq<u8>) -> bool
    decreases a.len(),
{
    if a.len() == 0 {
        b.len() > 0
    } else if b.len() == 0 {
        false
    } else if a[0] != b[0] {
        a[0] < b[0]
    } else {
        lex_less(a.drop_first(), b.drop_first())
    }
}

/// Whether `a` comes before `b` in byte order.
pub fn identity_less(a: &Identity, b: &Identity) -> (r: bool)
    ensures
        r == lex_less(a@, b@),
{
    let mut i: usize = 0;
    assert(a@.subrange(0, 32) =~= a@);
    assert(b@.subrange(0, 32) =~= b@);
    while i < 32
        invariant
            i <= 32,
            a@.len() == 32 && b@.len() == 32,
            a@.subrange(0, i as int) == b@.subrange(0, i as int),
            lex_less(a@, b@) == lex_less(a@.subrange(i as int, 32), b@.subrange(i as int, 32)),
        decreases 32 - i,
    {
        let ghost sa = a@.subrange(i as int, 32);
        let ghost sb = b@.subrange(i as int, 32);
        assert(sa.drop_first() =~= a@.subrange(i + 1, 32));
        assert(sb.drop_first() =~= b@.subrange(i + 1, 32));
        if a[i] != b[i] {
            return a[i] < b[i];
        }
        assert(a@.subrange(0, i + 1) =~= a@.subrange(0, i as int).push(a@[i as int]));
        assert(b@.subrange(0, i + 1) =~= b@.subrange(0, i as int).push(b@[i as int]));
        i = i + 1;
    }
    false
}

/// Whether two identities are the same.
pub fn same_identity(a: &Identity, b: &Identity) -> (r: bool)
    ensures
        r == (a@ == b@),
{
    let mut i: usize = 0;
    while i < 32
        invariant
            i <= 32,
            a@.len() == 32 && b@.len() == 32,
            forall|j: int| 0 <= j < i ==> a@[j] == b@[j],
        decreases 32 - i,
    {
        if a[i] != b[i] {
            return false;
        }
        i = i + 1;
    }
    assert(a@ =~= b@);
    true
}

pub proof fn lemma_lex_asymmetric(a: Seq<u8>, b: Seq<u8>)
    ensures
        !(lex_less(a, b) && lex_less(b, a)),
    decreases a.len(),
{
    if a.len() > 0 && b.len() > 0 && a[0] == b[0] {
        lemma_lex_asymmetric(a.drop_first(), b.drop_first());
    }
}

pub proof fn lemma_lex_total(a: Seq<u8>, b: Seq<u8>)
    requires
        a.len() == b.len(),
        a != b,
    ensures
        lex_less(a, b) || lex_less(b, a),
    decreases a.len(),
{
    if a.len() > 0 && a[0] == b[0] {
        if a.drop_first() == b.drop_first() {
            assert(a =~= seq![a[0]] + a.drop_first());
            assert(b =~= seq![b[0]] + b.drop_first());
        }
        lemma_lex_total(a.drop_first(), b.drop_first());
    } else if a.len() == 0 {
        assert(a =~= b);
    }
}

/// Whether we dial a discovered peer: not ourselves, not already connected,
/// and only from the lower identity of the pair.
pub open spec fn dials(local: Seq<u8>, remote: Seq<u8>, active: bool) -> bool {
    local != remote && !active && lex_less(local, remote)
}

pub fn should_dial(local: &Identity, remote: &Identity, active: bool) -> (r: bool)
    ensures
        r == dials(local@, remote@, active),
{
    !same_identity(local, remote) && !active && identity_less(local, remote)
}

/// Whether a new connection stays, given whether one with that peer is
/// already active: a duplicate stays only where the lower identity of the
/// pair dialled it, so both sides keep the same connection.
pub open spec fn keeps(local: Seq<u8>, remote: Seq<u8>, initiator: bool, active: bool) -> bool {
    !active || initiator == lex_less(local, remote)
}

pub fn keep_connection(local: &Identity, remote: &Identity, initiator: bool, active: bool) -> (r:
    bool)
    ensures
        r == keeps(local@, remote@, initiator, active),
{
    !active || initiator == identity_less(local, remote)
}

/// Of two distinct peers `a` (the lower) and `b`, at most one dials the other;
/// where both end up with two connections, the one that `a` dialled is kept
/// on both sides and the one that `b` dialled is dropped on both sides.
pub proof fn lemma_connection_dedup(a: Seq<u8>, b: Seq<u8>, active_a: bool, active_b: bool)
    requires
        a.len() == 32,
        b.len() == 32,
        a != b,
        lex_less(a, b),
    ensures
        !(dials(a, b, active_a) && dials(b, a, active_b)),
        !active_a ==> dials(a, b, active_a),
        keeps(a, b, true, active_a),
        keeps(b, a, false, active_b),
        !keeps(b, a, true, true),
        !keeps(a, b, false, true),
{
    lemma_lex_asymmetric(a, b);
}

/// When neither of two distinct peers is connected to the other, exactly one
/// of them dials.
pub proof fn lemma_exactly_one_dials(a: Seq<u8>, b: Seq<u8>)
    requires
        a.len() == 32,
        b.len() == 32,
        a != b,
    ensures
        dials(a, b, false) != dials(b, a, false),
{
    lemma_lex_total(a, b);
    lemma_lex_asymmetric(a, b);
}

/// The peers to dial on a reconnect sweep.
pub open spec fn reconnect_filter(local: Seq<u8>, active: Seq<Identity>) -> spec_fn(Identity) -> bool {
    |p: Identity| p@ != local && !active.map_values(|q: Identity| q@).contains(p@) && lex_less(
        local,
        p@,
    )
}

fn is_active(active: &Vec<Identity>, p: &Identity) -> (r: bool)
    ensures
        r == active@.map_values(|q: Identity| q@).contains(p@),
{
    let ghost v = active@.map_values(|q: Identity| q@);
    let mut i: usize = 0;
    while i < active.len()
        invariant
            i <= active@.len(),
            v == active@.map_values(|q: Identity| q@),
            forall|j: int| 0 <= j < i ==> v[j] != p@,
        decreases active@.len() - i,
    {
        if same_identity(&active[i], p) {
            assert(v[i as int] == p@);
            return true;
        }
        i = i + 1;
    }
    false
}

/// Known peers that we should dial again: not ourselves, not connected, and
/// higher than us.
pub fn reconnect_targets(local: &Identity, known: &Vec<Identity>, active: &Vec<Identity>) -> (r:
    Vec<Identity>)
    ensures
        r@ == known@.filter(reconnect_filter(local@, active@)),
{
    let ghost p = reconnect_filter(local@, active@);
    let mut out: Vec<Identity> = Vec::new();
    let mut i: usize = 0;
    while i < known.len()
        invariant
            i <= known@.len(),
            p == reconnect_filter(local@, active@),
            out@ == known@.subrange(0, i as int).filter(p),
        decreases known@.len() - i,
    {
        let x = known[i];
        proof {
            assert(known@.subrange(0, i as int + 1) =~= known@.subrange(0, i as int).push(x));
            known@.subrange(0, i as int).lemma_filter_push(x, p);
        }
        let keep = !same_identity(&x, local) && !is_active(active, &x) && identity_less(local, &x);
        assert(keep == p(x));
        if keep {
            out.push(x);
        }
        i = i + 1;
    }
    assert(known@.subrange(0, known@.len() as int) =~= known@);
    out
}

/// The suffix of a same-machine peer's socket file.
pub open spec fn sock_suffix() -> Seq<char> {
    seq!['.', 's', 'o', 'c', 'k']
}

/// The site id that a socket file name `<site_id>.sock` stands for.
pub open spec fn socket_site(name: Seq<char>) -> Option<u32> {
    if name.len() > 5 && name.subrange(name.len() - 5, name.len() as int) == sock_suffix() {
        parsed_u32(name.subrange(0, name.len() - 5))
    } else {
        None
    }
}

/// Reads the site id from a socket file name; `None` for other files.
pub fn parse_site_id_from_path(name: &str) -> (r: Option<u32>)
    ensures
        r == socket_site(name@),
{
    let n = name.unicode_len();
    let mut chars: Vec<char> = Vec::new();
    let mut i: usize = 0;
    while i < n
        invariant
            n == name@.len(),
            i <= n,
            chars@ == name@.subrange(0, i as int),
        decreases n - i,
    {
        chars.push(name.get_char(i));
        i = i + 1;
        assert(chars@ =~= name@.subrange(0, i as int));
    }
    assert(chars@ =~= name@);
    if n <= 5 {
        return None;
    }
    if !(chars[n - 5] == '.' && chars[n - 4] == 's' && chars[n - 3] == 'o' && chars[n - 2] == 'c'
        && chars[n - 1] == 'k') {
        assert(name@.subrange(n - 5, n as int) != sock_suffix()) by {
            if name@.subrange(n - 5, n as int) == sock_suffix() {
                assert(name@.subrange(n - 5, n as int)[0] == chars@[n - 5]);
                assert(name@.subrange(n - 5, n as int)[1] == chars@[n - 4]);
                assert(name@.subrange(n - 5, n as int)[2] == chars@[n - 3]);
                assert(name@.subrange(n - 5, n as int)[3] == chars@[n - 2]);
                assert(name@.subrange(n - 5, n as int)[4] == chars@[n - 1]);
            }
        }
        return None;
    }
    assert(name@.subrange(n - 5, n as int) =~= sock_suffix());
    let stem = vstd::slice::slice_subrange(chars.as_slice(), 0, n - 5);
    parse_u32(stem)
}

/// The socket file name of a site.
pub fn socket_name(site_id: u32) -> (r: String)
    ensures
        r@ == decimal(site_id as nat) + sock_suffix(),
{
    let mut s = decimal_text(site_id as u64);
    s.append(".sock");
    proof {
        reveal_strlit(".sock");
    }
    assert(".sock"@ =~= sock_suffix());
    s
}

/// The handshake a dialling same-machine peer sends first: its site id.
pub fn handshake_bytes(site_id: u32) -> (r: Vec<u8>)
    ensures
        r@ == be_bytes(site_id),
{
    let mut out: Vec<u8> = Vec::new();
    push_be32(&mut out, site_id);
    assert(out@ =~= be_bytes(site_id));
    out
}

/// The site id that a handshake carries.
pub fn read_handshake(b: [u8; 4]) -> (r: u32)
    ensures
        r == be_value(b@),
{
    assert(b@.subrange(0, 4) =~= b@);
    read_be32(b.as_slice(), 0)
}

/// A handshake reads back as the site id it was made from.
pub proof fn lemma_handshake_round_trip(site_id: u32)
    ensures
        be_value(be_bytes(site_id)) == site_id,
{
    lemma_be_round_trip(site_id);
}

/// Whether a scan of the socket directory dials the file `name`: it must be
/// the socket of a site other than ours.
pub fn scan_target(own_site: u32, name: &str) -> (r: Option<u32>)
    ensures
        r == (match socket_site(name@) {
            Some(s) => if s != own_site {
                Some(s)
            } else {
                None
            },
            None => None,
        }),
{
    match parse_site_id_from_path(name) {
        Some(s) => if s != own_site {
            Some(s)
        } else {
            None
        },
        None => None,
    }
}

/// The overlay secret key kept in the key file, where the file holds exactly
/// 32 bytes; else a new key must be made and stored.
pub fn secret_key_from_file(bytes: &[u8]) -> (r: Option<[u8; 32]>)
    ensures
        r is Some <==> bytes@.len() == 32,
        r is Some ==> r->0@ == bytes@,
{
    if bytes.len() != 32 {
        return None;
    }
    let mut k: [u8; 32] = [0u8; 32];
    let mut i: usize = 0;
    while i < 32
        invariant
            i <= 32,
            bytes@.len() == 32,
            k@.len() == 32,
            forall|j: int| 0 <= j < i ==> k@[j] == bytes@[j],
        decreases 32 - i,
    {
        k[i] = bytes[i];
        i = i + 1;
    }
    assert(k@ =~= bytes@);
    Some(k)
}

/// Where the overlay secret key is kept under the storage directory `dir`.
pub fn secret_key_path(dir: &str) -> (r: String)
    ensures
        r@ == dir@ + "/iroh_secret_key"@,
{
    let mut s = dir.to_owned();
    s.append("/iroh_secret_key");
    s
}

/// Where the identities of known overlay peers are kept under `dir`.
pub fn known_peers_path(dir: &str) -> (r: String)
    ensures
        r@ == dir@ + "/known_peers.json"@,
{
    let mut s = dir.to_owned();
    s.append("/known_peers.json");
    s
}

} // verus!
