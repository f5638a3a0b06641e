//! Framing of messages over bounded datagrams: each message is cut into
//! fragments of at most `BODY_MAX` bytes, each sent behind a 16-byte header
//! `[site_id | seq | num | idx]` (big-endian), and put back together per
//! originating site.
use vstd::prelude::*;
use std::collections::HashMap;

verus! {

/// Size of the fragment header.
pub const HEADER_LEN: usize = 16;

/// Largest fragment body.
pub const BODY_MAX: usize = 1400;

/// The four big-endian bytes of `n`.
pub open spec fn be_bytes(n: u32) -> Seq<u8> {
    seq![((n >> 24u32) & 0xffu32) as u8, ((n >> 16u32) & 0xffu32) as u8, ((n >> 8u32) & 0xffu32) as u8, (n & 0xffu32) as u8]
}

/// The number whose big-endian bytes are `b[0..4]`.
pub open spec fn be_value(b: Seq<u8>) -> u32 {
    ((b[0] as u32) << 24u32) | ((b[1] as u32) << 16u32) | ((b[2] as u32) << 8u32) | (b[3] as u32)
}

pub proof fn lemma_be_round_trip(n: u32)
    ensures
        be_value(be_bytes(n)) == n,
{
    let b0 = ((n >> 24u32) & 0xffu32) as u8;
    let b1 = ((n >> 16u32) & 0xffu32) as u8;
    let b2 = ((n >> 8u32) & 0xffu32) as u8;
    let b3 = (n & 0xffu32) as u8;
    assert(((b0 as u32) << 24u32) | ((b1 as u32) << 16u32) | ((b2 as u32) << 8u32) | (b3 as u32)
        == n) by (bit_vector)
        requires
            b0 == ((n >> 24u32) & 0xffu32) as u8,
            b1 == ((n >> 16u32) & 0xffu32) as u8,
            b2 == ((n >> 8u32) & 0xffu32) as u8,
            b3 == (n & 0xffu32) as u8,
    ;
}

/// Appends the big-endian bytes of `n` to `out`.
pub fn push_be32(out: &mut Vec<u8>, n: u32)
    ensures
        final(out)@ == old(out)@ + be_bytes(n),
{
    out.push(((n >> 24u32) & 0xffu32) as u8);
    out.push(((n >> 16u32) & 0xffu32) as u8);
    out.push(((n >> 8u32) & 0xffu32) as u8);
    out.push((n & 0xffu32) as u8);
    assert(final(out)@ =~= old(out)@ + be_bytes(n));
}

/// The big-endian number in `buf[at..at + 4]`.
pub fn read_be32(buf: &[u8], at: usize) -> (r: u32)
    requires
        at + 4 <= buf@.len(),
    ensures
        r == be_value(buf@.subrange(at as int, at + 4)),
{
    ((buf[at] as u32) << 24u32) | ((buf[at + 1] as u32) << 16u32) | ((buf[at + 2] as u32) << 8u32)
        | (buf[at + 3] as u32)
}

/// Appends `src` to `out`.
pub fn push_bytes(out: &mut Vec<u8>, src: &[u8])
    ensures
        final(out)@ == old(out)@ + src@,
{
    let mut i: usize = 0;
    while i < src.len()
        invariant
            i <= src@.len(),
            out@ == old(out)@ + src@.subrange(0, i as int),
        decreases src@.len() - i,
    {
        out.push(src[i]);
        i = i + 1;
        assert(out@ =~= old(out)@ + src@.subrange(0, i as int));
    }
    assert(src@.subrange(0, i as int) =~= src@);
}

/// The header that precedes each fragment.
#[derive(Debug, Clone, Copy, PartialEq, Eq, Structural)]
pub struct PacketHeader {
    /// Short id of the originating site.
    pub site_id: u32,
    /// Message counter of the originating site.
    pub seq: u32,
    /// Number of fragments of this message.
    pub num: u32,
    /// Index of this fragment, from 0.
    pub idx: u32,
}

pub open spec fn header_bytes(h: PacketHeader) -> Seq<u8> {
    be_bytes(h.site_id) + be_bytes(h.seq) + be_bytes(h.num) + be_bytes(h.idx)
}

/// A fragment on the wire: its header, then its body.
pub fn encode_packet(h: &PacketHeader, body: &[u8]) -> (r: Vec<u8>)
    ensures
        r@ == header_bytes(*h) + body@,
{
    let mut out: Vec<u8> = Vec::new();
    push_be32(&mut out, h.site_id);
    push_be32(&mut out, h.seq);
    push_be32(&mut out, h.num);
    push_be32(&mut out, h.idx);
    push_bytes(&mut out, body);
    assert(out@ =~= header_bytes(*h) + body@);
    out
}

/// The header that `buf` starts with. Requires the full header.
pub open spec fn parsed_header(buf: Seq<u8>) -> PacketHeader {
    PacketHeader {
        site_id: be_value(buf.subrange(0, 4)),
        seq: be_value(buf.subrange(4, 8)),
        num: be_value(buf.subrange(8, 12)),
        idx: be_value(buf.subrange(12, 16)),
    }
}

/// Reads the header of a fragment; `None` where `buf` is shorter than a header.
pub fn decode_header(buf: &[u8]) -> (r: Option<PacketHeader>)
    ensures
        r is None <==> buf@.len() < HEADER_LEN,
        r is Some ==> r->0 == parsed_header(buf@),
{
    if buf.len() < HEADER_LEN {
        return None;
    }
    Some(
        PacketHeader {
            site_id: read_be32(buf, 0),
            seq: read_be32(buf, 4),
            num: read_be32(buf, 8),
            idx: read_be32(buf, 12),
        },
    )
}

/// Reading back the header of an encoded fragment gives the header and body
/// that were encoded.
pub proof fn lemma_packet_round_trip(h: PacketHeader, body: Seq<u8>)
    ensures
        parsed_header(header_bytes(h) + body) == h,
        (header_bytes(h) + body).subrange(HEADER_LEN as int, (header_bytes(h) + body).len() as int)
            == body,
{
    let b = header_bytes(h) + body;
    lemma_be_round_trip(h.site_id);
    lemma_be_round_trip(h.seq);
    lemma_be_round_trip(h.num);
    lemma_be_round_trip(h.idx);
    assert(b.subrange(0, 4) =~= be_bytes(h.site_id));
    assert(b.subrange(4, 8) =~= be_bytes(h.seq));
    assert(b.subrange(8, 12) =~= be_bytes(h.num));
    assert(b.subrange(12, 16) =~= be_bytes(h.idx));
    assert(b.subrange(16, b.len() as int) =~= body);
}

/// The bodies that a message is cut into: pieces of `BODY_MAX` bytes, the last
/// one shorter; an empty message is one empty piece.
pub open spec fn chunks(m: Seq<u8>) -> Seq<Seq<u8>>
    decreases m.len(),
{
    if m.len() <= BODY_MAX {
        seq![m]
    } else {
        seq![m.subrange(0, BODY_MAX as int)] + chunks(m.subrange(BODY_MAX as int, m.len() as int))
    }
}

/// Concatenation of a sequence of byte strings.
pub open spec fn concat(parts: Seq<Seq<u8>>) -> Seq<u8>
    decreases parts.len(),
{
    if parts.len() == 0 {
        Seq::empty()
    } else {
        concat(parts.drop_last()) + parts.last()
    }
}

pub proof fn lemma_concat_prepend(a: Seq<u8>, rest: Seq<Seq<u8>>)
    ensures
        concat(seq![a] + rest) == a + concat(rest),
    decreases rest.len(),
{
    if rest.len() == 0 {
        assert(seq![a] + rest =~= seq![a]);
        assert(seq![a].drop_last() =~= Seq::<Seq<u8>>::empty());
        assert(concat(seq![a]) == concat(Seq::<Seq<u8>>::empty()) + a);
        assert(Seq::<u8>::empty() + a =~= a);
        assert(a + Seq::<u8>::empty() =~= a);
    } else {
        assert((seq![a] + rest).drop_last() =~= seq![a] + rest.drop_last());
        assert((seq![a] + rest).last() == rest.last());
        lemma_concat_prepend(a, rest.drop_last());
        assert(a + concat(rest.drop_last()) + rest.last() =~= a + (concat(rest.drop_last())
            + rest.last()));
    }
}

/// Putting the pieces of a message back together gives the message.
pub proof fn lemma_chunks_concat(m: Seq<u8>)
    ensures
        concat(chunks(m)) == m,
    decreases m.len(),
{
    if m.len() <= BODY_MAX {
        assert(seq![m].drop_last() =~= Seq::<Seq<u8>>::empty());
        assert(concat(seq![m]) == concat(Seq::<Seq<u8>>::empty()) + m);
        assert(Seq::<u8>::empty() + m =~= m);
    } else {
        let rest = m.subrange(BODY_MAX as int, m.len() as int);
        lemma_chunks_concat(rest);
        lemma_concat_prepend(m.subrange(0, BODY_MAX as int), chunks(rest));
        assert(m.subrange(0, BODY_MAX as int) + rest =~= m);
    }
}

pub proof fn lemma_chunks_len(m: Seq<u8>)
    ensures
        chunks(m).len() == if m.len() == 0 {
            1
        } else {
            (m.len() - 1) as nat / (BODY_MAX as nat) + 1
        },
        forall|i: int|
            0 <= i < chunks(m).len() ==> #[trigger] chunks(m)[i] == m.subrange(
                i * BODY_MAX,
                if (i + 1) * BODY_MAX < m.len() {
                    (i + 1) * BODY_MAX
                } else {
                    m.len() as int
                },
            ),
    decreases m.len(),
{
    if m.len() > BODY_MAX {
        let rest = m.subrange(BODY_MAX as int, m.len() as int);
        lemma_chunks_len(rest);
        assert forall|i: int| 0 <= i < chunks(m).len() implies #[trigger] chunks(m)[i]
            == m.subrange(
            i * BODY_MAX,
            if (i + 1) * BODY_MAX < m.len() {
                (i + 1) * BODY_MAX
            } else {
                m.len() as int
            },
        ) by {
            if i > 0 {
                assert(chunks(m)[i] == chunks(rest)[i - 1]);
                assert(rest.subrange(
                    (i - 1) * BODY_MAX,
                    if i * BODY_MAX < rest.len() {
                        i * BODY_MAX
                    } else {
                        rest.len() as int
                    },
                ) =~= m.subrange(
                    i * BODY_MAX,
                    if (i + 1) * BODY_MAX < m.len() {
                        (i + 1) * BODY_MAX
                    } else {
                        m.len() as int
                    },
                ));
            }
        }
    }
}

/// The fragments of one message of site `site_id`, numbered `seq`, each one
/// a header and a piece of `msg`, in order of their index.
pub open spec fn fragments_of(site_id: u32, seq: u32, msg: Seq<u8>) -> Seq<Seq<u8>> {
    let c = chunks(msg);
    Seq::new(
        c.len(),
        |i: int|
            header_bytes(PacketHeader { site_id, seq, num: c.len() as u32, idx: i as u32 }) + c[i],
    )
}

/// Cuts `msg` into fragments, each behind its header.
pub fn fragment(site_id: u32, seq: u32, msg: &[u8]) -> (r: Vec<Vec<u8>>)
    requires
        msg@.len() <= 0xffff_ffff * BODY_MAX,
    ensures
        r@.len() == chunks(msg@).len(),
        forall|i: int| 0 <= i < r@.len() ==> #[trigger] r@[i]@ == fragments_of(site_id, seq, msg@)[i],
{
    proof {
        lemma_chunks_len(msg@);
    }
    let len = msg.len();
    let num: u32 = if len == 0 {
        1
    } else {
        ((len - 1) / BODY_MAX + 1) as u32
    };
    let mut out: Vec<Vec<u8>> = Vec::new();
    let mut i: u32 = 0;
    while i < num
        invariant
            num as nat == chunks(msg@).len(),
            len == msg@.len(),
            i <= num,
            out@.len() == i,
            forall|j: int|
                0 <= j < i ==> #[trigger] out@[j]@ == fragments_of(site_id, seq, msg@)[j],
        decreases num - i,
    {
        proof {
            lemma_chunks_len(msg@);
            if len > 0 {
                assert((i as int) * BODY_MAX <= len - 1) by (nonlinear_arith)
                    requires
                        i as int <= (len as int - 1) / (BODY_MAX as int),
                        len > 0,
                ;
            }
        }
        let start: usize = i as usize * BODY_MAX;
        let end: usize = if len - start > BODY_MAX {
            start + BODY_MAX
        } else {
            len
        };
        let body = vstd::slice::slice_subrange(msg, start, end);
        assert(body@ == chunks(msg@)[i as int]);
        let p = encode_packet(&PacketHeader { site_id, seq, num, idx: i }, body);
        out.push(p);
        i = i + 1;
    }
    out
}

/// The fragments received so far of the latest message of one site.
#[derive(Debug)]
pub struct SitePartials {
    pub seq: u32,
    pub num: u32,
    pub partials: Vec<(u32, Vec<u8>)>,
}

pub open spec fn parts_view(p: Seq<(u32, Vec<u8>)>) -> Seq<(u32, Seq<u8>)> {
    p.map_values(|e: (u32, Vec<u8>)| (e.0, e.1@))
}

/// Whether some received fragment carries index `i`.
pub open spec fn has_index(parts: Seq<(u32, Seq<u8>)>, i: u32) -> bool {
    exists|j: int| 0 <= j < parts.len() && (#[trigger] parts[j]).0 == i
}

/// Whether the fragments carry every index below `num`.
pub open spec fn covers(parts: Seq<(u32, Seq<u8>)>, num: u32) -> bool {
    forall|i: u32| i < num ==> has_index(parts, i)
}

/// The body of the first fragment with index `i`.
pub open spec fn body_at(parts: Seq<(u32, Seq<u8>)>, i: u32) -> Seq<u8>
    decreases parts.len(),
{
    if parts.len() == 0 {
        Seq::empty()
    } else if parts[0].0 == i {
        parts[0].1
    } else {
        body_at(parts.drop_first(), i)
    }
}

/// The bodies with indices `0..n`, in order of index.
pub open spec fn assembled(parts: Seq<(u32, Seq<u8>)>, n: nat) -> Seq<u8>
    decreases n,
{
    if n == 0 {
        Seq::empty()
    } else {
        assembled(parts, (n - 1) as nat) + body_at(parts, (n - 1) as u32)
    }
}

/// What a site's reassembly state holds, as values.
pub struct PartialsModel {
    pub seq: u32,
    pub num: u32,
    pub parts: Seq<(u32, Seq<u8>)>,
}

/// The state after recording the fragment `buf`.
pub open spec fn after_fill(m: PartialsModel, buf: Seq<u8>) -> PartialsModel {
    let h = parsed_header(buf);
    let entry = (h.idx, buf.subrange(HEADER_LEN as int, buf.len() as int));
    if h.seq != m.seq {
        PartialsModel { seq: h.seq, num: h.num, parts: seq![entry] }
    } else {
        PartialsModel { seq: m.seq, num: m.num, parts: m.parts.push(entry) }
    }
}

/// The state and the message after a check for a complete message.
pub open spec fn after_take(m: PartialsModel) -> (PartialsModel, Option<Seq<u8>>) {
    if m.parts.len() != m.num {
        (m, None)
    } else {
        (
            PartialsModel { seq: m.seq, num: m.num, parts: Seq::empty() },
            if covers(m.parts, m.num) {
                Some(assembled(m.parts, m.num as nat))
            } else {
                None
            },
        )
    }
}

/// The state and the message (if one completes) after the datagrams `packets`
/// of one site, each at least a header long, in their order.
pub open spec fn feed(m: PartialsModel, packets: Seq<Seq<u8>>) -> (PartialsModel, Option<Seq<u8>>)
    decreases packets.len(),
{
    if packets.len() == 0 {
        (m, None)
    } else {
        after_take(after_fill(feed(m, packets.drop_last()).0, packets.last()))
    }
}

impl SitePartials {
    pub open spec fn parts(&self) -> Seq<(u32, Seq<u8>)> {
        parts_view(self.partials@)
    }

    pub open spec fn model(&self) -> PartialsModel {
        PartialsModel { seq: self.seq, num: self.num, parts: self.parts() }
    }

    /// Nothing received yet.
    pub fn new() -> (r: SitePartials)
        ensures
            r.seq == 0,
            r.num == 0,
            r.parts().len() == 0,
            r.model() == (PartialsModel { seq: 0, num: 0, parts: Seq::empty() }),
    {
        let r = SitePartials { seq: 0, num: 0, partials: Vec::new() };
        assert(r.parts() =~= Seq::<(u32, Seq<u8>)>::empty());
        r
    }

    /// Records one fragment. A fragment of another message than the one being
    /// collected drops what was collected and starts on its own message.
    pub fn fill_from_buffer(&mut self, buf: &[u8])
        requires
            buf@.len() >= HEADER_LEN,
        ensures
            ({
                let h = parsed_header(buf@);
                let entry = (h.idx, buf@.subrange(HEADER_LEN as int, buf@.len() as int));
                if h.seq != old(self).seq {
                    &&& final(self).seq == h.seq
                    &&& final(self).num == h.num
                    &&& final(self).parts() == seq![entry]
                } else {
                    &&& final(self).seq == old(self).seq
                    &&& final(self).num == old(self).num
                    &&& final(self).parts() == old(self).parts().push(entry)
                }
            }),
            final(self).model() == after_fill(old(self).model(), buf@),
    {
        let seq = read_be32(buf, 4);
        let num = read_be32(buf, 8);
        let idx = read_be32(buf, 12);
        if seq != self.seq {
            self.partials = Vec::new();
            self.seq = seq;
            self.num = num;
        }
        let ghost before = self.partials@;
        let body = vstd::slice::slice_to_vec(
            vstd::slice::slice_subrange(buf, HEADER_LEN, buf.len()),
        );
        self.partials.push((idx, body));
        assert(parts_view(self.partials@) =~= parts_view(before).push((idx, body@)));
    }

    /// The body of the first collected fragment with index `i`, if any.
    fn find_body(&self, i: u32) -> (r: Option<usize>)
        ensures
            r is None <==> !has_index(self.parts(), i),
            r is Some ==> r->0 < self.partials@.len() && self.parts()[r->0 as int].1 == body_at(
                self.parts(),
                i,
            ),
    {
        let ghost p = self.parts();
        let mut j: usize = 0;
        assert(p.subrange(0, p.len() as int) =~= p);
        while j < self.partials.len()
            invariant
                p == self.parts(),
                j <= p.len(),
                p.len() == self.partials@.len(),
                forall|k: int| 0 <= k < j ==> (#[trigger] p[k]).0 != i,
                body_at(p, i) == body_at(p.subrange(j as int, p.len() as int), i),
            decreases p.len() - j,
        {
            let ghost rest = p.subrange(j as int, p.len() as int);
            if self.partials[j].0 == i {
                return Some(j);
            }
            assert(rest.drop_first() =~= p.subrange(j + 1, p.len() as int));
            j = j + 1;
        }
        None
    }

    /// The message, once as many fragments as it has were collected: their
    /// bodies in order of index. Then the collected fragments are dropped; if
    /// some index is missing among them (one came twice), no message results.
    pub fn get_buffer(&mut self) -> (r: Option<Vec<u8>>)
        ensures
            final(self).seq == old(self).seq,
            final(self).num == old(self).num,
            old(self).parts().len() != old(self).num ==> r is None && final(self).parts() == old(self).parts(),
            old(self).parts().len() == old(self).num ==> final(self).parts().len() == 0 && (r is Some
                <==> covers(old(self).parts(), old(self).num)),
            r is Some ==> r->0@ == assembled(old(self).parts(), old(self).num as nat),
            final(self).model() == after_take(old(self).model()).0,
            (match r {
                Some(v) => Some(v@),
                None => None::<Seq<u8>>,
            }) == after_take(old(self).model()).1,
    {
        if self.partials.len() != self.num as usize {
            return None;
        }
        let ghost p = self.parts();
        let mut out: Vec<u8> = Vec::new();
        let mut i: u32 = 0;
        while i < self.num
            invariant
                p == self.parts(),
                p == old(self).parts(),
                self.seq == old(self).seq,
                self.num == old(self).num,
                p.len() == self.num,
                i <= self.num,
                out@ == assembled(p, i as nat),
                forall|k: u32| k < i ==> has_index(p, k),
            decreases self.num - i,
        {
            match self.find_body(i) {
                Some(j) => {
                    push_bytes(&mut out, self.partials[j].1.as_slice());
                },
                None => {
                    self.partials = Vec::new();
                    assert(parts_view(self.partials@) =~= Seq::<(u32, Seq<u8>)>::empty());
                    return None;
                },
            }
            i = i + 1;
        }
        self.partials = Vec::new();
        assert(parts_view(self.partials@) =~= Seq::<(u32, Seq<u8>)>::empty());
        Some(out)
    }
}

/// The fragments of `msg` as they arrive, in the order of indices `order`.
pub open spec fn arrivals(site_id: u32, seq: u32, msg: Seq<u8>, order: Seq<int>) -> Seq<Seq<u8>> {
    order.map_values(|a: int| fragments_of(site_id, seq, msg)[a])
}

/// The reassembly state after the first `n` arrivals, short of the last fragment.
pub open spec fn collected(seq: u32, msg: Seq<u8>, order: Seq<int>, n: int) -> PartialsModel {
    PartialsModel {
        seq,
        num: chunks(msg).len() as u32,
        parts: order.subrange(0, n).map_values(|a: int| (a as u32, chunks(msg)[a])),
    }
}

proof fn lemma_fragment_parses(site_id: u32, seq: u32, msg: Seq<u8>, a: int)
    requires
        0 <= a < chunks(msg).len(),
        chunks(msg).len() <= u32::MAX,
    ensures
        parsed_header(fragments_of(site_id, seq, msg)[a]) == (PacketHeader {
            site_id,
            seq,
            num: chunks(msg).len() as u32,
            idx: a as u32,
        }),
        fragments_of(site_id, seq, msg)[a].subrange(
            HEADER_LEN as int,
            fragments_of(site_id, seq, msg)[a].len() as int,
        ) == chunks(msg)[a],
        fragments_of(site_id, seq, msg)[a].len() >= HEADER_LEN,
{
    let h = PacketHeader { site_id, seq, num: chunks(msg).len() as u32, idx: a as u32 };
    lemma_packet_round_trip(h, chunks(msg)[a]);
}

proof fn lemma_body_at_consistent(parts: Seq<(u32, Seq<u8>)>, c: Seq<Seq<u8>>, i: u32)
    requires
        forall|j: int| 0 <= j < parts.len() ==> (#[trigger] parts[j]).0 < c.len() && parts[j].1
            == c[parts[j].0 as int],
        has_index(parts, i),
    ensures
        body_at(parts, i) == c[i as int],
    decreases parts.len(),
{
    if parts[0].0 != i {
        let w = choose|j: int| 0 <= j < parts.len() && (#[trigger] parts[j]).0 == i;
        assert(parts.drop_first()[w - 1].0 == i);
        lemma_body_at_consistent(parts.drop_first(), c, i);
    }
}

proof fn lemma_assembled_prefix(parts: Seq<(u32, Seq<u8>)>, c: Seq<Seq<u8>>, n: nat)
    requires
        n <= c.len(),
        c.len() <= u32::MAX,
        forall|j: int| 0 <= j < parts.len() ==> (#[trigger] parts[j]).0 < c.len() && parts[j].1
            == c[parts[j].0 as int],
        forall|i: u32| i < n ==> has_index(parts, i),
    ensures
        assembled(parts, n) == concat(c.subrange(0, n as int)),
    decreases n,
{
    if n > 0 {
        lemma_assembled_prefix(parts, c, (n - 1) as nat);
        assert(has_index(parts, (n - 1) as u32));
        lemma_body_at_consistent(parts, c, (n - 1) as u32);
        assert(c.subrange(0, n as int).drop_last() =~= c.subrange(0, n - 1));
    } else {
        assert(c.subrange(0, 0) =~= Seq::<Seq<u8>>::empty());
    }
}

proof fn lemma_collected_steps(site_id: u32, seq: u32, msg: Seq<u8>, start: PartialsModel, order: Seq<int>, n: int)
    requires
        chunks(msg).len() <= u32::MAX,
        start.seq != seq,
        1 <= n <= order.len(),
        order.len() <= chunks(msg).len(),
        forall|j: int| 0 <= j < order.len() ==> 0 <= #[trigger] order[j] < chunks(msg).len(),
    ensures
        n < chunks(msg).len() ==> feed(start, arrivals(site_id, seq, msg, order).subrange(0, n))
            == (collected(seq, msg, order, n), None::<Seq<u8>>),
        after_fill(
            if n == 1 {
                start
            } else {
                collected(seq, msg, order, n - 1)
            },
            arrivals(site_id, seq, msg, order)[n - 1],
        ) == collected(seq, msg, order, n),
    decreases n,
{
    let pk = arrivals(site_id, seq, msg, order);
    let k = chunks(msg).len();
    let a = order[n - 1];
    lemma_fragment_parses(site_id, seq, msg, a);
    assert(pk[n - 1] == fragments_of(site_id, seq, msg)[a]);
    let entry = (a as u32, chunks(msg)[a]);
    if n == 1 {
        assert(order.subrange(0, 1).map_values(|x: int| (x as u32, chunks(msg)[x])) =~= seq![entry]);
    } else {
        lemma_collected_steps(site_id, seq, msg, start, order, n - 1);
        assert(order.subrange(0, n).map_values(|x: int| (x as u32, chunks(msg)[x])) =~= order.subrange(
            0,
            n - 1,
        ).map_values(|x: int| (x as u32, chunks(msg)[x])).push(entry));
    }
    if n < k {
        assert(pk.subrange(0, n).drop_last() =~= pk.subrange(0, n - 1));
        if n == 1 {
            assert(pk.subrange(0, 0) =~= Seq::<Seq<u8>>::empty());
        }
        assert(pk.subrange(0, n).last() == pk[n - 1]);
        let prev = if n == 1 {
            start
        } else {
            collected(seq, msg, order, n - 1)
        };
        assert(feed(start, pk.subrange(0, n - 1)).0 == prev);
        assert(feed(start, pk.subrange(0, n)) == after_take(after_fill(prev, pk[n - 1])));
        assert(collected(seq, msg, order, n).parts.len() == n);
        assert(collected(seq, msg, order, n).num == k);
    }
}

/// A message cut into fragments is put back together from them in any order
/// of arrival, whatever the site had collected of an earlier message: once as
/// many fragments as it has came, it results if and only if every index came.
pub proof fn lemma_fragment_round_trip(
    site_id: u32,
    seq: u32,
    msg: Seq<u8>,
    start: PartialsModel,
    order: Seq<int>,
)
    requires
        msg.len() <= 0xffff_ffff * BODY_MAX,
        start.seq != seq,
        1 <= order.len() <= chunks(msg).len(),
        forall|j: int| 0 <= j < order.len() ==> 0 <= #[trigger] order[j] < chunks(msg).len(),
    ensures
        feed(start, arrivals(site_id, seq, msg, order)).1 == if order.len() == chunks(msg).len()
            && forall|i: int| 0 <= i < chunks(msg).len() ==> order.contains(i) {
            Some(msg)
        } else {
            None
        },
{
    lemma_chunks_len(msg);
    let k = chunks(msg).len();
    assert(k <= u32::MAX) by (nonlinear_arith)
        requires
            msg.len() == 0 ==> k == 1,
            msg.len() > 0 ==> k == (msg.len() - 1) as nat / 1400 + 1,
            msg.len() <= 0xffff_ffff * 1400,
    ;
    let pk = arrivals(site_id, seq, msg, order);
    let n = order.len() as int;
    lemma_collected_steps(site_id, seq, msg, start, order, n);
    assert(pk.subrange(0, n) =~= pk);
    let prev = if n == 1 { start } else { collected(seq, msg, order, n - 1) };
    if n > 1 {
        lemma_collected_steps(site_id, seq, msg, start, order, n - 1);
    }
    assert(pk.drop_last() =~= pk.subrange(0, n - 1));
    if n == 1 {
        assert(pk.subrange(0, 0) =~= Seq::<Seq<u8>>::empty());
    }
    assert(feed(start, pk.drop_last()).0 == prev);
    let m = collected(seq, msg, order, n);
    assert(feed(start, pk) == after_take(m));
    if n == k {
        let parts = m.parts;
        assert forall|j: int| 0 <= j < parts.len() implies (#[trigger] parts[j]).0 < k && parts[j].1
            == chunks(msg)[parts[j].0 as int] by {
            assert(parts[j] == (order[j] as u32, chunks(msg)[order[j]]));
        }
        if forall|i: int| 0 <= i < k ==> order.contains(i) {
            assert forall|i: u32| i < k as u32 implies has_index(parts, i) by {
                assert(order.contains(i as int));
                let j = choose|j: int| 0 <= j < order.len() && order[j] == i as int;
                assert(parts[j].0 == i);
            }
            lemma_assembled_prefix(parts, chunks(msg), k);
            assert(chunks(msg).subrange(0, k as int) =~= chunks(msg));
            lemma_chunks_concat(msg);
        } else {
            let i = choose|i: int| 0 <= i < k && !order.contains(i);
            assert(!has_index(parts, i as u32)) by {
                if has_index(parts, i as u32) {
                    let j = choose|j: int| 0 <= j < parts.len() && (#[trigger] parts[j]).0 == i as u32;
                    assert(order[j] == i);
                }
            }
        }
    }
}

/// The sending side of one site: its short id and the number of its next message.
#[derive(Debug)]
pub struct McastSender {
    pub site_id: u32,
    pub seq: u32,
}

impl McastSender {
    /// Messages are numbered from 1.
    pub fn new(site_id: u32) -> (r: McastSender)
        ensures
            r.site_id == site_id,
            r.seq == 1,
    {
        McastSender { site_id, seq: 1 }
    }

    /// The datagrams of the next message: its fragments under the current
    /// number, which then moves on.
    pub fn packets(&mut self, msg: &[u8]) -> (r: Vec<Vec<u8>>)
        requires
            msg@.len() <= 0xffff_ffff * BODY_MAX,
        ensures
            final(self).site_id == old(self).site_id,
            final(self).seq == old(self).seq.wrapping_add(1),
            r@.len() == chunks(msg@).len(),
            forall|i: int|
                0 <= i < r@.len() ==> #[trigger] r@[i]@ == fragments_of(
                    old(self).site_id,
                    old(self).seq,
                    msg@,
                )[i],
    {
        let r = fragment(self.site_id, self.seq, msg);
        self.seq = self.seq.wrapping_add(1);
        r
    }
}

/// Per-site collection of fragments.
pub struct McastReceiver {
    pub sites: HashMap<u32, SitePartials>,
}

impl McastReceiver {
    pub fn new() -> (r: McastReceiver)
        ensures
            r.sites@ == Map::<u32, SitePartials>::empty(),
    {
        McastReceiver { sites: HashMap::new() }
    }

    /// Takes one datagram. Returns the originating site and the message where
    /// this datagram completes one. A datagram shorter than a header is ignored.
    pub fn receive(&mut self, packet: &[u8]) -> (r: Option<(u32, Vec<u8>)>)
        ensures
            packet@.len() < HEADER_LEN ==> r is None && final(self).sites@ == old(self).sites@,
            r is Some ==> packet@.len() >= HEADER_LEN && (r->0).0 == parsed_header(packet@).site_id,
            packet@.len() >= HEADER_LEN ==> final(self).sites@.dom() == old(self).sites@.dom().insert(
                parsed_header(packet@).site_id,
            ),
            packet@.len() >= HEADER_LEN ==> ({
                let site = parsed_header(packet@).site_id;
                let before = if old(self).sites@.contains_key(site) {
                    old(self).sites@[site].model()
                } else {
                    PartialsModel { seq: 0, num: 0, parts: Seq::empty() }
                };
                let step = after_take(after_fill(before, packet@));
                &&& final(self).sites@.remove(site) == old(self).sites@.remove(site)
                &&& final(self).sites@[site].model() == step.0
                &&& (match r {
                    Some(m) => Some(m.1@),
                    None => None::<Seq<u8>>,
                }) == step.1
            }),
    {
        if packet.len() < HEADER_LEN {
            return None;
        }
        let site = read_be32(packet, 0);
        let mut p = match self.sites.remove(&site) {
            Some(p) => p,
            None => SitePartials::new(),
        };
        p.fill_from_buffer(packet);
        let r = p.get_buffer();
        self.sites.insert(site, p);
        assert(self.sites@.remove(site) =~= old(self).sites@.remove(site));
        match r {
            Some(body) => Some((site, body)),
            None => None,
        }
    }
}

} // verus!
